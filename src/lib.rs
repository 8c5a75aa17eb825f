//! Verified core of a client for paginated, rate-limited registry APIs.
//!
//! The library holds the decisions of the client: how a response status is
//! classified, how a paginated listing is planned, fanned out and merged, and
//! how the interactive list browser moves its selection. The network, the
//! terminal and the JSON decoding live with the caller.
pub mod browser;
pub mod endpoints;
pub mod outcome;
pub mod page;
pub mod pagination;

pub use browser::{command_for_key, Browser, Command, Container, Key};
pub use endpoints::{
    authorization_value, manifest_path, registry_tags_path, repositories_path, tags_path,
    CATALOG_PATH, MANIFEST_MEDIA_TYPE,
};
pub use outcome::{classify_status, parse_retry_after, FetchError, TransportFailure};
pub use page::{ApiResult, Category, Image, Repository, Tag, Timestamp};
pub use pagination::{
    begin, first_request, pages_remaining, PageRequest, Pagination, Plan, Step,
    DEFAULT_PAGE_SIZE,
};
