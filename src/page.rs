//! The records that a paginated listing carries.
use vstd::prelude::*;

verus! {

/// One page of a paginated listing, as the server sends it.
#[derive(Debug)]
pub struct ApiResult<T> {
    /// How many items the whole listing holds, not the length of `results`.
    pub count: usize,
    /// Where the next page is, if there are more items to fetch.
    pub next: Option<String>,
    /// Where the previous page is, if any.
    pub previous: Option<String>,
    /// The items of this page, in the server's order.
    pub results: Vec<T>,
}

impl<T> ApiResult<T> {
    pub fn new(count: usize, next: Option<String>, previous: Option<String>, results: Vec<T>) -> (r:
        Self)
        ensures
            r.count == count,
            r.next == next,
            r.previous == previous,
            r.results@ == results@,
    {
        ApiResult { count, next, previous, results }
    }

    /// Whether the server announced a further page.
    pub fn has_next(&self) -> (r: bool)
        ensures
            r == self.next.is_some(),
    {
        self.next.is_some()
    }
}

/// A point in time: seconds and nanoseconds since the unix epoch, in UTC.
#[derive(Clone, Copy, Debug, PartialEq, Eq)]
pub struct Timestamp {
    pub secs: i64,
    pub nanos: u32,
}

/// A category that the Hub files a repository under.
#[derive(Clone, Debug, PartialEq, Eq)]
pub struct Category {
    pub name: String,
    pub slug: String,
}

/// A repository on the Docker Hub.
#[derive(Clone, Debug, PartialEq, Eq)]
pub struct Repository {
    /// The name of the repository.
    pub name: String,
    /// The user or organization that the repository lives in.
    pub namespace: String,
    /// The kind of repository, such as "image".
    pub repository_type: String,
    pub status: usize,
    pub status_description: String,
    pub description: String,
    pub is_private: bool,
    pub star_count: usize,
    pub pull_count: usize,
    pub last_updated: Timestamp,
    pub last_modified: Timestamp,
    pub date_registered: Timestamp,
    pub affiliation: String,
    pub media_types: Vec<String>,
    pub content_types: Vec<String>,
    pub categories: Vec<Category>,
    /// The size of the image in bytes.
    pub storage_size: u64,
}

/// One platform image behind a tag.
#[derive(Clone, Debug, PartialEq, Eq)]
pub struct Image {
    pub architecture: String,
    pub features: String,
    pub variant: Option<String>,
    pub digest: String,
    pub os: Option<String>,
    pub os_features: String,
    pub os_version: Option<String>,
    pub size: u64,
    pub status: String,
    pub last_pulled: Timestamp,
    pub last_pushed: Timestamp,
}

/// A tag of a repository on the Docker Hub.
#[derive(Clone, Debug, PartialEq, Eq)]
pub struct Tag {
    /// The Docker ID of the tag's creator.
    pub creator: u64,
    /// The ID of the tag on the Hub.
    pub id: u64,
    pub images: Vec<Image>,
    pub last_updated: Timestamp,
    pub last_updater: u64,
    pub last_updater_username: String,
    /// The name of the tag.
    pub name: String,
    pub repository: u64,
    pub full_size: u64,
    pub v2: bool,
    pub tag_status: String,
    pub tag_last_pulled: Timestamp,
    pub tag_last_pushed: Timestamp,
    pub media_type: String,
    pub content_type: String,
    pub digest: String,
}

} // verus!
