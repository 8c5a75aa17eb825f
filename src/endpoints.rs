//! The requests that the clients send: their paths, relative to the base URL
//! of the service, and the value of their authorization header.
use vstd::prelude::*;

verus! {

/// The media type asked for when a manifest is fetched.
pub const MANIFEST_MEDIA_TYPE: &'static str = "application/vnd.docker.distribution.manifest.v2+json";

/// The path of the registry's catalog of repositories.
pub const CATALOG_PATH: &'static str = "v2/_catalog";

pub open spec fn bearer(token: Seq<char>) -> Seq<char> {
    "Bearer "@ + token
}

/// The value of the `Authorization` header that carries `token`.
pub fn authorization_value(token: &str) -> (r: String)
    ensures
        r@ == bearer(token@),
{
    let mut value = String::from_str("Bearer ");
    value.append(token);
    value
}

pub open spec fn repositories_path_of(org: Seq<char>) -> Seq<char> {
    "v2/repositories/"@ + org
}

/// The path that lists the repositories of a user or organization on the Hub.
pub fn repositories_path(org: &str) -> (r: String)
    ensures
        r@ == repositories_path_of(org@),
{
    let mut path = String::from_str("v2/repositories/");
    path.append(org);
    path
}

pub open spec fn tags_path_of(org: Seq<char>, repository: Seq<char>) -> Seq<char> {
    "v2/repositories/"@ + org + "/"@ + repository + "/tags"@
}

/// The path that lists the tags of a repository on the Hub.
pub fn tags_path(org: &str, repository: &str) -> (r: String)
    ensures
        r@ == tags_path_of(org@, repository@),
{
    let mut path = String::from_str("v2/repositories/");
    path.append(org);
    path.append("/");
    path.append(repository);
    path.append("/tags");
    path
}

pub open spec fn registry_tags_path_of(name: Seq<char>) -> Seq<char> {
    "v2/"@ + name + "/tags/list"@
}

/// The path that lists the tags of a repository in a registry.
pub fn registry_tags_path(name: &str) -> (r: String)
    ensures
        r@ == registry_tags_path_of(name@),
{
    let mut path = String::from_str("v2/");
    path.append(name);
    path.append("/tags/list");
    path
}

pub open spec fn manifest_path_of(name: Seq<char>, reference: Seq<char>) -> Seq<char> {
    "v2/"@ + name + "/manifests/"@ + reference
}

/// The path of the manifest that `reference` (a tag or a digest) names in a
/// repository of a registry.
pub fn manifest_path(name: &str, reference: &str) -> (r: String)
    ensures
        r@ == manifest_path_of(name@, reference@),
{
    let mut path = String::from_str("v2/");
    path.append(name);
    path.append("/manifests/");
    path.append(reference);
    path
}

} // verus!
