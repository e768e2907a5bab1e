//! The paginated envelope in which the service answers.
use vstd::prelude::*;

verus! {

/// A page of results; `T` is the record shape of the resource.
/// An absent count is not zero: it was not sent.
#[derive(Debug)]
pub struct ApiResponse<T> {
    /// The URL of this resource.
    pub href: Option<String>,
    /// Time of the response.
    pub time: Option<u32>,
    /// Links to this page and its neighbours.
    pub links: Option<Links>,
    /// Items across all pages.
    pub total_count: Option<u32>,
    /// Items in this page.
    pub count: Option<u32>,
    /// The items, in the order the service sent them.
    pub data: Vec<ApiItem<T>>,
}

/// Links of a page: this one, the next and the previous.
#[derive(Debug)]
pub struct Links {
    pub self_: Option<HrefLink>,
    pub next: Option<HrefLink>,
    pub prev: Option<HrefLink>,
}

/// A link.
#[derive(Debug)]
pub struct HrefLink {
    pub href: String,
}

/// One item of a page.
#[derive(Debug)]
pub struct ApiItem<T> {
    /// The item's identifier.
    pub id: String,
    /// Its relevance, where the service gives one.
    pub score: Option<u32>,
    /// Its record.
    pub fields: T,
    /// Its own URL.
    pub href: Option<String>,
}

} // verus!
