//! Records of the `blog` resource.
use vstd::prelude::*;

use crate::fields::common::DocumentDates;

verus! {

/// A blog post.
#[derive(Debug)]
pub struct BlogFields {
    pub id: Option<i64>,
    pub title: Option<String>,
    pub status: Option<String>,
    pub body: Option<String>,
    pub author: Option<String>,
    pub url: Option<String>,
    pub url_alias: Option<String>,
    /// The body as HTML (sent as `body-html`).
    pub body_html: Option<String>,
    pub date: Option<DocumentDates>,
}

} // verus!
