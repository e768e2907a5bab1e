//! Records of the `jobs` resource.
use vstd::prelude::*;

use crate::fields::common::Descriptor;
use crate::fields::common::DocumentDates;
use crate::fields::common::Source;

verus! {

/// A job posting.
#[derive(Debug)]
pub struct JobFields {
    pub id: Option<i64>,
    pub title: Option<String>,
    pub status: Option<String>,
    pub body: Option<String>,
    pub how_to_apply: Option<String>,
    pub source: Option<Vec<Source>>,
    pub theme: Option<Vec<Descriptor>>,
    /// Job types (sent as `type`).
    pub job_fields_type: Option<Vec<Descriptor>>,
    pub experience: Option<Vec<Descriptor>>,
    pub career_categories: Option<Vec<Descriptor>>,
    pub url: Option<String>,
    pub url_alias: Option<String>,
    /// The body as HTML (sent as `body-html`).
    pub body_html: Option<String>,
    pub date: Option<DocumentDates>,
}

} // verus!
