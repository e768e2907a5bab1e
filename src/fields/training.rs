//! Records of the `training` resource.
use vstd::prelude::*;

use crate::fields::common::Descriptor;
use crate::fields::common::DocumentDates;
use crate::fields::common::Language;

verus! {

/// A training opportunity.
#[derive(Debug)]
pub struct TrainingFields {
    pub id: Option<i64>,
    pub title: Option<String>,
    pub status: Option<String>,
    pub cost: Option<String>,
    pub body: Option<String>,
    pub event_url: Option<String>,
    pub how_to_register: Option<String>,
    pub source: Option<Vec<Source>>,
    pub language: Option<Vec<Language>>,
    pub theme: Option<Vec<Descriptor>>,
    /// Training types (sent as `type`).
    pub training_fields_type: Option<Vec<Descriptor>>,
    pub format: Option<Vec<Descriptor>>,
    pub training_language: Option<Vec<Language>>,
    pub url: Option<String>,
    pub url_alias: Option<String>,
    /// The body as HTML (sent as `body-html`).
    pub body_html: Option<String>,
    pub date: Option<DocumentDates>,
}

/// An organisation that offers a training.
#[derive(Debug)]
pub struct Source {
    pub href: Option<String>,
    pub id: Option<i64>,
    pub name: Option<String>,
    pub shortname: Option<String>,
    pub longname: Option<String>,
    pub spanish_name: Option<String>,
    pub homepage: Option<String>,
    /// Its kind (sent as `type`).
    pub source_type: Option<Descriptor>,
}

} // verus!
