//! Shapes shared by several resources.
use vstd::prelude::*;

verus! {

/// Dates of a record.
#[derive(Debug)]
pub struct DocumentDates {
    pub closing: Option<String>,
    pub original: Option<String>,
    pub changed: Option<String>,
    pub created: Option<String>,
}

/// A named term, such as a theme or a source type.
#[derive(Debug)]
pub struct Descriptor {
    pub id: Option<i64>,
    pub name: Option<String>,
}

/// A language.
#[derive(Debug)]
pub struct Language {
    pub id: Option<i64>,
    pub name: Option<String>,
    pub code: Option<String>,
}

/// An organisation that publishes records.
#[derive(Debug)]
pub struct Source {
    pub href: Option<String>,
    pub id: Option<i64>,
    pub name: Option<String>,
    pub shortname: Option<String>,
    pub longname: Option<String>,
    pub spanish_name: Option<String>,
    pub homepage: Option<String>,
    /// Its kind (sent as `type`).
    pub source_type: Option<Descriptor>,
}

} // verus!
