//! Parts of the records of the `disasters` resource.
use vstd::prelude::*;

verus! {

/// A kind of disaster.
#[derive(Debug)]
pub struct Type {
    pub id: Option<i64>,
    pub name: Option<String>,
    pub code: Option<String>,
    pub primary: Option<bool>,
}

/// An overview of a disaster (keys sent in kebab case).
#[derive(Debug)]
pub struct Profile {
    pub overview: Option<String>,
    pub overview_html: Option<String>,
}

} // verus!
