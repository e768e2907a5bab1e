//! Record shapes of the resources. Every field is optional: the service
//! leaves out what the profile or the field selection does not ask for.
pub mod blog;
pub mod book;
pub mod common;
pub mod disaster;
pub mod job;
pub mod training;
