//! Typed client for a humanitarian-information search service (reports,
//! disasters, countries, jobs, ...). The library builds each request: the
//! query model, its encoding into ordered key/value pairs, their
//! form-urlencoding, and the URL of the resource; it also holds the shapes
//! of the paginated answer. Sending and JSON decoding are left to the caller.

mod client;
mod endpoint;
mod fields;
mod form;
mod keys;
mod params;
mod response;
mod text;

pub use client::{
    APIVersion, Client, ClientError, RELIEFWEB_DOMAIN, base_text, parsed_url, request_pairs,
    version_text,
};
pub use endpoint::{
    Request, ResourceEndpoint, item_pairs, items_of, joined_url, lemma_appname_first,
    lemma_bare_list_request,
};
pub use fields::{blog, book, common, disaster, job, training};
pub use form::{
    PairText, decode_pairs, encode_pairs, encode_query, form_decode, form_encode,
    lemma_form_round_trip, lemma_query_round_trip, pairs_text, push_form_encoded,
};
pub use keys::{
    has_key, lemma_absent_parts_have_no_pairs, lemma_negate_only_when_set,
    lemma_operators_only_where_set, lemma_positions_are_indices,
};
pub use params::{
    FilterOperator, QueryFilter, QueryParams, QueryPreset, QueryProfile, QueryQuery,
    SortDescriptor, SortDirection, clause_field_key, clause_key, condition_key, encoded, exclude_key,
    include_key,
};
pub use response::{ApiItem, ApiResponse, HrefLink, Links};
pub use text::{decimal, push_decimal};
