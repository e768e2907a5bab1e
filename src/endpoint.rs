//! One resource of the service, and the requests made to it.
use vstd::prelude::*;

use crate::client::Client;
use crate::client::ClientError;
use crate::client::request_pairs;
use crate::form::PairText;
use crate::form::decode_pairs;
use crate::form::lemma_query_round_trip;
use crate::form::encode_pairs;
use crate::form::encode_query;
use crate::form::pairs_text;
use crate::params::QueryParams;
use crate::params::encoded;
use crate::params::QueryProfile;
use crate::params::exclude_key;
use crate::params::include_key;
use crate::params::optional_pair;
use crate::params::profile_opt_text;
use crate::params::repeated_pairs;
use crate::text::optional_text;

verus! {

/// A GET request: the resource's URL and the query pairs, in order, before encoding.
pub struct Request {
    pub endpoint: String,
    pub query: Vec<(String, String)>,
}

impl Request {
    /// The URL sent: the endpoint, `?`, and the pairs form-urlencoded.
    pub fn url(&self) -> (r: String)
        ensures
            r@ == self.endpoint@ + "?"@ + encode_pairs(pairs_text(self.query@)),
    {
        let mut r = self.endpoint.clone();
        r.push('?');
        r.push_str(encode_query(&self.query).as_str());
        proof {
            reveal_strlit("?");
        }
        assert(r@ =~= self.endpoint@ + "?"@ + encode_pairs(pairs_text(self.query@)));
        r
    }
}

/// What url's `Url::join` makes of `rel` against the URL that `base` parses
/// to: the serialization, or nothing where a step refuses.
pub uninterp spec fn joined_url(base: Seq<char>, rel: Seq<char>) -> Option<Seq<char>>;

/// Relies on url's `Url::join` (reached as `reqwest::Url`), which depends on
/// its arguments alone; `base` is read back into a `Url` with `Url::parse`.
#[verifier::external_body]
fn join_url(base: &str, rel: &str) -> (r: Option<String>)
    ensures
        optional_text(r) == joined_url(base@, rel@),
{
    match reqwest::Url::parse(base) {
        Ok(b) => b.join(rel).ok().map(String::from),
        Err(_) => None,
    }
}

pub open spec fn items_of(o: Option<Vec<String>>) -> Seq<String> {
    match o {
        Some(v) => v@,
        None => seq![],
    }
}

/// The pairs of a request for one item: `appname`, then the profile and the
/// fields to return and to leave out, each only where given.
pub open spec fn item_pairs(
    app_name: Seq<char>,
    profile: Option<QueryProfile>,
    included: Option<Vec<String>>,
    excluded: Option<Vec<String>>,
) -> Seq<PairText> {
    seq![("appname"@, app_name)] + optional_pair("profile"@, profile_opt_text(profile))
        + repeated_pairs(include_key(), items_of(included))
        + repeated_pairs(exclude_key(), items_of(excluded))
}

/// One resource (`reports`, `jobs`, ...) of the service that a client reaches.
pub struct ResourceEndpoint<'c> {
    client: &'c Client,
    resource: &'static str,
}

impl<'c> ResourceEndpoint<'c> {
    pub closed spec fn client(&self) -> Client {
        *self.client
    }

    pub closed spec fn path(&self) -> Seq<char> {
        self.resource@
    }

    /// The resource at `{base}/{resource}` of `client`.
    pub fn new(client: &'c Client, resource: &'static str) -> (r: Self)
        ensures
            r.client() == *client,
            r.path() == resource@,
    {
        ResourceEndpoint { client, resource }
    }

    /// The resource's path segment.
    pub fn resource(&self) -> (r: &'static str)
        ensures
            r@ == self.path(),
    {
        self.resource
    }

    /// The request that lists the resource under `params`.
    pub fn list(&self, params: Option<&QueryParams>) -> (r: Result<Request, ClientError>)
        ensures
            match joined_url(self.client().base(), self.path()) {
                Some(u) => r matches Ok(req) && req.endpoint@ == u && pairs_text(req.query@)
                    == request_pairs(
                    self.client().app(),
                    match params {
                        Some(q) => Some(*q),
                        None => None,
                    },
                ),
                None => r matches Err(ClientError::Config),
            },
    {
        match join_url(self.client.api_base(), self.resource) {
            Some(endpoint) => Ok(self.client.get_with_params(endpoint, params)),
            None => Err(ClientError::Config),
        }
    }

    /// The request for the item `id` (at `{resource}/{id}`), with only the
    /// profile and the fields to return and to leave out that are given.
    pub fn get(
        &self,
        id: &str,
        profile: Option<QueryProfile>,
        included: Option<Vec<String>>,
        excluded: Option<Vec<String>>,
    ) -> (r: Result<Request, ClientError>)
        ensures
            match joined_url(self.client().base(), self.path() + "/"@ + id@) {
                Some(u) => r matches Ok(req) && req.endpoint@ == u && pairs_text(req.query@)
                    == item_pairs(self.client().app(), profile, included, excluded),
                None => r matches Err(ClientError::Config),
            },
    {
        let mut rel = self.resource.to_owned();
        rel.push('/');
        rel.push_str(id);
        proof {
            reveal_strlit("/");
            assert(rel@ =~= self.path() + "/"@ + id@);
        }
        let ghost inc = included;
        let ghost exc = excluded;
        let mut params = QueryParams::new();
        if let Some(p) = profile {
            params = params.profile(p);
        }
        if let Some(i) = included {
            params = params.include_fields(i);
        }
        if let Some(e) = excluded {
            params = params.exclude_fields(e);
        }
        assert(params.include_fields@ =~= items_of(inc));
        assert(params.exclude_fields@ =~= items_of(exc));
        match join_url(self.client.api_base(), rel.as_str()) {
            Some(endpoint) => {
                let req = self.client.get_with_params(endpoint, Some(&params));
                proof {
                    crate::params::lemma_encoded_field_selection(params);
                }
                assert(pairs_text(req.query@) =~= item_pairs(self.client().app(), profile, inc, exc));
                Ok(req)
            },
            None => Err(ClientError::Config),
        }
    }
}

/// Every request, of a list or of one item, carries `appname` as its first
/// pair, also once its query string is read back, and the query's own pairs
/// come after it, unchanged.
pub proof fn lemma_appname_first(
    app_name: Seq<char>,
    params: Option<QueryParams>,
    profile: Option<QueryProfile>,
    included: Option<Vec<String>>,
    excluded: Option<Vec<String>>,
)
    ensures
        request_pairs(app_name, params)[0] == ("appname"@, app_name),
        decode_pairs(encode_pairs(request_pairs(app_name, params)))[0] == ("appname"@, app_name),
        request_pairs(app_name, params).skip(1) == match params {
            Some(q) => encoded(q),
            None => seq![],
        },
        item_pairs(app_name, profile, included, excluded)[0] == ("appname"@, app_name),
        decode_pairs(encode_pairs(item_pairs(app_name, profile, included, excluded)))[0] == (
        "appname"@,
        app_name,
        ),
{
    lemma_query_round_trip(request_pairs(app_name, params));
    lemma_query_round_trip(item_pairs(app_name, profile, included, excluded));
    assert(request_pairs(app_name, params).skip(1) =~= match params {
        Some(q) => encoded(q),
        None => seq![],
    });
}

/// A list request without a query carries the `appname` pair and nothing else.
pub proof fn lemma_bare_list_request(app_name: Seq<char>)
    ensures
        request_pairs(app_name, None) == seq![("appname"@, app_name)],
{
    assert(request_pairs(app_name, None) =~= seq![("appname"@, app_name)]);
}

} // verus!
