//! Client configuration: the service's base URL and the application name that
//! every request carries.
use vstd::prelude::*;

use crate::endpoint::Request;
use crate::endpoint::ResourceEndpoint;
use crate::form::PairText;
use crate::form::pairs_text;
use crate::params::QueryParams;
use crate::params::encoded;
use crate::text::optional_text;

verus! {

/// Host of the service's public instance.
pub const RELIEFWEB_DOMAIN: &'static str = "api.reliefweb.int";

/// Version of the service's interface. `V1` is deprecated; `V2` is compatible with it.
#[derive(Debug, Clone, Copy)]
pub enum APIVersion {
    V1,
    V2,
}

pub open spec fn version_text(v: APIVersion) -> Seq<char> {
    match v {
        APIVersion::V1 => "v1"@,
        APIVersion::V2 => "v2"@,
    }
}

impl APIVersion {
    /// The path segment: `v1` or `v2`.
    pub fn to_string(&self) -> (r: String)
        ensures
            r@ == version_text(*self),
    {
        match self {
            APIVersion::V1 => "v1".to_owned(),
            APIVersion::V2 => "v2".to_owned(),
        }
    }
}

/// Why a request could not be made or read.
#[derive(Debug)]
pub enum ClientError {
    /// A URL that does not parse: the base at construction, or a resource path.
    Config,
    /// The request failed on its way: connection, timeout, or an error status.
    Transport(String),
    /// The body is not the expected envelope.
    Decode(String),
}

/// What url's `Url::parse` makes of `s`: the URL's serialization, or nothing
/// where it refuses `s`.
pub uninterp spec fn parsed_url(s: Seq<char>) -> Option<Seq<char>>;

/// Relies on url's `Url::parse` (reached as `reqwest::Url`), which depends on
/// its argument alone.
#[verifier::external_body]
fn parse_url(s: &str) -> (r: Option<String>)
    ensures
        optional_text(r) == parsed_url(s@),
{
    reqwest::Url::parse(s).ok().map(String::from)
}

/// The base URL that a scheme, a host and a version make: `scheme://host/version/`.
pub open spec fn base_text(scheme: Seq<char>, domain: Seq<char>, version: APIVersion) -> Seq<char> {
    scheme + "://"@ + domain + "/"@ + version_text(version) + "/"@
}

/// The pairs of a request: `appname` first, then those of the query, if any.
pub open spec fn request_pairs(app_name: Seq<char>, params: Option<QueryParams>) -> Seq<PairText> {
    seq![("appname"@, app_name)] + match params {
        Some(q) => encoded(q),
        None => seq![],
    }
}

/// Where the service is and who asks. It holds no state of a request, so
/// one value serves any number of them.
pub struct Client {
    api_base: String,
    app_name: String,
}

impl Client {
    /// The base URL, as `Url::parse` serialized it.
    pub closed spec fn base(&self) -> Seq<char> {
        self.api_base@
    }

    /// The name that identifies the application to the service.
    pub closed spec fn app(&self) -> Seq<char> {
        self.app_name@
    }

    fn with_base(base: &str, app_name: &str) -> (r: Result<Client, ClientError>)
        ensures
            match parsed_url(base@) {
                Some(u) => r matches Ok(c) && c.base() == u && c.app() == app_name@,
                None => r matches Err(ClientError::Config),
            },
    {
        match parse_url(base) {
            Some(api_base) => Ok(Client { api_base, app_name: app_name.to_owned() }),
            None => Err(ClientError::Config),
        }
    }

    /// A client for `https://domain/version/`; `Config` where that does not parse.
    pub fn new(domain: &str, app_name: &str, version: APIVersion) -> (r: Result<Client, ClientError>)
        ensures
            match parsed_url(base_text("https"@, domain@, version)) {
                Some(u) => r matches Ok(c) && c.base() == u && c.app() == app_name@,
                None => r matches Err(ClientError::Config),
            },
    {
        Self::new_with_scheme("https", domain, app_name, version)
    }

    /// A client for `scheme://domain/version/`; `Config` where that does not parse.
    pub fn new_with_scheme(scheme: &str, domain: &str, app_name: &str, version: APIVersion) -> (r:
        Result<Client, ClientError>)
        ensures
            match parsed_url(base_text(scheme@, domain@, version)) {
                Some(u) => r matches Ok(c) && c.base() == u && c.app() == app_name@,
                None => r matches Err(ClientError::Config),
            },
    {
        let mut base = scheme.to_owned();
        base.push_str("://");
        base.push_str(domain);
        base.push('/');
        base.push_str(version.to_string().as_str());
        base.push('/');
        proof {
            reveal_strlit("/");
            assert(base@ =~= base_text(scheme@, domain@, version));
        }
        Self::with_base(base.as_str(), app_name)
    }

    /// The base URL.
    pub fn api_base(&self) -> (r: &str)
        ensures
            r@ == self.base(),
    {
        self.api_base.as_str()
    }

    /// The application name.
    pub fn app_name(&self) -> (r: &str)
        ensures
            r@ == self.app(),
    {
        self.app_name.as_str()
    }

    /// A GET request to `endpoint`: `appname` first, then the pairs of `params`.
    pub fn get_with_params(&self, endpoint: String, params: Option<&QueryParams>) -> (r: Request)
        ensures
            r.endpoint@ == endpoint@,
            pairs_text(r.query@) == request_pairs(
                self.app(),
                match params {
                    Some(q) => Some(*q),
                    None => None,
                },
            ),
    {
        let mut query: Vec<(String, String)> = Vec::new();
        query.push(("appname".to_owned(), self.app_name.clone()));
        let ghost head = pairs_text(query@);
        assert(head =~= seq![("appname"@, self.app())]);
        match params {
            Some(p) => p.append_pairs(&mut query),
            None => {},
        }
        assert(pairs_text(query@) =~= request_pairs(
            self.app(),
            match params {
                Some(q) => Some(*q),
                None => None,
            },
        ));
        Request { endpoint, query }
    }

    pub fn reports(&self) -> (r: ResourceEndpoint<'_>)
        ensures
            r.client() == *self,
            r.path() == "reports"@,
    {
        ResourceEndpoint::new(self, "reports")
    }

    pub fn disasters(&self) -> (r: ResourceEndpoint<'_>)
        ensures
            r.client() == *self,
            r.path() == "disasters"@,
    {
        ResourceEndpoint::new(self, "disasters")
    }

    pub fn countries(&self) -> (r: ResourceEndpoint<'_>)
        ensures
            r.client() == *self,
            r.path() == "countries"@,
    {
        ResourceEndpoint::new(self, "countries")
    }

    pub fn jobs(&self) -> (r: ResourceEndpoint<'_>)
        ensures
            r.client() == *self,
            r.path() == "jobs"@,
    {
        ResourceEndpoint::new(self, "jobs")
    }

    pub fn training(&self) -> (r: ResourceEndpoint<'_>)
        ensures
            r.client() == *self,
            r.path() == "training"@,
    {
        ResourceEndpoint::new(self, "training")
    }

    pub fn sources(&self) -> (r: ResourceEndpoint<'_>)
        ensures
            r.client() == *self,
            r.path() == "sources"@,
    {
        ResourceEndpoint::new(self, "sources")
    }

    pub fn blog(&self) -> (r: ResourceEndpoint<'_>)
        ensures
            r.client() == *self,
            r.path() == "blog"@,
    {
        ResourceEndpoint::new(self, "blog")
    }

    pub fn book(&self) -> (r: ResourceEndpoint<'_>)
        ensures
            r.client() == *self,
            r.path() == "book"@,
    {
        ResourceEndpoint::new(self, "book")
    }
}

} // verus!
