use reliefweb::{
    APIVersion, Client, ClientError, FilterOperator, QueryParams, QueryProfile, QueryQuery,
    RELIEFWEB_DOMAIN,
};

fn pairs_of(url: &str) -> Vec<(String, String)> {
    reqwest::Url::parse(url)
        .unwrap()
        .query_pairs()
        .map(|(k, v)| (k.into_owned(), v.into_owned()))
        .collect()
}

fn pair(k: &str, v: &str) -> (String, String) {
    (k.to_string(), v.to_string())
}

#[test]
fn client_init() {
    let app_name = "reliefweb_rust_tests";
    let c1 = Client::new(RELIEFWEB_DOMAIN, app_name, APIVersion::V1).unwrap();
    assert_eq!(c1.api_base(), format!("https://{RELIEFWEB_DOMAIN}/v1/"));
    let c2 = Client::new(RELIEFWEB_DOMAIN, app_name, APIVersion::V2).unwrap();
    assert_eq!(c2.api_base(), format!("https://{RELIEFWEB_DOMAIN}/v2/"));
    assert_eq!(c2.app_name(), app_name);
    let result = Client::new("not a url", "app", APIVersion::V2);
    assert!(result.is_err());
}

#[test]
fn get_with_params_none() {
    let client = Client::new(RELIEFWEB_DOMAIN, "app", APIVersion::V2).unwrap();
    let request = client.get_with_params(format!("{}/reports", client.api_base()), None);
    let mut pairs = pairs_of(&request.url()).into_iter();
    assert_eq!(pairs.next(), Some(pair("appname", "app")));
    assert_eq!(pairs.next(), None);
}

#[test]
fn get_with_params() {
    let client = Client::new(RELIEFWEB_DOMAIN, "reliefweb_rust_tests", APIVersion::V2).unwrap();
    let query = QueryQuery {
        value: "bar".to_string(),
        fields: vec!["foo".to_string()],
        operator: Some(FilterOperator::AND),
    };
    let params = QueryParams::new().query(query);
    let request = client.get_with_params(format!("{}reports", client.api_base()), Some(&params));
    let mut pairs = pairs_of(&request.url()).into_iter();
    assert_eq!(pairs.next(), Some(pair("appname", "reliefweb_rust_tests")));
    assert_eq!(pairs.next(), Some(pair("query[0][value]", "bar")));
    assert_eq!(pairs.next(), Some(pair("query[0][fields][0]", "foo")));
    assert_eq!(pairs.next(), Some(pair("query[0][operator]", "AND")));
    assert_eq!(pairs.next(), None);
}

#[test]
fn get_with_params_encoding() {
    let client = Client::new(RELIEFWEB_DOMAIN, "app", APIVersion::V2).unwrap();
    let query = QueryQuery {
        value: "foo bar".to_string(),
        fields: vec!["field+name".to_string()],
        operator: None,
    };
    let params = QueryParams::new().query(query);
    let request = client.get_with_params(format!("{}reports", client.api_base()), Some(&params));
    let url = request.url();
    assert!(url.contains("foo+bar"));
    assert!(url.contains("field%2Bname"));
    assert!(!url.contains("operator"));
}

#[test]
fn client_endpoints() {
    let client = Client::new(RELIEFWEB_DOMAIN, "app", APIVersion::V2).unwrap();
    assert_eq!(client.reports().resource(), "reports");
    assert_eq!(client.disasters().resource(), "disasters");
    assert_eq!(client.countries().resource(), "countries");
    assert_eq!(client.jobs().resource(), "jobs");
    assert_eq!(client.training().resource(), "training");
    assert_eq!(client.sources().resource(), "sources");
    assert_eq!(client.blog().resource(), "blog");
    assert_eq!(client.book().resource(), "book");
}

#[test]
fn base_url_is_normalised_by_the_parser() {
    let client = Client::new("API.Example.ORG", "app", APIVersion::V1).unwrap();
    assert_eq!(client.api_base(), "https://api.example.org/v1/");
}

#[test]
fn explicit_scheme_and_bad_base() {
    let client = Client::new_with_scheme("http", "127.0.0.1:8080", "testapp", APIVersion::V2).unwrap();
    assert_eq!(client.api_base(), "http://127.0.0.1:8080/v2/");
    assert!(matches!(
        Client::new_with_scheme("http", "bad host", "a", APIVersion::V2),
        Err(ClientError::Config)
    ));
    assert!(matches!(
        Client::new_with_scheme("", "host", "a", APIVersion::V2),
        Err(ClientError::Config)
    ));
}

#[test]
fn list_without_query_has_only_appname() {
    let client = Client::new(RELIEFWEB_DOMAIN, "testapp", APIVersion::V2).unwrap();
    let request = client.reports().list(None).unwrap();
    assert_eq!(request.endpoint, "https://api.reliefweb.int/v2/reports");
    assert_eq!(request.query, vec![pair("appname", "testapp")]);
    assert_eq!(request.url(), "https://api.reliefweb.int/v2/reports?appname=testapp");
}

#[test]
fn list_puts_appname_first() {
    let client = Client::new(RELIEFWEB_DOMAIN, "my app", APIVersion::V2).unwrap();
    let params = QueryParams::new().limit(5).profile(QueryProfile::Minimal);
    let request = client.jobs().list(Some(&params)).unwrap();
    assert_eq!(request.endpoint, "https://api.reliefweb.int/v2/jobs");
    assert_eq!(
        pairs_of(&request.url()),
        vec![pair("appname", "my app"), pair("limit", "5"), pair("profile", "minimal")]
    );
}

#[test]
fn get_by_id_without_options() {
    let client = Client::new(RELIEFWEB_DOMAIN, "testapp", APIVersion::V2).unwrap();
    let request = client.reports().get("123", None, None, None).unwrap();
    assert_eq!(request.endpoint, "https://api.reliefweb.int/v2/reports/123");
    assert_eq!(request.query, vec![pair("appname", "testapp")]);
}

#[test]
fn get_by_id_with_options() {
    let client = Client::new(RELIEFWEB_DOMAIN, "testapp", APIVersion::V2).unwrap();
    let request = client
        .book()
        .get(
            "42",
            Some(QueryProfile::Full),
            Some(vec!["title".into(), "body".into()]),
            Some(vec!["date".into()]),
        )
        .unwrap();
    assert_eq!(request.endpoint, "https://api.reliefweb.int/v2/book/42");
    assert_eq!(
        request.query,
        vec![
            pair("appname", "testapp"),
            pair("profile", "full"),
            pair("fields[include][]", "title"),
            pair("fields[include][]", "body"),
            pair("fields[exclude][]", "date"),
        ]
    );
}

#[test]
fn version_names() {
    assert_eq!(APIVersion::V1.to_string(), "v1");
    assert_eq!(APIVersion::V2.to_string(), "v2");
}
