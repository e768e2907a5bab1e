use reliefweb::{encode_query, push_form_encoded};

fn pair(k: &str, v: &str) -> (String, String) {
    (k.to_string(), v.to_string())
}

fn form(s: &str) -> String {
    let mut out = String::new();
    push_form_encoded(&mut out, s);
    out
}

#[test]
fn spaces_and_plus_signs() {
    assert_eq!(form("foo bar"), "foo+bar");
    assert_eq!(form("field+name"), "field%2Bname");
}

#[test]
fn reserved_and_unchanged_bytes() {
    assert_eq!(form("a-b_c.d*e"), "a-b_c.d*e");
    assert_eq!(form("a&b=c"), "a%26b%3Dc");
    assert_eq!(form("x[0]/y?z#"), "x%5B0%5D%2Fy%3Fz%23");
    assert_eq!(form("é"), "%C3%A9");
    assert_eq!(form(""), "");
}

#[test]
fn query_string_joins_pairs() {
    let pairs = vec![pair("a b", "1+2"), pair("k", "")];
    assert_eq!(encode_query(&pairs), "a+b=1%2B2&k=");
    assert_eq!(encode_query(&vec![]), "");
}

#[test]
fn query_string_round_trips() {
    let pairs = vec![
        pair("appname", "my app"),
        pair("query[0][value]", "foo bar+baz & = % é"),
        pair("fields[include][]", "a.b"),
        pair("", "empty key"),
    ];
    let query = encode_query(&pairs);
    let url = reqwest::Url::parse(&format!("https://example.com/?{}", query)).unwrap();
    let back: Vec<(String, String)> = url
        .query_pairs()
        .map(|(k, v)| (k.into_owned(), v.into_owned()))
        .collect();
    assert_eq!(back, pairs);
}
