use reliefweb::{
    encode_query, FilterOperator, QueryFilter, QueryParams, QueryPreset, QueryProfile, QueryQuery,
    SortDescriptor, SortDirection,
};

fn decoded(qp: &QueryParams) -> Vec<(String, String)> {
    let query = encode_query(&qp.to_pairs());
    let url = reqwest::Url::parse(&format!("https://example.com/api?{}", query)).unwrap();
    url.query_pairs().map(|(k, v)| (k.into_owned(), v.into_owned())).collect()
}

fn pair(k: &str, v: &str) -> (String, String) {
    (k.to_string(), v.to_string())
}

#[test]
fn test_query_params_builder() {
    let qp = QueryParams::new()
        .verbose(true)
        .limit(50)
        .offset(10)
        .profile(QueryProfile::Full)
        .preset(QueryPreset::Analysis)
        .include_fields(vec!["field1".into(), "field2".into()])
        .exclude_fields(vec!["field3".into()])
        .query(QueryQuery {
            value: "search".into(),
            fields: vec!["title".into()],
            operator: Some(FilterOperator::AND),
        })
        .filter(QueryFilter {
            field: "status".into(),
            value: "active".into(),
            operator: Some(FilterOperator::OR),
            negate: false,
        })
        .sort(vec![SortDescriptor {
            field: "date".into(),
            direction: SortDirection::Desc,
        }]);

    assert_eq!(qp.verbose, Some(true));
    assert_eq!(qp.limit, Some(50));
    assert_eq!(qp.offset, Some(10));
    assert_eq!(qp.profile.unwrap().to_string(), "full");
    assert_eq!(qp.preset.unwrap().to_string(), "analysis");
    assert_eq!(qp.include_fields, vec!["field1", "field2"]);
    assert_eq!(qp.exclude_fields, vec!["field3"]);
    assert_eq!(qp.query.len(), 1);
    assert_eq!(qp.filter.len(), 1);
    assert_eq!(qp.sort.len(), 1);
}

#[test]
fn test_apply_to_url_basic() {
    let qp = QueryParams::new().verbose(true).limit(25).offset(5);
    let query = decoded(&qp);
    assert!(query.contains(&pair("verbose", "1")));
    assert!(query.contains(&pair("limit", "25")));
    assert!(query.contains(&pair("offset", "5")));
}

#[test]
fn test_apply_to_url_include_exclude() {
    let qp = QueryParams::new()
        .include_fields(vec!["title".into(), "summary".into()])
        .exclude_fields(vec!["internal".into()]);
    let query = decoded(&qp);
    assert!(query.contains(&pair("fields[include][]", "title")));
    assert!(query.contains(&pair("fields[include][]", "summary")));
    assert!(query.contains(&pair("fields[exclude][]", "internal")));
}

#[test]
fn test_apply_to_url_queries() {
    let qp = QueryParams::new().query(QueryQuery {
        value: "foo".into(),
        fields: vec!["title".into(), "content".into()],
        operator: Some(FilterOperator::AND),
    });
    let query = decoded(&qp);
    assert!(query.contains(&pair("query[0][value]", "foo")));
    assert!(query.contains(&pair("query[0][fields][0]", "title")));
    assert!(query.contains(&pair("query[0][fields][1]", "content")));
    assert!(query.contains(&pair("query[0][operator]", "AND")));
}

#[test]
fn test_apply_to_url_filters() {
    let qp = QueryParams::new().filter(QueryFilter {
        field: "status".into(),
        value: "active".into(),
        operator: Some(FilterOperator::OR),
        negate: true,
    });
    let query = decoded(&qp);
    assert!(query.contains(&pair("filter[operator]", "OR")));
    assert!(query.contains(&pair("filter[conditions][0][field]", "status")));
    assert!(query.contains(&pair("filter[conditions][0][value][]", "active")));
    assert!(query.contains(&pair("filter[conditions][0][negate]", "1")));
}

#[test]
fn test_apply_to_url_sort() {
    let qp = QueryParams::new().sort(vec![SortDescriptor {
        field: "date".into(),
        direction: SortDirection::Desc,
    }]);
    let query = decoded(&qp);
    assert!(query.contains(&pair("sort[]", "date:desc")));
}

#[test]
fn negated_filter_encodes_exactly() {
    let qp = QueryParams::new().filter(QueryFilter {
        field: "status".into(),
        value: "active".into(),
        operator: Some(FilterOperator::OR),
        negate: true,
    });
    assert_eq!(
        qp.to_pairs(),
        vec![
            pair("filter[operator]", "OR"),
            pair("filter[conditions][0][field]", "status"),
            pair("filter[conditions][0][value][]", "active"),
            pair("filter[conditions][0][negate]", "1"),
            pair("filter[conditions][0][operator]", "OR"),
        ]
    );
}

#[test]
fn empty_query_encodes_nothing() {
    assert!(QueryParams::new().to_pairs().is_empty());
    assert!(QueryParams::default().to_pairs().is_empty());
}

#[test]
fn absent_parts_give_no_pairs() {
    let qp = QueryParams::new().limit(7).query(QueryQuery {
        value: "flood".into(),
        fields: vec![],
        operator: None,
    });
    assert_eq!(
        qp.to_pairs(),
        vec![pair("limit", "7"), pair("query[0][value]", "flood")]
    );
}

#[test]
fn not_negated_filter_has_no_negate_pair() {
    let qp = QueryParams::new().filter(QueryFilter {
        field: "country".into(),
        value: "Chad".into(),
        operator: None,
        negate: false,
    });
    assert_eq!(
        qp.to_pairs(),
        vec![
            pair("filter[conditions][0][field]", "country"),
            pair("filter[conditions][0][value][]", "Chad"),
        ]
    );
}

#[test]
fn first_filter_operator_is_the_group_operator() {
    let qp = QueryParams::new().filters(vec![
        QueryFilter {
            field: "a".into(),
            value: "1".into(),
            operator: None,
            negate: false,
        },
        QueryFilter {
            field: "b".into(),
            value: "2".into(),
            operator: Some(FilterOperator::AND),
            negate: false,
        },
        QueryFilter {
            field: "c".into(),
            value: "3".into(),
            operator: Some(FilterOperator::OR),
            negate: false,
        },
    ]);
    let pairs = qp.to_pairs();
    assert_eq!(pairs[0], pair("filter[operator]", "AND"));
    assert!(pairs.contains(&pair("filter[conditions][1][operator]", "AND")));
    assert!(pairs.contains(&pair("filter[conditions][2][operator]", "OR")));
    assert!(!pairs.iter().any(|(k, _)| k == "filter[conditions][0][operator]"));
}

#[test]
fn indices_follow_positions() {
    let a = || QueryQuery {
        value: "a".into(),
        fields: vec!["x".into(), "y".into()],
        operator: None,
    };
    let b = || QueryQuery {
        value: "b".into(),
        fields: vec![],
        operator: Some(FilterOperator::OR),
    };
    let ab = QueryParams::new().queries(vec![a(), b()]).to_pairs();
    let ba = QueryParams::new().queries(vec![b(), a()]).to_pairs();
    assert_eq!(
        ab,
        vec![
            pair("query[0][value]", "a"),
            pair("query[0][fields][0]", "x"),
            pair("query[0][fields][1]", "y"),
            pair("query[1][value]", "b"),
            pair("query[1][operator]", "OR"),
        ]
    );
    assert_eq!(
        ba,
        vec![
            pair("query[0][value]", "b"),
            pair("query[0][operator]", "OR"),
            pair("query[1][value]", "a"),
            pair("query[1][fields][0]", "x"),
            pair("query[1][fields][1]", "y"),
        ]
    );
}

#[test]
fn many_positions_use_decimal_indices() {
    let mut qp = QueryParams::new();
    for n in 0..12 {
        qp = qp.query(QueryQuery {
            value: format!("v{}", n),
            fields: vec![],
            operator: None,
        });
    }
    let pairs = qp.to_pairs();
    assert_eq!(pairs[10], pair("query[10][value]", "v10"));
    assert_eq!(pairs[11], pair("query[11][value]", "v11"));
}

#[test]
fn full_query_order() {
    let qp = QueryParams::new()
        .sort(vec![
            SortDescriptor {
                field: "date".into(),
                direction: SortDirection::Desc,
            },
            SortDescriptor {
                field: "title".into(),
                direction: SortDirection::Asc,
            },
        ])
        .exclude_fields(vec!["body".into()])
        .preset(QueryPreset::Latest)
        .profile(QueryProfile::List)
        .include_fields(vec!["title".into()])
        .offset(0)
        .limit(1000)
        .verbose(false);
    assert_eq!(
        qp.to_pairs(),
        vec![
            pair("verbose", "0"),
            pair("limit", "1000"),
            pair("offset", "0"),
            pair("profile", "list"),
            pair("preset", "latest"),
            pair("fields[include][]", "title"),
            pair("fields[exclude][]", "body"),
            pair("sort[]", "date:desc"),
            pair("sort[]", "title:asc"),
        ]
    );
}

#[test]
fn limit_largest_value() {
    let qp = QueryParams::new().limit(u32::MAX);
    assert_eq!(qp.to_pairs(), vec![pair("limit", "4294967295")]);
}

#[test]
fn wire_names() {
    assert_eq!(QueryProfile::Minimal.to_string(), "minimal");
    assert_eq!(QueryProfile::List.to_string(), "list");
    assert_eq!(QueryPreset::Minimal.to_string(), "minimal");
    assert_eq!(QueryPreset::Latest.to_string(), "latest");
    assert_eq!(FilterOperator::AND.to_string(), "AND");
    assert_eq!(FilterOperator::OR.to_string(), "OR");
    assert_eq!(SortDirection::Asc.to_string(), "asc");
    assert_eq!(SortDirection::Desc.to_string(), "desc");
}
