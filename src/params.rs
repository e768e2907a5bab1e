//! The query model and its encoding into ordered key/value pairs.
use vstd::prelude::*;

use crate::form::PairText;
use crate::form::pairs_text;
use crate::text::decimal;
use crate::text::optional_text;
use crate::text::push_decimal;

verus! {

/// Which sets of fields a result holds.
#[derive(Debug, Clone, Copy, Default)]
pub enum QueryProfile {
    /// Just the `title` or `name` field.
    #[default]
    Minimal,
    /// All fields.
    Full,
    /// Fields suited to lists and tables.
    List,
}

pub open spec fn profile_text(p: QueryProfile) -> Seq<char> {
    match p {
        QueryProfile::Minimal => "minimal"@,
        QueryProfile::Full => "full"@,
        QueryProfile::List => "list"@,
    }
}

impl QueryProfile {
    /// The wire name: `minimal`, `full` or `list`.
    pub fn to_string(&self) -> (r: String)
        ensures
            r@ == profile_text(*self),
    {
        match self {
            QueryProfile::Minimal => "minimal".to_owned(),
            QueryProfile::Full => "full".to_owned(),
            QueryProfile::List => "list".to_owned(),
        }
    }
}

/// A shorthand for sets of fields, filters and sort order of common uses.
#[derive(Debug, Clone, Copy, Default)]
pub enum QueryPreset {
    /// Sensible status filters for most requests.
    #[default]
    Minimal,
    /// Sorted by date where that applies; countries and sources by id.
    Latest,
    /// Archived and expired content included, for analysis of the past.
    Analysis,
}

pub open spec fn preset_text(p: QueryPreset) -> Seq<char> {
    match p {
        QueryPreset::Minimal => "minimal"@,
        QueryPreset::Latest => "latest"@,
        QueryPreset::Analysis => "analysis"@,
    }
}

impl QueryPreset {
    /// The wire name: `minimal`, `latest` or `analysis`.
    pub fn to_string(&self) -> (r: String)
        ensures
            r@ == preset_text(*self),
    {
        match self {
            QueryPreset::Minimal => "minimal".to_owned(),
            QueryPreset::Latest => "latest".to_owned(),
            QueryPreset::Analysis => "analysis".to_owned(),
        }
    }
}

/// How terms or conditions combine.
#[allow(non_camel_case_types, clippy::upper_case_acronyms)]
#[derive(Debug, Clone, Copy, Default)]
pub enum FilterOperator {
    #[default]
    OR,
    AND,
}

pub open spec fn operator_text(o: FilterOperator) -> Seq<char> {
    match o {
        FilterOperator::OR => "OR"@,
        FilterOperator::AND => "AND"@,
    }
}

impl FilterOperator {
    /// The wire name: `AND` or `OR`.
    pub fn to_string(&self) -> (r: String)
        ensures
            r@ == operator_text(*self),
    {
        match self {
            FilterOperator::OR => "OR".to_owned(),
            FilterOperator::AND => "AND".to_owned(),
        }
    }
}

/// A free-text search clause.
pub struct QueryQuery {
    /// What to search for.
    pub value: String,
    /// The fields searched, in order.
    pub fields: Vec<String>,
    /// How spaces in `value` are read.
    pub operator: Option<FilterOperator>,
}

/// A refinement condition.
pub struct QueryFilter {
    /// The field filtered on.
    pub field: String,
    /// The value filtered for.
    pub value: String,
    /// How values or conditions combine.
    pub operator: Option<FilterOperator>,
    /// Select what does not match.
    pub negate: bool,
}

/// Sort direction of one field.
#[derive(Debug, Clone, Copy, Default)]
pub enum SortDirection {
    #[default]
    Asc,
    Desc,
}

pub open spec fn direction_text(d: SortDirection) -> Seq<char> {
    match d {
        SortDirection::Asc => "asc"@,
        SortDirection::Desc => "desc"@,
    }
}

impl SortDirection {
    /// The wire name: `asc` or `desc`.
    pub fn to_string(&self) -> (r: String)
        ensures
            r@ == direction_text(*self),
    {
        match self {
            SortDirection::Asc => "asc".to_owned(),
            SortDirection::Desc => "desc".to_owned(),
        }
    }
}

/// One sort key: a field and its direction.
pub struct SortDescriptor {
    pub field: String,
    pub direction: SortDirection,
}

/// Search, filters, sort, paging and field selection of one request.
/// Every sequence keeps the order in which its entries were added.
pub struct QueryParams {
    /// Free-text search clauses.
    pub query: Vec<QueryQuery>,
    /// Refinement conditions.
    pub filter: Vec<QueryFilter>,
    /// Ask the service to echo how it read the request.
    pub verbose: Option<bool>,
    /// How many results to return.
    pub limit: Option<u32>,
    /// How many results to skip.
    pub offset: Option<u32>,
    /// Sort keys, highest priority first.
    pub sort: Vec<SortDescriptor>,
    /// Field sets of the result.
    pub profile: Option<QueryProfile>,
    /// Fields, filters and sort of a common use.
    pub preset: Option<QueryPreset>,
    /// Field paths to return.
    pub include_fields: Vec<String>,
    /// Field paths to leave out.
    pub exclude_fields: Vec<String>,
}
// ---- What a query encodes to ----

/// A pair for a value that may be absent: none at all when it is.
pub open spec fn optional_pair(key: Seq<char>, value: Option<Seq<char>>) -> Seq<PairText> {
    match value {
        Some(v) => seq![(key, v)],
        None => seq![],
    }
}

pub open spec fn verbose_text(v: Option<bool>) -> Option<Seq<char>> {
    match v {
        Some(b) => Some(if b { "1"@ } else { "0"@ }),
        None => None,
    }
}

pub open spec fn number_text(n: Option<u32>) -> Option<Seq<char>> {
    match n {
        Some(k) => Some(decimal(k as nat)),
        None => None,
    }
}

pub open spec fn profile_opt_text(p: Option<QueryProfile>) -> Option<Seq<char>> {
    match p {
        Some(x) => Some(profile_text(x)),
        None => None,
    }
}

pub open spec fn preset_opt_text(p: Option<QueryPreset>) -> Option<Seq<char>> {
    match p {
        Some(x) => Some(preset_text(x)),
        None => None,
    }
}

pub open spec fn operator_opt_text(o: Option<FilterOperator>) -> Option<Seq<char>> {
    match o {
        Some(x) => Some(operator_text(x)),
        None => None,
    }
}

/// `verbose`, `limit`, `offset`, `profile`, `preset`, each only where present.
pub open spec fn scalar_pairs(q: QueryParams) -> Seq<PairText> {
    optional_pair("verbose"@, verbose_text(q.verbose))
        + optional_pair("limit"@, number_text(q.limit))
        + optional_pair("offset"@, number_text(q.offset))
        + optional_pair("profile"@, profile_opt_text(q.profile))
        + optional_pair("preset"@, preset_opt_text(q.preset))
}

/// One pair under `key` for each item, in order.
pub open spec fn repeated_pairs(key: Seq<char>, items: Seq<String>) -> Seq<PairText> {
    items.map_values(|s: String| (key, s@))
}

pub open spec fn include_key() -> Seq<char> {
    "fields[include][]"@
}

pub open spec fn exclude_key() -> Seq<char> {
    "fields[exclude][]"@
}

/// `query[i]` followed by `rest`.
pub open spec fn clause_key(i: nat, rest: Seq<char>) -> Seq<char> {
    "query["@ + decimal(i) + rest
}

pub open spec fn clause_field_key(i: nat, j: nat) -> Seq<char> {
    clause_key(i, "][fields]["@ + decimal(j) + "]"@)
}

/// The pairs of the clause at position `i`: its value, each field at its
/// position, and its operator where it has one.
pub open spec fn clause_pairs(i: nat, c: QueryQuery) -> Seq<PairText> {
    seq![(clause_key(i, "][value]"@), c.value@)]
        + Seq::new(c.fields@.len(), |j: int| (clause_field_key(i, j as nat), c.fields@[j]@))
        + optional_pair(clause_key(i, "][operator]"@), operator_opt_text(c.operator))
}

/// The pairs of all clauses, each at its position.
pub open spec fn clauses_pairs(qs: Seq<QueryQuery>) -> Seq<PairText>
    decreases qs.len(),
{
    if qs.len() == 0 {
        seq![]
    } else {
        clauses_pairs(qs.drop_last()) + clause_pairs((qs.len() - 1) as nat, qs.last())
    }
}

/// The operator of the first filter that has one.
pub open spec fn first_operator(fs: Seq<QueryFilter>) -> Option<FilterOperator>
    decreases fs.len(),
{
    if fs.len() == 0 {
        None
    } else {
        match first_operator(fs.drop_last()) {
            Some(o) => Some(o),
            None => fs.last().operator,
        }
    }
}

/// `filter[conditions][i]` followed by `rest`.
pub open spec fn condition_key(i: nat, rest: Seq<char>) -> Seq<char> {
    "filter[conditions]["@ + decimal(i) + rest
}

/// The pairs of the condition at position `i`: field, value, `negate=1` only
/// when negated, and its operator where it has one.
pub open spec fn condition_pairs(i: nat, f: QueryFilter) -> Seq<PairText> {
    seq![(condition_key(i, "][field]"@), f.field@), (condition_key(i, "][value][]"@), f.value@)]
        + (if f.negate { seq![(condition_key(i, "][negate]"@), "1"@)] } else { seq![] })
        + optional_pair(condition_key(i, "][operator]"@), operator_opt_text(f.operator))
}

pub open spec fn conditions_pairs(fs: Seq<QueryFilter>) -> Seq<PairText>
    decreases fs.len(),
{
    if fs.len() == 0 {
        seq![]
    } else {
        conditions_pairs(fs.drop_last()) + condition_pairs((fs.len() - 1) as nat, fs.last())
    }
}

/// The group operator (the first filter's operator that is present), then each condition.
pub open spec fn filter_pairs(fs: Seq<QueryFilter>) -> Seq<PairText> {
    optional_pair("filter[operator]"@, operator_opt_text(first_operator(fs))) + conditions_pairs(fs)
}

pub open spec fn sort_text(d: SortDescriptor) -> Seq<char> {
    d.field@ + ":"@ + direction_text(d.direction)
}

pub open spec fn sort_pairs(ss: Seq<SortDescriptor>) -> Seq<PairText> {
    ss.map_values(|d: SortDescriptor| ("sort[]"@, sort_text(d)))
}

/// Every pair that `q` encodes to, in the order in which they are sent.
pub open spec fn encoded(q: QueryParams) -> Seq<PairText> {
    scalar_pairs(q)
        + repeated_pairs(include_key(), q.include_fields@)
        + repeated_pairs(exclude_key(), q.exclude_fields@)
        + clauses_pairs(q.query@)
        + filter_pairs(q.filter@)
        + sort_pairs(q.sort@)
}

// ---- The encoder ----

fn push_pair(pairs: &mut Vec<(String, String)>, key: String, value: String)
    ensures
        pairs_text(final(pairs)@) == pairs_text(old(pairs)@).push((key@, value@)),
{
    pairs.push((key, value));
    assert(pairs_text(final(pairs)@) =~= pairs_text(old(pairs)@).push((key@, value@)));
}

fn push_optional(pairs: &mut Vec<(String, String)>, key: &str, value: Option<String>)
    ensures
        pairs_text(final(pairs)@) == pairs_text(old(pairs)@) + optional_pair(key@, optional_text(value)),
{
    match value {
        Some(v) => {
            push_pair(pairs, key.to_owned(), v);
            assert(pairs_text(final(pairs)@) =~= pairs_text(old(pairs)@) + seq![(key@, v@)]);
        },
        None => {
            assert(pairs_text(final(pairs)@) =~= pairs_text(old(pairs)@) + seq![]);
        },
    }
}

fn verbose_value(v: Option<bool>) -> (r: Option<String>)
    ensures
        optional_text(r) == verbose_text(v),
{
    match v {
        Some(b) => Some(if b { "1".to_owned() } else { "0".to_owned() }),
        None => None,
    }
}

fn number_value(n: Option<u32>) -> (r: Option<String>)
    ensures
        optional_text(r) == number_text(n),
{
    match n {
        Some(k) => Some(decimal_string(k)),
        None => None,
    }
}

fn decimal_string(n: u32) -> (r: String)
    ensures
        r@ == decimal(n as nat),
{
    let mut r = String::new();
    push_decimal(&mut r, n as usize);
    assert(r@ =~= decimal(n as nat));
    r
}

fn push_repeated(pairs: &mut Vec<(String, String)>, key: &str, items: &Vec<String>)
    ensures
        pairs_text(final(pairs)@) == pairs_text(old(pairs)@) + repeated_pairs(key@, items@),
{
    let ghost start = pairs_text(pairs@);
    let mut i: usize = 0;
    while i < items.len()
        invariant
            i <= items@.len(),
            pairs_text(pairs@) == start + repeated_pairs(key@, items@.take(i as int)),
        decreases items@.len() - i,
    {
        push_pair(pairs, key.to_owned(), items[i].clone());
        assert(repeated_pairs(key@, items@.take(i + 1)) =~= repeated_pairs(key@, items@.take(i as int)).push((key@, items@[i as int]@)));
        i += 1;
    }
    assert(items@.take(i as int) =~= items@);
}

fn clause_key_string(i: usize, rest: &str) -> (r: String)
    ensures
        r@ == clause_key(i as nat, rest@),
{
    let mut k = "query[".to_owned();
    push_decimal(&mut k, i);
    k.push_str(rest);
    k
}

fn condition_key_string(i: usize, rest: &str) -> (r: String)
    ensures
        r@ == condition_key(i as nat, rest@),
{
    let mut k = "filter[conditions][".to_owned();
    push_decimal(&mut k, i);
    k.push_str(rest);
    k
}

fn push_clause(pairs: &mut Vec<(String, String)>, i: usize, c: &QueryQuery)
    ensures
        pairs_text(final(pairs)@) == pairs_text(old(pairs)@) + clause_pairs(i as nat, *c),
{
    let ghost start = pairs_text(pairs@);
    push_pair(pairs, clause_key_string(i, "][value]"), c.value.clone());
    let mut j: usize = 0;
    while j < c.fields.len()
        invariant
            j <= c.fields@.len(),
            pairs_text(pairs@) == start + seq![(clause_key(i as nat, "][value]"@), c.value@)]
                + Seq::new(j as nat, |m: int| (clause_field_key(i as nat, m as nat), c.fields@[m]@)),
        decreases c.fields@.len() - j,
    {
        let mut rest = "][fields][".to_owned();
        push_decimal(&mut rest, j);
        rest.push_str("]");
        let key = clause_key_string(i, rest.as_str());
        push_pair(pairs, key, c.fields[j].clone());
        assert(Seq::new((j + 1) as nat, |m: int| (clause_field_key(i as nat, m as nat), c.fields@[m]@))
            =~= Seq::new(j as nat, |m: int| (clause_field_key(i as nat, m as nat), c.fields@[m]@)).push(
            (clause_field_key(i as nat, j as nat), c.fields@[j as int]@)));
        j += 1;
    }
    match &c.operator {
        Some(o) => push_pair(pairs, clause_key_string(i, "][operator]"), o.to_string()),
        None => {},
    }
    assert(pairs_text(pairs@) =~= start + clause_pairs(i as nat, *c));
}

fn push_condition(pairs: &mut Vec<(String, String)>, i: usize, f: &QueryFilter)
    ensures
        pairs_text(final(pairs)@) == pairs_text(old(pairs)@) + condition_pairs(i as nat, *f),
{
    let ghost start = pairs_text(pairs@);
    push_pair(pairs, condition_key_string(i, "][field]"), f.field.clone());
    push_pair(pairs, condition_key_string(i, "][value][]"), f.value.clone());
    if f.negate {
        push_pair(pairs, condition_key_string(i, "][negate]"), "1".to_owned());
    }
    match &f.operator {
        Some(o) => {
            push_pair(pairs, condition_key_string(i, "][operator]"), o.to_string());
        },
        None => {},
    }
    assert(pairs_text(pairs@) =~= start + condition_pairs(i as nat, *f));
}

/// The operator of the first filter in `fs` that has one.
fn find_first_operator(fs: &Vec<QueryFilter>) -> (r: Option<FilterOperator>)
    ensures
        r == first_operator(fs@),
{
    let mut found: Option<FilterOperator> = None;
    let mut i: usize = 0;
    while i < fs.len()
        invariant
            i <= fs@.len(),
            found == first_operator(fs@.take(i as int)),
        decreases fs@.len() - i,
    {
        assert(fs@.take(i + 1).drop_last() =~= fs@.take(i as int));
        if found.is_none() {
            found = fs[i].operator;
        }
        i += 1;
    }
    assert(fs@.take(i as int) =~= fs@);
    found
}

fn push_filters(pairs: &mut Vec<(String, String)>, fs: &Vec<QueryFilter>)
    ensures
        pairs_text(final(pairs)@) == pairs_text(old(pairs)@) + filter_pairs(fs@),
{
    let ghost start = pairs_text(pairs@);
    // The first operator present among the conditions is the group's own; every
    // condition still carries its own operator as well.
    let top = find_first_operator(fs);
    match top {
        Some(o) => push_pair(pairs, "filter[operator]".to_owned(), o.to_string()),
        None => {},
    }
    let ghost head = pairs_text(pairs@);
    assert(head =~= start + optional_pair("filter[operator]"@, operator_opt_text(first_operator(fs@))));
    let mut i: usize = 0;
    while i < fs.len()
        invariant
            i <= fs@.len(),
            pairs_text(pairs@) == head + conditions_pairs(fs@.take(i as int)),
        decreases fs@.len() - i,
    {
        push_condition(pairs, i, &fs[i]);
        assert(fs@.take(i + 1).drop_last() =~= fs@.take(i as int));
        assert(pairs_text(pairs@) =~= head + conditions_pairs(fs@.take(i + 1)));
        i += 1;
    }
    assert(fs@.take(i as int) =~= fs@);
    assert(pairs_text(pairs@) =~= start + filter_pairs(fs@));
}

fn push_clauses(pairs: &mut Vec<(String, String)>, qs: &Vec<QueryQuery>)
    ensures
        pairs_text(final(pairs)@) == pairs_text(old(pairs)@) + clauses_pairs(qs@),
{
    let ghost start = pairs_text(pairs@);
    let mut i: usize = 0;
    while i < qs.len()
        invariant
            i <= qs@.len(),
            pairs_text(pairs@) == start + clauses_pairs(qs@.take(i as int)),
        decreases qs@.len() - i,
    {
        push_clause(pairs, i, &qs[i]);
        assert(qs@.take(i + 1).drop_last() =~= qs@.take(i as int));
        assert(pairs_text(pairs@) =~= start + clauses_pairs(qs@.take(i + 1)));
        i += 1;
    }
    assert(qs@.take(i as int) =~= qs@);
}

fn push_sort(pairs: &mut Vec<(String, String)>, ss: &Vec<SortDescriptor>)
    ensures
        pairs_text(final(pairs)@) == pairs_text(old(pairs)@) + sort_pairs(ss@),
{
    let ghost start = pairs_text(pairs@);
    let mut i: usize = 0;
    while i < ss.len()
        invariant
            i <= ss@.len(),
            pairs_text(pairs@) == start + sort_pairs(ss@.take(i as int)),
        decreases ss@.len() - i,
    {
        let mut v = ss[i].field.clone();
        v.push(':');
        v.push_str(ss[i].direction.to_string().as_str());
        proof {
            reveal_strlit(":");
            assert(v@ =~= sort_text(ss@[i as int]));
        }
        push_pair(pairs, "sort[]".to_owned(), v);
        assert(sort_pairs(ss@.take(i + 1)) =~= sort_pairs(ss@.take(i as int)).push(("sort[]"@, sort_text(ss@[i as int]))));
        i += 1;
    }
    assert(ss@.take(i as int) =~= ss@);
}

/// A query with nothing set.
pub open spec fn is_blank(q: QueryParams) -> bool {
    &&& q.query@.len() == 0
    &&& q.filter@.len() == 0
    &&& q.verbose is None
    &&& q.limit is None
    &&& q.offset is None
    &&& q.sort@.len() == 0
    &&& q.profile is None
    &&& q.preset is None
    &&& q.include_fields@.len() == 0
    &&& q.exclude_fields@.len() == 0
}

impl QueryParams {
    /// A query with nothing set.
    pub fn new() -> (r: Self)
        ensures
            is_blank(r),
    {
        QueryParams {
            query: Vec::new(),
            filter: Vec::new(),
            verbose: None,
            limit: None,
            offset: None,
            sort: Vec::new(),
            profile: None,
            preset: None,
            include_fields: Vec::new(),
            exclude_fields: Vec::new(),
        }
    }

    /// Adds a search clause after those already there.
    pub fn query(self, query: QueryQuery) -> (r: Self)
        ensures
            r == (QueryParams { query: r.query, ..self }),
            r.query@ == self.query@.push(query),
    {
        let mut q = self;
        q.query.push(query);
        q
    }

    /// Adds search clauses, in order, after those already there.
    pub fn queries(self, queries: Vec<QueryQuery>) -> (r: Self)
        ensures
            r == (QueryParams { query: r.query, ..self }),
            r.query@ == self.query@ + queries@,
    {
        let mut q = self;
        let mut queries = queries;
        q.query.append(&mut queries);
        q
    }

    /// Adds a condition after those already there.
    pub fn filter(self, filter: QueryFilter) -> (r: Self)
        ensures
            r == (QueryParams { filter: r.filter, ..self }),
            r.filter@ == self.filter@.push(filter),
    {
        let mut q = self;
        q.filter.push(filter);
        q
    }

    /// Adds conditions, in order, after those already there.
    pub fn filters(self, filters: Vec<QueryFilter>) -> (r: Self)
        ensures
            r == (QueryParams { filter: r.filter, ..self }),
            r.filter@ == self.filter@ + filters@,
    {
        let mut q = self;
        let mut filters = filters;
        q.filter.append(&mut filters);
        q
    }

    pub fn verbose(self, v: bool) -> (r: Self)
        ensures
            r == (QueryParams { verbose: Some(v), ..self }),
    {
        let mut q = self;
        q.verbose = Some(v);
        q
    }

    pub fn limit(self, l: u32) -> (r: Self)
        ensures
            r == (QueryParams { limit: Some(l), ..self }),
    {
        let mut q = self;
        q.limit = Some(l);
        q
    }

    pub fn offset(self, o: u32) -> (r: Self)
        ensures
            r == (QueryParams { offset: Some(o), ..self }),
    {
        let mut q = self;
        q.offset = Some(o);
        q
    }

    /// Adds sort keys, in order, after those already there.
    pub fn sort(self, sort: Vec<SortDescriptor>) -> (r: Self)
        ensures
            r == (QueryParams { sort: r.sort, ..self }),
            r.sort@ == self.sort@ + sort@,
    {
        let mut q = self;
        let mut sort = sort;
        q.sort.append(&mut sort);
        q
    }

    pub fn profile(self, profile: QueryProfile) -> (r: Self)
        ensures
            r == (QueryParams { profile: Some(profile), ..self }),
    {
        let mut q = self;
        q.profile = Some(profile);
        q
    }

    pub fn preset(self, preset: QueryPreset) -> (r: Self)
        ensures
            r == (QueryParams { preset: Some(preset), ..self }),
    {
        let mut q = self;
        q.preset = Some(preset);
        q
    }

    /// Adds field paths to return, in order, after those already there.
    pub fn include_fields(self, fields: Vec<String>) -> (r: Self)
        ensures
            r == (QueryParams { include_fields: r.include_fields, ..self }),
            r.include_fields@ == self.include_fields@ + fields@,
    {
        let mut q = self;
        let mut fields = fields;
        q.include_fields.append(&mut fields);
        q
    }

    /// Adds field paths to leave out, in order, after those already there.
    pub fn exclude_fields(self, fields: Vec<String>) -> (r: Self)
        ensures
            r == (QueryParams { exclude_fields: r.exclude_fields, ..self }),
            r.exclude_fields@ == self.exclude_fields@ + fields@,
    {
        let mut q = self;
        let mut fields = fields;
        q.exclude_fields.append(&mut fields);
        q
    }
}

impl Default for QueryParams {
    fn default() -> (r: Self)
        ensures
            is_blank(r),
    {
        QueryParams::new()
    }
}

impl QueryParams {
    fn push_scalars(&self, pairs: &mut Vec<(String, String)>)
        ensures
            pairs_text(final(pairs)@) == pairs_text(old(pairs)@) + scalar_pairs(*self),
    {
        let ghost s0 = pairs_text(pairs@);
        push_optional(pairs, "verbose", verbose_value(self.verbose));
        push_optional(pairs, "limit", number_value(self.limit));
        push_optional(pairs, "offset", number_value(self.offset));
        let profile = match &self.profile {
            Some(p) => Some(p.to_string()),
            None => None,
        };
        push_optional(pairs, "profile", profile);
        let preset = match &self.preset {
            Some(p) => Some(p.to_string()),
            None => None,
        };
        push_optional(pairs, "preset", preset);
        assert(pairs_text(pairs@) =~= s0 + scalar_pairs(*self));
    }

    /// Appends the pairs that this query encodes to, in order, after those
    /// already in `pairs`.
    pub fn append_pairs(&self, pairs: &mut Vec<(String, String)>)
        ensures
            pairs_text(final(pairs)@) == pairs_text(old(pairs)@) + encoded(*self),
    {
        let ghost start = pairs_text(pairs@);
        self.push_scalars(pairs);
        push_repeated(pairs, "fields[include][]", &self.include_fields);
        push_repeated(pairs, "fields[exclude][]", &self.exclude_fields);
        push_clauses(pairs, &self.query);
        push_filters(pairs, &self.filter);
        push_sort(pairs, &self.sort);
        assert(pairs_text(pairs@) =~= start + encoded(*self));
    }

    /// The pairs that this query encodes to, in order.
    pub fn to_pairs(&self) -> (r: Vec<(String, String)>)
        ensures
            pairs_text(r@) == encoded(*self),
    {
        let mut r: Vec<(String, String)> = Vec::new();
        self.append_pairs(&mut r);
        assert(pairs_text(r@) =~= encoded(*self));
        r
    }
}

/// A query with only a profile and fields to return and to leave out encodes
/// to exactly those, in that order.
pub proof fn lemma_encoded_field_selection(q: QueryParams)
    requires
        q.query@.len() == 0,
        q.filter@.len() == 0,
        q.verbose is None,
        q.limit is None,
        q.offset is None,
        q.sort@.len() == 0,
        q.preset is None,
    ensures
        encoded(q) == optional_pair("profile"@, profile_opt_text(q.profile))
            + repeated_pairs(include_key(), q.include_fields@)
            + repeated_pairs(exclude_key(), q.exclude_fields@),
{
    assert(first_operator(q.filter@) is None);
    assert(sort_pairs(q.sort@) =~= seq![]);
    assert(encoded(q) =~= optional_pair("profile"@, profile_opt_text(q.profile))
        + repeated_pairs(include_key(), q.include_fields@)
        + repeated_pairs(exclude_key(), q.exclude_fields@));
}

} // verus!
