//! What the REST service's endpoints decide: the CQL they run and the answer they give.
use vstd::prelude::*;
use crate::api::error::{text_result, ApiError, ApiErrorView};
use crate::api::helpers::{
    column_types_from_rows, column_types_result, filter_result, identifier_result, order_result, parse_filter, parse_order_clause,
    validate_identifier, ColumnTypes,
};
use crate::codec::{base64_decode, base64_decoding, base64_encodable, base64_encode, base64_encoding};
use crate::cql::{literal_text, quote, unquoted_type};
use crate::json::{member_names, JsonValue};
use crate::api::helpers::{column_type, json_to_cql_literal};
use crate::text::{
    contains, contains_chars, escape_quotes, push_escaped, push_decimal_usize,
    chars_of, clamp, clamp_i32, collect_all, decimal, join, join_strings, lemma_collect_all_err,
    lemma_collect_all_ok, lemma_collect_all_step, lookup, lookup_pairs, owned_str, pair_views, parse_i32,
    parse_i32_chars, push_decimal, split, split_chars, trim, trim_chars, views, vviews, string_of,
};

verus! {

/// Query parameters name each key once, as a map of them does.
pub open spec fn distinct_keys(params: Seq<(Seq<char>, Seq<char>)>) -> bool {
    forall|i: int, j: int| 0 <= i < j < params.len() ==> #[trigger] params[i].0 != #[trigger] params[j].0
}

/// Whether no key occurs twice among the query parameters.
pub fn has_distinct_keys(params: &Vec<(String, String)>) -> (b: bool)
    ensures
        b == distinct_keys(pair_views(params@)),
{
    let n = params.len();
    let ghost pv = pair_views(params@);
    let mut j: usize = 0;
    while j < n
        invariant
            j <= n == params@.len(),
            pv == pair_views(params@),
            forall|a: int, b: int| 0 <= a < b < j ==> #[trigger] pv[a].0 != #[trigger] pv[b].0,
        decreases n - j,
    {
        let mut i: usize = 0;
        while i < j
            invariant
                i <= j < n == params@.len(),
                pv == pair_views(params@),
                forall|a: int, b: int| 0 <= a < b < j ==> #[trigger] pv[a].0 != #[trigger] pv[b].0,
                forall|a: int| 0 <= a < i ==> #[trigger] pv[a].0 != pv[j as int].0,
            decreases j - i,
        {
            if params[i].0 == params[j].0 {
                assert(pv[i as int].0 == pv[j as int].0);
                return false;
            }
            i = i + 1;
        }
        j = j + 1;
    }
    true
}

/// Query parameters that are not filters.
pub open spec fn is_reserved(k: Seq<char>) -> bool {
    k == "select"@ || k == "order"@ || k == "limit"@ || k == "page_token"@
}

fn is_reserved_exec(k: &String) -> (b: bool)
    ensures
        b == is_reserved(k@),
{
    *k == owned_str("select") || *k == owned_str("order") || *k == owned_str("limit") || *k
        == owned_str("page_token")
}

/// The WHERE fragments of the filter parameters, in order; the first refused filter stops it.
pub open spec fn where_result(
    params: Seq<(Seq<char>, Seq<char>)>,
    types: Seq<(Seq<char>, Seq<char>)>,
) -> Result<Seq<Seq<char>>, ApiErrorView>
    decreases params.len(),
{
    if params.len() == 0 {
        Ok(Seq::empty())
    } else {
        match where_result(params.drop_last(), types) {
            Err(e) => Err(e),
            Ok(done) => {
                let (k, v) = params.last();
                if is_reserved(k) {
                    Ok(done)
                } else {
                    match filter_result(k, v, types) {
                        Ok(f) => Ok(done.push(f)),
                        Err(e) => Err(e),
                    }
                }
            },
        }
    }
}

proof fn lemma_where_err(
    params: Seq<(Seq<char>, Seq<char>)>,
    i: int,
    types: Seq<(Seq<char>, Seq<char>)>,
)
    requires
        0 <= i <= params.len(),
        where_result(params.take(i), types) is Err,
    ensures
        where_result(params, types) == where_result(params.take(i), types),
    decreases params.len() - i,
{
    if i < params.len() {
        assert(params.take(i + 1).drop_last() =~= params.take(i));
        lemma_where_err(params, i + 1, types);
    } else {
        assert(params.take(i) =~= params);
    }
}

/// The WHERE fragments of the filter parameters among `params`.
pub fn where_fragments(params: &Vec<(String, String)>, col_types: &ColumnTypes) -> (r: Result<
    Vec<String>,
    ApiError,
>)
    requires
        distinct_keys(pair_views(params@)),
    ensures
        match r {
            Ok(v) => where_result(pair_views(params@), col_types@) == Ok::<
                Seq<Seq<char>>,
                ApiErrorView,
            >(views(v@)),
            Err(e) => where_result(pair_views(params@), col_types@) == Err::<
                Seq<Seq<char>>,
                ApiErrorView,
            >(e@),
        },
{
    let ghost ps = pair_views(params@);
    let mut parts: Vec<String> = Vec::new();
    let n = params.len();
    let mut i: usize = 0;
    assert(ps.take(0) =~= Seq::<(Seq<char>, Seq<char>)>::empty());
    assert(views(parts@) =~= Seq::<Seq<char>>::empty());
    while i < n
        invariant
            i <= n == params@.len(),
            ps == pair_views(params@),
            where_result(ps.take(i as int), col_types@) == Ok::<Seq<Seq<char>>, ApiErrorView>(
                views(parts@),
            ),
        decreases n - i,
    {
        assert(ps.take(i + 1).drop_last() =~= ps.take(i as int));
        assert(ps.take(i + 1).last() == ps[i as int]);
        let (k, v) = (&params[i].0, &params[i].1);
        if !is_reserved_exec(k) {
            match parse_filter(k.as_str(), v.as_str(), col_types) {
                Err(e) => {
                    proof {
                        lemma_where_err(ps, i + 1, col_types@);
                    }
                    return Err(e);
                },
                Ok(f) => {
                    let ghost before = parts@;
                    parts.push(f.cql_fragment);
                    assert(views(parts@) =~= views(before).push(parts@.last()@));
                },
            }
        }
        i = i + 1;
    }
    assert(ps.take(n as int) =~= ps);
    Ok(parts)
}

/// The column list of a SELECT: `JSON *`, or `JSON` and the columns of `select`.
pub open spec fn select_list(params: Seq<(Seq<char>, Seq<char>)>) -> Result<
    Seq<char>,
    ApiErrorView,
> {
    match lookup(params, "select"@) {
        None => Ok("JSON *"@),
        Some(s) => match collect_all(split(s, ','), |c: Seq<char>| identifier_result(trim(c))) {
            Ok(cols) => Ok("JSON "@ + join(cols, ", "@)),
            Err(e) => Err(e),
        },
    }
}

fn select_list_exec(params: &Vec<(String, String)>) -> (r: Result<String, ApiError>)
    ensures
        text_result(r) == select_list(pair_views(params@)),
{
    match lookup_pairs(params, "select") {
        None => Ok(owned_str("JSON *")),
        Some(s) => {
            let sv = chars_of(s.as_str());
            let pieces = split_chars(&sv, ',');
            let ghost ps = split(s@, ',');
            let ghost f = |c: Seq<char>| identifier_result(trim(c));
            let mut cols: Vec<String> = Vec::new();
            let n = pieces.len();
            let mut i: usize = 0;
            assert(ps.take(0) =~= Seq::<Seq<char>>::empty());
            assert(views(cols@) =~= Seq::<Seq<char>>::empty());
            while i < n
                invariant
                    i <= n == pieces@.len(),
                    vviews(pieces@) == ps,
                    ps == split(s@, ','),
                    lookup(pair_views(params@), "select"@) == Some(s@),
                    f == (|c: Seq<char>| identifier_result(trim(c))),
                    collect_all(ps.take(i as int), f) == Ok::<Seq<Seq<char>>, ApiErrorView>(
                        views(cols@),
                    ),
                decreases n - i,
            {
                proof {
                    lemma_collect_all_step(ps, i as int, f);
                }
                assert(ps[i as int] == pieces@[i as int]@);
                let t = trim_chars(&pieces[i]);
                match validate_identifier(string_of(&t).as_str()) {
                    Err(e) => {
                        proof {
                            lemma_collect_all_err(ps, i + 1, f);
                        }
                        return Err(e);
                    },
                    Ok(c) => {
                        let ghost before = cols@;
                        cols.push(c);
                        assert(views(cols@) =~= views(before).push(cols@.last()@));
                    },
                }
                i = i + 1;
            }
            assert(ps.take(n as int) =~= ps);
            let mut r = owned_str("JSON ");
            r.append(join_strings(&cols, ", ").as_str());
            Ok(r)
        },
    }
}

/// The page size: `limit` where it reads as an `i32`, else 100; clamped to 1..=1000.
pub open spec fn page_size(params: Seq<(Seq<char>, Seq<char>)>) -> i32 {
    let requested: i32 = match lookup(params, "limit"@) {
        Some(l) => match parse_i32(l) {
            Some(x) => x,
            None => 100,
        },
        None => 100,
    };
    clamp(requested as int, 1, 1000) as i32
}

fn page_size_exec(params: &Vec<(String, String)>) -> (r: i32)
    ensures
        r == page_size(pair_views(params@)),
{
    let requested: i32 = match lookup_pairs(params, "limit") {
        Some(l) => match parse_i32_chars(&chars_of(l.as_str())) {
            Some(x) => x,
            None => 100,
        },
        None => 100,
    };
    clamp_i32(requested, 1, 1000)
}

/// The paging state that `page_token` carries: none without it, its Base64 bytes with it.
pub open spec fn paging_result(params: Seq<(Seq<char>, Seq<char>)>) -> Result<
    Option<Seq<u8>>,
    ApiErrorView,
> {
    match lookup(params, "page_token"@) {
        None => Ok(None),
        Some(t) => match base64_decoding(t) {
            Some(b) => Ok(Some(b)),
            None => Err(ApiErrorView::BadRequest("invalid page_token"@)),
        },
    }
}

/// The ORDER BY list, where `order` is given.
pub open spec fn order_opt(params: Seq<(Seq<char>, Seq<char>)>) -> Result<
    Option<Seq<char>>,
    ApiErrorView,
> {
    match lookup(params, "order"@) {
        None => Ok(None),
        Some(s) => match order_result(s) {
            Ok(o) => Ok(Some(o)),
            Err(e) => Err(e),
        },
    }
}

/// The SELECT statement: projection, filters, order, limit, and `ALLOW FILTERING` last when
/// there is a filter.
pub open spec fn select_cql(
    keyspace: Seq<char>,
    table: Seq<char>,
    sel: Seq<char>,
    wp: Seq<Seq<char>>,
    order: Option<Seq<char>>,
    limit: i32,
) -> Seq<char> {
    let base = "SELECT "@ + sel + " FROM "@ + keyspace + "."@ + table;
    let w = if wp.len() > 0 {
        base + " WHERE "@ + join(wp, " AND "@)
    } else {
        base
    };
    let o = match order {
        Some(o) => w + " ORDER BY "@ + o,
        None => w,
    };
    let l = o + " LIMIT "@ + decimal(limit as int);
    if wp.len() > 0 {
        l + " ALLOW FILTERING"@
    } else {
        l
    }
}

/// What a read runs: its statement, the page size, where the page starts, and whether it
/// filters.
pub struct SelectPlan {
    pub cql: String,
    pub page_size: i32,
    /// The paging state to resume from; `None` for the first page.
    pub paging_state: Option<Vec<u8>>,
    /// Whether a WHERE clause was applied (and with it `ALLOW FILTERING`).
    pub filtered: bool,
}

pub struct SelectPlanView {
    pub cql: Seq<char>,
    pub page_size: i32,
    pub paging_state: Option<Seq<u8>>,
    pub filtered: bool,
}

impl View for SelectPlan {
    type V = SelectPlanView;

    open spec fn view(&self) -> SelectPlanView {
        SelectPlanView {
            cql: self.cql@,
            page_size: self.page_size,
            paging_state: match self.paging_state {
                Some(b) => Some(b@),
                None => None,
            },
            filtered: self.filtered,
        }
    }
}

/// The plan of `GET /{table}`; the first of its checks that fails decides the error.
pub open spec fn select_plan(
    keyspace: Seq<char>,
    table: Seq<char>,
    params: Seq<(Seq<char>, Seq<char>)>,
    types: Seq<(Seq<char>, Seq<char>)>,
) -> Result<SelectPlanView, ApiErrorView> {
    match select_list(params) {
        Err(e) => Err(e),
        Ok(sel) => match where_result(params, types) {
            Err(e) => Err(e),
            Ok(wp) => match order_opt(params) {
                Err(e) => Err(e),
                Ok(order) => match paging_result(params) {
                    Err(e) => Err(e),
                    Ok(ps) => Ok(
                        SelectPlanView {
                            cql: select_cql(keyspace, table, sel, wp, order, page_size(params)),
                            page_size: page_size(params),
                            paging_state: ps,
                            filtered: wp.len() > 0,
                        },
                    ),
                },
            },
        },
    }
}

/// Plans `GET /{table}` on a checked table name, from the query parameters and the table's
/// column types.
pub fn plan_select(
    keyspace: &str,
    table: &str,
    params: &Vec<(String, String)>,
    col_types: &ColumnTypes,
) -> (r: Result<SelectPlan, ApiError>)
    requires
        distinct_keys(pair_views(params@)),
    ensures
        match r {
            Ok(p) => select_plan(keyspace@, table@, pair_views(params@), col_types@) == Ok::<
                SelectPlanView,
                ApiErrorView,
            >(p@),
            Err(e) => select_plan(keyspace@, table@, pair_views(params@), col_types@) == Err::<
                SelectPlanView,
                ApiErrorView,
            >(e@),
        },
        // A cursor handed out in `X-Next-Page-Token` resumes at the state it was made from.
        r matches Ok(p) ==> forall|b: Seq<u8>|
            lookup(pair_views(params@), "page_token"@) == Some(#[trigger] base64_encoding(b))
                ==> p@.paging_state == Some(b),
{
    let sel = match select_list_exec(params) {
        Ok(s) => s,
        Err(e) => return Err(e),
    };
    let wp = match where_fragments(params, col_types) {
        Ok(w) => w,
        Err(e) => return Err(e),
    };
    let order = match lookup_pairs(params, "order") {
        None => None,
        Some(s) => match parse_order_clause(s.as_str()) {
            Ok(o) => Some(o),
            Err(e) => return Err(e),
        },
    };
    let limit = page_size_exec(params);
    let paging = match lookup_pairs(params, "page_token") {
        None => None,
        Some(t) => match base64_decode(t.as_str()) {
            Some(b) => Some(b),
            None => return Err(ApiError::BadRequest(owned_str("invalid page_token"))),
        },
    };
    let filtered = wp.len() > 0;
    let mut cql = owned_str("SELECT ");
    cql.append(sel.as_str());
    cql.append(" FROM ");
    cql.append(keyspace);
    cql.append(".");
    cql.append(table);
    if filtered {
        cql.append(" WHERE ");
        cql.append(join_strings(&wp, " AND ").as_str());
    }
    match &order {
        Some(o) => {
            cql.append(" ORDER BY ");
            cql.append(o.as_str());
        },
        None => {},
    }
    cql.append(" LIMIT ");
    push_decimal(&mut cql, limit as i64);
    if filtered {
        cql.append(" ALLOW FILTERING");
    }
    Ok(SelectPlan { cql, page_size: limit, paging_state: paging, filtered })
}

} // verus!

verus! {

/// The statement that inserts one row given as the compact JSON text of an object.
pub open spec fn insert_cql(keyspace: Seq<char>, table: Seq<char>, text: Seq<char>) -> Seq<char> {
    "INSERT INTO "@ + keyspace + "."@ + table + " JSON '"@ + escape_quotes(text) + "'"@
}

/// The rows of a POST body: the elements of an array, or the one object; `None` otherwise.
pub open spec fn body_rows(body: JsonValue) -> Option<Seq<JsonValue>> {
    match body {
        JsonValue::Array(elems, _) => Some(elems@),
        JsonValue::Object(_, _) => Some(seq![body]),
        _ => None,
    }
}

/// The inserts for the rows, one per row in order, up to the first row that is no object;
/// and whether there was such a row.
pub open spec fn insert_statements(
    keyspace: Seq<char>,
    table: Seq<char>,
    rows: Seq<JsonValue>,
) -> (Seq<Seq<char>>, bool)
    decreases rows.len(),
{
    if rows.len() == 0 {
        (Seq::empty(), false)
    } else {
        let (done, failed) = insert_statements(keyspace, table, rows.drop_last());
        if failed {
            (done, true)
        } else {
            match rows.last() {
                JsonValue::Object(_, t) => (done.push(insert_cql(keyspace, table, t@)), false),
                _ => (done, true),
            }
        }
    }
}

proof fn lemma_insert_failed(keyspace: Seq<char>, table: Seq<char>, rows: Seq<JsonValue>, i: int)
    requires
        0 <= i <= rows.len(),
        insert_statements(keyspace, table, rows.take(i)).1,
    ensures
        insert_statements(keyspace, table, rows) == insert_statements(
            keyspace,
            table,
            rows.take(i),
        ),
    decreases rows.len() - i,
{
    if i < rows.len() {
        assert(rows.take(i + 1).drop_last() =~= rows.take(i));
        lemma_insert_failed(keyspace, table, rows, i + 1);
    } else {
        assert(rows.take(i) =~= rows);
    }
}

/// The writes of `POST /{table}`: the inserts to run in order, and the error to answer with
/// once they have run, if a row is no object.
pub struct InsertPlan {
    pub statements: Vec<String>,
    pub error: Option<ApiError>,
}

/// The message for a row that is no object.
pub open spec fn not_object_error() -> ApiErrorView {
    ApiErrorView::BadRequest("each element must be a JSON object"@)
}

/// The plan of `POST /{table}` on a checked table name: the body must be an object or an
/// array; each row in order is inserted, up to the first that is no object.
pub open spec fn insert_plan_ok(
    keyspace: Seq<char>,
    table: Seq<char>,
    body: JsonValue,
    p: InsertPlan,
) -> bool {
    match body_rows(body) {
        Some(rows) => {
            let (stmts, failed) = insert_statements(keyspace, table, rows);
            &&& views(p.statements@) == stmts
            &&& match p.error {
                Some(e) => failed && e@ == not_object_error(),
                None => !failed,
            }
        },
        None => false,
    }
}

fn push_insert(stmts: &mut Vec<String>, keyspace: &str, table: &str, text: &String)
    ensures
        views(final(stmts)@) == views(old(stmts)@).push(insert_cql(keyspace@, table@, text@)),
{
    let mut c = owned_str("INSERT INTO ");
    c.append(keyspace);
    c.append(".");
    c.append(table);
    c.append(" JSON '");
    push_escaped(&mut c, &chars_of(text.as_str()));
    c.append("'");
    let ghost before = stmts@;
    stmts.push(c);
    assert(views(stmts@) =~= views(before).push(insert_cql(keyspace@, table@, text@)));
}

/// Plans `POST /{table}` on a checked table name: the table must exist (it has schema rows,
/// else `NotFound`); then the body decides.
pub fn plan_insert_rows(
    keyspace: &str,
    table: &str,
    schema_rows: Vec<(String, String)>,
    body: &JsonValue,
) -> (r: Result<InsertPlan, ApiError>)
    ensures
        match column_types_result(keyspace@, table@, pair_views(schema_rows@)) {
            Err(e) => r matches Err(x) && x@ == e,
            Ok(_) => match r {
                Ok(p) => insert_plan_ok(keyspace@, table@, *body, p),
                Err(e) => body_rows(*body) is None && e@ == ApiErrorView::BadRequest(
                    "body must be a JSON object or array of objects"@,
                ),
            },
        },
{
    match column_types_from_rows(keyspace, table, schema_rows) {
        Err(e) => Err(e),
        Ok(_) => plan_inserts(keyspace, table, body),
    }
}

fn plan_inserts(keyspace: &str, table: &str, body: &JsonValue) -> (r: Result<
    InsertPlan,
    ApiError,
>)
    ensures
        match r {
            Ok(p) => insert_plan_ok(keyspace@, table@, *body, p),
            Err(e) => body_rows(*body) is None && e@ == ApiErrorView::BadRequest(
                "body must be a JSON object or array of objects"@,
            ),
        },
{
    let mut stmts: Vec<String> = Vec::new();
    match body {
        JsonValue::Object(_, t) => {
            push_insert(&mut stmts, keyspace, table, t);
            proof {
                let rows = seq![*body];
                assert(rows.drop_last() =~= Seq::<JsonValue>::empty());
                assert(insert_statements(keyspace@, table@, Seq::<JsonValue>::empty()) == (
                    Seq::<Seq<char>>::empty(),
                    false,
                ));
                assert(rows.last() == *body);
                assert(views(stmts@) =~= insert_statements(keyspace@, table@, rows).0);
            }
            Ok(InsertPlan { statements: stmts, error: None })
        },
        JsonValue::Array(elems, _) => {
            let n = elems.len();
            let mut i: usize = 0;
            assert(elems@.take(0) =~= Seq::<JsonValue>::empty());
            assert(views(stmts@) =~= Seq::<Seq<char>>::empty());
            assert(body_rows(*body) == Some(elems@));
            while i < n
                invariant
                    i <= n == elems@.len(),
                    body_rows(*body) == Some(elems@),
                    insert_statements(keyspace@, table@, elems@.take(i as int)) == (
                        views(stmts@),
                        false,
                    ),
                decreases n - i,
            {
                assert(elems@.take(i + 1).drop_last() =~= elems@.take(i as int));
                assert(elems@.take(i + 1).last() == elems@[i as int]);
                match &elems[i] {
                    JsonValue::Object(_, t) => {
                        push_insert(&mut stmts, keyspace, table, t);
                    },
                    _ => {
                        proof {
                            assert(insert_statements(keyspace@, table@, elems@.take(i + 1)) == (
                                views(stmts@),
                                true,
                            ));
                            lemma_insert_failed(keyspace@, table@, elems@, i + 1);
                            assert(body_rows(*body) == Some(elems@));
                        }
                        return Ok(
                            InsertPlan {
                                statements: stmts,
                                error: Some(
                                    ApiError::BadRequest(
                                        owned_str("each element must be a JSON object"),
                                    ),
                                ),
                            },
                        );
                    },
                }
                i = i + 1;
            }
            assert(elems@.take(n as int) =~= elems@);
            assert(body_rows(*body) == Some(elems@));
            Ok(InsertPlan { statements: stmts, error: None })
        },
        _ => Err(ApiError::BadRequest(owned_str("body must be a JSON object or array of objects"))),
    }
}

/// Whether a `Prefer` header asks for the inserted rows back.
pub fn prefers_representation(prefer: Option<&str>) -> (b: bool)
    ensures
        b == match prefer {
            Some(h) => contains(h@, "return=representation"@),
            None => false,
        },
{
    match prefer {
        Some(h) => contains_chars(&chars_of(h), &chars_of("return=representation")),
        None => false,
    }
}

/// One SET assignment of a PATCH body member.
pub open spec fn set_item(
    types: Seq<(Seq<char>, Seq<char>)>,
    m: (String, JsonValue),
) -> Result<Seq<char>, ApiErrorView> {
    match identifier_result(m.0@) {
        Err(e) => Err(e),
        Ok(c) => Ok(c + " = "@ + literal_text(m.1.literal(), column_type(types, c))),
    }
}

/// The plan of `PATCH /{table}` on a checked table name: the body must be a non-empty object
/// and there must be a filter. Filter errors come before assignment errors.
pub open spec fn update_plan(
    keyspace: Seq<char>,
    table: Seq<char>,
    body: JsonValue,
    params: Seq<(Seq<char>, Seq<char>)>,
    types: Seq<(Seq<char>, Seq<char>)>,
) -> Result<Seq<char>, ApiErrorView> {
    match body {
        JsonValue::Object(members, _) => if members@.len() == 0 {
            Err(ApiErrorView::BadRequest("request body must not be empty"@))
        } else {
            match where_result(params, types) {
                Err(e) => Err(e),
                Ok(wp) => if wp.len() == 0 {
                    Err(
                        ApiErrorView::BadRequest(
                            "PATCH requires at least one filter query param (e.g. ?id=eq.1)"@,
                        ),
                    )
                } else {
                    match collect_all(members@, |m: (String, JsonValue)| set_item(types, m)) {
                        Err(e) => Err(e),
                        Ok(sp) => Ok(
                            "UPDATE "@ + keyspace + "."@ + table + " SET "@ + join(sp, ", "@)
                                + " WHERE "@ + join(wp, " AND "@),
                        ),
                    }
                },
            }
        },
        _ => Err(ApiErrorView::BadRequest("request body must be a JSON object"@)),
    }
}

fn set_items(members: &Vec<(String, JsonValue)>, col_types: &ColumnTypes) -> (r: Result<
    Vec<String>,
    ApiError,
>)
    ensures
        match r {
            Ok(v) => collect_all(members@, |m: (String, JsonValue)| set_item(col_types@, m))
                == Ok::<Seq<Seq<char>>, ApiErrorView>(views(v@)),
            Err(e) => collect_all(members@, |m: (String, JsonValue)| set_item(col_types@, m))
                == Err::<Seq<Seq<char>>, ApiErrorView>(e@),
        },
{
    let ghost f = |m: (String, JsonValue)| set_item(col_types@, m);
    let mut parts: Vec<String> = Vec::new();
    let n = members.len();
    let mut i: usize = 0;
    assert(members@.take(0) =~= Seq::<(String, JsonValue)>::empty());
    assert(views(parts@) =~= Seq::<Seq<char>>::empty());
    while i < n
        invariant
            i <= n == members@.len(),
            f == (|m: (String, JsonValue)| set_item(col_types@, m)),
            collect_all(members@.take(i as int), f) == Ok::<Seq<Seq<char>>, ApiErrorView>(
                views(parts@),
            ),
        decreases n - i,
    {
        proof {
            lemma_collect_all_step(members@, i as int, f);
        }
        match validate_identifier(members[i].0.as_str()) {
            Err(e) => {
                proof {
                    lemma_collect_all_err(members@, i + 1, f);
                }
                return Err(e);
            },
            Ok(c) => {
                let dt = col_types.type_of(c.as_str());
                let lit = json_to_cql_literal(&members[i].1, dt.as_str());
                let mut part = c;
                part.append(" = ");
                part.append(lit.as_str());
                let ghost before = parts@;
                parts.push(part);
                assert(views(parts@) =~= views(before).push(parts@.last()@));
            },
        }
        i = i + 1;
    }
    assert(members@.take(n as int) =~= members@);
    Ok(parts)
}

/// Plans `PATCH /{table}` on a checked table name.
pub fn plan_update(
    keyspace: &str,
    table: &str,
    body: &JsonValue,
    params: &Vec<(String, String)>,
    col_types: &ColumnTypes,
) -> (r: Result<String, ApiError>)
    requires
        distinct_keys(pair_views(params@)),
        body matches JsonValue::Object(m, _) ==> member_names(m@).no_duplicates(),
    ensures
        text_result(r) == update_plan(keyspace@, table@, *body, pair_views(params@), col_types@),
{
    match body {
        JsonValue::Object(members, _) => {
            if members.len() == 0 {
                return Err(ApiError::BadRequest(owned_str("request body must not be empty")));
            }
            let wp = match where_fragments(params, col_types) {
                Ok(w) => w,
                Err(e) => return Err(e),
            };
            if wp.len() == 0 {
                return Err(
                    ApiError::BadRequest(
                        owned_str("PATCH requires at least one filter query param (e.g. ?id=eq.1)"),
                    ),
                );
            }
            let sp = match set_items(members, col_types) {
                Ok(s) => s,
                Err(e) => return Err(e),
            };
            let mut cql = owned_str("UPDATE ");
            cql.append(keyspace);
            cql.append(".");
            cql.append(table);
            cql.append(" SET ");
            cql.append(join_strings(&sp, ", ").as_str());
            cql.append(" WHERE ");
            cql.append(join_strings(&wp, " AND ").as_str());
            Ok(cql)
        },
        _ => Err(ApiError::BadRequest(owned_str("request body must be a JSON object"))),
    }
}

/// The plan of `DELETE /{table}` on a checked table name: there must be a filter.
pub open spec fn delete_plan(
    keyspace: Seq<char>,
    table: Seq<char>,
    params: Seq<(Seq<char>, Seq<char>)>,
    types: Seq<(Seq<char>, Seq<char>)>,
) -> Result<Seq<char>, ApiErrorView> {
    match where_result(params, types) {
        Err(e) => Err(e),
        Ok(wp) => if wp.len() == 0 {
            Err(
                ApiErrorView::BadRequest(
                    "DELETE requires at least one filter query param (e.g. ?id=eq.1)"@,
                ),
            )
        } else {
            Ok("DELETE FROM "@ + keyspace + "."@ + table + " WHERE "@ + join(wp, " AND "@))
        },
    }
}

/// Plans `DELETE /{table}` on a checked table name.
pub fn plan_delete(
    keyspace: &str,
    table: &str,
    params: &Vec<(String, String)>,
    col_types: &ColumnTypes,
) -> (r: Result<String, ApiError>)
    requires
        distinct_keys(pair_views(params@)),
    ensures
        text_result(r) == delete_plan(keyspace@, table@, pair_views(params@), col_types@),
{
    let wp = match where_fragments(params, col_types) {
        Ok(w) => w,
        Err(e) => return Err(e),
    };
    if wp.len() == 0 {
        return Err(
            ApiError::BadRequest(
                owned_str("DELETE requires at least one filter query param (e.g. ?id=eq.1)"),
            ),
        );
    }
    let mut cql = owned_str("DELETE FROM ");
    cql.append(keyspace);
    cql.append(".");
    cql.append(table);
    cql.append(" WHERE ");
    cql.append(join_strings(&wp, " AND ").as_str());
    Ok(cql)
}

/// The `Content-Range` header of a page of `n` rows: `0-{n-1}/{n}`, the first bound 0 when the
/// page is empty.
pub open spec fn content_range_text(n: nat) -> Seq<char> {
    "0-"@ + decimal(if n == 0 {
        0
    } else {
        n - 1
    }) + "/"@ + decimal(n as int)
}

pub fn content_range(n: usize) -> (r: String)
    ensures
        r@ == content_range_text(n as nat),
{
    let mut r = owned_str("0-");
    push_decimal_usize(&mut r, if n == 0 { 0 } else { n - 1 });
    r.append("/");
    push_decimal_usize(&mut r, n);
    r
}

/// The `X-Next-Page-Token` for the paging state the database handed back.
pub fn next_page_token(state: &[u8]) -> (r: String)
    requires
        base64_encodable(state@.len()),
    ensures
        r@ == base64_encoding(state@),
        base64_decoding(r@) == Some(state@),
{
    base64_encode(state)
}

/// The `X-Next-Page-Token` header of a page: present exactly when the database reports more
/// pages, as the token of the state it handed back.
pub fn page_token_header(more: Option<&[u8]>) -> (r: Option<String>)
    requires
        more matches Some(b) ==> base64_encodable(b@.len()),
    ensures
        match more {
            None => r is None,
            Some(b) => r matches Some(t) && t@ == base64_encoding(b@) && base64_decoding(t@) == Some(
                b@,
            ),
        },
{
    match more {
        None => None,
        Some(b) => Some(next_page_token(b)),
    }
}

} // verus!

verus! {

/// The page size of a read is always within 1..=1000, and 100 when no `limit` is given.
pub proof fn law_page_size_in_range(params: Seq<(Seq<char>, Seq<char>)>)
    ensures
        1 <= page_size(params) <= 1000,
        lookup(params, "limit"@) is None ==> page_size(params) == 100,
{
}

proof fn lemma_where_counts_filters(
    params: Seq<(Seq<char>, Seq<char>)>,
    types: Seq<(Seq<char>, Seq<char>)>,
)
    ensures
        where_result(params, types) matches Ok(wp) ==> (wp.len() > 0 <==> exists|i: int|
            0 <= i < params.len() && !is_reserved(#[trigger] params[i].0)),
    decreases params.len(),
{
    if params.len() > 0 {
        let init = params.drop_last();
        lemma_where_counts_filters(init, types);
        if let Ok(wp) = where_result(params, types) {
            if let Ok(prev) = where_result(init, types) {
                if exists|i: int| 0 <= i < init.len() && !is_reserved(#[trigger] init[i].0) {
                    let i = choose|i: int| 0 <= i < init.len() && !is_reserved(#[trigger] init[i].0);
                    assert(params[i] == init[i]);
                }
                if !is_reserved(params.last().0) {
                    assert(params[params.len() - 1] == params.last());
                } else {
                    assert forall|i: int| 0 <= i < params.len() && !is_reserved(#[trigger] params[i].0)
                        implies 0 <= i < init.len() && !is_reserved(init[i].0) by {
                        if i < init.len() {
                            assert(params[i] == init[i]);
                        }
                    }
                }
            }
        }
    }
}

/// A read filters (and answers with the `allow-filtering-applied` warning) exactly when a query
/// parameter other than `select`, `order`, `limit` and `page_token` is given; its statement
/// then ends with `ALLOW FILTERING`, after the LIMIT.
pub proof fn law_filtering_follows_filters(
    keyspace: Seq<char>,
    table: Seq<char>,
    params: Seq<(Seq<char>, Seq<char>)>,
    types: Seq<(Seq<char>, Seq<char>)>,
)
    ensures
        select_plan(keyspace, table, params, types) matches Ok(p) ==> {
            &&& p.filtered <==> exists|i: int|
                0 <= i < params.len() && !is_reserved(#[trigger] params[i].0)
            &&& p.filtered ==> exists|pre: Seq<char>| p.cql == pre + " ALLOW FILTERING"@
        },
{
    lemma_where_counts_filters(params, types);
    if let Ok(p) = select_plan(keyspace, table, params, types) {
        if p.filtered {
            let sel = select_list(params)->Ok_0;
            let wp = where_result(params, types)->Ok_0;
            let order = order_opt(params)->Ok_0;
            let base = "SELECT "@ + sel + " FROM "@ + keyspace + "."@ + table;
            let w = base + " WHERE "@ + join(wp, " AND "@);
            let o = match order {
                Some(o) => w + " ORDER BY "@ + o,
                None => w,
            };
            let pre = o + " LIMIT "@ + decimal(page_size(params) as int);
            assert(p.cql == pre + " ALLOW FILTERING"@);
        }
    }
}

/// Without a filter parameter, an update or a delete is refused: no request touches every row
/// of a table.
pub proof fn law_writes_need_a_filter(
    keyspace: Seq<char>,
    table: Seq<char>,
    body: JsonValue,
    params: Seq<(Seq<char>, Seq<char>)>,
    types: Seq<(Seq<char>, Seq<char>)>,
)
    requires
        forall|i: int| 0 <= i < params.len() ==> is_reserved(#[trigger] params[i].0),
    ensures
        delete_plan(keyspace, table, params, types) is Err,
        update_plan(keyspace, table, body, params, types) is Err,
{
    lemma_where_counts_filters(params, types);
}

/// A read whose `page_token` decodes to a paging state hands the database that very state.
/// With `page_token_header`, whose token decodes to the state the database handed back, the
/// cursor of one page resumes the read where that page stopped.
pub proof fn law_page_token_resumes(
    keyspace: Seq<char>,
    table: Seq<char>,
    params: Seq<(Seq<char>, Seq<char>)>,
    types: Seq<(Seq<char>, Seq<char>)>,
    token: Seq<char>,
    state: Seq<u8>,
)
    requires
        lookup(params, "page_token"@) == Some(token),
        base64_decoding(token) == Some(state),
    ensures
        select_plan(keyspace, table, params, types) matches Ok(p) ==> p.paging_state == Some(
            state,
        ),
        paging_result(params) == Ok::<Option<Seq<u8>>, ApiErrorView>(Some(state)),
{
}

/// A PATCH sets each member of its body, in the body's order, to the literal of its value for
/// the column's declared type: the column (trimmed), ` = `, then the literal; a string for a
/// column whose type names `uuid` or `inet` stands unquoted, any other string is quoted. The
/// WHERE clause holds the filters joined by ` AND `.
pub proof fn law_update_sets_follow_column_types(
    keyspace: Seq<char>,
    table: Seq<char>,
    body: JsonValue,
    params: Seq<(Seq<char>, Seq<char>)>,
    types: Seq<(Seq<char>, Seq<char>)>,
)
    ensures
        update_plan(keyspace, table, body, params, types) matches Ok(cql) ==> {
            &&& body matches JsonValue::Object(members, _)
            &&& where_result(params, types) matches Ok(wp)
            &&& {
                let ms = body->Object_0@;
                let sets = ms.map_values(
                    |m: (String, JsonValue)|
                        trim(m.0@) + " = "@ + literal_text(
                            m.1.literal(),
                            column_type(types, trim(m.0@)),
                        ),
                );
                &&& cql == "UPDATE "@ + keyspace + "."@ + table + " SET "@ + join(sets, ", "@)
                    + " WHERE "@ + join(where_result(params, types)->Ok_0, " AND "@)
                &&& forall|i: int|
                    0 <= i < ms.len() ==> ((#[trigger] ms[i]).1 matches JsonValue::Str(s) ==> sets[i]
                        == trim(ms[i].0@) + " = "@ + (if unquoted_type(
                        column_type(types, trim(ms[i].0@)),
                    ) {
                        s@
                    } else {
                        quote(s@)
                    }))
            }
        },
{
    if let Ok(cql) = update_plan(keyspace, table, body, params, types) {
        let ms = body->Object_0@;
        let f = |m: (String, JsonValue)| set_item(types, m);
        lemma_collect_all_ok(ms, f);
        let sp = collect_all(ms, f)->Ok_0;
        let sets = ms.map_values(
            |m: (String, JsonValue)|
                trim(m.0@) + " = "@ + literal_text(m.1.literal(), column_type(types, trim(m.0@))),
        );
        assert forall|i: int| 0 <= i < ms.len() implies sp[i] == sets[i] by {
            assert(f(ms[i]) == Ok::<Seq<char>, ApiErrorView>(sp[i]));
        }
        assert(sp =~= sets);
    }
}

} // verus!
