//! Identifiers, filters and orderings of the REST service.
use vstd::prelude::*;
use crate::api::error::{text_result, ApiError, ApiErrorView};
use crate::cql::{check_identifier, identifier_check, raw_literal};
use crate::text::{
    chars_eq_str, chars_of, collect_all, eq_ignore_ascii_case, lemma_collect_all_err,
    lemma_collect_all_step, to_lowercase, unicode_lowercase, eq_ignore_ascii_case_chars, join, join_strings,
    owned_str, pair_views, split, split_chars, split_once, split_once_chars, string_of, strip,
    strip_chars, trim, trim_chars, views, vviews, Strip,
};

pub use crate::cql::{column_type, json_to_cql_literal, str_to_cql_literal, ColumnTypes};

verus! {

/// The check of an identifier, with its error as the service reports it.
pub open spec fn identifier_result(s: Seq<char>) -> Result<Seq<char>, ApiErrorView> {
    match identifier_check(s) {
        Ok(t) => Ok(t),
        Err(m) => Err(ApiErrorView::BadRequest(m)),
    }
}

/// Allows only ASCII alphanumerics and underscores — prevents CQL injection.
pub fn validate_identifier(s: &str) -> (r: Result<String, ApiError>)
    ensures
        text_result(r) == identifier_result(s@),
{
    match check_identifier(s) {
        Ok(t) => Ok(t),
        Err(m) => Err(ApiError::BadRequest(m)),
    }
}

/// The column types of a table from the rows that `system_schema.columns` gave: `NotFound`
/// when there are none, as then the table does not exist.
pub open spec fn column_types_result(
    keyspace: Seq<char>,
    table: Seq<char>,
    rows: Seq<(Seq<char>, Seq<char>)>,
) -> Result<Seq<(Seq<char>, Seq<char>)>, ApiErrorView> {
    if rows.len() == 0 {
        Err(
            ApiErrorView::NotFound(
                "table '"@ + table + "' not found in keyspace '"@ + keyspace + "'"@,
            ),
        )
    } else {
        Ok(rows)
    }
}

/// The column types of `keyspace.table` from the rows its schema query gave.
pub fn column_types_from_rows(keyspace: &str, table: &str, rows: Vec<(String, String)>) -> (r:
    Result<ColumnTypes, ApiError>)
    ensures
        match r {
            Ok(t) => column_types_result(keyspace@, table@, pair_views(rows@)) == Ok::<
                Seq<(Seq<char>, Seq<char>)>,
                ApiErrorView,
            >(t@),
            Err(e) => column_types_result(keyspace@, table@, pair_views(rows@)) == Err::<
                Seq<(Seq<char>, Seq<char>)>,
                ApiErrorView,
            >(e@),
        },
{
    if rows.len() == 0 {
        let mut m = owned_str("table '");
        m.append(table);
        m.append("' not found in keyspace '");
        m.append(keyspace);
        m.append("'");
        Err(ApiError::NotFound(m))
    } else {
        Ok(ColumnTypes { entries: rows })
    }
}

/// A parsed filter ready to embed in a WHERE clause.
pub struct Filter {
    pub cql_fragment: String,
}

pub open spec fn filter_view(r: Result<Filter, ApiError>) -> Result<Seq<char>, ApiErrorView> {
    match r {
        Ok(f) => Ok(f.cql_fragment@),
        Err(e) => Err(e@),
    }
}

/// The literals of an `in` list: the value without its round brackets, split at commas, each
/// piece trimmed.
pub open spec fn in_list(v: Seq<char>, dt: Seq<char>) -> Seq<Seq<char>> {
    split(strip(Strip::Parens, v), ',').map_values(|p: Seq<char>| raw_literal(trim(p), dt))
}

/// The WHERE fragment of a comparison operator, by its name.
pub open spec fn comparison(op: Seq<char>) -> Option<Seq<char>> {
    if op == "eq"@ {
        Some(" = "@)
    } else if op == "neq"@ {
        Some(" != "@)
    } else if op == "gt"@ {
        Some(" > "@)
    } else if op == "gte"@ {
        Some(" >= "@)
    } else if op == "lt"@ {
        Some(" < "@)
    } else if op == "lte"@ {
        Some(" <= "@)
    } else {
        None
    }
}

/// A filter `col=op.value` on a checked column `c` whose type is `dt`.
pub open spec fn filter_on(c: Seq<char>, dt: Seq<char>, raw: Seq<char>) -> Result<
    Seq<char>,
    ApiErrorView,
> {
    match split_once(raw, '.') {
        None => Err(
            ApiErrorView::BadRequest(
                "filter for '"@ + c
                    + "' must be in format 'op.value' (e.g. eq.5, gt.10, in.(a,b,c))"@,
            ),
        ),
        Some((op, v)) => match comparison(op) {
            Some(sym) => Ok(c + sym + raw_literal(v, dt)),
            None => if op == "in"@ {
                Ok(c + " IN ("@ + join(in_list(v, dt), ", "@) + ")"@)
            } else if op == "is"@ {
                if eq_ignore_ascii_case(v, "null"@) {
                    Ok(c + " IS NULL"@)
                } else {
                    Err(ApiErrorView::BadRequest("'is' operator only supports 'null'"@))
                }
            } else {
                Err(
                    ApiErrorView::BadRequest(
                        "unknown operator '"@ + op + "'; supported: eq neq gt gte lt lte in is"@,
                    ),
                )
            },
        },
    }
}

/// A PostgREST-style filter `col=op.value` as a WHERE fragment.
pub open spec fn filter_result(
    col: Seq<char>,
    raw: Seq<char>,
    types: Seq<(Seq<char>, Seq<char>)>,
) -> Result<Seq<char>, ApiErrorView> {
    match identifier_result(col) {
        Err(e) => Err(e),
        Ok(c) => filter_on(c, column_type(types, c), raw),
    }
}

/// An `in` filter lists the literal of each piece between the commas of its value (without
/// the value's round brackets), the piece trimmed first, in order; so pieces that differ only
/// by the whitespace around them give the same fragment.
pub proof fn law_in_filter_trims_items(c: Seq<char>, dt: Seq<char>, raw: Seq<char>, v: Seq<char>)
    requires
        split_once(raw, '.') == Some(("in"@, v)),
    ensures
        filter_on(c, dt, raw) == Ok::<Seq<char>, ApiErrorView>(
            c + " IN ("@ + join(
                split(strip(Strip::Parens, v), ',').map_values(
                    |p: Seq<char>| raw_literal(trim(p), dt),
                ),
                ", "@,
            ) + ")"@,
        ),
{
    reveal_strlit("in");
    reveal_strlit("eq");
    reveal_strlit("neq");
    reveal_strlit("gt");
    reveal_strlit("gte");
    reveal_strlit("lt");
    reveal_strlit("lte");
    assert("in"@[0] != "eq"@[0] && "in"@[0] != "neq"@[0] && "in"@[0] != "gt"@[0]);
    assert("in"@[0] != "gte"@[0] && "in"@[0] != "lt"@[0] && "in"@[0] != "lte"@[0]);
    assert(in_list(v, dt) =~= split(strip(Strip::Parens, v), ',').map_values(
        |p: Seq<char>| raw_literal(trim(p), dt),
    ));
}

/// Two `in` filters whose pieces agree once trimmed give the same fragment.
pub proof fn law_in_filter_ignores_spaces(
    c: Seq<char>,
    dt: Seq<char>,
    raw1: Seq<char>,
    v1: Seq<char>,
    raw2: Seq<char>,
    v2: Seq<char>,
)
    requires
        split_once(raw1, '.') == Some(("in"@, v1)),
        split_once(raw2, '.') == Some(("in"@, v2)),
        split(strip(Strip::Parens, v1), ',').len() == split(strip(Strip::Parens, v2), ',').len(),
        forall|i: int|
            0 <= i < split(strip(Strip::Parens, v1), ',').len() ==> trim(
                #[trigger] split(strip(Strip::Parens, v1), ',')[i],
            ) == trim(split(strip(Strip::Parens, v2), ',')[i]),
    ensures
        filter_on(c, dt, raw1) == filter_on(c, dt, raw2),
{
    law_in_filter_trims_items(c, dt, raw1, v1);
    law_in_filter_trims_items(c, dt, raw2, v2);
    let f = |p: Seq<char>| raw_literal(trim(p), dt);
    let a = split(strip(Strip::Parens, v1), ',');
    let b = split(strip(Strip::Parens, v2), ',');
    assert(a.map_values(f) =~= b.map_values(f)) by {
        assert forall|i: int| 0 <= i < a.len() implies a.map_values(f)[i] == b.map_values(f)[i] by {
            assert(trim(a[i]) == trim(b[i]));
        }
    }
}

fn comparison_symbol(op: &[char]) -> (r: Option<&'static str>)
    ensures
        match r {
            Some(s) => comparison(op@) == Some(s@),
            None => comparison(op@) is None,
        },
{
    if chars_eq_str(op, "eq") {
        Some(" = ")
    } else if chars_eq_str(op, "neq") {
        Some(" != ")
    } else if chars_eq_str(op, "gt") {
        Some(" > ")
    } else if chars_eq_str(op, "gte") {
        Some(" >= ")
    } else if chars_eq_str(op, "lt") {
        Some(" < ")
    } else if chars_eq_str(op, "lte") {
        Some(" <= ")
    } else {
        None
    }
}

fn in_literals(v: &[char], dt: &str) -> (r: Vec<String>)
    ensures
        views(r@) == in_list(v@, dt@),
{
    let inner = strip_chars(Strip::Parens, v);
    let pieces = split_chars(&inner, ',');
    let ghost target = in_list(v@, dt@);
    assert(target.len() == vviews(pieces@).len());
    let mut items: Vec<String> = Vec::new();
    let n = pieces.len();
    let mut i: usize = 0;
    while i < n
        invariant
            i <= n == pieces@.len(),
            vviews(pieces@) == split(strip(Strip::Parens, v@), ','),
            target == in_list(v@, dt@),
            target.len() == n,
            items@.len() == i,
            views(items@) == target.take(i as int),
        decreases n - i,
    {
        let t = trim_chars(&pieces[i]);
        let lit = str_to_cql_literal(string_of(&t).as_str(), dt);
        let ghost before = items@;
        items.push(lit);
        assert(vviews(pieces@)[i as int] == pieces@[i as int]@);
        assert(target[i as int] == raw_literal(trim(pieces@[i as int]@), dt@));
        assert(views(items@)[i as int] == target[i as int]);
        assert(views(items@).take(i as int) =~= views(before));
        assert(views(items@) =~= target.take(i + 1));
        i = i + 1;
    }
    assert(target.take(n as int) =~= target);
    items
}

fn filter_fragment(c: String, dt: &str, raw: &str) -> (r: Result<Filter, ApiError>)
    ensures
        filter_view(r) == filter_on(c@, dt@, raw@),
{
    let rv = chars_of(raw);
    match split_once_chars(&rv, '.') {
        None => {
            let mut m = owned_str("filter for '");
            m.append(c.as_str());
            m.append("' must be in format 'op.value' (e.g. eq.5, gt.10, in.(a,b,c))");
            Err(ApiError::BadRequest(m))
        },
        Some((op, v)) => {
            let vs = string_of(&v);
            match comparison_symbol(&op) {
                Some(sym) => {
                    let mut f = c;
                    f.append(sym);
                    f.append(str_to_cql_literal(vs.as_str(), dt).as_str());
                    Ok(Filter { cql_fragment: f })
                },
                None => {
                    if chars_eq_str(&op, "in") {
                        let items = in_literals(&v, dt);
                        let mut f = c;
                        f.append(" IN (");
                        f.append(join_strings(&items, ", ").as_str());
                        f.append(")");
                        Ok(Filter { cql_fragment: f })
                    } else if chars_eq_str(&op, "is") {
                        let null = chars_of("null");
                        if eq_ignore_ascii_case_chars(&v, &null) {
                            let mut f = c;
                            f.append(" IS NULL");
                            Ok(Filter { cql_fragment: f })
                        } else {
                            Err(ApiError::BadRequest(owned_str("'is' operator only supports 'null'")))
                        }
                    } else {
                        let mut m = owned_str("unknown operator '");
                        m.append(string_of(&op).as_str());
                        m.append("'; supported: eq neq gt gte lt lte in is");
                        Err(ApiError::BadRequest(m))
                    }
                },
            }
        },
    }
}

/// Parse a PostgREST-style filter param: `col=op.value`.
/// Supported operators: eq neq gt gte lt lte in is
pub fn parse_filter(col: &str, raw: &str, col_types: &ColumnTypes) -> (r: Result<Filter, ApiError>)
    ensures
        filter_view(r) == filter_result(col@, raw@, col_types@),
{
    match validate_identifier(col) {
        Err(e) => Err(e),
        Ok(c) => {
            let dt = col_types.type_of(c.as_str());
            filter_fragment(c, dt.as_str(), raw)
        },
    }
}

} // verus!

verus! {

/// One item of an ordering: `col.dir` or just `col`.
pub open spec fn order_item(part: Seq<char>) -> Result<Seq<char>, ApiErrorView> {
    let p = trim(part);
    match split_once(p, '.') {
        Some((col, dir)) => match identifier_result(col) {
            Err(e) => Err(e),
            Ok(c) => {
                let d = unicode_lowercase(dir);
                if d == "asc"@ {
                    Ok(c + " ASC"@)
                } else if d == "desc"@ {
                    Ok(c + " DESC"@)
                } else {
                    Err(
                        ApiErrorView::BadRequest(
                            "order direction must be 'asc' or 'desc', got '"@ + d + "'"@,
                        ),
                    )
                }
            },
        },
        None => match identifier_result(p) {
            Err(e) => Err(e),
            Ok(c) => Ok(c + " ASC"@),
        },
    }
}

/// An ordering `col1.asc,col2.desc` as an ORDER BY list.
pub open spec fn order_result(s: Seq<char>) -> Result<Seq<char>, ApiErrorView> {
    match collect_all(split(s, ','), |p: Seq<char>| order_item(p)) {
        Ok(items) => Ok(join(items, ", "@)),
        Err(e) => Err(e),
    }
}

fn order_item_exec(part: &[char]) -> (r: Result<String, ApiError>)
    ensures
        text_result(r) == order_item(part@),
{
    let p = trim_chars(part);
    match split_once_chars(&p, '.') {
        Some((col, dir)) => match validate_identifier(string_of(&col).as_str()) {
            Err(e) => Err(e),
            Ok(c) => {
                let d = to_lowercase(string_of(&dir).as_str());
                let dv = chars_of(d.as_str());
                if chars_eq_str(&dv, "asc") {
                    let mut r = c;
                    r.append(" ASC");
                    Ok(r)
                } else if chars_eq_str(&dv, "desc") {
                    let mut r = c;
                    r.append(" DESC");
                    Ok(r)
                } else {
                    let mut m = owned_str("order direction must be 'asc' or 'desc', got '");
                    m.append(d.as_str());
                    m.append("'");
                    Err(ApiError::BadRequest(m))
                }
            },
        },
        None => match validate_identifier(string_of(&p).as_str()) {
            Err(e) => Err(e),
            Ok(c) => {
                let mut r = c;
                r.append(" ASC");
                Ok(r)
            },
        },
    }
}

/// Parse "col1.asc,col2.desc" → "col1 ASC, col2 DESC"
pub fn parse_order_clause(order_str: &str) -> (r: Result<String, ApiError>)
    ensures
        text_result(r) == order_result(order_str@),
{
    let sv = chars_of(order_str);
    let pieces = split_chars(&sv, ',');
    let ghost f = |p: Seq<char>| order_item(p);
    let ghost ps = split(order_str@, ',');
    let mut items: Vec<String> = Vec::new();
    let n = pieces.len();
    let mut i: usize = 0;
    assert(ps.take(0) =~= Seq::<Seq<char>>::empty());
    assert(views(items@) =~= Seq::<Seq<char>>::empty());
    while i < n
        invariant
            i <= n == pieces@.len(),
            vviews(pieces@) == ps,
            ps == split(order_str@, ','),
            f == (|p: Seq<char>| order_item(p)),
            collect_all(ps.take(i as int), f) == Ok::<Seq<Seq<char>>, ApiErrorView>(views(items@)),
        decreases n - i,
    {
        proof {
            lemma_collect_all_step(ps, i as int, f);
        }
        assert(ps[i as int] == pieces@[i as int]@);
        match order_item_exec(&pieces[i]) {
            Err(e) => {
                proof {
                    lemma_collect_all_err(ps, i + 1, f);
                }
                return Err(e);
            },
            Ok(item) => {
                let ghost before = items@;
                items.push(item);
                assert(views(items@) =~= views(before).push(item@));
            },
        }
        i = i + 1;
    }
    assert(ps.take(n as int) =~= ps);
    Ok(join_strings(&items, ", "))
}

} // verus!
