//! Identifiers and query rewriting of the metadata service.
use vstd::prelude::*;
use crate::cql::{check_identifier, identifier_check};
use crate::meta::error::{text_result, ApiError, ApiErrorView};
use crate::text::{
    byte_len, chars_of, eq_ignore_ascii_case, is_whitespace, lemma_byte_len_ascii,
    lemma_strip_start_shape, lemma_trim_fixed, lemma_trim_idempotent, lemma_trim_shape, owned_str, is_whitespace_exec,
    pair_views, slicing_ok, slicing_ok_chars, starts_with_ci, starts_with_ci_chars, strip_start,
    strip_start_chars, string_of, strips, sub_chars, trim, trim_chars, Strip,
};

pub use crate::cql::{column_type, json_to_cql_literal, ColumnTypes};

verus! {

/// The check of an identifier, with its error as the service reports it.
pub open spec fn identifier_result(s: Seq<char>) -> Result<Seq<char>, ApiErrorView> {
    match identifier_check(s) {
        Ok(t) => Ok(t),
        Err(m) => Err(ApiErrorView::BadRequest(m)),
    }
}

/// Validates a CQL identifier (keyspace / table / column name) to prevent injection.
/// Only allows ASCII alphanumerics and underscores.
pub fn validate_identifier(s: &str) -> (r: Result<String, ApiError>)
    ensures
        text_result(r) == identifier_result(s@),
{
    match check_identifier(s) {
        Ok(t) => Ok(t),
        Err(m) => Err(ApiError::BadRequest(m)),
    }
}

/// The column types of a table from the rows its schema query gave (no rows, no types).
pub fn column_types_from_rows(rows: Vec<(String, String)>) -> (r: ColumnTypes)
    ensures
        r@ == pair_views(rows@),
{
    ColumnTypes { entries: rows }
}

/// Whether the rewriting of a query slices its text on character boundaries only: after
/// `SELECT`, and after `JSON` where the query is a SELECT (the slicing panics otherwise).
pub open spec fn select_json_ok(query: Seq<char>) -> bool {
    let t = trim(query);
    &&& slicing_ok(t, 6)
    &&& starts_with_ci(t, "select"@) ==> slicing_ok(
        strip_start(Strip::Whitespace, t.skip("select"@.len() as int)),
        4,
    )
}

/// Whether a text starts with the word `JSON` (in any case): the four letters, then
/// whitespace or the end of the text. A column named `json_data` is no such word.
pub open spec fn starts_with_json_word(s: Seq<char>) -> bool {
    starts_with_ci(s, "json"@) && (s.len() == 4 || is_whitespace(s[4]))
}

/// A SELECT query rewritten to `SELECT JSON`, so that each row comes back as one JSON text;
/// any other query, and one that already reads `SELECT JSON`, only trimmed.
pub open spec fn inject_select_json(query: Seq<char>) -> Seq<char> {
    let t = trim(query);
    if starts_with_ci(t, "select"@) {
        let after = strip_start(Strip::Whitespace, t.skip("select"@.len() as int));
        if starts_with_json_word(after) {
            t
        } else {
            "SELECT JSON "@ + after
        }
    } else {
        t
    }
}

proof fn lemma_select_prefix(r: Seq<char>, after: Seq<char>)
    requires
        r == "SELECT JSON "@ + after,
    ensures
        slicing_ok(r, 6),
        starts_with_ci(r, "select"@),
        strip_start(Strip::Whitespace, r.skip("select"@.len() as int)) == "JSON "@ + after,
        slicing_ok("JSON "@ + after, 4),
        starts_with_json_word("JSON "@ + after),
{
    reveal_strlit("SELECT JSON ");
    reveal_strlit("JSON ");
    reveal_strlit("select");
    reveal_strlit("json");
    let head = r.take(6);
    assert(head =~= seq!['S', 'E', 'L', 'E', 'C', 'T']);
    lemma_byte_len_ascii(head);
    assert(byte_len(r.take(6)) == 6);
    assert(eq_ignore_ascii_case(head, "select"@));
    let rest = r.skip(6);
    assert(rest =~= seq![' '] + ("JSON "@ + after));
    assert(rest.drop_first() =~= "JSON "@ + after);
    let j = "JSON "@ + after;
    assert(!is_whitespace(j[0]));
    assert(strip_start(Strip::Whitespace, rest.drop_first()) == j);
    assert(strip_start(Strip::Whitespace, rest) == j);
    let jh = j.take(4);
    assert(jh =~= seq!['J', 'S', 'O', 'N']);
    lemma_byte_len_ascii(jh);
    assert(byte_len(j.take(4)) == 4);
    assert(eq_ignore_ascii_case(jh, "json"@));
    assert(is_whitespace(j[4]));
}

/// Rewriting a query a second time changes nothing: the JSON keyword is never injected twice,
/// and what the first rewriting gives can be rewritten again without a panic. The one
/// exception is a bare `SELECT`: it becomes `SELECT JSON ` with a space at its end, which the
/// second rewriting trims.
pub proof fn law_inject_select_json_idempotent(query: Seq<char>)
    requires
        select_json_ok(query),
        !(starts_with_ci(trim(query), "select"@) && trim(query).len() == "select"@.len()),
    ensures
        select_json_ok(inject_select_json(query)),
        inject_select_json(inject_select_json(query)) == inject_select_json(query),
{
    let t = trim(query);
    lemma_trim_idempotent(query);
    lemma_trim_shape(query);
    if starts_with_ci(t, "select"@) {
        let rest = t.skip("select"@.len() as int);
        let after = strip_start(Strip::Whitespace, rest);
        if !starts_with_json_word(after) {
            reveal_strlit("select");
            lemma_strip_start_shape(Strip::Whitespace, rest);
            assert(rest.len() > 0);
            assert(rest.last() == t.last());
            if after.len() == 0 {
                assert(strips(Strip::Whitespace, rest[rest.len() - 1]));
            }
            assert(after.last() == rest.last());
            let r = "SELECT JSON "@ + after;
            reveal_strlit("SELECT JSON ");
            assert(r[0] == 'S');
            assert(r.last() == after.last());
            lemma_trim_fixed(r);
            lemma_select_prefix(r, after);
        }
    }
}

/// Whether `maybe_inject_select_json` can take `query`.
pub fn select_json_is_ok(query: &str) -> (b: bool)
    ensures
        b == select_json_ok(query@),
{
    let t = trim_chars(&chars_of(query));
    if !slicing_ok_chars(&t, 6) {
        return false;
    }
    let select = chars_of("select");
    if starts_with_ci_chars(&t, &select) {
        let rest = sub_chars(&t, select.len(), t.len());
        assert(rest@ =~= t@.skip("select"@.len() as int));
        let after = strip_start_chars(Strip::Whitespace, &rest);
        slicing_ok_chars(&after, 4)
    } else {
        true
    }
}

/// For SELECT queries in the query endpoint, injects the JSON keyword so the
/// driver returns each row as a single JSON string column (`[json]`).
/// "SELECT * FROM t" → "SELECT JSON * FROM t"
/// "SELECT JSON * FROM t" → unchanged
/// "SELECT json_data FROM t" → "SELECT JSON json_data FROM t" (a column, not the keyword)
pub fn maybe_inject_select_json(query: &str) -> (r: String)
    requires
        select_json_ok(query@),
    ensures
        r@ == inject_select_json(query@),
{
    let t = trim_chars(&chars_of(query));
    let select = chars_of("select");
    if starts_with_ci_chars(&t, &select) {
        let rest = sub_chars(&t, select.len(), t.len());
        assert(rest@ =~= t@.skip("select"@.len() as int));
        let after = strip_start_chars(Strip::Whitespace, &rest);
        let json = chars_of("json");
        proof {
            reveal_strlit("json");
        }
        let json_word = starts_with_ci_chars(&after, &json) && (after.len() == 4
            || is_whitespace_exec(after[4]));
        if json_word {
            string_of(&t)
        } else {
            let mut r = owned_str("SELECT JSON ");
            r.append(string_of(&after).as_str());
            r
        }
    } else {
        string_of(&t)
    }
}

} // verus!
