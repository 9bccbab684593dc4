use localbase::api::error::ApiError;
use localbase::api::handlers::{
    content_range, has_distinct_keys, next_page_token, page_token_header, plan_delete, plan_insert_rows, plan_select, plan_update,
    prefers_representation,
};
use localbase::api::helpers::{
    column_types_from_rows, json_to_cql_literal, parse_filter, parse_order_clause,
    str_to_cql_literal, validate_identifier, ColumnTypes,
};
use localbase::api::models::health;
use localbase::json::JsonValue;

fn s(x: &str) -> String {
    x.to_string()
}

fn types() -> ColumnTypes {
    ColumnTypes {
        entries: vec![
            (s("id"), s("uuid")),
            (s("age"), s("int")),
            (s("status"), s("text")),
            (s("name"), s("text")),
            (s("addr"), s("INET")),
        ],
    }
}

fn params(pairs: &[(&str, &str)]) -> Vec<(String, String)> {
    pairs.iter().map(|(k, v)| (s(k), s(v))).collect()
}

fn bad(e: ApiError) -> String {
    match e {
        ApiError::BadRequest(m) => m,
        _ => panic!("expected a bad request"),
    }
}

fn fragment(col: &str, raw: &str) -> String {
    match parse_filter(col, raw, &types()) {
        Ok(f) => f.cql_fragment,
        Err(_) => panic!("filter refused"),
    }
}

fn filter_error(col: &str, raw: &str) -> String {
    match parse_filter(col, raw, &types()) {
        Ok(_) => panic!("filter accepted"),
        Err(e) => bad(e),
    }
}

#[test]
fn identifier_is_trimmed() {
    assert_eq!(validate_identifier("  users ").ok(), Some(s("users")));
    assert_eq!(validate_identifier("user_2").ok(), Some(s("user_2")));
}

#[test]
fn identifier_empty_is_refused() {
    assert_eq!(bad(validate_identifier("   ").err().unwrap()), "identifier cannot be empty");
    assert_eq!(bad(validate_identifier("").err().unwrap()), "identifier cannot be empty");
}

#[test]
fn identifier_with_other_chars_is_refused() {
    assert_eq!(
        bad(validate_identifier(" users; drop ").err().unwrap()),
        "identifier 'users; drop' may only contain ASCII letters, digits, and underscores"
    );
    assert!(validate_identifier("a-b").is_err());
    assert!(validate_identifier("naïve").is_err());
}

#[test]
fn identifier_checked_twice_is_unchanged() {
    let once = validate_identifier("\t orders \n").ok().unwrap();
    assert_eq!(validate_identifier(&once).ok(), Some(once.clone()));
}

#[test]
fn filter_comparisons() {
    assert_eq!(fragment("age", "eq.30"), "age = 30");
    assert_eq!(fragment("age", "neq.30"), "age != 30");
    assert_eq!(fragment("age", "gt.30"), "age > 30");
    assert_eq!(fragment("age", "gte.30"), "age >= 30");
    assert_eq!(fragment("age", "lt.30"), "age < 30");
    assert_eq!(fragment("age", "lte.30"), "age <= 30");
}

#[test]
fn filter_text_values_are_quoted() {
    assert_eq!(fragment("status", "eq.active"), "status = 'active'");
    assert_eq!(fragment("name", "eq.O'Brien"), "name = 'O''Brien'");
    assert_eq!(fragment("status", "eq.\"hi\""), "status = 'hi'");
    assert_eq!(fragment("unknown_col", "eq.x"), "unknown_col = 'x'");
}

#[test]
fn filter_json_values_stand_as_written() {
    assert_eq!(fragment("status", "eq.true"), "status = true");
    assert_eq!(fragment("status", "eq.null"), "status = null");
    assert_eq!(fragment("age", "eq.1.50"), "age = 1.5");
    assert_eq!(fragment("status", "eq.[1, 2]"), "status = [1,2]");
}

#[test]
fn filter_uuid_and_inet_are_unquoted() {
    assert_eq!(
        fragment("id", "eq.550e8400-e29b-41d4-a716-446655440000"),
        "id = 550e8400-e29b-41d4-a716-446655440000"
    );
    assert_eq!(fragment("addr", "eq.10.0.0.1"), "addr = 10.0.0.1");
}

#[test]
fn filter_in_list() {
    assert_eq!(fragment("status", "in.(shoes,bags,hats)"), "status IN ('shoes', 'bags', 'hats')");
    assert_eq!(fragment("age", "in.(1, 2,3)"), "age IN (1, 2, 3)");
    assert_eq!(fragment("age", "in.((7))"), "age IN (7)");
}

#[test]
fn filter_is_null() {
    assert_eq!(fragment("status", "is.null"), "status IS NULL");
    assert_eq!(fragment("status", "is.NuLL"), "status IS NULL");
    assert_eq!(filter_error("status", "is.empty"), "'is' operator only supports 'null'");
}

#[test]
fn filter_without_operator_is_refused() {
    assert_eq!(
        filter_error("age", "30"),
        "filter for 'age' must be in format 'op.value' (e.g. eq.5, gt.10, in.(a,b,c))"
    );
}

#[test]
fn filter_with_unknown_operator_is_refused() {
    assert_eq!(
        filter_error("age", "like.3"),
        "unknown operator 'like'; supported: eq neq gt gte lt lte in is"
    );
    assert_eq!(filter_error("bad col", "eq.3"), "identifier 'bad col' may only contain ASCII letters, digits, and underscores");
}

#[test]
fn literals_by_type() {
    assert_eq!(json_to_cql_literal(&JsonValue::Null, "text"), "null");
    assert_eq!(json_to_cql_literal(&JsonValue::Bool(false), "boolean"), "false");
    assert_eq!(json_to_cql_literal(&JsonValue::Number(s("-12")), "int"), "-12");
    assert_eq!(json_to_cql_literal(&JsonValue::Str(s("it's")), "text"), "'it''s'");
    assert_eq!(json_to_cql_literal(&JsonValue::Str(s("abc")), "TimeUUID"), "abc");
    let arr = JsonValue::Array(vec![JsonValue::Number(s("1"))], s("[1]"));
    assert_eq!(json_to_cql_literal(&arr, "list<int>"), "[1]");
    assert_eq!(str_to_cql_literal("plain text", "varchar"), "'plain text'");
    assert_eq!(str_to_cql_literal("{\"a\": 1}", "map<text,int>"), "{\"a\":1}");
}

#[test]
fn order_clause() {
    assert_eq!(
        parse_order_clause("created_at.desc,name.asc").ok(),
        Some(s("created_at DESC, name ASC"))
    );
    assert_eq!(parse_order_clause(" name ").ok(), Some(s("name ASC")));
    assert_eq!(parse_order_clause("name.DESC").ok(), Some(s("name DESC")));
}

#[test]
fn order_clause_refusals() {
    assert_eq!(
        bad(parse_order_clause("name.up").err().unwrap()),
        "order direction must be 'asc' or 'desc', got 'up'"
    );
    assert_eq!(
        bad(parse_order_clause("name . DESC").err().unwrap()),
        "order direction must be 'asc' or 'desc', got ' desc'"
    );
    assert_eq!(bad(parse_order_clause("a.asc,").err().unwrap()), "identifier cannot be empty");
}

#[test]
fn missing_table_is_not_found() {
    match column_types_from_rows("public", "users", vec![]) {
        Err(ApiError::NotFound(m)) => assert_eq!(m, "table 'users' not found in keyspace 'public'"),
        _ => panic!("expected not found"),
    }
    assert!(column_types_from_rows("public", "users", vec![(s("id"), s("uuid"))]).is_ok());
}

#[test]
fn later_schema_row_wins() {
    let t = ColumnTypes { entries: vec![(s("c"), s("int")), (s("c"), s("uuid"))] };
    assert_eq!(t.type_of("c"), "uuid");
    assert_eq!(t.type_of("d"), "text");
}

#[test]
fn select_all_rows_by_default() {
    let p = plan_select("public", "users", &params(&[]), &types()).ok().unwrap();
    assert_eq!(p.cql, "SELECT JSON * FROM public.users LIMIT 100");
    assert_eq!(p.page_size, 100);
    assert!(p.paging_state.is_none());
    assert!(!p.filtered);
}

#[test]
fn select_with_everything() {
    let ps = params(&[
        ("select", "id, name"),
        ("status", "eq.active"),
        ("order", "created_at.desc"),
        ("limit", "20"),
    ]);
    let p = plan_select("public", "users", &ps, &types()).ok().unwrap();
    assert_eq!(
        p.cql,
        "SELECT JSON id, name FROM public.users WHERE status = 'active' ORDER BY created_at DESC LIMIT 20 ALLOW FILTERING"
    );
    assert!(p.filtered);
    assert_eq!(p.page_size, 20);
}

#[test]
fn select_filters_are_joined_with_and() {
    let ps = params(&[("age", "gte.18"), ("status", "eq.active")]);
    let p = plan_select("public", "users", &ps, &types()).ok().unwrap();
    assert_eq!(
        p.cql,
        "SELECT JSON * FROM public.users WHERE age >= 18 AND status = 'active' LIMIT 100 ALLOW FILTERING"
    );
}

#[test]
fn select_limit_is_clamped() {
    let size = |l: &str| plan_select("ks", "t", &params(&[("limit", l)]), &types()).ok().unwrap().page_size;
    assert_eq!(size("5000"), 1000);
    assert_eq!(size("0"), 1);
    assert_eq!(size("-5"), 1);
    assert_eq!(size("+7"), 7);
    assert_eq!(size("abc"), 100);
    assert_eq!(size("99999999999"), 100);
    assert_eq!(size(" 5"), 100);
}

#[test]
fn page_token_resumes_where_it_left() {
    let state = vec![0u8, 1, 2, 250, 251, 255];
    let token = next_page_token(&state);
    let p = plan_select("ks", "t", &params(&[("page_token", &token)]), &types()).ok().unwrap();
    assert_eq!(p.paging_state, Some(state));
    assert_eq!(next_page_token(b"abc"), "YWJj");
}

#[test]
fn bad_page_token_is_refused() {
    let e = plan_select("ks", "t", &params(&[("page_token", "!!!")]), &types()).err().unwrap();
    assert_eq!(bad(e), "invalid page_token");
}

#[test]
fn select_errors_come_in_order() {
    let ps = params(&[("select", "id,bad-col"), ("age", "like.3")]);
    let e = plan_select("ks", "t", &ps, &types()).err().unwrap();
    assert_eq!(bad(e), "identifier 'bad-col' may only contain ASCII letters, digits, and underscores");
    let ps = params(&[("age", "like.3"), ("order", "x.sideways")]);
    let e = plan_select("ks", "t", &ps, &types()).err().unwrap();
    assert_eq!(bad(e), "unknown operator 'like'; supported: eq neq gt gte lt lte in is");
}

#[test]
fn content_range_header() {
    assert_eq!(content_range(0), "0-0/0");
    assert_eq!(content_range(1), "0-0/1");
    assert_eq!(content_range(42), "0-41/42");
}

#[test]
fn prefer_header() {
    assert!(prefers_representation(Some("return=representation")));
    assert!(prefers_representation(Some("count=exact, return=representation")));
    assert!(!prefers_representation(Some("return=minimal")));
    assert!(!prefers_representation(None));
}

fn schema() -> Vec<(String, String)> {
    vec![(s("id"), s("uuid")), (s("name"), s("text"))]
}

fn object(text: &str) -> JsonValue {
    JsonValue::Object(vec![], s(text))
}

#[test]
fn insert_one_object() {
    let body = JsonValue::Object(
        vec![(s("name"), JsonValue::Str(s("O'Brien")))],
        s("{\"name\":\"O'Brien\"}"),
    );
    let p = plan_insert_rows("public", "users", schema(), &body).ok().unwrap();
    assert_eq!(p.statements, vec![s("INSERT INTO public.users JSON '{\"name\":\"O''Brien\"}'")]);
    assert!(p.error.is_none());
}

#[test]
fn insert_array_stops_at_first_non_object() {
    let body = JsonValue::Array(
        vec![object("{\"a\":1}"), JsonValue::Number(s("5")), object("{\"a\":2}")],
        s("[{\"a\":1},5,{\"a\":2}]"),
    );
    let p = plan_insert_rows("ks", "t", schema(), &body).ok().unwrap();
    assert_eq!(p.statements, vec![s("INSERT INTO ks.t JSON '{\"a\":1}'")]);
    assert_eq!(bad(p.error.unwrap()), "each element must be a JSON object");
}

#[test]
fn insert_array_of_objects() {
    let body = JsonValue::Array(vec![object("{\"a\":1}"), object("{\"a\":2}")], s("[..]"));
    let p = plan_insert_rows("ks", "t", schema(), &body).ok().unwrap();
    assert_eq!(p.statements.len(), 2);
    assert_eq!(p.statements[1], "INSERT INTO ks.t JSON '{\"a\":2}'");
    let empty = JsonValue::Array(vec![], s("[]"));
    let p = plan_insert_rows("ks", "t", schema(), &empty).ok().unwrap();
    assert!(p.statements.is_empty() && p.error.is_none());
}

#[test]
fn insert_scalar_body_is_refused() {
    let e = plan_insert_rows("ks", "t", schema(), &JsonValue::Str(s("x"))).err().unwrap();
    assert_eq!(bad(e), "body must be a JSON object or array of objects");
}

#[test]
fn update_by_filter() {
    let body = JsonValue::Object(
        vec![(s("name"), JsonValue::Str(s("Alice Smith"))), (s("age"), JsonValue::Number(s("31")))],
        s("{..}"),
    );
    let ps = params(&[("id", "eq.550e8400-e29b-41d4-a716-446655440000")]);
    let cql = plan_update("public", "users", &body, &ps, &types()).ok().unwrap();
    assert_eq!(
        cql,
        "UPDATE public.users SET name = 'Alice Smith', age = 31 WHERE id = 550e8400-e29b-41d4-a716-446655440000"
    );
}

#[test]
fn update_refusals() {
    let ps = params(&[("id", "eq.1")]);
    let e = plan_update("ks", "t", &JsonValue::Null, &ps, &types()).err().unwrap();
    assert_eq!(bad(e), "request body must be a JSON object");
    let e = plan_update("ks", "t", &object("{}"), &ps, &types()).err().unwrap();
    assert_eq!(bad(e), "request body must not be empty");
    let body = JsonValue::Object(vec![(s("bad col"), JsonValue::Null)], s("{..}"));
    let e = plan_update("ks", "t", &body, &params(&[("limit", "3")]), &types()).err().unwrap();
    assert_eq!(bad(e), "PATCH requires at least one filter query param (e.g. ?id=eq.1)");
    let e = plan_update("ks", "t", &body, &params(&[("age", "zz.1")]), &types()).err().unwrap();
    assert_eq!(bad(e), "unknown operator 'zz'; supported: eq neq gt gte lt lte in is");
    let e = plan_update("ks", "t", &body, &ps, &types()).err().unwrap();
    assert_eq!(bad(e), "identifier 'bad col' may only contain ASCII letters, digits, and underscores");
}

#[test]
fn delete_needs_a_filter() {
    let e = plan_delete("ks", "t", &params(&[("order", "a")]), &types()).err().unwrap();
    assert_eq!(bad(e), "DELETE requires at least one filter query param (e.g. ?id=eq.1)");
    let cql = plan_delete("ks", "sessions", &params(&[("expires_at", "lte.2026-01-01")]), &types())
        .ok()
        .unwrap();
    assert_eq!(cql, "DELETE FROM ks.sessions WHERE expires_at <= '2026-01-01'");
}

#[test]
fn errors_answer_with_status_and_message() {
    let e = ApiError::BadRequest(s("x"));
    assert_eq!(e.status_code(), 400);
    assert_eq!(e.message(), "bad request: x");
    let e = ApiError::NotFound(s("y"));
    assert_eq!(e.status_code(), 404);
    assert_eq!(e.message(), "not found: y");
    let e = ApiError::Db(s("z"));
    assert_eq!(e.status_code(), 500);
    assert_eq!(e.message(), "database error: z");
}

#[test]
fn health_is_ok() {
    let h = health();
    assert_eq!(h.status, "ok");
    assert_eq!(h.service, "scylladb-api");
}

#[test]
fn insert_into_a_missing_table_is_not_found() {
    match plan_insert_rows("ks", "ghost", vec![], &object("{\"a\":1}")) {
        Err(ApiError::NotFound(m)) => assert_eq!(m, "table 'ghost' not found in keyspace 'ks'"),
        _ => panic!("expected not found"),
    }
    match plan_insert_rows("ks", "ghost", vec![], &JsonValue::Null) {
        Err(e) => assert_eq!(e.status_code(), 404),
        Ok(_) => panic!("expected not found"),
    }
}

#[test]
fn query_parameter_keys_are_distinct() {
    assert!(has_distinct_keys(&params(&[("a", "eq.1"), ("b", "eq.2"), ("limit", "3")])));
    assert!(has_distinct_keys(&params(&[])));
    assert!(!has_distinct_keys(&params(&[("a", "eq.1"), ("b", "eq.2"), ("a", "eq.3")])));
}

#[test]
fn page_token_header_only_with_more_pages() {
    assert_eq!(page_token_header(None), None);
    assert_eq!(page_token_header(Some(b"abc")), Some(s("YWJj")));
    let state: Vec<u8> = vec![0, 255, 7, 42, 9];
    let token = page_token_header(Some(&state)).unwrap();
    let p = plan_select("ks", "t", &params(&[("page_token", &token)]), &types()).ok().unwrap();
    assert_eq!(p.paging_state, Some(state));
}
