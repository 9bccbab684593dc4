use localbase::json::{has_distinct_members, JsonValue};
use localbase::meta::error::ApiError;
use localbase::meta::handlers::{
    check_delete_row, check_table_path, check_update_row, plan_create_keyspace,
    plan_create_table, plan_delete_row, plan_drop_keyspace, plan_drop_table, plan_execute_query,
    plan_get_rows, plan_insert_row, plan_update_row, query_is_ok, query_response,
};
use localbase::meta::helpers::{
    column_types_from_rows, json_to_cql_literal, maybe_inject_select_json, select_json_is_ok,
    validate_identifier,
};
use localbase::meta::models::{
    default_rf, default_strategy, health, ColumnDef, CreateKeyspaceBody, CreateTableBody,
    DeleteRowBody, ExecuteQueryBody, InsertRowBody, KeyspacePath, RowsQuery, TablePath,
    UpdateRowBody,
};

fn s(x: &str) -> String {
    x.to_string()
}

fn bad(e: ApiError) -> String {
    match e {
        ApiError::BadRequest(m) => m,
        ApiError::Db(_) => panic!("expected a bad request"),
    }
}

fn keyspace_body(name: &str, rf: i32, strategy: &str) -> CreateKeyspaceBody {
    CreateKeyspaceBody { name: s(name), replication_factor: rf, strategy: s(strategy) }
}

fn col(name: &str, data_type: &str, kind: &str) -> ColumnDef {
    ColumnDef { name: s(name), data_type: s(data_type), kind: s(kind) }
}

fn table_path(ks: &str, t: &str) -> TablePath {
    TablePath { keyspace: s(ks), table: s(t) }
}

fn members(pairs: Vec<(&str, JsonValue)>) -> Vec<(String, JsonValue)> {
    pairs.into_iter().map(|(k, v)| (s(k), v)).collect()
}

const ID: &str = "550e8400-e29b-41d4-a716-446655440000";

#[test]
fn inject_select_json_rewrites_a_select() {
    assert_eq!(maybe_inject_select_json("SELECT * FROM t"), "SELECT JSON * FROM t");
    assert_eq!(maybe_inject_select_json("  select   a, b from t "), "SELECT JSON a, b from t");
}

#[test]
fn inject_select_json_keeps_a_json_select() {
    assert_eq!(maybe_inject_select_json("SELECT JSON * FROM t"), "SELECT JSON * FROM t");
    assert_eq!(maybe_inject_select_json(" select json * from t"), "select json * from t");
}

#[test]
fn inject_select_json_only_trims_other_queries() {
    assert_eq!(maybe_inject_select_json("  UPDATE t SET a = 1 "), "UPDATE t SET a = 1");
    assert_eq!(maybe_inject_select_json("selec"), "selec");
}

#[test]
fn inject_select_json_on_a_bare_select() {
    assert!(select_json_is_ok("SELECT"));
    assert_eq!(maybe_inject_select_json("SELECT"), "SELECT JSON ");
}

#[test]
fn select_json_refuses_a_split_character() {
    assert!(!select_json_is_ok("selec\u{e9}x"));
    assert!(!select_json_is_ok("select a\u{e9}\u{e9}"));
    assert!(select_json_is_ok("SELECT * FROM t"));
    assert!(select_json_is_ok("\u{e9}\u{e9}\u{e9}"));
}

#[test]
fn identifiers_of_the_metadata_service() {
    assert_eq!(validate_identifier(" app ").ok(), Some(s("app")));
    assert_eq!(bad(validate_identifier("   ").err().unwrap()), "identifier cannot be empty");
    assert_eq!(
        bad(validate_identifier("a;b").err().unwrap()),
        "identifier 'a;b' may only contain ASCII letters, digits, and underscores"
    );
}

#[test]
fn create_keyspace_statement() {
    let st = plan_create_keyspace(&keyspace_body("app", 3, "SimpleStrategy")).ok().unwrap();
    assert_eq!(
        st.cql,
        "CREATE KEYSPACE IF NOT EXISTS app WITH REPLICATION = {'class': 'SimpleStrategy', \
         'replication_factor': 3} AND DURABLE_WRITES = true"
    );
    assert_eq!(st.message, "Keyspace 'app' created");
}

#[test]
fn create_keyspace_clamps_the_factor() {
    let low = plan_create_keyspace(&keyspace_body("app", 0, "NetworkTopologyStrategy")).ok().unwrap();
    assert!(low.cql.contains("'class': 'NetworkTopologyStrategy', 'replication_factor': 1}"));
    let high = plan_create_keyspace(&keyspace_body("app", 99, "SimpleStrategy")).ok().unwrap();
    assert!(high.cql.contains("'replication_factor': 10}"));
    let neg = plan_create_keyspace(&keyspace_body("app", i32::MIN, "SimpleStrategy")).ok().unwrap();
    assert!(neg.cql.contains("'replication_factor': 1}"));
}

#[test]
fn create_keyspace_refuses_an_unknown_strategy() {
    let e = plan_create_keyspace(&keyspace_body("app", 1, "simplestrategy")).err().unwrap();
    assert_eq!(bad(e), "strategy must be SimpleStrategy or NetworkTopologyStrategy");
}

#[test]
fn create_keyspace_checks_the_name_first() {
    let e = plan_create_keyspace(&keyspace_body("", 1, "Nope")).err().unwrap();
    assert_eq!(bad(e), "identifier cannot be empty");
}

#[test]
fn keyspace_body_defaults() {
    assert_eq!(default_rf(), 1);
    assert_eq!(default_strategy(), "SimpleStrategy");
}

#[test]
fn drop_keyspace_statement() {
    let st = plan_drop_keyspace(&KeyspacePath { keyspace: s(" app ") }).ok().unwrap();
    assert_eq!(st.cql, "DROP KEYSPACE IF EXISTS app");
    assert_eq!(st.message, "Keyspace 'app' dropped");
    assert!(plan_drop_keyspace(&KeyspacePath { keyspace: s("a b") }).is_err());
}

#[test]
fn drop_table_statement() {
    let st = plan_drop_table(&table_path("app", "users")).ok().unwrap();
    assert_eq!(st.cql, "DROP TABLE IF EXISTS app.users");
    assert_eq!(st.message, "Table 'app.users' dropped");
}

#[test]
fn table_path_checks_the_keyspace_first() {
    let e = check_table_path(&table_path("a-b", "c-d")).err().unwrap();
    assert_eq!(bad(e), "identifier 'a-b' may only contain ASCII letters, digits, and underscores");
    let e = check_table_path(&table_path("app", "c-d")).err().unwrap();
    assert_eq!(bad(e), "identifier 'c-d' may only contain ASCII letters, digits, and underscores");
}

#[test]
fn create_table_with_partition_and_clustering_keys() {
    let body = CreateTableBody {
        name: s("events"),
        columns: vec![
            col("id", "uuid", "partition_key"),
            col("ts", "timestamp", "clustering"),
            col("body", "text", "regular"),
        ],
    };
    let st = plan_create_table(&KeyspacePath { keyspace: s("app") }, &body).ok().unwrap();
    assert_eq!(
        st.cql,
        "CREATE TABLE IF NOT EXISTS app.events (id uuid, ts timestamp, body text, PRIMARY KEY (id, ts))"
    );
    assert_eq!(st.message, "Table 'app.events' created");
}

#[test]
fn create_table_falls_back_to_the_first_column() {
    let body = CreateTableBody {
        name: s("people"),
        columns: vec![col(" name ", "text", ""), col("age", "int", "static")],
    };
    let st = plan_create_table(&KeyspacePath { keyspace: s("app") }, &body).ok().unwrap();
    assert_eq!(
        st.cql,
        "CREATE TABLE IF NOT EXISTS app.people (name text, age int, PRIMARY KEY (name))"
    );
}

#[test]
fn create_table_with_a_composite_partition_key() {
    let body = CreateTableBody {
        name: s("t"),
        columns: vec![
            col("a", "int", "Partition_Key"),
            col("b", "int", "PARTITION"),
            col("c", "int", "clustering"),
            col("d", "int", "CLUSTERING"),
        ],
    };
    let st = plan_create_table(&KeyspacePath { keyspace: s("k") }, &body).ok().unwrap();
    assert_eq!(
        st.cql,
        "CREATE TABLE IF NOT EXISTS k.t (a int, b int, c int, d int, PRIMARY KEY ((a, b), c, d))"
    );
}

#[test]
fn create_table_needs_a_column() {
    let body = CreateTableBody { name: s("t"), columns: vec![] };
    let e = plan_create_table(&KeyspacePath { keyspace: s("k") }, &body).err().unwrap();
    assert_eq!(bad(e), "at least one column is required");
}

#[test]
fn create_table_refuses_a_bad_column() {
    let body = CreateTableBody {
        name: s("t"),
        columns: vec![col("ok", "int", ""), col("bad name", "int", ""), col("", "int", "")],
    };
    let e = plan_create_table(&KeyspacePath { keyspace: s("k") }, &body).err().unwrap();
    assert_eq!(bad(e), "identifier 'bad name' may only contain ASCII letters, digits, and underscores");
}

#[test]
fn get_rows_page_sizes() {
    let p = plan_get_rows(&table_path("app", "users"), &RowsQuery { page_size: None }).ok().unwrap();
    assert_eq!(p.cql, "SELECT JSON * FROM app.users LIMIT 100");
    assert_eq!(p.page_size, 100);
    assert_eq!((p.keyspace.as_str(), p.table.as_str()), ("app", "users"));
    let p = plan_get_rows(&table_path("app", "users"), &RowsQuery { page_size: Some(5000) }).ok().unwrap();
    assert_eq!(p.page_size, 1000);
    assert_eq!(p.cql, "SELECT JSON * FROM app.users LIMIT 1000");
    let p = plan_get_rows(&table_path("app", "users"), &RowsQuery { page_size: Some(0) }).ok().unwrap();
    assert_eq!(p.page_size, 1);
    let p = plan_get_rows(&table_path("app", "users"), &RowsQuery { page_size: Some(-7) }).ok().unwrap();
    assert_eq!(p.page_size, 1);
    let p = plan_get_rows(&table_path("app", "users"), &RowsQuery { page_size: Some(42) }).ok().unwrap();
    assert_eq!(p.cql, "SELECT JSON * FROM app.users LIMIT 42");
}

#[test]
fn insert_row_escapes_quotes() {
    let data = JsonValue::Object(
        members(vec![("name", JsonValue::Str(s("O'Brien")))]),
        s("{\"name\":\"O'Brien\"}"),
    );
    let st = plan_insert_row(&table_path("app", "users"), &InsertRowBody { data }).ok().unwrap();
    assert_eq!(st.cql, "INSERT INTO app.users JSON '{\"name\":\"O''Brien\"}'");
    assert_eq!(st.message, "Row inserted");
}

#[test]
fn insert_row_needs_an_object() {
    let data = JsonValue::Array(vec![JsonValue::Number(s("1"))], s("[1]"));
    let e = plan_insert_row(&table_path("app", "users"), &InsertRowBody { data }).err().unwrap();
    assert_eq!(bad(e), "data must be a JSON object");
}

#[test]
fn literals_follow_the_column_type() {
    assert_eq!(json_to_cql_literal(&JsonValue::Null, "text"), "null");
    assert_eq!(json_to_cql_literal(&JsonValue::Bool(false), "boolean"), "false");
    assert_eq!(json_to_cql_literal(&JsonValue::Number(s("4.5")), "double"), "4.5");
    assert_eq!(json_to_cql_literal(&JsonValue::Str(s(ID)), "UUID"), ID);
    assert_eq!(json_to_cql_literal(&JsonValue::Str(s("it's")), "text"), "'it''s'");
    assert_eq!(
        json_to_cql_literal(&JsonValue::Array(vec![], s("[1,2]")), "list<int>"),
        "[1,2]"
    );
}

#[test]
fn update_row_statement() {
    let body = UpdateRowBody {
        set: members(vec![("name", JsonValue::Str(s("Bob"))), ("age", JsonValue::Number(s("30")))]),
        where_clause: members(vec![("id", JsonValue::Str(s(ID)))]),
    };
    let (ks, t) = check_update_row(&table_path("app", "users"), &body).ok().unwrap();
    let types = column_types_from_rows(vec![(s("id"), s("uuid")), (s("age"), s("int"))]);
    let st = plan_update_row(&ks, &t, &body, &types);
    assert_eq!(
        st.cql,
        format!("UPDATE app.users SET name = 'Bob', age = 30 WHERE id = {}", ID)
    );
    assert_eq!(st.message, "Row updated");
}

#[test]
fn update_row_checks() {
    let path = table_path("app", "users");
    let empty_set = UpdateRowBody { set: vec![], where_clause: members(vec![("id", JsonValue::Null)]) };
    assert_eq!(bad(check_update_row(&path, &empty_set).err().unwrap()), "`set` must not be empty");
    let empty_where = UpdateRowBody { set: members(vec![("a", JsonValue::Null)]), where_clause: vec![] };
    assert_eq!(bad(check_update_row(&path, &empty_where).err().unwrap()), "`where` must not be empty");
    let bad_set = UpdateRowBody {
        set: members(vec![("a-1", JsonValue::Null)]),
        where_clause: members(vec![("b-2", JsonValue::Null)]),
    };
    assert_eq!(
        bad(check_update_row(&path, &bad_set).err().unwrap()),
        "identifier 'a-1' may only contain ASCII letters, digits, and underscores"
    );
    let bad_where = UpdateRowBody {
        set: members(vec![("a", JsonValue::Null)]),
        where_clause: members(vec![("b-2", JsonValue::Null)]),
    };
    assert_eq!(
        bad(check_update_row(&path, &bad_where).err().unwrap()),
        "identifier 'b-2' may only contain ASCII letters, digits, and underscores"
    );
}

#[test]
fn delete_row_statement() {
    let body = DeleteRowBody {
        where_clause: members(vec![("id", JsonValue::Number(s("5"))), ("k", JsonValue::Str(s("x")))]),
    };
    let (ks, t) = check_delete_row(&table_path("app", "users"), &body).ok().unwrap();
    let types = column_types_from_rows(vec![(s("id"), s("int"))]);
    let st = plan_delete_row(&ks, &t, &body, &types);
    assert_eq!(st.cql, "DELETE FROM app.users WHERE id = 5 AND k = 'x'");
    assert_eq!(st.message, "Row deleted");
}

#[test]
fn delete_row_needs_a_where() {
    let body = DeleteRowBody { where_clause: vec![] };
    let e = check_delete_row(&table_path("app", "users"), &body).err().unwrap();
    assert_eq!(bad(e), "`where` must not be empty");
}

#[test]
fn column_types_last_entry_wins() {
    let types = column_types_from_rows(vec![(s("a"), s("int")), (s("a"), s("uuid"))]);
    assert_eq!(types.type_of("a"), "uuid");
    assert_eq!(types.type_of("b"), "text");
}

#[test]
fn execute_query_rewrites_a_select() {
    let body = ExecuteQueryBody { query: s("  select * from app.users  ") };
    assert!(query_is_ok(&body));
    let p = plan_execute_query(&body).ok().unwrap();
    assert_eq!(p.cql, "SELECT JSON * from app.users");
    assert!(p.is_select);
}

#[test]
fn execute_query_keeps_other_statements() {
    let body = ExecuteQueryBody { query: s(" INSERT INTO t (a) VALUES (1) ") };
    assert!(query_is_ok(&body));
    let p = plan_execute_query(&body).ok().unwrap();
    assert_eq!(p.cql, "INSERT INTO t (a) VALUES (1)");
    assert!(!p.is_select);
}

#[test]
fn execute_query_refuses_an_empty_query() {
    let body = ExecuteQueryBody { query: s("  \n ") };
    assert!(query_is_ok(&body));
    assert_eq!(bad(plan_execute_query(&body).err().unwrap()), "query cannot be empty");
}

#[test]
fn execute_query_refuses_a_split_character() {
    assert!(!query_is_ok(&ExecuteQueryBody { query: s("selec\u{e9}") }));
}

#[test]
fn query_responses() {
    let rows = vec![JsonValue::Object(vec![], s("{}"))];
    let r = query_response(s("SELECT JSON * FROM t"), true, Some(rows), 7);
    assert_eq!(r.query, "SELECT JSON * FROM t");
    assert_eq!(r.rows.map(|v| v.len()), Some(1));
    assert!(r.message.is_none());
    assert_eq!(r.execution_time_ms, 7);
    let r = query_response(s("DROP TABLE t"), false, None, 3);
    assert!(r.rows.is_none());
    assert_eq!(r.message, Some(s("Query executed successfully")));
}

#[test]
fn metadata_errors() {
    let e = ApiError::Db(s("timeout"));
    assert_eq!(e.status_code(), 500);
    assert_eq!(e.message(), "Database error: timeout");
    let e = ApiError::BadRequest(s("nope"));
    assert_eq!(e.status_code(), 400);
    assert_eq!(e.message(), "Bad request: nope");
}

#[test]
fn metadata_health() {
    let h = health();
    assert_eq!(h.status, "ok");
    assert_eq!(h.service, "scylladb-meta");
}

#[test]
fn inject_select_json_twice_changes_nothing() {
    for q in ["SELECT * FROM t", " select a from t ", "UPDATE t SET a = 1", "SELECT JSON * FROM t"] {
        let once = maybe_inject_select_json(q);
        assert!(select_json_is_ok(&once));
        assert_eq!(maybe_inject_select_json(&once), once);
    }
    let bare = maybe_inject_select_json("select");
    assert_eq!(bare, "SELECT JSON ");
    assert_eq!(maybe_inject_select_json(&bare), "SELECT JSON");
}

#[test]
fn rows_page_size_keeps_a_size_in_range() {
    for n in [1, 2, 999, 1000] {
        let p = plan_get_rows(&table_path("k", "t"), &RowsQuery { page_size: Some(n) }).ok().unwrap();
        assert_eq!(p.page_size, n);
    }
}

#[test]
fn inject_select_json_reads_json_only_as_a_word() {
    assert_eq!(maybe_inject_select_json("SELECT json_data FROM t"), "SELECT JSON json_data FROM t");
    assert_eq!(maybe_inject_select_json("select jsonb, a from t"), "SELECT JSON jsonb, a from t");
    assert_eq!(maybe_inject_select_json("SELECT JSON"), "SELECT JSON");
    assert_eq!(maybe_inject_select_json("select Json\t* from t"), "select Json\t* from t");
    let once = maybe_inject_select_json("SELECT json_data FROM t");
    assert_eq!(maybe_inject_select_json(&once), once);
}

#[test]
fn execute_query_injects_before_a_json_column() {
    let body = ExecuteQueryBody { query: s("select json_col from t") };
    assert!(query_is_ok(&body));
    assert_eq!(plan_execute_query(&body).ok().unwrap().cql, "SELECT JSON json_col from t");
}

#[test]
fn body_members_are_distinct() {
    assert!(has_distinct_members(&members(vec![("a", JsonValue::Null), ("b", JsonValue::Null)])));
    assert!(has_distinct_members(&vec![]));
    assert!(!has_distinct_members(&members(vec![
        ("a", JsonValue::Null),
        ("b", JsonValue::Null),
        ("a", JsonValue::Bool(true)),
    ])));
}
