//! What the metadata service's endpoints decide: the CQL they run and the answer they give.
use vstd::prelude::*;
use crate::cql::{literal_text, quote, unquoted_type, ColumnTypes, column_type};
use crate::json::{member_names, JsonValue};
use crate::meta::error::{text_result, ApiError, ApiErrorView};
use crate::meta::helpers::{
    identifier_result, inject_select_json, json_to_cql_literal, maybe_inject_select_json,
    select_json_ok, validate_identifier,
};
use crate::meta::models::{
    ColumnDef, CreateKeyspaceBody, CreateTableBody, DeleteRowBody, ExecuteQueryBody,
    InsertRowBody, KeyspacePath, QueryResponse, RowsQuery, TablePath, UpdateRowBody,
};
use crate::text::{
    chars_eq_str, chars_of, clamp, clamp_i32, collect_all, decimal, escape_quotes, join,
    join_strings, lemma_collect_all_err, lemma_collect_all_step, lemma_collect_all_len,
    owned_str, push_decimal, push_escaped, slicing_ok, slicing_ok_chars, starts_with_ci,
    starts_with_ci_chars, string_of, to_lowercase, trim, trim_chars, unicode_lowercase, views,
};

verus! {

/// A statement to run, and the message that answers it once it has run.
pub struct Statement {
    pub cql: String,
    pub message: String,
}

pub struct StatementView {
    pub cql: Seq<char>,
    pub message: Seq<char>,
}

impl View for Statement {
    type V = StatementView;

    open spec fn view(&self) -> StatementView {
        StatementView { cql: self.cql@, message: self.message@ }
    }
}

pub open spec fn statement_result(r: Result<Statement, ApiError>) -> Result<
    StatementView,
    ApiErrorView,
> {
    match r {
        Ok(s) => Ok(s@),
        Err(e) => Err(e@),
    }
}

/// The replication strategies a keyspace may name.
pub open spec fn known_strategy(s: Seq<char>) -> bool {
    s == "SimpleStrategy"@ || s == "NetworkTopologyStrategy"@
}

/// `POST /meta/keyspaces`: a checked name, a known strategy, the factor clamped to 1..=10.
pub open spec fn create_keyspace_plan(body: CreateKeyspaceBody) -> Result<
    StatementView,
    ApiErrorView,
> {
    match identifier_result(body.name@) {
        Err(e) => Err(e),
        Ok(name) => if !known_strategy(body.strategy@) {
            Err(
                ApiErrorView::BadRequest(
                    "strategy must be SimpleStrategy or NetworkTopologyStrategy"@,
                ),
            )
        } else {
            let rf = clamp(body.replication_factor as int, 1, 10);
            Ok(
                StatementView {
                    cql: "CREATE KEYSPACE IF NOT EXISTS "@ + name
                        + " WITH REPLICATION = {'class': '"@ + body.strategy@
                        + "', 'replication_factor': "@ + decimal(rf)
                        + "} AND DURABLE_WRITES = true"@,
                    message: "Keyspace '"@ + name + "' created"@,
                },
            )
        },
    }
}

pub fn plan_create_keyspace(body: &CreateKeyspaceBody) -> (r: Result<Statement, ApiError>)
    ensures
        statement_result(r) == create_keyspace_plan(*body),
{
    let name = match validate_identifier(body.name.as_str()) {
        Ok(n) => n,
        Err(e) => return Err(e),
    };
    let sv = chars_of(body.strategy.as_str());
    if !(chars_eq_str(&sv, "SimpleStrategy") || chars_eq_str(&sv, "NetworkTopologyStrategy")) {
        return Err(
            ApiError::BadRequest(
                owned_str("strategy must be SimpleStrategy or NetworkTopologyStrategy"),
            ),
        );
    }
    let rf = clamp_i32(body.replication_factor, 1, 10);
    let mut cql = owned_str("CREATE KEYSPACE IF NOT EXISTS ");
    cql.append(name.as_str());
    cql.append(" WITH REPLICATION = {'class': '");
    cql.append(body.strategy.as_str());
    cql.append("', 'replication_factor': ");
    push_decimal(&mut cql, rf as i64);
    cql.append("} AND DURABLE_WRITES = true");
    let mut message = owned_str("Keyspace '");
    message.append(name.as_str());
    message.append("' created");
    Ok(Statement { cql, message })
}

/// `DELETE /meta/keyspaces/{keyspace}`.
pub open spec fn drop_keyspace_plan(path: KeyspacePath) -> Result<StatementView, ApiErrorView> {
    match identifier_result(path.keyspace@) {
        Err(e) => Err(e),
        Ok(ks) => Ok(
            StatementView {
                cql: "DROP KEYSPACE IF EXISTS "@ + ks,
                message: "Keyspace '"@ + ks + "' dropped"@,
            },
        ),
    }
}

pub fn plan_drop_keyspace(path: &KeyspacePath) -> (r: Result<Statement, ApiError>)
    ensures
        statement_result(r) == drop_keyspace_plan(*path),
{
    let ks = match validate_identifier(path.keyspace.as_str()) {
        Ok(k) => k,
        Err(e) => return Err(e),
    };
    let mut cql = owned_str("DROP KEYSPACE IF EXISTS ");
    cql.append(ks.as_str());
    let mut message = owned_str("Keyspace '");
    message.append(ks.as_str());
    message.append("' dropped");
    Ok(Statement { cql, message })
}

/// A keyspace and a table, both checked; the keyspace is checked first.
pub open spec fn table_path_result(path: TablePath) -> Result<
    (Seq<char>, Seq<char>),
    ApiErrorView,
> {
    match identifier_result(path.keyspace@) {
        Err(e) => Err(e),
        Ok(ks) => match identifier_result(path.table@) {
            Err(e) => Err(e),
            Ok(t) => Ok((ks, t)),
        },
    }
}

/// Checks the keyspace and then the table of a path.
pub fn check_table_path(path: &TablePath) -> (r: Result<(String, String), ApiError>)
    ensures
        match r {
            Ok((k, t)) => table_path_result(*path) == Ok::<(Seq<char>, Seq<char>), ApiErrorView>(
                (k@, t@),
            ),
            Err(e) => table_path_result(*path) == Err::<(Seq<char>, Seq<char>), ApiErrorView>(
                e@,
            ),
        },
{
    let ks = match validate_identifier(path.keyspace.as_str()) {
        Ok(k) => k,
        Err(e) => return Err(e),
    };
    let t = match validate_identifier(path.table.as_str()) {
        Ok(t) => t,
        Err(e) => return Err(e),
    };
    Ok((ks, t))
}

/// `DELETE /meta/keyspaces/{keyspace}/tables/{table}`.
pub open spec fn drop_table_plan(path: TablePath) -> Result<StatementView, ApiErrorView> {
    match table_path_result(path) {
        Err(e) => Err(e),
        Ok((ks, t)) => Ok(
            StatementView {
                cql: "DROP TABLE IF EXISTS "@ + ks + "."@ + t,
                message: "Table '"@ + ks + "."@ + t + "' dropped"@,
            },
        ),
    }
}

pub fn plan_drop_table(path: &TablePath) -> (r: Result<Statement, ApiError>)
    ensures
        statement_result(r) == drop_table_plan(*path),
{
    let (ks, t) = match check_table_path(path) {
        Ok(p) => p,
        Err(e) => return Err(e),
    };
    let mut cql = owned_str("DROP TABLE IF EXISTS ");
    cql.append(ks.as_str());
    cql.append(".");
    cql.append(t.as_str());
    let mut message = owned_str("Table '");
    message.append(ks.as_str());
    message.append(".");
    message.append(t.as_str());
    message.append("' dropped");
    Ok(Statement { cql, message })
}

/// What the columns of a new table give: their checked names, their definitions, the
/// partition key columns and the clustering columns, in order; the first refused name stops it.
pub open spec fn table_columns(cols: Seq<ColumnDef>) -> Result<
    (Seq<Seq<char>>, Seq<Seq<char>>, Seq<Seq<char>>, Seq<Seq<char>>),
    ApiErrorView,
>
    decreases cols.len(),
{
    if cols.len() == 0 {
        Ok((Seq::empty(), Seq::empty(), Seq::empty(), Seq::empty()))
    } else {
        match table_columns(cols.drop_last()) {
            Err(e) => Err(e),
            Ok((names, defs, pks, cks)) => {
                let c = cols.last();
                match identifier_result(c.name@) {
                    Err(e) => Err(e),
                    Ok(n) => {
                        let k = unicode_lowercase(c.kind@);
                        Ok(
                            (
                                names.push(n),
                                defs.push(n + " "@ + c.data_type@),
                                if k == "partition_key"@ || k == "partition"@ {
                                    pks.push(n)
                                } else {
                                    pks
                                },
                                if k == "clustering"@ {
                                    cks.push(n)
                                } else {
                                    cks
                                },
                            ),
                        )
                    },
                }
            },
        }
    }
}

proof fn lemma_table_columns_len(cols: Seq<ColumnDef>)
    ensures
        table_columns(cols) matches Ok((names, _, _, _)) ==> names.len() == cols.len(),
    decreases cols.len(),
{
    if cols.len() > 0 {
        lemma_table_columns_len(cols.drop_last());
    }
}

proof fn lemma_table_columns_err(cols: Seq<ColumnDef>, i: int)
    requires
        0 <= i <= cols.len(),
        table_columns(cols.take(i)) is Err,
    ensures
        table_columns(cols) == table_columns(cols.take(i)),
    decreases cols.len() - i,
{
    if i < cols.len() {
        assert(cols.take(i + 1).drop_last() =~= cols.take(i));
        lemma_table_columns_err(cols, i + 1);
    } else {
        assert(cols.take(i) =~= cols);
    }
}

/// A column marked as part of the partition key (`partition_key` or `partition`, in any case).
pub open spec fn is_partition_column(c: ColumnDef) -> bool {
    let k = unicode_lowercase(c.kind@);
    k == "partition_key"@ || k == "partition"@
}

/// A column marked as a clustering column (`clustering`, in any case).
pub open spec fn is_clustering_column(c: ColumnDef) -> bool {
    unicode_lowercase(c.kind@) == "clustering"@
}

/// The names of the columns that `keep` selects, trimmed, in order.
pub open spec fn column_names(cols: Seq<ColumnDef>, keep: spec_fn(ColumnDef) -> bool) -> Seq<
    Seq<char>,
> {
    cols.filter(keep).map_values(|c: ColumnDef| trim(c.name@))
}

proof fn lemma_table_columns_shape(cols: Seq<ColumnDef>)
    ensures
        table_columns(cols) matches Ok((names, defs, pks, cks)) ==> {
            &&& names == cols.map_values(|c: ColumnDef| trim(c.name@))
            &&& defs == cols.map_values(|c: ColumnDef| trim(c.name@) + " "@ + c.data_type@)
            &&& pks == column_names(cols, |c: ColumnDef| is_partition_column(c))
            &&& cks == column_names(cols, |c: ColumnDef| is_clustering_column(c))
        },
    decreases cols.len(),
{
    reveal(Seq::filter);
    if cols.len() > 0 {
        let init = cols.drop_last();
        lemma_table_columns_shape(init);
        if let Ok((names, defs, pks, cks)) = table_columns(cols) {
            let c = cols.last();
            let nm = |c: ColumnDef| trim(c.name@);
            let df = |c: ColumnDef| trim(c.name@) + " "@ + c.data_type@;
            let pp = |c: ColumnDef| is_partition_column(c);
            let cp = |c: ColumnDef| is_clustering_column(c);
            assert(cols.map_values(nm) =~= init.map_values(nm).push(nm(c)));
            assert(cols.map_values(df) =~= init.map_values(df).push(df(c)));
            assert(cols.filter(pp) == (if pp(c) {
                init.filter(pp).push(c)
            } else {
                init.filter(pp)
            }));
            assert(cols.filter(cp) == (if cp(c) {
                init.filter(cp).push(c)
            } else {
                init.filter(cp)
            }));
            if pp(c) {
                assert(init.filter(pp).push(c).map_values(nm) =~= init.filter(pp).map_values(nm).push(
                    nm(c),
                ));
            }
            if cp(c) {
                assert(init.filter(cp).push(c).map_values(nm) =~= init.filter(cp).map_values(nm).push(
                    nm(c),
                ));
            }
        }
    }
}

/// The PRIMARY KEY of a new table: the partition key columns (the first column when none is
/// marked), in brackets when there are several, then the clustering columns.
pub open spec fn primary_key(
    names: Seq<Seq<char>>,
    pks: Seq<Seq<char>>,
    cks: Seq<Seq<char>>,
) -> Seq<char> {
    let pk = if pks.len() == 0 {
        seq![names[0]]
    } else {
        pks
    };
    let inner = if pk.len() == 1 {
        pk[0]
    } else {
        "("@ + join(pk, ", "@) + ")"@
    };
    if cks.len() == 0 {
        inner
    } else {
        inner + ", "@ + join(cks, ", "@)
    }
}

/// `POST /meta/keyspaces/{keyspace}/tables`.
pub open spec fn create_table_plan(path: KeyspacePath, body: CreateTableBody) -> Result<
    StatementView,
    ApiErrorView,
> {
    match identifier_result(path.keyspace@) {
        Err(e) => Err(e),
        Ok(ks) => match identifier_result(body.name@) {
            Err(e) => Err(e),
            Ok(t) => if body.columns@.len() == 0 {
                Err(ApiErrorView::BadRequest("at least one column is required"@))
            } else {
                match table_columns(body.columns@) {
                    Err(e) => Err(e),
                    Ok((names, defs, pks, cks)) => Ok(
                        StatementView {
                            cql: "CREATE TABLE IF NOT EXISTS "@ + ks + "."@ + t + " ("@ + join(
                                defs,
                                ", "@,
                            ) + ", PRIMARY KEY ("@ + primary_key(names, pks, cks) + "))"@,
                            message: "Table '"@ + ks + "."@ + t + "' created"@,
                        },
                    ),
                }
            },
        },
    }
}

fn push_view(v: &mut Vec<String>, s: String)
    ensures
        views(final(v)@) == views(old(v)@).push(s@),
{
    let ghost before = v@;
    v.push(s);
    assert(views(v@) =~= views(before).push(s@));
}

fn collect_table_columns(cols: &Vec<ColumnDef>) -> (r: Result<
    (Vec<String>, Vec<String>, Vec<String>, Vec<String>),
    ApiError,
>)
    ensures
        match r {
            Ok((n, d, p, c)) => table_columns(cols@) == Ok::<
                (Seq<Seq<char>>, Seq<Seq<char>>, Seq<Seq<char>>, Seq<Seq<char>>),
                ApiErrorView,
            >((views(n@), views(d@), views(p@), views(c@))),
            Err(e) => table_columns(cols@) == Err::<
                (Seq<Seq<char>>, Seq<Seq<char>>, Seq<Seq<char>>, Seq<Seq<char>>),
                ApiErrorView,
            >(e@),
        },
{
    let mut names: Vec<String> = Vec::new();
    let mut defs: Vec<String> = Vec::new();
    let mut pks: Vec<String> = Vec::new();
    let mut cks: Vec<String> = Vec::new();
    let n = cols.len();
    let mut i: usize = 0;
    assert(cols@.take(0) =~= Seq::<ColumnDef>::empty());
    assert(views(names@) =~= Seq::<Seq<char>>::empty());
    assert(views(defs@) =~= Seq::<Seq<char>>::empty());
    assert(views(pks@) =~= Seq::<Seq<char>>::empty());
    assert(views(cks@) =~= Seq::<Seq<char>>::empty());
    while i < n
        invariant
            i <= n == cols@.len(),
            table_columns(cols@.take(i as int)) == Ok::<
                (Seq<Seq<char>>, Seq<Seq<char>>, Seq<Seq<char>>, Seq<Seq<char>>),
                ApiErrorView,
            >((views(names@), views(defs@), views(pks@), views(cks@))),
        decreases n - i,
    {
        assert(cols@.take(i + 1).drop_last() =~= cols@.take(i as int));
        assert(cols@.take(i + 1).last() == cols@[i as int]);
        let c = &cols[i];
        let cname = match validate_identifier(c.name.as_str()) {
            Ok(x) => x,
            Err(e) => {
                proof {
                    lemma_table_columns_err(cols@, i + 1);
                }
                return Err(e);
            },
        };
        let mut def = cname.clone();
        def.append(" ");
        def.append(c.data_type.as_str());
        push_view(&mut defs, def);
        let kind = chars_of(to_lowercase(c.kind.as_str()).as_str());
        if chars_eq_str(&kind, "partition_key") || chars_eq_str(&kind, "partition") {
            push_view(&mut pks, cname.clone());
        }
        if chars_eq_str(&kind, "clustering") {
            push_view(&mut cks, cname.clone());
        }
        push_view(&mut names, cname);
        i = i + 1;
    }
    assert(cols@.take(n as int) =~= cols@);
    Ok((names, defs, pks, cks))
}

pub fn plan_create_table(path: &KeyspacePath, body: &CreateTableBody) -> (r: Result<
    Statement,
    ApiError,
>)
    ensures
        statement_result(r) == create_table_plan(*path, *body),
{
    let ks = match validate_identifier(path.keyspace.as_str()) {
        Ok(k) => k,
        Err(e) => return Err(e),
    };
    let t = match validate_identifier(body.name.as_str()) {
        Ok(t) => t,
        Err(e) => return Err(e),
    };
    if body.columns.len() == 0 {
        return Err(ApiError::BadRequest(owned_str("at least one column is required")));
    }
    let (names, defs, pks, cks) = match collect_table_columns(&body.columns) {
        Ok(x) => x,
        Err(e) => return Err(e),
    };
    proof {
        lemma_table_columns_len(body.columns@);
    }
    let pk: Vec<String> = if pks.len() == 0 {
        let mut v: Vec<String> = Vec::new();
        push_view(&mut v, names[0].clone());
        assert(views(v@) =~= seq![views(names@)[0]]);
        v
    } else {
        pks
    };
    let mut primary = if pk.len() == 1 {
        pk[0].clone()
    } else {
        let mut s = owned_str("(");
        s.append(join_strings(&pk, ", ").as_str());
        s.append(")");
        s
    };
    if cks.len() > 0 {
        primary.append(", ");
        primary.append(join_strings(&cks, ", ").as_str());
    }
    let mut cql = owned_str("CREATE TABLE IF NOT EXISTS ");
    cql.append(ks.as_str());
    cql.append(".");
    cql.append(t.as_str());
    cql.append(" (");
    cql.append(join_strings(&defs, ", ").as_str());
    cql.append(", PRIMARY KEY (");
    cql.append(primary.as_str());
    cql.append("))");
    let mut message = owned_str("Table '");
    message.append(ks.as_str());
    message.append(".");
    message.append(t.as_str());
    message.append("' created");
    Ok(Statement { cql, message })
}


/// What `GET .../tables/{table}/rows` reads.
pub struct RowsPlan {
    pub keyspace: String,
    pub table: String,
    pub cql: String,
    pub page_size: i32,
}

pub struct RowsPlanView {
    pub keyspace: Seq<char>,
    pub table: Seq<char>,
    pub cql: Seq<char>,
    pub page_size: i32,
}

impl View for RowsPlan {
    type V = RowsPlanView;

    open spec fn view(&self) -> RowsPlanView {
        RowsPlanView {
            keyspace: self.keyspace@,
            table: self.table@,
            cql: self.cql@,
            page_size: self.page_size,
        }
    }
}

/// `GET .../tables/{table}/rows?page_size=n`: at most `n` rows (100 by default, clamped to
/// 1..=1000) as JSON.
pub open spec fn rows_plan(path: TablePath, query: RowsQuery) -> Result<RowsPlanView, ApiErrorView> {
    match table_path_result(path) {
        Err(e) => Err(e),
        Ok((ks, t)) => {
            let requested: i32 = match query.page_size {
                Some(n) => n,
                None => 100,
            };
            let ps = clamp(requested as int, 1, 1000) as i32;
            Ok(
                RowsPlanView {
                    keyspace: ks,
                    table: t,
                    cql: "SELECT JSON * FROM "@ + ks + "."@ + t + " LIMIT "@ + decimal(ps as int),
                    page_size: ps,
                },
            )
        },
    }
}

pub fn plan_get_rows(path: &TablePath, query: &RowsQuery) -> (r: Result<RowsPlan, ApiError>)
    ensures
        match r {
            Ok(p) => rows_plan(*path, *query) == Ok::<RowsPlanView, ApiErrorView>(p@),
            Err(e) => rows_plan(*path, *query) == Err::<RowsPlanView, ApiErrorView>(e@),
        },
{
    let (ks, t) = match check_table_path(path) {
        Ok(p) => p,
        Err(e) => return Err(e),
    };
    let requested: i32 = match query.page_size {
        Some(n) => n,
        None => 100,
    };
    let ps = clamp_i32(requested, 1, 1000);
    let mut cql = owned_str("SELECT JSON * FROM ");
    cql.append(ks.as_str());
    cql.append(".");
    cql.append(t.as_str());
    cql.append(" LIMIT ");
    push_decimal(&mut cql, ps as i64);
    Ok(RowsPlan { keyspace: ks, table: t, cql, page_size: ps })
}

/// `POST .../tables/{table}/rows`: the data must be an object; it is inserted as JSON.
pub open spec fn insert_row_plan(path: TablePath, body: InsertRowBody) -> Result<
    StatementView,
    ApiErrorView,
> {
    match table_path_result(path) {
        Err(e) => Err(e),
        Ok((ks, t)) => match body.data {
            JsonValue::Object(_, text) => Ok(
                StatementView {
                    cql: "INSERT INTO "@ + ks + "."@ + t + " JSON '"@ + escape_quotes(text@)
                        + "'"@,
                    message: "Row inserted"@,
                },
            ),
            _ => Err(ApiErrorView::BadRequest("data must be a JSON object"@)),
        },
    }
}

pub fn plan_insert_row(path: &TablePath, body: &InsertRowBody) -> (r: Result<Statement, ApiError>)
    ensures
        statement_result(r) == insert_row_plan(*path, *body),
{
    let (ks, t) = match check_table_path(path) {
        Ok(p) => p,
        Err(e) => return Err(e),
    };
    match &body.data {
        JsonValue::Object(_, text) => {
            let mut cql = owned_str("INSERT INTO ");
            cql.append(ks.as_str());
            cql.append(".");
            cql.append(t.as_str());
            cql.append(" JSON '");
            push_escaped(&mut cql, &chars_of(text.as_str()));
            cql.append("'");
            Ok(Statement { cql, message: owned_str("Row inserted") })
        },
        _ => Err(ApiError::BadRequest(owned_str("data must be a JSON object"))),
    }
}

/// The `col = literal` pieces of body members, the column written as given.
pub open spec fn assignments(
    m: Seq<(String, JsonValue)>,
    types: Seq<(Seq<char>, Seq<char>)>,
) -> Seq<Seq<char>> {
    m.map_values(
        |p: (String, JsonValue)|
            p.0@ + " = "@ + literal_text(p.1.literal(), column_type(types, p.0@)),
    )
}

/// Checks every name: the first that is refused decides.
pub open spec fn names_ok(names: Seq<Seq<char>>) -> Result<Seq<Seq<char>>, ApiErrorView> {
    collect_all(names, |c: Seq<char>| identifier_result(c))
}

fn check_names(members: &Vec<(String, JsonValue)>) -> (r: Result<(), ApiError>)
    ensures
        match r {
            Ok(_) => names_ok(member_names(members@)) is Ok,
            Err(e) => names_ok(member_names(members@)) == Err::<Seq<Seq<char>>, ApiErrorView>(e@),
        },
{
    let ghost ks = member_names(members@);
    let ghost f = |c: Seq<char>| identifier_result(c);
    let n = members.len();
    let mut i: usize = 0;
    assert(ks.take(0) =~= Seq::<Seq<char>>::empty());
    while i < n
        invariant
            i <= n == members@.len(),
            ks == member_names(members@),
            f == (|c: Seq<char>| identifier_result(c)),
            collect_all(ks.take(i as int), f) is Ok,
        decreases n - i,
    {
        proof {
            lemma_collect_all_step(ks, i as int, f);
        }
        match validate_identifier(members[i].0.as_str()) {
            Err(e) => {
                proof {
                    lemma_collect_all_err(ks, i + 1, f);
                }
                return Err(e);
            },
            Ok(_) => {},
        }
        i = i + 1;
    }
    assert(ks.take(n as int) =~= ks);
    Ok(())
}

proof fn lemma_names_ok_concat(a: Seq<Seq<char>>, b: Seq<Seq<char>>)
    ensures
        names_ok(a) is Err ==> names_ok(a + b) == names_ok(a),
        names_ok(a) is Ok ==> (names_ok(a + b) is Ok <==> names_ok(b) is Ok),
        names_ok(a) is Ok && names_ok(b) is Err ==> names_ok(a + b) == names_ok(b),
    decreases b.len(),
{
    let f = |c: Seq<char>| identifier_result(c);
    if b.len() == 0 {
        assert(a + b =~= a);
    } else {
        lemma_names_ok_concat(a, b.drop_last());
        assert((a + b).drop_last() =~= a + b.drop_last());
        assert((a + b).last() == b.last());
    }
}

/// `PATCH .../tables/{table}/rows`, before the column types are read: `set` and `where` must
/// not be empty, and every column they name must be an identifier (those of `set` first).
pub open spec fn update_row_check(path: TablePath, body: UpdateRowBody) -> Result<
    (Seq<char>, Seq<char>),
    ApiErrorView,
> {
    match table_path_result(path) {
        Err(e) => Err(e),
        Ok((ks, t)) => if body.set@.len() == 0 {
            Err(ApiErrorView::BadRequest("`set` must not be empty"@))
        } else if body.where_clause@.len() == 0 {
            Err(ApiErrorView::BadRequest("`where` must not be empty"@))
        } else {
            match names_ok(member_names(body.set@) + member_names(body.where_clause@)) {
                Err(e) => Err(e),
                Ok(_) => Ok((ks, t)),
            }
        },
    }
}

pub fn check_update_row(path: &TablePath, body: &UpdateRowBody) -> (r: Result<
    (String, String),
    ApiError,
>)
    ensures
        match r {
            Ok((k, t)) => update_row_check(*path, *body) == Ok::<
                (Seq<char>, Seq<char>),
                ApiErrorView,
            >((k@, t@)),
            Err(e) => update_row_check(*path, *body) == Err::<(Seq<char>, Seq<char>), ApiErrorView>(
                e@,
            ),
        },
{
    let (ks, t) = match check_table_path(path) {
        Ok(p) => p,
        Err(e) => return Err(e),
    };
    if body.set.len() == 0 {
        return Err(ApiError::BadRequest(owned_str("`set` must not be empty")));
    }
    if body.where_clause.len() == 0 {
        return Err(ApiError::BadRequest(owned_str("`where` must not be empty")));
    }
    proof {
        lemma_names_ok_concat(member_names(body.set@), member_names(body.where_clause@));
    }
    match check_names(&body.set) {
        Err(e) => return Err(e),
        Ok(_) => {},
    }
    match check_names(&body.where_clause) {
        Err(e) => return Err(e),
        Ok(_) => {},
    }
    Ok((ks, t))
}

fn assignment_list(members: &Vec<(String, JsonValue)>, col_types: &ColumnTypes) -> (r: Vec<String>)
    ensures
        views(r@) == assignments(members@, col_types@),
{
    let ghost target = assignments(members@, col_types@);
    let mut parts: Vec<String> = Vec::new();
    let n = members.len();
    let mut i: usize = 0;
    while i < n
        invariant
            i <= n == members@.len(),
            target == assignments(members@, col_types@),
            target.len() == n,
            parts@.len() == i,
            views(parts@) == target.take(i as int),
        decreases n - i,
    {
        let col = &members[i].0;
        let dt = col_types.type_of(col.as_str());
        let mut part = col.clone();
        part.append(" = ");
        part.append(json_to_cql_literal(&members[i].1, dt.as_str()).as_str());
        let ghost before = parts@;
        parts.push(part);
        assert(views(parts@).take(i as int) =~= views(before));
        assert(views(parts@) =~= target.take(i + 1));
        i = i + 1;
    }
    assert(target.take(n as int) =~= target);
    parts
}

/// The UPDATE of a checked update body, given the table's column types.
pub open spec fn update_row_statement(
    ks: Seq<char>,
    t: Seq<char>,
    body: UpdateRowBody,
    types: Seq<(Seq<char>, Seq<char>)>,
) -> StatementView {
    StatementView {
        cql: "UPDATE "@ + ks + "."@ + t + " SET "@ + join(assignments(body.set@, types), ", "@)
            + " WHERE "@ + join(assignments(body.where_clause@, types), " AND "@),
        message: "Row updated"@,
    }
}

pub fn plan_update_row(ks: &str, t: &str, body: &UpdateRowBody, col_types: &ColumnTypes) -> (r:
    Statement)
    requires
        member_names(body.set@).no_duplicates(),
        member_names(body.where_clause@).no_duplicates(),
    ensures
        r@ == update_row_statement(ks@, t@, *body, col_types@),
{
    let mut cql = owned_str("UPDATE ");
    cql.append(ks);
    cql.append(".");
    cql.append(t);
    cql.append(" SET ");
    cql.append(join_strings(&assignment_list(&body.set, col_types), ", ").as_str());
    cql.append(" WHERE ");
    cql.append(join_strings(&assignment_list(&body.where_clause, col_types), " AND ").as_str());
    Statement { cql, message: owned_str("Row updated") }
}

/// `DELETE .../tables/{table}/rows`, before the column types are read: `where` must not be
/// empty and every column it names must be an identifier.
pub open spec fn delete_row_check(path: TablePath, body: DeleteRowBody) -> Result<
    (Seq<char>, Seq<char>),
    ApiErrorView,
> {
    match table_path_result(path) {
        Err(e) => Err(e),
        Ok((ks, t)) => if body.where_clause@.len() == 0 {
            Err(ApiErrorView::BadRequest("`where` must not be empty"@))
        } else {
            match names_ok(member_names(body.where_clause@)) {
                Err(e) => Err(e),
                Ok(_) => Ok((ks, t)),
            }
        },
    }
}

pub fn check_delete_row(path: &TablePath, body: &DeleteRowBody) -> (r: Result<
    (String, String),
    ApiError,
>)
    ensures
        match r {
            Ok((k, t)) => delete_row_check(*path, *body) == Ok::<
                (Seq<char>, Seq<char>),
                ApiErrorView,
            >((k@, t@)),
            Err(e) => delete_row_check(*path, *body) == Err::<(Seq<char>, Seq<char>), ApiErrorView>(
                e@,
            ),
        },
{
    let (ks, t) = match check_table_path(path) {
        Ok(p) => p,
        Err(e) => return Err(e),
    };
    if body.where_clause.len() == 0 {
        return Err(ApiError::BadRequest(owned_str("`where` must not be empty")));
    }
    match check_names(&body.where_clause) {
        Err(e) => return Err(e),
        Ok(_) => {},
    }
    Ok((ks, t))
}

/// The DELETE of a checked delete body, given the table's column types.
pub open spec fn delete_row_statement(
    ks: Seq<char>,
    t: Seq<char>,
    body: DeleteRowBody,
    types: Seq<(Seq<char>, Seq<char>)>,
) -> StatementView {
    StatementView {
        cql: "DELETE FROM "@ + ks + "."@ + t + " WHERE "@ + join(
            assignments(body.where_clause@, types),
            " AND "@,
        ),
        message: "Row deleted"@,
    }
}

pub fn plan_delete_row(ks: &str, t: &str, body: &DeleteRowBody, col_types: &ColumnTypes) -> (r:
    Statement)
    requires
        member_names(body.where_clause@).no_duplicates(),
    ensures
        r@ == delete_row_statement(ks@, t@, *body, col_types@),
{
    let mut cql = owned_str("DELETE FROM ");
    cql.append(ks);
    cql.append(".");
    cql.append(t);
    cql.append(" WHERE ");
    cql.append(join_strings(&assignment_list(&body.where_clause, col_types), " AND ").as_str());
    Statement { cql, message: owned_str("Row deleted") }
}

/// Whether `POST /meta/query` can take the query: its SELECT test and rewriting slice the text
/// on character boundaries only.
pub open spec fn query_ok(body: ExecuteQueryBody) -> bool {
    let raw = trim(body.query@);
    slicing_ok(raw, 6) && (starts_with_ci(raw, "select"@) ==> select_json_ok(raw))
}

/// What `POST /meta/query` runs.
pub struct QueryPlan {
    pub cql: String,
    pub is_select: bool,
}

/// `POST /meta/query`: the trimmed query, a SELECT rewritten to `SELECT JSON`.
pub open spec fn query_plan(body: ExecuteQueryBody) -> Result<(Seq<char>, bool), ApiErrorView> {
    let raw = trim(body.query@);
    if raw.len() == 0 {
        Err(ApiErrorView::BadRequest("query cannot be empty"@))
    } else {
        let sel = starts_with_ci(raw, "select"@);
        Ok(
            (
                if sel {
                    inject_select_json(raw)
                } else {
                    raw
                },
                sel,
            ),
        )
    }
}

/// Whether `plan_execute_query` can take the body.
pub fn query_is_ok(body: &ExecuteQueryBody) -> (b: bool)
    ensures
        b == query_ok(*body),
{
    let raw = trim_chars(&chars_of(body.query.as_str()));
    if !slicing_ok_chars(&raw, 6) {
        return false;
    }
    if starts_with_ci_chars(&raw, &chars_of("select")) {
        crate::meta::helpers::select_json_is_ok(string_of(&raw).as_str())
    } else {
        true
    }
}

pub fn plan_execute_query(body: &ExecuteQueryBody) -> (r: Result<QueryPlan, ApiError>)
    requires
        query_ok(*body),
    ensures
        match r {
            Ok(p) => query_plan(*body) == Ok::<(Seq<char>, bool), ApiErrorView>((p.cql@, p.is_select)),
            Err(e) => query_plan(*body) == Err::<(Seq<char>, bool), ApiErrorView>(e@),
        },
{
    let raw = trim_chars(&chars_of(body.query.as_str()));
    if raw.len() == 0 {
        return Err(ApiError::BadRequest(owned_str("query cannot be empty")));
    }
    let is_select = starts_with_ci_chars(&raw, &chars_of("select"));
    let raw_s = string_of(&raw);
    let cql = if is_select {
        maybe_inject_select_json(raw_s.as_str())
    } else {
        raw_s
    };
    Ok(QueryPlan { cql, is_select })
}

/// The answer of `POST /meta/query`: a SELECT answers with the rows it read (none when the
/// result held no rows); any other query with a message.
pub fn query_response(query: String, is_select: bool, rows: Option<Vec<JsonValue>>, execution_time_ms: u64) -> (r:
    QueryResponse)
    ensures
        r.query == query,
        r.execution_time_ms == execution_time_ms,
        is_select ==> r.rows == rows && r.message is None,
        !is_select ==> r.rows is None && (r.message matches Some(m) && m@ == "Query executed successfully"@),
{
    if is_select {
        QueryResponse { query, rows, message: None, execution_time_ms }
    } else {
        QueryResponse {
            query,
            rows: None,
            message: Some(owned_str("Query executed successfully")),
            execution_time_ms,
        }
    }
}

/// A page of rows holds at most 1000 rows and at least one is asked for: the page size is
/// within 1..=1000, 100 when none is given, and the one given when it lies in that range.
pub proof fn law_rows_page_size_in_range(path: TablePath, query: RowsQuery)
    ensures
        rows_plan(path, query) matches Ok(p) ==> {
            &&& 1 <= p.page_size <= 1000
            &&& query.page_size is None ==> p.page_size == 100
            &&& forall|n: i32| query.page_size == Some(n) && 1 <= n <= 1000 ==> p.page_size == n
        },
{
}

/// A row update or delete writes each named column with the literal of its value for the
/// column's declared type, as `system_schema.columns` gives it: the SET pieces are `col =
/// literal` joined by `, `, the WHERE pieces joined by ` AND `, each in the body's order; a
/// string for a column whose type names `uuid` or `inet` stands unquoted, any other string is
/// quoted.
pub proof fn law_row_writes_follow_column_types(
    ks: Seq<char>,
    t: Seq<char>,
    update: UpdateRowBody,
    delete: DeleteRowBody,
    types: Seq<(Seq<char>, Seq<char>)>,
)
    ensures
        ({
            let piece = |p: (String, JsonValue)|
                p.0@ + " = "@ + literal_text(p.1.literal(), column_type(types, p.0@));
            let sets = update.set@.map_values(piece);
            let keys = update.where_clause@.map_values(piece);
            let dels = delete.where_clause@.map_values(piece);
            let str_piece = |p: (String, JsonValue), s: String|
                p.0@ + " = "@ + (if unquoted_type(column_type(types, p.0@)) {
                    s@
                } else {
                    quote(s@)
                });
            &&& update_row_statement(ks, t, update, types).cql == "UPDATE "@ + ks + "."@ + t
                + " SET "@ + join(sets, ", "@) + " WHERE "@ + join(keys, " AND "@)
            &&& delete_row_statement(ks, t, delete, types).cql == "DELETE FROM "@ + ks + "."@ + t
                + " WHERE "@ + join(dels, " AND "@)
            &&& forall|i: int|
                0 <= i < delete.where_clause@.len() ==> ((#[trigger] delete.where_clause@[i]).1
                    matches JsonValue::Str(s) ==> dels[i] == str_piece(delete.where_clause@[i], s))
            &&& forall|i: int|
                0 <= i < update.set@.len() ==> ((#[trigger] update.set@[i]).1
                    matches JsonValue::Str(s) ==> sets[i] == str_piece(update.set@[i], s))
            &&& forall|i: int|
                0 <= i < update.where_clause@.len() ==> ((#[trigger] update.where_clause@[i]).1
                    matches JsonValue::Str(s) ==> keys[i] == str_piece(update.where_clause@[i], s))
        }),
{
}

/// A new table's statement defines each column as its trimmed name and type, in order, and
/// its PRIMARY KEY starts with the partition key: all columns marked `partition_key` (or
/// `partition`) in brackets when there are two or more, the one such column alone, or the first
/// column when none is marked; the clustering columns follow, in order.
pub proof fn law_create_table_statement(path: KeyspacePath, body: CreateTableBody)
    ensures
        create_table_plan(path, body) matches Ok(st) ==> {
            let cols = body.columns@;
            let pks = column_names(cols, |c: ColumnDef| is_partition_column(c));
            let cks = column_names(cols, |c: ColumnDef| is_clustering_column(c));
            let defs = cols.map_values(|c: ColumnDef| trim(c.name@) + " "@ + c.data_type@);
            let key = if pks.len() >= 2 {
                "("@ + join(pks, ", "@) + ")"@
            } else if pks.len() == 1 {
                pks[0]
            } else {
                trim(cols[0].name@)
            };
            st.cql == "CREATE TABLE IF NOT EXISTS "@ + trim(path.keyspace@) + "."@ + trim(body.name@)
                + " ("@ + join(defs, ", "@) + ", PRIMARY KEY ("@ + (if cks.len() == 0 {
                key
            } else {
                key + ", "@ + join(cks, ", "@)
            }) + "))"@
        },
{
    lemma_table_columns_shape(body.columns@);
}

} // verus!
