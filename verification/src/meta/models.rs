//! The request and response bodies of the metadata service.
use vstd::prelude::*;
use crate::json::JsonValue;
use crate::text::owned_str;

verus! {

/// The body of `GET /health`.
pub struct HealthResponse {
    pub status: &'static str,
    pub service: &'static str,
}

/// The answer of `GET /health`: the service is up.
pub fn health() -> (r: HealthResponse)
    ensures
        r.status@ == "ok"@,
        r.service@ == "scylladb-meta"@,
{
    HealthResponse { status: "ok", service: "scylladb-meta" }
}

/// Keyspace metadata from system_schema.keyspaces
pub struct KeyspaceMeta {
    pub name: String,
    /// The replication map, e.g. `class` → `SimpleStrategy`, `replication_factor` → `1`.
    pub replication: Vec<(String, String)>,
    pub durable_writes: bool,
}

/// Table metadata from system_schema.tables
pub struct TableMeta {
    pub keyspace: String,
    pub name: String,
}

/// Column metadata from system_schema.columns
pub struct ColumnMeta {
    pub keyspace: String,
    pub table: String,
    pub name: String,
    /// "partition_key" | "clustering" | "regular" | "static"
    pub kind: String,
    pub position: i32,
    pub data_type: String,
}

/// Paginated row result (rows are returned as JSON objects via SELECT JSON)
pub struct RowsResponse {
    pub keyspace: String,
    pub table: String,
    pub rows: Vec<JsonValue>,
    pub page_size: i32,
}

/// Generic CQL execution result
pub struct QueryResponse {
    pub query: String,
    pub rows: Option<Vec<JsonValue>>,
    pub message: Option<String>,
    pub execution_time_ms: u64,
}

pub struct MessageResponse {
    pub message: String,
}

pub struct KeyspacePath {
    pub keyspace: String,
}

pub struct TablePath {
    pub keyspace: String,
    pub table: String,
}

pub struct RowsQuery {
    /// Max rows returned (1-1000, default 100)
    pub page_size: Option<i32>,
}

pub struct CreateKeyspaceBody {
    pub name: String,
    pub replication_factor: i32,
    pub strategy: String,
}

/// The replication factor of a keyspace whose body names none.
pub fn default_rf() -> (r: i32)
    ensures
        r == 1,
{
    1
}

/// The replication strategy of a keyspace whose body names none.
pub fn default_strategy() -> (r: String)
    ensures
        r@ == "SimpleStrategy"@,
{
    owned_str("SimpleStrategy")
}

pub struct ColumnDef {
    pub name: String,
    pub data_type: String,
    /// "partition_key" | "clustering" | "regular" (default)
    pub kind: String,
}

pub struct CreateTableBody {
    pub name: String,
    pub columns: Vec<ColumnDef>,
}

pub struct InsertRowBody {
    /// JSON object mapping column names to values
    pub data: JsonValue,
}

pub struct UpdateRowBody {
    /// Columns to update: { "col": new_value }
    pub set: Vec<(String, JsonValue)>,
    /// Primary key to identify the row: { "pk_col": value }
    pub where_clause: Vec<(String, JsonValue)>,
}

pub struct DeleteRowBody {
    /// Primary key to identify the row: { "pk_col": value }
    pub where_clause: Vec<(String, JsonValue)>,
}

pub struct ExecuteQueryBody {
    pub query: String,
}

} // verus!
