pub mod api;
pub mod codec;
pub mod cql;
pub mod json;
pub mod meta;
pub mod storage;
pub mod text;
