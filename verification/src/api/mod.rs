//! The PostgREST-style REST service: every table of a keyspace as a CRUD endpoint.
pub mod error;
pub mod handlers;
pub mod helpers;
pub mod models;
