//! The storage service: buckets, folders and files, their metadata in the database and their
//! bytes in an object store.
pub mod error;
pub mod handlers;
pub mod helpers;
pub mod models;
pub mod writes;
