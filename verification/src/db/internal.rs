//! What the handle and the query builder are made of.
pub mod codec;
pub mod helpers;
pub mod queries;
pub mod retry;
pub mod schema_gen;
pub mod text;
