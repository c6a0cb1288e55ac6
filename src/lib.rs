//! Adapter between a tabular query engine and a PostgreSQL-wire front end:
//! column description, value encoding, result projection, a statement cache
//! and the decisions of the query handler.
mod text;

pub mod columns;
pub mod values;
pub mod projection;
pub mod cache;
pub mod handler;
pub mod parameter;
pub mod statement;
