//! A verified core for a plant-tracking command line tool: plant records with
//! a growth-update history, search filters, partial-update documents, and the
//! text rendering of query results.
pub mod error;
pub mod filter;
pub mod ident;
pub mod model;
pub mod render;
pub mod store;
pub mod text;
pub mod time;
pub mod update_doc;
