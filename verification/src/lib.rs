//! Shape model for configuration schemas.
//!
//! A schema document is turned into a closed tree of [`node::Node`]s, and
//! two such trees can be unified into one that satisfies both.

pub mod builder;
pub mod error;
pub mod laws;
pub mod literal;
pub mod merge;
pub mod node;
pub mod reference;
pub mod schema;
pub mod text;
pub mod value;
