//! Query algebrizer for a Datalog-style fact store: a parsed logical query is
//! resolved against a schema into a set of conjoining clauses, together with
//! the programmatic query builder, the constant projector and the state
//! machine behind the interactive prompt.

pub mod text;
pub mod value_types;
pub mod query;
pub mod bindings;
pub mod types;
pub mod schema;
pub mod clauses;
pub mod resolve;
pub mod pattern;
pub mod predicate;
pub mod or;
pub mod not;
pub mod laws;
pub mod algebrize;
pub mod query_builder;
pub mod projector;
pub mod input;
