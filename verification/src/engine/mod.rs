//! The rule engine: the interface of a rule, the context it runs in, inline
//! suppressions, and the collection that runs rules and lists them.
pub mod collection;
pub mod context;
pub mod listing;
pub mod rule;
pub mod skip;
