//! Linkage resolution for a package manager: from the graph of a package and
//! its dependencies to the table that says, for each package identity, which
//! node of the graph stands for it.
//!
//! - [`package`]: what the resolver reads of a package.
//! - [`graph`]: the dependency graph.
//! - [`order`]: cycles and topological orders.
//! - [`linkage`]: overrides, and the merge of entries into a table.
//! - [`table`]: the entries of a table in its own order.
//! - [`resolve`]: the tables of all nodes, dependencies first.
//! - [`policy`], [`laws`]: what holds of merges and of resolution.
//! - [`keyed`]: lists that are read as maps.

pub mod graph;
pub mod keyed;
pub mod laws;
pub mod linkage;
pub mod order;
pub mod package;
pub mod policy;
pub mod resolve;
pub mod table;
