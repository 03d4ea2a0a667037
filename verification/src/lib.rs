//! A namespaced directed knowledge graph built line by line from a small
//! directive language, with validation of the finished graph.
//!
//! - [`dagzet`] holds the builder, which takes one directive per line;
//!   [`model`] says what every directive means, as a function on a
//!   mathematical model of the graph, and [`resolve`] how the address
//!   tokens of a connection are resolved.
//! - [`validate`] holds the checks on the finished graph: unknown names, the
//!   edges between node ids, and cycles, which [`cycles`] defines.
//! - [`laws`] and [`cycle_laws`] state what holds of every graph.
//! - [`trie`] finds the one path that ends in a given suffix.
//! - [`sqlite`] and [`tables`] write the graph as SQLite statements.
//! - [`logzet`] reads a journal of sessions, entries and blocks.
//! - [`text`] holds the work on characters that all of them share.

pub mod cycle_laws;
pub mod cycles;
pub mod dagzet;
pub mod laws;
pub mod logzet;
pub mod model;
pub mod resolve;
pub mod sqlite;
pub mod tables;
pub mod text;
pub mod trie;
pub mod validate;
