//! A shortest-path puzzle on a graph whose edges carry colours: a route may
//! not use two edges of the same colour in a row.
//!
//! The crate reads a textual description of such a graph, searches it for a
//! shortest admissible route between two nodes, and renders the route as
//! lines of text. Every function states what it computes in its contract.

pub mod color;
pub mod document;
pub mod edge;
pub mod error;
pub mod grammar;
pub mod lexer;
pub mod parser;
pub mod puzzle;
pub mod report;
pub mod search;
