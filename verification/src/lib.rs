//! Deterministic colouring, ordering and column layout of directory listings.
//!
//! The crate is verified with Verus: the contracts say what a function
//! returns, and the proof functions state the laws that relate them. Calls
//! into other crates stand behind small wrappers whose contracts are taken on
//! trust; each says so in its documentation.

pub mod color;
pub mod config;
pub mod display;
pub mod entry;
pub mod identity;
pub mod kind;
pub mod long_listing;
pub mod order;
pub mod parser;
pub mod pattern;
pub mod sort;
pub mod subparsers;
pub mod text;
pub mod traversal;
pub mod utils;
