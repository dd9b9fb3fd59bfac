//! A scanner for uses of Clojure's `reify` form.
//!
//! The library parses Clojure source text into a concrete syntax tree,
//! walks the tree for `reify` invocations in call position, and reports
//! the symbol that follows each one.  Inputs may be loose source files,
//! archives holding source entries, or whole directory trees; the
//! library classifies paths, extracts archive entries, and aggregates
//! the results of many independently scanned units.

pub mod errors;
pub mod tree;
pub mod matcher;
pub mod parse;
pub mod archive;
pub mod report;
pub mod dispatch;
pub mod scan;
