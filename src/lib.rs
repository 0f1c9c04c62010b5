//! Documentation extraction for Uiua source files: a documentation model built
//! from a parsed program, signature reconciliation, code tokenization for
//! highlighting, and the summary that a documentation site is rendered from.
pub mod model;
pub mod source;
pub mod text;
pub mod copy;
pub mod reconcile;
pub mod extract;
pub mod tokenize;
pub mod highlight;
pub mod docs;
pub mod headings;
pub mod summary;
pub mod laws;
