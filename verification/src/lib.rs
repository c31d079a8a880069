//! A verified pruning engine for dead definitions: compiler diagnostics are
//! normalized into `(kind, identifier)` selectors, selectors are resolved to
//! exact byte ranges in the original source text, the ranges are deleted with
//! formatting-preserving whitespace rules, and a structural cleanup removes
//! blocks the deletion left empty.

pub mod cauterize;
pub mod diff_format;
pub mod lexical;
pub mod options;
pub mod resolve;
pub mod syntax;
pub mod text;
pub mod unused;
pub mod vcs;
