//! Syntactic front-end of a Handlebars-style template language.
//!
//! A template is read as bytes, the UTF-8 encoding of its source text, and
//! turned into a tree of rule matches, each with the range of bytes that it
//! covers.
//!
//! - [`lexical`] tells spaces from line breaks and finds blank lines.
//! - [`rule`] names the rules, [`expr`] gives the shapes of parsing
//!   expressions, and [`grammar`] holds each rule's expression.
//! - [`semantics`] says what matching an expression means; [`engine`] is the
//!   interpreter, proved to compute exactly that.
//! - [`tree`] holds parse trees, [`error`] what a failed parse reports, and
//!   [`parser`] parses an input by any rule.
//! - [`template`] compiles a whole template: after parsing it checks that
//!   each block is closed under the name it was opened with, and narrows
//!   the literal text around tags that ask for it or stand alone on their
//!   line.
//! - [`text_laws`], [`trim_laws`] and [`parse_laws`] prove what holds of
//!   every input.
#![allow(non_camel_case_types)]

pub mod lexical;
pub mod rule;
pub mod expr;
pub mod grammar;
pub mod tree;
pub mod semantics;
pub mod engine;
pub mod error;
pub mod parser;
pub mod template;
pub mod parse_laws;
pub mod text_laws;
pub mod trim_laws;

pub use error::Error;
pub use lexical::{
    ends_with_empty_line, newline_matcher, starts_with_empty_line, whitespace_matcher,
};
pub use parser::HandlebarsParser;
pub use rule::Rule;
pub use template::Template;
pub use tree::{Node, Pair, Pairs, Span};
