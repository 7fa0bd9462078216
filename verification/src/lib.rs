//! A parser for documents written in OpenITI mARkdown, a line-oriented
//! annotation format for premodern Arabic texts.
//!
//! [`parser`] turns the text of a document into a [`Document`]: the magic
//! value of its first line, its metadata lines, and its content, classified
//! line by line. Lines that carry prose are tokenized into typed fragments.
//!
//! The modules, from the leaves up:
//! - [`chars`]: text as a sequence of characters;
//! - [`tags`] and [`lexicon`]: the literal tags and the patterns of the format;
//! - [`pattern`]: regular expressions, run by the `regex` crate;
//! - [`structures`] and [`accessors`]: the document tree;
//! - [`stripper`]: a line's plain text;
//! - [`tokenizer`]: a line's fragments;
//! - [`classifier`]: a document's lines;
//! - [`laws`]: what holds of every document.
//!
//! Every function states what it computes over the mathematical value of its
//! arguments, and is proved to compute it. What a regular expression matches
//! is left to the `regex` crate: the contracts name it and do not define it.

pub mod accessors;
pub mod chars;
pub mod classifier;
pub mod laws;
pub mod lexicon;
pub mod pattern;
pub mod stripper;
pub mod structures;
pub mod tags;
pub mod tokenizer;

pub use crate::classifier::{parse_document, parser, ParseError};
pub use crate::lexicon::Lexicon;
pub use crate::structures::{
    BeType, Content, DateType, DicType, Document, DoxType, EntityType, Line, LinePart, LineType,
    PageNumber, ParaType,
};
