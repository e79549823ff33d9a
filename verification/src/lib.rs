//! A single-pass, lossless lexer for a shell-like command language.
//!
//! Raw source bytes are turned into a stream of typed tokens carrying
//! byte-accurate absolute spans.  Lexing is context-free: the only state is
//! the unconsumed remainder, the absolute offset of its first byte, and a
//! caller-owned mode flag that decides whether a line feed counts as
//! whitespace.

pub mod token;

pub mod model;

pub mod lexer;

pub mod props;
