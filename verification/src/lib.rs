//! Parsers for C++ entity names as found in clang time-trace output, plus an
//! interning store and a width-bounded display for the parsed entities.
//!
//! The grammar lives in [`atoms`], [`literals`], [`legacy`], [`operators`]
//! and [`grammar`]; every parser is specified by an exact mirror over
//! character sequences.  [`intern`] holds the deduplicating entity store and
//! [`display`] the width-bounded rendering.  [`commands`] and [`stack`]
//! cover the compilation-database and stack-trace side of a build profile.

pub mod ast;
pub mod atoms;
pub mod commands;
pub mod display;
pub mod grammar;
pub mod intern;
pub mod legacy;
pub mod literals;
pub mod operators;
pub mod stack;
pub mod text;

pub use intern::{EntityParser, ParseError};
