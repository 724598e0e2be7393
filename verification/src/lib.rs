//! Core of a status-bar renderer: a tree of drawable elements with a
//! two-pass measure/render layout protocol, and the two wire-format parsers
//! (a dzen-compatible text markup and a length-prefixed binary format) that
//! build such trees from raw input.
//!
//! The windowing system is kept outside: rendering produces a list of plain
//! drawing commands, and text measurement comes in through the `TextRuler`
//! trait, so the whole layout computation is ordinary, checkable arithmetic.

pub mod cache;
pub mod color;
pub mod config;
pub mod custom;
pub mod dzen;
pub mod element;
pub mod geometry;
pub mod layout;
pub mod num;
pub mod render;
pub mod ruler;
pub mod scan;
