//! Bar configuration: how tall the bar is, where it sits, and which input
//! sources feed it through which parser. Reading a configuration file is
//! the presentation layer's business; this module only holds the shapes and
//! the height arithmetic.

use vstd::prelude::*;

use crate::num::{tdiv, tdiv_i64};

verus! {

/// The requested height of the bar.
#[derive(Clone, Copy, Debug, PartialEq, Eq, Structural)]
pub enum Size {
    /// Absolute pixels.
    Pixels(i32),
    /// Percent of the monitor height.
    Percent(i32),
    /// Sized to fit a font of the given height, with room to breathe.
    Font(i32),
}

impl Size {
    /// The height `get_height` computes: pixels pass through, a percentage
    /// is taken of the monitor height, and a font height gains half of
    /// itself.
    pub open spec fn spec_height(&self, mon: i32) -> int {
        match *self {
            Size::Pixels(v) => v as int,
            Size::Percent(v) => tdiv(mon as int * v as int, 100),
            Size::Font(v) => tdiv(v as int * 3, 2),
        }
    }

    /// The bar height in pixels on a monitor `mon` pixels tall.
    pub fn get_height(&self, mon: i32) -> (r: i32)
        requires
            self matches Size::Percent(v) ==> i32::MIN <= mon as int * v as int <= i32::MAX,
            self matches Size::Font(v) ==> i32::MIN <= v as int * 3 <= i32::MAX,
        ensures
            r as int == self.spec_height(mon),
    {
        match self {
            Size::Pixels(v) => *v,
            Size::Percent(v) => {
                let p: i64 = (mon as i64) * (*v as i64);
                tdiv_i64(p, 100) as i32
            },
            Size::Font(v) => {
                let p: i64 = (*v as i64) * 3;
                tdiv_i64(p, 2) as i32
            },
        }
    }
}

/// Which parser turns an input source's bytes into elements.
#[derive(Clone, Copy, Debug, PartialEq, Eq, Structural)]
pub enum Parser {
    /// The dzen-compatible markup, one line per update.
    Dzen,
    /// The custom length-prefixed binary format.
    Ongybar,
    /// One line of plain text per update.
    Plain,
}

/// Where a source's content is anchored within the bar.
#[derive(Clone, Copy, Debug, PartialEq, Eq, Structural)]
pub enum Anchor {
    Left,
    Right,
    Middle,
}

/// Which edge of a monitor the bar attaches to.
#[derive(Clone, Copy, Debug, PartialEq, Eq, Structural)]
pub enum Direction {
    Left,
    Right,
    Top,
    Bottom,
}

/// Where the bar lives: on an edge of every monitor, or of one monitor
/// picked by name.
#[derive(Debug, PartialEq, Eq)]
pub enum Position {
    Global(Direction),
    Monitor(String, Direction),
}

impl Position {
    /// The direction part of the position.
    pub open spec fn spec_direction(&self) -> Direction {
        match *self {
            Position::Global(d) => d,
            Position::Monitor(_, d) => d,
        }
    }

    /// The edge the bar attaches to, wherever it lives.
    pub fn get_direction(&self) -> (d: &Direction)
        ensures
            *d == self.spec_direction(),
    {
        match self {
            Position::Global(d) => d,
            Position::Monitor(_, d) => d,
        }
    }
}

/// Where an input source's bytes come from.
#[derive(Debug, PartialEq, Eq)]
pub enum InputSource {
    /// Standard input.
    Stdin,
    /// An inherited, already-open file descriptor.
    Pipe(i32),
    /// A named pipe or socket (recognized in configurations, not served).
    Named(String),
    /// The standard output of a child process to spawn.
    Spawn(String),
}

/// One configured input source.
#[derive(Debug, PartialEq, Eq)]
pub struct Input {
    pub source: InputSource,
    pub layer: i32,
    pub name: String,
    pub parser: Parser,
    pub position: Anchor,
}

/// The whole bar configuration.
#[derive(Debug, PartialEq, Eq)]
pub struct Config {
    pub position: Position,
    pub inputs: Vec<Input>,
    pub title: String,
    pub size: Size,
}

impl Default for Config {
    /// The stock configuration: a 16-pixel bar on the top edge, titled
    /// "ongybar", reading plain text from standard input into the middle.
    fn default() -> (c: Config)
        ensures
            c.position == Position::Global(Direction::Top),
            c.size == Size::Pixels(16),
            c.title@ == "ongybar"@,
            c.inputs@.len() == 1,
            c.inputs@[0].source == InputSource::Stdin,
            c.inputs@[0].layer == 0,
            c.inputs@[0].name@ == ""@,
            c.inputs@[0].parser == Parser::Plain,
            c.inputs@[0].position == Anchor::Middle,
    {
        let mut inputs: Vec<Input> = Vec::new();
        inputs.push(
            Input {
                source: InputSource::Stdin,
                layer: 0,
                name: "".to_owned(),
                parser: Parser::Plain,
                position: Anchor::Middle,
            },
        );
        Config {
            position: Position::Global(Direction::Top),
            inputs,
            title: "ongybar".to_owned(),
            size: Size::Pixels(16),
        }
    }
}

} // verus!
