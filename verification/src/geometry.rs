//! Monitor bookkeeping: picking a usable monitor and computing the bar's
//! window geometry on it. The windowing system supplies the monitor list
//! and consumes the geometry; the arithmetic and the selection rules live
//! here.

use vstd::prelude::*;

use core::cmp::Ordering;

use crate::cache::str_eq;
use crate::config::{Direction, Position, Size};
use crate::scan::{find_char, lemma_spec_find, spec_find};

verus! {

/// One monitor as the windowing system reports it.
#[derive(Debug, PartialEq, Eq)]
pub struct Monitor {
    pub name: String,
    pub x: i16,
    pub y: i16,
    pub width: u16,
    pub height: u16,
}

/// The window rectangle the bar asks for.
#[derive(Clone, Copy, Debug, PartialEq, Eq, Structural)]
pub struct Geometry {
    pub x: i16,
    pub y: i16,
    pub width: u16,
    pub height: u16,
}

impl Geometry {
    /// The bar's rectangle on `mon`: full monitor width, the configured
    /// height, flush with the top or the bottom edge. (Bars on the left
    /// or right edge are not offered.)
    pub fn from_mon_with_conf(mon: &Monitor, size: &Size, direction: &Direction) -> (g: Geometry)
        requires
            *direction == Direction::Top || *direction == Direction::Bottom,
            size matches Size::Percent(v) ==> i32::MIN <= mon.height as int * v as int
                <= i32::MAX,
            size matches Size::Font(v) ==> i32::MIN <= v as int * 3 <= i32::MAX,
            0 <= size.spec_height(mon.height as i32) <= u16::MAX,
            *direction == Direction::Bottom ==> i16::MIN <= mon.y + mon.height - size.spec_height(
                mon.height as i32,
            ) <= i16::MAX,
        ensures
            g.x == mon.x,
            g.width == mon.width,
            g.height as int == size.spec_height(mon.height as i32),
            *direction == Direction::Top ==> g.y == mon.y,
            *direction == Direction::Bottom ==> g.y as int == mon.y + mon.height
                - size.spec_height(mon.height as i32),
    {
        let h = size.get_height(mon.height as i32);
        match direction {
            Direction::Top => Geometry {
                x: mon.x,
                y: mon.y,
                width: mon.width,
                height: h as u16,
            },
            Direction::Bottom => {
                let y32: i32 = mon.y as i32 + mon.height as i32 - h;
                Geometry { x: mon.x, y: y32 as i16, width: mon.width, height: h as u16 }
            },
            Direction::Left => vstd::pervasive::unreached(),
            Direction::Right => vstd::pervasive::unreached(),
        }
    }
}

/// How two integers compare.
pub open spec fn spec_ord(a: int, b: int) -> Ordering {
    if a < b {
        Ordering::Less
    } else if a == b {
        Ordering::Equal
    } else {
        Ordering::Greater
    }
}

/// Orders monitors along the axis the bar's edge slides on: by y for a
/// top or bottom bar, by x for a left or right one.
pub fn sort_mons(dir: &Direction, left: &Monitor, right: &Monitor) -> (r: Ordering)
    ensures
        (*dir == Direction::Top || *dir == Direction::Bottom) ==> r == spec_ord(
            left.y as int,
            right.y as int,
        ),
        (*dir == Direction::Left || *dir == Direction::Right) ==> r == spec_ord(
            left.x as int,
            right.x as int,
        ),
{
    let (a, b): (i16, i16) = match dir {
        Direction::Top => (left.y, right.y),
        Direction::Bottom => (left.y, right.y),
        Direction::Left => (left.x, right.x),
        Direction::Right => (left.x, right.x),
    };
    if a < b {
        Ordering::Less
    } else if a == b {
        Ordering::Equal
    } else {
        Ordering::Greater
    }
}

/// Whether the monitor named `name` may carry the bar.
pub open spec fn spec_viable(name: Seq<char>, pos: Position) -> bool {
    match pos {
        Position::Global(_) => true,
        Position::Monitor(wanted, _) => wanted@ == name,
    }
}

/// A globally positioned bar accepts every monitor; one pinned to a named
/// monitor accepts that monitor alone.
pub fn is_viable_mon(name: &str, pos: &Position) -> (r: bool)
    ensures
        r == spec_viable(name@, *pos),
{
    match pos {
        Position::Global(_) => true,
        Position::Monitor(val, _) => str_eq(val.as_str(), name),
    }
}

/// Whether one of the space-separated words of `s` starting at `from`
/// reads `w` (split on every single space, as `split(" ")` does: doubled
/// spaces yield empty words).
pub open spec fn spec_has_word_from(s: Seq<char>, from: int, w: Seq<char>) -> bool
    decreases s.len() - from,
    via spec_has_word_from_dec
{
    match spec_find(s, from, ' ') {
        None => s.skip(from) == w,
        Some(i) => s.subrange(from, i) == w || spec_has_word_from(s, i + 1, w),
    }
}

#[via_fn]
proof fn spec_has_word_from_dec(s: Seq<char>, from: int, w: Seq<char>) {
    if 0 <= from <= s.len() {
        lemma_spec_find(s, from, ' ');
    }
}

/// Whether the space-separated extension list `glx_exts` contains the
/// extension `ext_name` as a whole word.
pub fn check_glx_extension(glx_exts: &str, ext_name: &str) -> (r: bool)
    ensures
        r == spec_has_word_from(glx_exts@, 0, ext_name@),
{
    let len = glx_exts.unicode_len();
    let mut start: usize = 0;
    loop
        invariant
            start <= len,
            len == glx_exts@.len(),
            spec_has_word_from(glx_exts@, 0, ext_name@) == spec_has_word_from(
                glx_exts@,
                start as int,
                ext_name@,
            ),
        decreases len - start,
    {
        match find_char(glx_exts, start, ' ') {
            Some(i) => {
                proof {
                    lemma_spec_find(glx_exts@, start as int, ' ');
                }
                if str_eq(glx_exts.substring_char(start, i), ext_name) {
                    assert(glx_exts@.subrange(start as int, i as int) == ext_name@);
                    return true;
                }
                assert(glx_exts@.subrange(start as int, i as int) != ext_name@);
                start = i + 1;
            },
            None => {
                let last = glx_exts.substring_char(start, len);
                let r = str_eq(last, ext_name);
                assert(last@ =~= glx_exts@.skip(start as int));
                return r;
            },
        }
    }
}

} // verus!

verus! {

/// The coordinate monitors are ordered by for a bar on `dir`: y for a top
/// or bottom bar, x for a left or right one.
pub open spec fn spec_mon_key(m: Monitor, dir: Direction) -> int {
    match dir {
        Direction::Top => m.y as int,
        Direction::Bottom => m.y as int,
        Direction::Left => m.x as int,
        Direction::Right => m.x as int,
    }
}

/// Picks the monitor the bar goes on: among the viable monitors, the
/// first with the least coordinate along the bar's axis. `None` when no
/// monitor is viable.
pub fn get_monitor<'a>(mons: &'a Vec<Monitor>, pos: &Position) -> (r: Option<&'a Monitor>)
    ensures
        match r {
            Some(m) => exists|i: int|
                {
                    &&& 0 <= i < mons@.len()
                    &&& mons@[i] == *m
                    &&& spec_viable(mons@[i].name@, *pos)
                    &&& forall|j: int|
                        0 <= j < mons@.len() && spec_viable(mons@[j].name@, *pos)
                            ==> spec_mon_key(*m, pos.spec_direction()) <= spec_mon_key(
                            #[trigger] mons@[j],
                            pos.spec_direction(),
                        )
                    &&& forall|j: int|
                        0 <= j < i && spec_viable(mons@[j].name@, *pos) ==> spec_mon_key(
                            #[trigger] mons@[j],
                            pos.spec_direction(),
                        ) > spec_mon_key(*m, pos.spec_direction())
                },
            None => forall|j: int|
                0 <= j < mons@.len() ==> !spec_viable(#[trigger] mons@[j].name@, *pos),
        },
{
    let ghost dir = pos.spec_direction();
    let mut best: Option<usize> = None;
    let mut i: usize = 0;
    while i < mons.len()
        invariant
            i <= mons@.len(),
            match best {
                Some(b) => {
                    &&& b < i
                    &&& spec_viable(mons@[b as int].name@, *pos)
                    &&& forall|j: int|
                        0 <= j < i && spec_viable(mons@[j].name@, *pos) ==> spec_mon_key(
                            mons@[b as int],
                            dir,
                        ) <= spec_mon_key(#[trigger] mons@[j], dir)
                    &&& forall|j: int|
                        0 <= j < b && spec_viable(mons@[j].name@, *pos) ==> spec_mon_key(
                            #[trigger] mons@[j],
                            dir,
                        ) > spec_mon_key(mons@[b as int], dir)
                },
                None => forall|j: int|
                    0 <= j < i ==> !spec_viable(#[trigger] mons@[j].name@, *pos),
            },
            dir == pos.spec_direction(),
        decreases mons@.len() - i,
    {
        if is_viable_mon(mons[i].name.as_str(), pos) {
            let key_i: i16 = match pos.get_direction() {
                Direction::Top => mons[i].y,
                Direction::Bottom => mons[i].y,
                Direction::Left => mons[i].x,
                Direction::Right => mons[i].x,
            };
            match best {
                None => {
                    best = Some(i);
                },
                Some(b) => {
                    let key_b: i16 = match pos.get_direction() {
                        Direction::Top => mons[b].y,
                        Direction::Bottom => mons[b].y,
                        Direction::Left => mons[b].x,
                        Direction::Right => mons[b].x,
                    };
                    if key_i < key_b {
                        best = Some(i);
                    }
                },
            }
        }
        i += 1;
    }
    match best {
        Some(b) => Some(&mons[b]),
        None => None,
    }
}

} // verus!
