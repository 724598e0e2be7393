//! The custom binary format parser.
//!
//! A record is a node list: a one-byte element count, then that many
//! tagged elements. Tags: `0` a nested node list, `1` text, `2` an image
//! path, `3` a color wrapper around one child, `4` a fixed rectangle, `5`
//! a vector draw group. Text and paths carry a two-byte length, the
//! payload, and one trailing sentinel byte that is dropped. Multi-byte
//! numbers are read low byte first — the host order of the little-endian
//! machines this format is exchanged between; the format is not portable
//! to big-endian hosts and is kept as it is for compatibility.
//!
//! Errors degrade, they do not abort the record: an unrecognized tag skips
//! that slot and its one byte, siblings still parse (the count is known up
//! front); a payload that is not UTF-8 becomes the placeholder text "ERR";
//! a color wrapper whose child cannot be read wraps the placeholder; an
//! unrecognized draw shape becomes a zero-size rectangle. Only running out
//! of bytes stops the parse, keeping the elements built so far.

use vstd::prelude::*;

use vstd::utf8::{decode_utf8, valid_utf8};

use crate::color::Rgba;
use crate::element::{
    cmds_abs, elems_abs, Colored, Coordtype, DrawCol, DrawCommand, DrawRect, Element, OngyDraw,
    OngyImage, OngyRect, OngyStr, SpecDrawCommand, SpecElement,
};

verus! {

/// The number held by the two bytes at `pos`, low byte first.
pub open spec fn spec_u16_at(b: Seq<u8>, pos: int) -> int {
    b[pos] + 0x100 * b[pos + 1]
}

/// The placeholder for text that failed to decode.
pub open spec fn spec_err_text() -> Seq<char> {
    seq!['E', 'R', 'R']
}

/// A length-prefixed text field at `pos`: its characters and the position
/// after it. The sentinel byte after the payload is dropped; a payload
/// that is not UTF-8 reads as the placeholder. `None`: too few bytes.
pub open spec fn spec_text_at(b: Seq<u8>, pos: int) -> Option<(Seq<char>, int)> {
    if 0 <= pos && pos + 2 <= b.len() {
        let n = spec_u16_at(b, pos);
        if pos + 2 + n + 1 <= b.len() {
            let payload = b.subrange(pos + 2, pos + 2 + n);
            let np = pos + 2 + n + 1;
            if valid_utf8(payload) {
                Some((decode_utf8(payload), np))
            } else {
                Some((spec_err_text(), np))
            }
        } else {
            None
        }
    } else {
        None
    }
}

/// The color held by the four bytes at `pos`.
pub open spec fn spec_rgba_at(b: Seq<u8>, pos: int) -> Rgba {
    Rgba { r: b[pos], g: b[pos + 1], b: b[pos + 2], a: b[pos + 3] }
}

/// One draw-group shape at `pos`: tag `1` a rectangle from two 16-bit
/// corners, tag `3` a color wrapper around the next shape, anything else
/// a zero-size rectangle. `None`: too few bytes.
pub open spec fn spec_draw_elem_at(b: Seq<u8>, pos: int) -> Option<(SpecDrawCommand, int)>
    decreases b.len() - pos,
{
    if !(0 <= pos < b.len()) {
        None
    } else if b[pos] == 1 {
        if pos + 9 <= b.len() {
            Some(
                (
                    SpecDrawCommand::Rect(
                        DrawRect {
                            x1: spec_u16_at(b, pos + 1) as u16,
                            y1: spec_u16_at(b, pos + 3) as u16,
                            x2: spec_u16_at(b, pos + 5) as u16,
                            y2: spec_u16_at(b, pos + 7) as u16,
                        },
                    ),
                    pos + 9,
                ),
            )
        } else {
            None
        }
    } else if b[pos] == 3 {
        if pos + 5 <= b.len() {
            match spec_draw_elem_at(b, pos + 5) {
                Some((inner, np)) => Some(
                    (SpecDrawCommand::Col(spec_rgba_at(b, pos + 1), Box::new(inner)), np),
                ),
                None => None,
            }
        } else {
            None
        }
    } else {
        Some((SpecDrawCommand::Rect(DrawRect { x1: 0, y1: 0, x2: 0, y2: 0 }), pos + 1))
    }
}

/// `n` draw-group shapes in a row. `None`: a shape ran out of bytes.
pub open spec fn spec_draw_list_at(b: Seq<u8>, pos: int, n: int) -> Option<
    (Seq<SpecDrawCommand>, int),
>
    decreases n,
{
    if n <= 0 {
        Some((Seq::empty(), pos))
    } else {
        match spec_draw_elem_at(b, pos) {
            Some((cmd, p2)) => match spec_draw_list_at(b, p2, n - 1) {
                Some((rest, p3)) => Some((seq![cmd] + rest, p3)),
                None => None,
            },
            None => None,
        }
    }
}

/// The coordinate mode a draw group's selector byte names; unrecognized
/// values fall back to relative-to-height.
pub open spec fn spec_coordtype(v: u8) -> Coordtype {
    if v == 0 {
        Coordtype::Absolute
    } else if v == 2 {
        Coordtype::SemiRelative
    } else {
        Coordtype::Relative
    }
}

/// One tagged element at `pos`: `Some((Some(e), np))` reads an element,
/// `Some((None, np))` skips an unrecognized tag (one byte), `None` ran
/// out of bytes.
pub open spec fn spec_elem_at(b: Seq<u8>, pos: int) -> Option<(Option<SpecElement>, int)>
    decreases b.len() - pos, 0int, 0int,
{
    if !(0 <= pos < b.len()) {
        None
    } else if b[pos] == 0 {
        if pos + 2 <= b.len() {
            let (items, np) = spec_node_items_at(b, pos + 2, b[pos + 1] as int);
            Some((Some(SpecElement::Group(items)), np))
        } else {
            None
        }
    } else if b[pos] == 1 {
        match spec_text_at(b, pos + 1) {
            Some((t, np)) => Some((Some(SpecElement::Str(t)), np)),
            None => None,
        }
    } else if b[pos] == 2 {
        match spec_text_at(b, pos + 1) {
            Some((t, np)) => Some((Some(SpecElement::Image(t)), np)),
            None => None,
        }
    } else if b[pos] == 3 {
        if pos + 9 <= b.len() {
            // foreground color, then a background color that is read and
            // discarded (background tinting is not implemented)
            let fg = spec_rgba_at(b, pos + 1);
            match spec_elem_at(b, pos + 9) {
                Some((Some(child), np)) => Some(
                    (Some(SpecElement::Color(fg, Box::new(child))), np),
                ),
                Some((None, np)) => Some(
                    (Some(SpecElement::Color(fg, Box::new(SpecElement::Str(spec_err_text())))), np),
                ),
                None => None,
            }
        } else {
            None
        }
    } else if b[pos] == 4 {
        if pos + 5 <= b.len() {
            Some(
                (
                    Some(
                        SpecElement::Rect {
                            width: spec_u16_at(b, pos + 1) as u32,
                            height: spec_u16_at(b, pos + 3) as u32,
                        },
                    ),
                    pos + 5,
                ),
            )
        } else {
            None
        }
    } else if b[pos] == 5 {
        if pos + 3 <= b.len() {
            let coords = spec_coordtype(b[pos + 1]);
            match spec_draw_list_at(b, pos + 3, b[pos + 2] as int) {
                Some((cmds, np)) => Some((Some(SpecElement::Draw(coords, cmds)), np)),
                None => None,
            }
        } else {
            None
        }
    } else {
        Some((None, pos + 1))
    }
}

/// `n` tagged elements in a row: the elements read (skipped slots omitted)
/// and the position after them. Running out of bytes keeps what was read.
/// (Each slot consumes at least one byte — `lemma_elem_at_advances` — so
/// the guard on the recursion never bites; it makes termination evident.)
pub open spec fn spec_node_items_at(b: Seq<u8>, pos: int, n: int) -> (Seq<SpecElement>, int)
    decreases b.len() - pos, 1int, n,
{
    if n <= 0 {
        (Seq::empty(), pos)
    } else {
        match spec_elem_at(b, pos) {
            Some((slot, p2)) => {
                if pos < p2 <= b.len() && 0 <= n {
                    let (rest, p3) = spec_node_items_at(b, p2, n - 1);
                    match slot {
                        Some(e) => (seq![e] + rest, p3),
                        None => (rest, p3),
                    }
                } else {
                    (Seq::empty(), p2)
                }
            },
            None => (Seq::empty(), pos),
        }
    }
}

/// A successful slot always moves forward and stays within the input.
pub proof fn lemma_elem_at_advances(b: Seq<u8>, pos: int)
    ensures
        match spec_elem_at(b, pos) {
            Some((slot, np)) => pos < np <= b.len(),
            None => true,
        },
    decreases b.len() - pos, 0int, 0int,
{
    if 0 <= pos < b.len() {
        if b[pos] == 0 {
            if pos + 2 <= b.len() {
                lemma_node_items_bounds(b, pos + 2, b[pos + 1] as int);
            }
        } else if b[pos] == 3 {
            if pos + 9 <= b.len() {
                lemma_elem_at_advances(b, pos + 9);
            }
        } else if b[pos] == 5 {
            if pos + 3 <= b.len() {
                lemma_draw_list_bounds(b, pos + 3, b[pos + 2] as int);
            }
        }
    }
}

/// A draw shape always moves forward and stays within the input.
proof fn lemma_draw_elem_bounds(b: Seq<u8>, pos: int)
    ensures
        match spec_draw_elem_at(b, pos) {
            Some((cmd, np)) => pos < np <= b.len(),
            None => true,
        },
    decreases b.len() - pos,
{
    if 0 <= pos < b.len() && b[pos] == 3 && pos + 5 <= b.len() {
        lemma_draw_elem_bounds(b, pos + 5);
    }
}

/// A draw list never moves backward nor out of the input.
proof fn lemma_draw_list_bounds(b: Seq<u8>, pos: int, n: int)
    requires
        0 <= pos <= b.len(),
    ensures
        match spec_draw_list_at(b, pos, n) {
            Some((cmds, np)) => pos <= np <= b.len(),
            None => true,
        },
    decreases n,
{
    if n > 0 {
        lemma_draw_elem_bounds(b, pos);
        match spec_draw_elem_at(b, pos) {
            Some((cmd, p2)) => {
                lemma_draw_list_bounds(b, p2, n - 1);
            },
            None => {},
        }
    }
}

/// A node list never moves backward nor out of the input.
pub proof fn lemma_node_items_bounds(b: Seq<u8>, pos: int, n: int)
    requires
        0 <= pos <= b.len(),
    ensures
        pos <= spec_node_items_at(b, pos, n).1 <= b.len(),
    decreases b.len() - pos, 1int, n,
{
    if n > 0 {
        match spec_elem_at(b, pos) {
            Some((slot, p2)) => {
                lemma_elem_at_advances(b, pos);
                if pos < p2 <= b.len() {
                    lemma_node_items_bounds(b, p2, n - 1);
                }
            },
            None => {},
        }
    }
}

/// The whole reading of one binary record: the count byte, then that many
/// element slots. An empty input reads as no elements.
pub open spec fn spec_custom_items(b: Seq<u8>) -> Seq<SpecElement> {
    if b.len() == 0 {
        Seq::empty()
    } else {
        spec_node_items_at(b, 1, b[0] as int).0
    }
}

} // verus!

verus! {

/// Relies on `String::from_utf8` from std: it returns the string of the
/// given bytes exactly when they are valid UTF-8, stated here through
/// vstd's UTF-8 model (`valid_utf8`, `decode_utf8`).
#[verifier::external_body]
fn string_from_utf8(bytes: Vec<u8>) -> (r: Option<String>)
    ensures
        match r {
            Some(s) => valid_utf8(bytes@) && s@ == decode_utf8(bytes@),
            None => !valid_utf8(bytes@),
        },
{
    match String::from_utf8(bytes) {
        Ok(s) => Some(s),
        Err(_) => None,
    }
}

/// Reads the two bytes at `pos`, low byte first.
fn read_u16(bytes: &[u8], pos: usize) -> (r: Option<(u16, usize)>)
    ensures
        match r {
            Some((v, np)) => pos + 2 <= bytes@.len() && v == spec_u16_at(bytes@, pos as int) && np
                == pos + 2,
            None => pos + 2 > bytes@.len(),
        },
{
    if pos < bytes.len() && bytes.len() - pos >= 2 {
        let v: u16 = bytes[pos] as u16 + 0x100 * (bytes[pos + 1] as u16);
        Some((v, pos + 2))
    } else {
        None
    }
}

/// Reads a length-prefixed text field.
pub fn parse_text(bytes: &[u8], pos: usize) -> (r: Option<(OngyStr, usize)>)
    ensures
        match r {
            Some((t, np)) => spec_text_at(bytes@, pos as int) == Some((t.0@, np as int)),
            None => spec_text_at(bytes@, pos as int) is None,
        },
{
    match read_u16(bytes, pos) {
        Some((n, p2)) => {
            let n = n as usize;
            if bytes.len() - p2 >= n && bytes.len() - p2 - n >= 1 {
                let mut payload: Vec<u8> = Vec::new();
                let mut i: usize = 0;
                while i < n
                    invariant
                        i <= n,
                        p2 + n <= bytes@.len(),
                        p2 + n <= usize::MAX,
                        payload@ =~= bytes@.subrange(p2 as int, p2 + i),
                    decreases n - i,
                {
                    payload.push(bytes[p2 + i]);
                    assert(payload@ =~= bytes@.subrange(p2 as int, p2 + i + 1));
                    i += 1;
                }
                let np = p2 + n + 1;
                match string_from_utf8(payload) {
                    Some(s) => Some((OngyStr(s), np)),
                    None => {
                        let e = "ERR".to_owned();
                        proof {
                            reveal_strlit("ERR");
                            assert(e@ =~= spec_err_text());
                        }
                        Some((OngyStr(e), np))
                    },
                }
            } else {
                None
            }
        },
        None => None,
    }
}

/// Reads an image path (framed like text, without extension rewriting).
pub fn parse_image(bytes: &[u8], pos: usize) -> (r: Option<(OngyImage, usize)>)
    ensures
        match r {
            Some((img, np)) => spec_text_at(bytes@, pos as int) == Some((img.0@, np as int)),
            None => spec_text_at(bytes@, pos as int) is None,
        },
{
    match parse_text(bytes, pos) {
        Some((t, np)) => Some((OngyImage(t.0), np)),
        None => None,
    }
}

/// Reads a four-byte color.
pub fn parse_colorfrag(bytes: &[u8], pos: usize) -> (r: Option<(Rgba, usize)>)
    ensures
        match r {
            Some((c, np)) => pos + 4 <= bytes@.len() && c == spec_rgba_at(bytes@, pos as int) && np
                == pos + 4,
            None => pos + 4 > bytes@.len(),
        },
{
    if pos < bytes.len() && bytes.len() - pos >= 4 {
        Some(
            (
                Rgba { r: bytes[pos], g: bytes[pos + 1], b: bytes[pos + 2], a: bytes[pos + 3] },
                pos + 4,
            ),
        )
    } else {
        None
    }
}

/// Reads one draw-group shape.
pub fn parse_draw_elem(bytes: &[u8], pos: usize) -> (r: Option<(DrawCommand, usize)>)
    ensures
        match r {
            Some((cmd, np)) => spec_draw_elem_at(bytes@, pos as int) == Some((cmd@, np as int)),
            None => spec_draw_elem_at(bytes@, pos as int) is None,
        },
    decreases bytes@.len() - pos,
{
    if pos >= bytes.len() {
        return None;
    }
    let tag = bytes[pos];
    if tag == 1 {
        if bytes.len() - pos >= 9 {
            let x1 = match read_u16(bytes, pos + 1) {
                Some((v, _)) => v,
                None => return None,
            };
            let y1 = match read_u16(bytes, pos + 3) {
                Some((v, _)) => v,
                None => return None,
            };
            let x2 = match read_u16(bytes, pos + 5) {
                Some((v, _)) => v,
                None => return None,
            };
            let y2 = match read_u16(bytes, pos + 7) {
                Some((v, _)) => v,
                None => return None,
            };
            Some((DrawCommand::Rect(DrawRect { x1, y1, x2, y2 }), pos + 9))
        } else {
            None
        }
    } else if tag == 3 {
        if bytes.len() - pos >= 5 {
            let color = match parse_colorfrag(bytes, pos + 1) {
                Some((c, _)) => c,
                None => return None,
            };
            match parse_draw_elem(bytes, pos + 5) {
                Some((inner, np)) => {
                    let cmd = DrawCommand::Col(DrawCol { color, cmd: Box::new(inner) });
                    Some((cmd, np))
                },
                None => None,
            }
        } else {
            None
        }
    } else {
        Some((DrawCommand::Rect(DrawRect { x1: 0, y1: 0, x2: 0, y2: 0 }), pos + 1))
    }
}

/// Reads `n` draw-group shapes.
fn parse_draw_list(bytes: &[u8], pos: usize, n: u8) -> (r: Option<(Vec<DrawCommand>, usize)>)
    ensures
        match r {
            Some((cmds, np)) => spec_draw_list_at(bytes@, pos as int, n as int) == Some(
                (cmds_abs(cmds@), np as int),
            ),
            None => spec_draw_list_at(bytes@, pos as int, n as int) is None,
        },
    decreases n,
{
    if n == 0 {
        let cmds: Vec<DrawCommand> = Vec::new();
        assert(cmds_abs(cmds@) =~= Seq::<SpecDrawCommand>::empty());
        return Some((cmds, pos));
    }
    match parse_draw_elem(bytes, pos) {
        Some((cmd, p2)) => {
            proof {
                lemma_draw_elem_bounds_pub(bytes@, pos as int);
            }
            match parse_draw_list(bytes, p2, n - 1) {
                Some((rest, p3)) => {
                    let ghost cmd_v = cmd@;
                    let ghost rest_seq = rest@;
                    let ghost rest_v = cmds_abs(rest@);
                    let mut out: Vec<DrawCommand> = Vec::new();
                    out.push(cmd);
                    let mut rest = rest;
                    out.append(&mut rest);
                    proof {
                        assert(out@.len() >= 1 && out@[0]@ == cmd_v);
                        assert(out@.subrange(1, out@.len() as int) =~= rest_seq);
                        lemma_cmds_abs_cons(out@, cmd_v, rest_v);
                    }
                    Some((out, p3))
                },
                None => None,
            }
        },
        None => None,
    }
}

/// `cmds_abs` of a one-element prefix plus a tail.
proof fn lemma_cmds_abs_cons(s: Seq<DrawCommand>, head: SpecDrawCommand, tail: Seq<SpecDrawCommand>)
    requires
        s.len() >= 1,
        s[0]@ == head,
        cmds_abs(s.subrange(1, s.len() as int)) == tail,
    ensures
        cmds_abs(s) == seq![head] + tail,
{
    assert(cmds_abs(s) =~= seq![head] + tail);
}

/// `lemma_draw_elem_bounds`, shared with the exec code.
proof fn lemma_draw_elem_bounds_pub(b: Seq<u8>, pos: int)
    ensures
        match spec_draw_elem_at(b, pos) {
            Some((cmd, np)) => pos < np <= b.len(),
            None => true,
        },
{
    lemma_draw_elem_bounds(b, pos);
}

} // verus!

verus! {

/// `elems_abs` of a one-element prefix plus a tail.
proof fn lemma_elems_abs_cons(s: Seq<Element>, head: SpecElement, tail: Seq<SpecElement>)
    requires
        s.len() >= 1,
        s[0]@ == head,
        elems_abs(s.subrange(1, s.len() as int)) == tail,
    ensures
        elems_abs(s) == seq![head] + tail,
{
    crate::element::lemma_elems_abs(s);
    crate::element::lemma_elems_abs(s.subrange(1, s.len() as int));
    assert(elems_abs(s) =~= seq![head] + tail);
}

/// Reads a draw group from its coordinate-mode byte on: the mode, a shape
/// count, and that many shapes.
pub fn parse_draw(bytes: &[u8], pos: usize) -> (r: Option<(OngyDraw, usize)>)
    ensures
        match r {
            Some((d, np)) => pos + 2 <= bytes@.len() && d.coords == spec_coordtype(
                bytes@[pos as int],
            ) && spec_draw_list_at(bytes@, pos + 2, bytes@[pos + 1] as int) == Some(
                (cmds_abs(d.values@), np as int),
            ),
            None => pos + 2 > bytes@.len() || spec_draw_list_at(
                bytes@,
                pos + 2,
                bytes@[pos + 1] as int,
            ) is None,
        },
{
    if pos < bytes.len() && bytes.len() - pos >= 2 {
        let mode = bytes[pos];
        let coords = if mode == 0 {
            Coordtype::Absolute
        } else if mode == 2 {
            Coordtype::SemiRelative
        } else {
            Coordtype::Relative
        };
        let count = bytes[pos + 1];
        match parse_draw_list(bytes, pos + 2, count) {
            Some((cmds, np)) => Some((OngyDraw { coords, values: cmds }, np)),
            None => None,
        }
    } else {
        None
    }
}

/// Reads one tagged element slot: `Some((Some(e), np))` an element,
/// `Some((None, np))` a skipped unrecognized tag, `None` out of bytes.
pub fn parse_elem(bytes: &[u8], pos: usize) -> (r: Option<(Option<Element>, usize)>)
    requires
        pos <= bytes@.len(),
    ensures
        match r {
            Some((slot, np)) => match spec_elem_at(bytes@, pos as int) {
                Some((sslot, snp)) => np == snp && (match (slot, sslot) {
                    (Some(e), Some(se)) => e@ == se,
                    (None, None) => true,
                    _ => false,
                }),
                None => false,
            },
            None => spec_elem_at(bytes@, pos as int) is None,
        },
    decreases bytes@.len() - pos, 0int, 0int,
{
    if pos >= bytes.len() {
        return None;
    }
    let tag = bytes[pos];
    if tag == 0 {
        if bytes.len() - pos >= 2 {
            let count = bytes[pos + 1];
            let pair = parse_node_items(bytes, pos + 2, count);
            let ghost items_v = elems_abs(pair.0@);
            let group = Element::Group(pair.0);
            assert(group@ == SpecElement::Group(items_v));
            Some((Some(group), pair.1))
        } else {
            None
        }
    } else if tag == 1 {
        match parse_text(bytes, pos + 1) {
            Some((t, np)) => Some((Some(Element::Str(t)), np)),
            None => None,
        }
    } else if tag == 2 {
        match parse_image(bytes, pos + 1) {
            Some((img, np)) => Some((Some(Element::Image(img)), np)),
            None => None,
        }
    } else if tag == 3 {
        if bytes.len() - pos >= 9 {
            let fg = match parse_colorfrag(bytes, pos + 1) {
                Some((c, _)) => c,
                None => return None,
            };
            // the background color is read and discarded
            let _bg = parse_colorfrag(bytes, pos + 5);
            match parse_elem(bytes, pos + 9) {
                Some((Some(child), np)) => {
                    let ghost child_v = child@;
                    let e = Element::Color(Colored { color: fg, elem: Box::new(child) });
                    assert(e@ == SpecElement::Color(fg, Box::new(child_v)));
                    Some((Some(e), np))
                },
                Some((None, np)) => {
                    let err = "ERR".to_owned();
                    proof {
                        reveal_strlit("ERR");
                        assert(err@ =~= spec_err_text());
                    }
                    let child = Element::Str(OngyStr(err));
                    let ghost child_v = child@;
                    assert(child_v == SpecElement::Str(spec_err_text()));
                    let e = Element::Color(Colored { color: fg, elem: Box::new(child) });
                    assert(e@ == SpecElement::Color(fg, Box::new(child_v)));
                    Some((Some(e), np))
                },
                None => None,
            }
        } else {
            None
        }
    } else if tag == 4 {
        if bytes.len() - pos >= 5 {
            let w = match read_u16(bytes, pos + 1) {
                Some((v, _)) => v,
                None => return None,
            };
            let h = match read_u16(bytes, pos + 3) {
                Some((v, _)) => v,
                None => return None,
            };
            Some((Some(Element::Rect(OngyRect { width: w as u32, height: h as u32 })), pos + 5))
        } else {
            None
        }
    } else if tag == 5 {
        match parse_draw(bytes, pos + 1) {
            Some((d, np)) => {
                let ghost coords = d.coords;
                let ghost cmds_v = cmds_abs(d.values@);
                let e = Element::Draw(d);
                assert(e@ == SpecElement::Draw(coords, cmds_v));
                Some((Some(e), np))
            },
            None => None,
        }
    } else {
        Some((None, pos + 1))
    }
}

/// Reads `n` element slots in a row; running out of bytes keeps what was
/// read so far.
pub fn parse_node_items(bytes: &[u8], pos: usize, n: u8) -> (r: (Vec<Element>, usize))
    requires
        pos <= bytes@.len(),
    ensures
        elems_abs(r.0@) == spec_node_items_at(bytes@, pos as int, n as int).0,
        r.1 as int == spec_node_items_at(bytes@, pos as int, n as int).1,
    decreases bytes@.len() - pos, 1int, n as int,
{
    if n == 0 {
        let out: Vec<Element> = Vec::new();
        assert(elems_abs(out@) =~= Seq::<SpecElement>::empty());
        return (out, pos);
    }
    match parse_elem(bytes, pos) {
        None => {
            let out: Vec<Element> = Vec::new();
            assert(elems_abs(out@) =~= Seq::<SpecElement>::empty());
            (out, pos)
        },
        Some((slot, p2)) => {
            proof {
                lemma_elem_at_advances(bytes@, pos as int);
            }
            let pair = parse_node_items(bytes, p2, n - 1);
            let p3 = pair.1;
            match slot {
                Some(e) => {
                    let ghost e_v = e@;
                    let ghost rest_seq = pair.0@;
                    let ghost rest_v = elems_abs(pair.0@);
                    let mut out: Vec<Element> = Vec::new();
                    out.push(e);
                    let mut rest = pair.0;
                    out.append(&mut rest);
                    proof {
                        assert(out@.len() >= 1 && out@[0]@ == e_v);
                        assert(out@.subrange(1, out@.len() as int) =~= rest_seq);
                        lemma_elems_abs_cons(out@, e_v, rest_v);
                    }
                    (out, p3)
                },
                None => (pair.0, p3),
            }
        },
    }
}

/// Parses one whole binary record into elements. An empty input yields no
/// elements; a truncated one yields the elements read before the end.
pub fn custom_parse(bytes: &[u8]) -> (r: Vec<Element>)
    ensures
        elems_abs(r@) == spec_custom_items(bytes@),
{
    if bytes.len() == 0 {
        let out: Vec<Element> = Vec::new();
        assert(elems_abs(out@) =~= Seq::<SpecElement>::empty());
        return out;
    }
    let n = bytes[0];
    let pair = parse_node_items(bytes, 1, n);
    pair.0
}

} // verus!
