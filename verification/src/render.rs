//! The rendering pass.
//!
//! Rendering does not touch a window: it appends plain drawing commands
//! (`DrawOp`) to a list, which the presentation layer replays against
//! whatever surface it owns. Every `render` is proved to return exactly the
//! width `measure` reports for the same tree, height, ruler and image
//! cache: the agreement the anchoring arithmetic depends on.

use vstd::prelude::*;

use crate::cache::ImageCache;
use crate::color::Rgba;
use crate::element::{
    cmds_abs, elems_abs, lemma_elems_abs, lemma_seq_size_push, spec_draw_total, spec_draw_width,
    spec_seq_size, spec_size, spec_text_height, spec_transform, text_height, transform_x,
    transform_y, valid_height, Coordtype, DrawCommand, Element, SpecDrawCommand, SpecElement, GAP,
};
use crate::num::{sat_add, sat_add_i64};
use crate::ruler::TextRuler;

verus! {

/// The mathematical reading of one drawing command: coordinates as plain
/// integers, text as its characters.
pub enum SpecOp {
    Text { color: Rgba, height: u32, text: Seq<char>, x: int, y: int },
    Line { color: Rgba, x: int, y_top: int, y_bottom: int },
    Rect { color: Rgba, x: int, y: int, w: int, h: int },
    Image { path: Seq<char>, x: int, y: int },
}

/// One drawing command for the presentation layer. Coordinates are pixels,
/// relative to the left edge of the row the tree was rendered into; y grows
/// downward.
#[derive(Debug, PartialEq, Eq)]
pub enum DrawOp {
    /// Draw `text` at baseline offset `y`, `height` pixels tall.
    Text { color: Rgba, height: u32, text: String, x: i64, y: i64 },
    /// Draw a one-pixel vertical line from `y_top` to `y_bottom`.
    Line { color: Rgba, x: i64, y_top: i64, y_bottom: i64 },
    /// Fill the rectangle of size `w` by `h` whose top-left corner is
    /// (`x`, `y`).
    Rect { color: Rgba, x: i64, y: i64, w: i64, h: i64 },
    /// Draw the image loaded from `path` with its top-left corner at
    /// (`x`, `y`).
    Image { path: String, x: i64, y: i64 },
}

impl View for DrawOp {
    type V = SpecOp;

    open spec fn view(&self) -> SpecOp {
        match self {
            DrawOp::Text { color, height, text, x, y } => SpecOp::Text {
                color: *color,
                height: *height,
                text: text@,
                x: *x as int,
                y: *y as int,
            },
            DrawOp::Line { color, x, y_top, y_bottom } => SpecOp::Line {
                color: *color,
                x: *x as int,
                y_top: *y_top as int,
                y_bottom: *y_bottom as int,
            },
            DrawOp::Rect { color, x, y, w, h } => SpecOp::Rect {
                color: *color,
                x: *x as int,
                y: *y as int,
                w: *w as int,
                h: *h as int,
            },
            DrawOp::Image { path, x, y } => SpecOp::Image {
                path: path@,
                x: *x as int,
                y: *y as int,
            },
        }
    }
}

/// The abstract reading of a command list.
pub open spec fn op_views(s: Seq<DrawOp>) -> Seq<SpecOp> {
    s.map_values(|o: DrawOp| o@)
}

/// Appending a command appends its reading.
proof fn lemma_op_views_push(s: Seq<DrawOp>, o: DrawOp)
    ensures
        op_views(s.push(o)) =~= op_views(s).push(o@),
{
}

/// The commands one draw-group shape emits: its rectangle, placed by the
/// group's coordinate mapping, offset horizontally by the group's origin
/// `x`; a color wrapper only changes the color of what it wraps.
pub open spec fn spec_draw_cmd_render(
    cmd: SpecDrawCommand,
    c: Coordtype,
    h: u32,
    x: int,
    color: Rgba,
) -> Seq<SpecOp>
    decreases cmd,
{
    match cmd {
        SpecDrawCommand::Rect(r) => seq![
            SpecOp::Rect {
                color,
                x: sat_add(x, spec_transform(c, r.x1 as int, r.y1 as int, h).0),
                y: spec_transform(c, r.x1 as int, r.y1 as int, h).1,
                w: spec_transform(c, r.x2 - r.x1, r.y2 - r.y1, h).0,
                h: spec_transform(c, r.x2 - r.x1, r.y2 - r.y1, h).1,
            },
        ],
        SpecDrawCommand::Col(col, inner) => spec_draw_cmd_render(*inner, c, h, x, col),
    }
}

/// The commands of a whole draw group: each shape at the group's own
/// origin, in order.
pub open spec fn spec_draw_render(
    s: Seq<SpecDrawCommand>,
    c: Coordtype,
    h: u32,
    x: int,
    color: Rgba,
) -> Seq<SpecOp>
    decreases s,
{
    if s.len() == 0 {
        Seq::empty()
    } else {
        spec_draw_render(s.drop_last(), c, h, x, color) + spec_draw_cmd_render(
            s.last(),
            c,
            h,
            x,
            color,
        )
    }
}

/// Where the cursor stands after laying out `s` starting at `x`: each child
/// advances it by the child's width plus `GAP` (also after the last child,
/// as the fold of the render pass does).
pub open spec fn spec_cursor_after<R: TextRuler>(
    s: Seq<SpecElement>,
    rul: &R,
    imgs: &ImageCache,
    h: u32,
    x: int,
) -> int
    decreases s,
{
    if s.len() == 0 {
        x
    } else {
        sat_add(
            spec_cursor_after(s.drop_last(), rul, imgs, h, x),
            sat_add(spec_size(s.last(), rul, imgs, h), GAP as int),
        )
    }
}

/// The commands an element emits when rendered at horizontal offset `x`
/// with the inherited `color`.
pub open spec fn spec_render<R: TextRuler>(
    e: SpecElement,
    rul: &R,
    imgs: &ImageCache,
    h: u32,
    x: int,
    color: Rgba,
) -> Seq<SpecOp>
    decreases e,
{
    match e {
        SpecElement::Str(s) => seq![
            SpecOp::Text {
                color,
                height: spec_text_height(h),
                text: s,
                x,
                y: spec_text_height(h) + 2,
            },
        ],
        SpecElement::Sep => seq![SpecOp::Line { color, x, y_top: 3, y_bottom: h - 3 }],
        SpecElement::Rect { width, height } => seq![
            SpecOp::Rect {
                color,
                x,
                y: h / 2 - height / 2,
                w: width as int,
                h: height as int,
            },
        ],
        SpecElement::RectR { width, height } => seq![
            SpecOp::Rect {
                color,
                x,
                y: h / 2 - ((height * h) / 100) / 2,
                w: (width * h) / 100,
                h: (height * h) / 100,
            },
        ],
        SpecElement::Pos(_) => Seq::empty(),
        SpecElement::Image(path) => match imgs.spec_get(path) {
            Some(d) => seq![SpecOp::Image { path, x, y: h / 2 - d.height / 2 }],
            None => Seq::empty(),
        },
        SpecElement::Color(col, inner) => spec_render(*inner, rul, imgs, h, x, col),
        SpecElement::Draw(coords, cmds) => spec_draw_render(cmds, coords, h, x, color),
        SpecElement::Group(v) => spec_seq_render(v, rul, imgs, h, x, color),
    }
}

/// The commands of a sequence: each child rendered where the cursor stands
/// after its predecessors.
pub open spec fn spec_seq_render<R: TextRuler>(
    s: Seq<SpecElement>,
    rul: &R,
    imgs: &ImageCache,
    h: u32,
    x: int,
    color: Rgba,
) -> Seq<SpecOp>
    decreases s,
{
    if s.len() == 0 {
        Seq::empty()
    } else {
        spec_seq_render(s.drop_last(), rul, imgs, h, x, color) + spec_render(
            s.last(),
            rul,
            imgs,
            h,
            spec_cursor_after(s.drop_last(), rul, imgs, h, x),
            color,
        )
    }
}

/// Renders one draw-group shape, returning its width.
fn draw_cmd_render(
    cmd: &DrawCommand,
    c: Coordtype,
    h: u32,
    x: i64,
    color: Rgba,
    out: &mut Vec<DrawOp>,
) -> (w: i64)
    requires
        valid_height(h),
    ensures
        w as int == spec_draw_width(cmd@, c, h),
        op_views(final(out)@) == op_views(old(out)@) + spec_draw_cmd_render(
            cmd@,
            c,
            h,
            x as int,
            color,
        ),
    decreases *cmd,
{
    match cmd {
        DrawCommand::Rect(r) => {
            let px = transform_x(c, r.x1 as i64, h);
            let py = transform_y(c, r.y1 as i64, h);
            let tw = transform_x(c, r.x2 as i64 - r.x1 as i64, h);
            let th = transform_y(c, r.y2 as i64 - r.y1 as i64, h);
            let op = DrawOp::Rect { color, x: sat_add_i64(x, px), y: py, w: tw, h: th };
            proof {
                lemma_op_views_push(out@, op);
            }
            out.push(op);
            assert(op_views(final(out)@) =~= op_views(old(out)@) + spec_draw_cmd_render(
                cmd@,
                c,
                h,
                x as int,
                color,
            ));
            tw
        },
        DrawCommand::Col(dc) => draw_cmd_render(&dc.cmd, c, h, x, dc.color, out),
    }
}

impl Element {
    /// Renders this element at horizontal offset `x`, appending its drawing
    /// commands to `out` and returning the width it occupied — proved equal
    /// to what `measure` reports for the same arguments, so a caller may
    /// measure first, shift, and then render without drift.
    pub fn render<R: TextRuler>(
        &self,
        rul: &R,
        imgs: &ImageCache,
        height: u32,
        x: i64,
        color: Rgba,
        out: &mut Vec<DrawOp>,
    ) -> (w: i64)
        requires
            valid_height(height),
        ensures
            w as int == spec_size(self@, rul, imgs, height),
            op_views(final(out)@) == op_views(old(out)@) + spec_render(
                self@,
                rul,
                imgs,
                height,
                x as int,
                color,
            ),
        decreases *self,
    {
        match self {
            Element::Str(s) => {
                let th = text_height(height);
                let w = rul.width(th, s.0.as_str());
                let op = DrawOp::Text { color, height: th, text: s.0.clone(), x, y: th as i64 + 2 };
                proof {
                    lemma_op_views_push(out@, op);
                }
                out.push(op);
                assert(op_views(final(out)@) =~= op_views(old(out)@) + spec_render(
                    self@,
                    rul,
                    imgs,
                    height,
                    x as int,
                    color,
                ));
                w as i64
            },
            Element::Sep(_) => {
                let op = DrawOp::Line { color, x, y_top: 3, y_bottom: (height - 3) as i64 };
                proof {
                    lemma_op_views_push(out@, op);
                }
                out.push(op);
                assert(op_views(final(out)@) =~= op_views(old(out)@) + spec_render(
                    self@,
                    rul,
                    imgs,
                    height,
                    x as int,
                    color,
                ));
                1
            },
            Element::Rect(r) => {
                let op = DrawOp::Rect {
                    color,
                    x,
                    y: (height / 2) as i64 - (r.height / 2) as i64,
                    w: r.width as i64,
                    h: r.height as i64,
                };
                proof {
                    lemma_op_views_push(out@, op);
                }
                out.push(op);
                assert(op_views(final(out)@) =~= op_views(old(out)@) + spec_render(
                    self@,
                    rul,
                    imgs,
                    height,
                    x as int,
                    color,
                ));
                r.width as i64
            },
            Element::RectR(r) => {
                let rw = pct_of_height(r.width, height);
                let rh = pct_of_height(r.height, height);
                let op = DrawOp::Rect {
                    color,
                    x,
                    y: (height / 2) as i64 - (rh / 2) as i64,
                    w: rw as i64,
                    h: rh as i64,
                };
                proof {
                    lemma_op_views_push(out@, op);
                }
                out.push(op);
                assert(op_views(final(out)@) =~= op_views(old(out)@) + spec_render(
                    self@,
                    rul,
                    imgs,
                    height,
                    x as int,
                    color,
                ));
                rw as i64
            },
            Element::Pos(p) => {
                assert(op_views(final(out)@) =~= op_views(old(out)@) + spec_render(
                    self@,
                    rul,
                    imgs,
                    height,
                    x as int,
                    color,
                ));
                p.0
            },
            Element::Image(i) => match imgs.get(i.0.as_str()) {
                Some(d) => {
                    let op = DrawOp::Image {
                        path: i.0.clone(),
                        x,
                        y: (height / 2) as i64 - (d.height / 2) as i64,
                    };
                    proof {
                        lemma_op_views_push(out@, op);
                    }
                    out.push(op);
                    assert(op_views(final(out)@) =~= op_views(old(out)@) + spec_render(
                        self@,
                        rul,
                        imgs,
                        height,
                        x as int,
                        color,
                    ));
                    d.width as i64
                },
                None => {
                    assert(op_views(final(out)@) =~= op_views(old(out)@) + spec_render(
                        self@,
                        rul,
                        imgs,
                        height,
                        x as int,
                        color,
                    ));
                    0
                },
            },
            Element::Color(c) => c.elem.render(rul, imgs, height, x, c.color, out),
            Element::Draw(d) => {
                let ghost base = out@;
                let ghost all = cmds_abs(d.values@);
                let mut total: i64 = 0;
                let mut k: usize = 0;
                assert(all.subrange(0, 0) =~= Seq::<SpecDrawCommand>::empty());
                assert(op_views(out@) =~= op_views(base) + spec_draw_render(
                    all.subrange(0, 0),
                    d.coords,
                    height,
                    x as int,
                    color,
                ));
                while k < d.values.len()
                    invariant
                        valid_height(height),
                        k <= d.values@.len(),
                        all == cmds_abs(d.values@),
                        total as int == spec_draw_total(
                            all.subrange(0, k as int),
                            d.coords,
                            height,
                        ),
                        op_views(out@) == op_views(base) + spec_draw_render(
                            all.subrange(0, k as int),
                            d.coords,
                            height,
                            x as int,
                            color,
                        ),
                    decreases d.values@.len() - k,
                {
                    let ghost prefix = all.subrange(0, k as int);
                    let w = draw_cmd_render(&d.values[k], d.coords, height, x, color, out);
                    proof {
                        assert(prefix.push(d.values@[k as int]@) =~= all.subrange(0, k + 1));
                        assert(all.subrange(0, k + 1).drop_last() =~= prefix);
                        assert(op_views(out@) =~= op_views(base) + spec_draw_render(
                            all.subrange(0, k + 1),
                            d.coords,
                            height,
                            x as int,
                            color,
                        ));
                    }
                    total = sat_add_i64(total, w);
                    k += 1;
                }
                assert(all.subrange(0, all.len() as int) =~= all);
                total
            },
            Element::Group(v) => {
                let ghost base = out@;
                let ghost all = elems_abs(v@);
                let mut total: i64 = 0;
                let mut cur: i64 = x;
                let mut k: usize = 0;
                proof {
                    lemma_elems_abs(v@);
                    assert(all.subrange(0, 0) =~= Seq::<SpecElement>::empty());
                    assert(op_views(out@) =~= op_views(base) + spec_seq_render(
                        all.subrange(0, 0),
                        rul,
                        imgs,
                        height,
                        x as int,
                        color,
                    ));
                }
                while k < v.len()
                    invariant
                        valid_height(height),
                        k <= v@.len(),
                        *self == Element::Group(*v),
                        all == elems_abs(v@),
                        all.len() == v@.len(),
                        total as int == spec_seq_size(all.subrange(0, k as int), rul, imgs, height),
                        cur as int == spec_cursor_after(
                            all.subrange(0, k as int),
                            rul,
                            imgs,
                            height,
                            x as int,
                        ),
                        op_views(out@) == op_views(base) + spec_seq_render(
                            all.subrange(0, k as int),
                            rul,
                            imgs,
                            height,
                            x as int,
                            color,
                        ),
                    decreases v@.len() - k,
                {
                    let ghost prefix = all.subrange(0, k as int);
                    proof {
                        lemma_elems_abs(v@);
                        assert(decreases_to!(*self => self->Group_0));
                        assert(self->Group_0 == *v);
                        assert(decreases_to!(*v => v@));
                        assert(decreases_to!(v@ => v@[k as int]));
                        assert(decreases_to!(*self => v@[k as int]));
                    }
                    let w = v[k].render(rul, imgs, height, cur, color, out);
                    proof {
                        lemma_seq_size_push(prefix, v@[k as int]@, rul, imgs, height);
                        assert(prefix.push(v@[k as int]@) =~= all.subrange(0, k + 1));
                        assert(all.subrange(0, k + 1).drop_last() =~= prefix);
                        assert(op_views(out@) =~= op_views(base) + spec_seq_render(
                            all.subrange(0, k + 1),
                            rul,
                            imgs,
                            height,
                            x as int,
                            color,
                        ));
                    }
                    if k == 0 {
                        total = w;
                    } else {
                        total = sat_add_i64(sat_add_i64(total, GAP), w);
                    }
                    cur = sat_add_i64(cur, sat_add_i64(w, GAP));
                    k += 1;
                }
                assert(all.subrange(0, all.len() as int) =~= all);
                total
            },
        }
    }
}

/// `v` percent of the row height, in pixels.
fn pct_of_height(v: u32, h: u32) -> (r: u64)
    requires
        valid_height(h),
    ensures
        r as int == (v as int * h as int) / 100,
        r <= 0x7FFF_FFFF_FFFF_FFFF,
{
    assert(v as int * h as int <= 0xFFFF_FFFF * 0x4000_0000int && v as int * h as int >= 0)
        by (nonlinear_arith)
        requires
            0 <= v <= 0xFFFF_FFFF,
            0 <= h <= 0x4000_0000,
    ;
    (v as u64 * h as u64) / 100
}

} // verus!
