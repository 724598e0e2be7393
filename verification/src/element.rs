//! The renderable content model.
//!
//! A bar's content is a tree of `Element`s. Each element can report the
//! horizontal space it will occupy at a given row height (`measure`), and
//! can render itself into a list of drawing commands (see `render`),
//! returning the space it occupied. The two passes are proved to agree: the
//! width `render` reports equals what `measure` computed, which is what
//! right- and center-anchored layout depends on.
//!
//! Contracts speak about `SpecElement`, the mathematical reading of an
//! element tree (text as its characters, children as sequences), reached
//! from an `Element` through its view `@`.
//!
//! Widths are whole pixels, held in `i64`; every accumulation saturates at
//! the `i64` bounds instead of wrapping, so measuring is total even for
//! absurd trees. Position adjustments may be negative: the parsers use a
//! `-GAP` adjustment to cancel the automatic inter-element gap.

use vstd::prelude::*;

use crate::cache::ImageCache;
use crate::color::Rgba;
use crate::num::{sat_add, sat_add_i64, tdiv};
use crate::ruler::TextRuler;

verus! {

/// The gap, in pixels, inserted between consecutive children of a sequence.
/// Fixed here once; the `-GAP` adjustment hack of the parsers and the gap
/// law of `spec_seq_size` both refer to this constant.
pub const GAP: i64 = 4;

/// A run of text.
#[derive(Clone, Debug, PartialEq, Eq)]
pub struct OngyStr(pub String);

/// A thin vertical separator line, fixed at one pixel wide.
#[derive(Clone, Copy, Debug, PartialEq, Eq, Structural)]
pub struct Separator;

/// A bare cursor movement: occupies `offset` pixels (possibly negative)
/// and draws nothing.
#[derive(Clone, Copy, Debug, PartialEq, Eq, Structural)]
pub struct OngyPos(pub i64);

/// A filled rectangle with absolute pixel dimensions.
#[derive(Clone, Copy, Debug, PartialEq, Eq, Structural)]
pub struct OngyRect {
    pub width: u32,
    pub height: u32,
}

/// A filled rectangle with dimensions in percent of the row height.
#[derive(Clone, Copy, Debug, PartialEq, Eq, Structural)]
pub struct OngyRectR {
    pub width: u32,
    pub height: u32,
}

/// An image, identified by the path it is loaded from.
#[derive(Clone, Debug, PartialEq, Eq)]
pub struct OngyImage(pub String);

/// How a draw group's coordinates map to pixels.
#[derive(Clone, Copy, Debug, PartialEq, Eq, Structural)]
pub enum Coordtype {
    /// Coordinates are pixels.
    Absolute,
    /// Both axes are percent of the row height.
    Relative,
    /// The x axis is pixels, the y axis percent of the row height.
    SemiRelative,
}

/// A rectangle of a draw group, given by two corners.
#[derive(Clone, Copy, Debug, PartialEq, Eq, Structural)]
pub struct DrawRect {
    pub x1: u16,
    pub y1: u16,
    pub x2: u16,
    pub y2: u16,
}

/// A draw command with its own color, overriding the inherited one.
#[derive(Debug, PartialEq, Eq)]
pub struct DrawCol {
    pub color: Rgba,
    pub cmd: Box<DrawCommand>,
}

/// One command of a draw group.
#[derive(Debug, PartialEq, Eq)]
pub enum DrawCommand {
    Rect(DrawRect),
    Col(DrawCol),
}

/// A freeform vector-drawing group: a list of shape commands, all rendered
/// at the group's own origin (commands do not offset one another), under
/// one coordinate mapping.
#[derive(Debug, PartialEq, Eq)]
pub struct OngyDraw {
    pub coords: Coordtype,
    pub values: Vec<DrawCommand>,
}

/// A wrapped element drawn in a fixed color, whatever color the caller
/// passes down.
#[derive(Debug, PartialEq, Eq)]
pub struct Colored {
    pub color: Rgba,
    pub elem: Box<Element>,
}

/// One node of a content tree.
#[derive(Debug, PartialEq, Eq)]
pub enum Element {
    Str(OngyStr),
    Sep(Separator),
    Rect(OngyRect),
    RectR(OngyRectR),
    Pos(OngyPos),
    Image(OngyImage),
    Color(Colored),
    Draw(OngyDraw),
    /// An ordered sequence of elements, laid out left to right with `GAP`
    /// pixels between consecutive children.
    Group(Vec<Element>),
}

/// The mathematical reading of a draw command.
pub enum SpecDrawCommand {
    Rect(DrawRect),
    Col(Rgba, Box<SpecDrawCommand>),
}

/// The mathematical reading of an element: text and paths as character
/// sequences, children as sequences of readings.
pub enum SpecElement {
    Str(Seq<char>),
    Sep,
    Rect { width: u32, height: u32 },
    RectR { width: u32, height: u32 },
    Pos(i64),
    Image(Seq<char>),
    Color(Rgba, Box<SpecElement>),
    Draw(Coordtype, Seq<SpecDrawCommand>),
    Group(Seq<SpecElement>),
}

/// The reading of one draw command.
pub open spec fn cmd_abs(cmd: DrawCommand) -> SpecDrawCommand
    decreases cmd,
{
    match cmd {
        DrawCommand::Rect(r) => SpecDrawCommand::Rect(r),
        DrawCommand::Col(dc) => SpecDrawCommand::Col(dc.color, Box::new(cmd_abs(*dc.cmd))),
    }
}

/// The reading of a command list, element by element.
pub open spec fn cmds_abs(s: Seq<DrawCommand>) -> Seq<SpecDrawCommand> {
    s.map_values(|c: DrawCommand| cmd_abs(c))
}

/// The reading of one element.
pub open spec fn elem_abs(e: Element) -> SpecElement
    decreases e,
{
    match e {
        Element::Str(s) => SpecElement::Str(s.0@),
        Element::Sep(_) => SpecElement::Sep,
        Element::Rect(r) => SpecElement::Rect { width: r.width, height: r.height },
        Element::RectR(r) => SpecElement::RectR { width: r.width, height: r.height },
        Element::Pos(p) => SpecElement::Pos(p.0),
        Element::Image(i) => SpecElement::Image(i.0@),
        Element::Color(c) => SpecElement::Color(c.color, Box::new(elem_abs(*c.elem))),
        Element::Draw(d) => SpecElement::Draw(d.coords, cmds_abs(d.values@)),
        Element::Group(v) => SpecElement::Group(elems_abs(v@)),
    }
}

/// The reading of an element list, element by element.
pub open spec fn elems_abs(s: Seq<Element>) -> Seq<SpecElement>
    decreases s,
{
    if s.len() == 0 {
        Seq::empty()
    } else {
        elems_abs(s.drop_last()).push(elem_abs(s.last()))
    }
}

/// `elems_abs` reads pointwise.
pub proof fn lemma_elems_abs(s: Seq<Element>)
    ensures
        elems_abs(s).len() == s.len(),
        forall|i: int| 0 <= i < s.len() ==> elems_abs(s)[i] == elem_abs(s[i]),
    decreases s,
{
    if s.len() > 0 {
        lemma_elems_abs(s.drop_last());
    }
}

impl View for DrawCommand {
    type V = SpecDrawCommand;

    open spec fn view(&self) -> SpecDrawCommand {
        cmd_abs(*self)
    }
}

impl View for Element {
    type V = SpecElement;

    open spec fn view(&self) -> SpecElement {
        elem_abs(*self)
    }
}

/// Row heights the layout accepts: at least 3 (the text height derivation
/// and the separator need `height - 3` to be non-negative), and small
/// enough that every product with a coordinate stays far from any integer
/// bound.
pub open spec fn valid_height(h: u32) -> bool {
    3 <= h <= 0x4000_0000
}

/// The height text is drawn at in a row of height `h`: two pixels margin,
/// and two thirds of the rest.
pub open spec fn spec_text_height(h: u32) -> u32 {
    if h < 2 {
        0
    } else {
        (((h - 2) * 2) / 3) as u32
    }
}

/// Executable text-height derivation.
pub fn text_height(h: u32) -> (r: u32)
    requires
        valid_height(h),
    ensures
        r == spec_text_height(h),
{
    (h - 2) * 2 / 3
}

/// Where a coordinate pair of a draw group lands, in pixels.
pub open spec fn spec_transform(c: Coordtype, x: int, y: int, h: u32) -> (int, int) {
    match c {
        Coordtype::Absolute => (x, y),
        Coordtype::Relative => (tdiv(x * h, 100), tdiv(y * h, 100)),
        Coordtype::SemiRelative => (x, tdiv(y * h, 100)),
    }
}

/// The width one draw command occupies: the transformed x-extent of its
/// rectangle (negative when the corners are swapped).
pub open spec fn spec_draw_width(cmd: SpecDrawCommand, c: Coordtype, h: u32) -> int
    decreases cmd,
{
    match cmd {
        SpecDrawCommand::Rect(r) => spec_transform(c, r.x2 - r.x1, r.y2 - r.y1, h).0,
        SpecDrawCommand::Col(_, inner) => spec_draw_width(*inner, c, h),
    }
}

/// The width of a whole draw group: the saturating sum of its commands'
/// widths (the commands share one origin, so no gaps are involved).
pub open spec fn spec_draw_total(s: Seq<SpecDrawCommand>, c: Coordtype, h: u32) -> int
    decreases s,
{
    if s.len() == 0 {
        0
    } else {
        sat_add(spec_draw_total(s.drop_last(), c, h), spec_draw_width(s.last(), c, h))
    }
}

/// The width an element occupies at row height `h`, measuring text with
/// `rul` and images with `imgs`.
pub open spec fn spec_size<R: TextRuler>(e: SpecElement, rul: &R, imgs: &ImageCache, h: u32) -> int
    decreases e,
{
    match e {
        SpecElement::Str(s) => rul.width_spec(spec_text_height(h), s),
        SpecElement::Sep => 1,
        SpecElement::Rect { width, .. } => width as int,
        SpecElement::RectR { width, .. } => (width * h) / 100,
        SpecElement::Pos(p) => p as int,
        SpecElement::Image(path) => match imgs.spec_get(path) {
            Some(d) => d.width as int,
            None => 0,
        },
        SpecElement::Color(_, inner) => spec_size(*inner, rul, imgs, h),
        SpecElement::Draw(coords, cmds) => spec_draw_total(cmds, coords, h),
        SpecElement::Group(v) => spec_seq_size(v, rul, imgs, h),
    }
}

/// The width of a sequence of elements: each child's width, with `GAP`
/// between consecutive children and none at the ends. An empty sequence is
/// zero wide. Sums saturate.
pub open spec fn spec_seq_size<R: TextRuler>(
    s: Seq<SpecElement>,
    rul: &R,
    imgs: &ImageCache,
    h: u32,
) -> int
    decreases s,
{
    if s.len() == 0 {
        0
    } else if s.len() == 1 {
        spec_size(s[0], rul, imgs, h)
    } else {
        sat_add(
            sat_add(spec_seq_size(s.drop_last(), rul, imgs, h), GAP as int),
            spec_size(s.last(), rul, imgs, h),
        )
    }
}

/// Extending a command list appends one saturating addend.
proof fn lemma_draw_total_push(s: Seq<SpecDrawCommand>, cmd: SpecDrawCommand, c: Coordtype, h: u32)
    ensures
        spec_draw_total(s.push(cmd), c, h) == sat_add(
            spec_draw_total(s, c, h),
            spec_draw_width(cmd, c, h),
        ),
{
    let t = s.push(cmd);
    assert(t.drop_last() =~= s);
    assert(t.last() == cmd);
}

/// Extending an element list appends one child and, from the second child
/// on, one gap.
pub proof fn lemma_seq_size_push<R: TextRuler>(
    s: Seq<SpecElement>,
    e: SpecElement,
    rul: &R,
    imgs: &ImageCache,
    h: u32,
)
    ensures
        spec_seq_size(s.push(e), rul, imgs, h) == (if s.len() == 0 {
            spec_size(e, rul, imgs, h)
        } else {
            sat_add(sat_add(spec_seq_size(s, rul, imgs, h), GAP as int), spec_size(e, rul, imgs, h))
        }),
{
    let t = s.push(e);
    assert(t.drop_last() =~= s);
    assert(t.last() == e);
    if s.len() == 0 {
        assert(t[0] == e);
    }
}

/// Scales `x` by `h` percent, truncating toward zero.
fn scale_pct(x: i64, h: u32) -> (r: i64)
    requires
        valid_height(h),
        -0x1_0000 <= x <= 0x1_0000,
    ensures
        r as int == tdiv(x as int * h as int, 100),
{
    if x >= 0 {
        assert(x as int * h as int <= 0x1_0000 * 0x4000_0000int) by (nonlinear_arith)
            requires
                0 <= x <= 0x1_0000,
                0 <= h <= 0x4000_0000,
        ;
        assert(x as int * h as int >= 0) by (nonlinear_arith)
            requires
                x >= 0,
                h >= 0,
        ;
        let m: u64 = (x as u64) * (h as u64);
        (m / 100) as i64
    } else {
        let neg: i64 = -x;
        assert(neg as int * h as int <= 0x1_0000 * 0x4000_0000int && neg as int * h as int >= 0)
            by (nonlinear_arith)
            requires
                0 <= neg <= 0x1_0000,
                0 <= h <= 0x4000_0000,
        ;
        let m: u64 = (neg as u64) * (h as u64);
        let r = -((m / 100) as i64);
        assert(neg as int * h as int == -(x as int * h as int)) by (nonlinear_arith)
            requires
                neg == -x,
        ;
        r
    }
}

/// The x-component of `spec_transform` for coordinates within the wire
/// format's 16-bit range.
pub(crate) fn transform_x(c: Coordtype, x: i64, h: u32) -> (r: i64)
    requires
        valid_height(h),
        -0x1_0000 <= x <= 0x1_0000,
    ensures
        r as int == spec_transform(c, x as int, 0, h).0,
{
    match c {
        Coordtype::Absolute => x,
        Coordtype::Relative => scale_pct(x, h),
        Coordtype::SemiRelative => x,
    }
}

/// The y-component of `spec_transform` for coordinates within the wire
/// format's 16-bit range.
pub(crate) fn transform_y(c: Coordtype, y: i64, h: u32) -> (r: i64)
    requires
        valid_height(h),
        -0x1_0000 <= y <= 0x1_0000,
    ensures
        r as int == spec_transform(c, 0, y as int, h).1,
{
    match c {
        Coordtype::Absolute => y,
        Coordtype::Relative => scale_pct(y, h),
        Coordtype::SemiRelative => scale_pct(y, h),
    }
}

/// The width of one draw command.
fn draw_command_width(cmd: &DrawCommand, coords: Coordtype, h: u32) -> (w: i64)
    requires
        valid_height(h),
    ensures
        w as int == spec_draw_width(cmd@, coords, h),
    decreases *cmd,
{
    match cmd {
        DrawCommand::Rect(r) => transform_x(coords, r.x2 as i64 - r.x1 as i64, h),
        DrawCommand::Col(dc) => draw_command_width(&dc.cmd, coords, h),
    }
}

impl Element {
    /// The horizontal space this element will occupy at row height
    /// `height`: the measuring pass of the two-pass layout protocol.
    /// `render` is proved to occupy exactly this much.
    pub fn measure<R: TextRuler>(&self, rul: &R, imgs: &ImageCache, height: u32) -> (w: i64)
        requires
            valid_height(height),
        ensures
            w as int == spec_size(self@, rul, imgs, height),
        decreases *self,
    {
        match self {
            Element::Str(s) => rul.width(text_height(height), s.0.as_str()) as i64,
            Element::Sep(_) => 1,
            Element::Rect(r) => r.width as i64,
            Element::RectR(r) => {
                assert(r.width as int * height as int <= 0xFFFF_FFFF * 0x4000_0000int && r.width
                    as int * height as int >= 0) by (nonlinear_arith)
                    requires
                        0 <= r.width <= 0xFFFF_FFFF,
                        0 <= height <= 0x4000_0000,
                ;
                ((r.width as u64 * height as u64) / 100) as i64
            },
            Element::Pos(p) => p.0,
            Element::Image(i) => match imgs.get(i.0.as_str()) {
                Some(d) => d.width as i64,
                None => 0,
            },
            Element::Color(c) => c.elem.measure(rul, imgs, height),
            Element::Draw(d) => {
                let mut total: i64 = 0;
                let mut k: usize = 0;
                assert(cmds_abs(d.values@).subrange(0, 0) =~= Seq::<SpecDrawCommand>::empty());
                while k < d.values.len()
                    invariant
                        valid_height(height),
                        k <= d.values@.len(),
                        total as int == spec_draw_total(
                            cmds_abs(d.values@).subrange(0, k as int),
                            d.coords,
                            height,
                        ),
                    decreases d.values@.len() - k,
                {
                    let w = draw_command_width(&d.values[k], d.coords, height);
                    proof {
                        lemma_draw_total_push(
                            cmds_abs(d.values@).subrange(0, k as int),
                            d.values@[k as int]@,
                            d.coords,
                            height,
                        );
                        assert(cmds_abs(d.values@).subrange(0, k as int).push(d.values@[k as int]@)
                            =~= cmds_abs(d.values@).subrange(0, k + 1));
                    }
                    total = sat_add_i64(total, w);
                    k += 1;
                }
                assert(cmds_abs(d.values@).subrange(0, d.values@.len() as int) =~= cmds_abs(
                    d.values@,
                ));
                total
            },
            Element::Group(v) => {
                let mut total: i64 = 0;
                let mut k: usize = 0;
                proof {
                    lemma_elems_abs(v@);
                    assert(elems_abs(v@).subrange(0, 0) =~= Seq::<SpecElement>::empty());
                }
                while k < v.len()
                    invariant
                        valid_height(height),
                        k <= v@.len(),
                        *self == Element::Group(*v),
                        total as int == spec_seq_size(
                            elems_abs(v@).subrange(0, k as int),
                            rul,
                            imgs,
                            height,
                        ),
                    decreases v@.len() - k,
                {
                    proof {
                        assert(decreases_to!(*self => self->Group_0));
                        assert(self->Group_0 == *v);
                        assert(decreases_to!(*v => v@));
                        assert(decreases_to!(v@ => v@[k as int]));
                        assert(decreases_to!(*self => v@[k as int]));
                    }
                    let w = v[k].measure(rul, imgs, height);
                    proof {
                        lemma_elems_abs(v@);
                        lemma_seq_size_push(
                            elems_abs(v@).subrange(0, k as int),
                            v@[k as int]@,
                            rul,
                            imgs,
                            height,
                        );
                        assert(elems_abs(v@).subrange(0, k as int).push(v@[k as int]@) =~= elems_abs(
                            v@,
                        ).subrange(0, k + 1));
                    }
                    if k == 0 {
                        total = w;
                    } else {
                        total = sat_add_i64(sat_add_i64(total, GAP), w);
                    }
                    k += 1;
                }
                proof {
                    lemma_elems_abs(v@);
                    assert(elems_abs(v@).subrange(0, elems_abs(v@).len() as int) =~= elems_abs(v@));
                }
                total
            },
        }
    }
}

/// The plain, non-saturating sum of the widths of `s`'s elements.
pub open spec fn spec_sum_sizes<R: TextRuler>(
    s: Seq<SpecElement>,
    rul: &R,
    imgs: &ImageCache,
    h: u32,
) -> int
    decreases s,
{
    if s.len() == 0 {
        0
    } else {
        spec_sum_sizes(s.drop_last(), rul, imgs, h) + spec_size(s.last(), rul, imgs, h)
    }
}

/// The gap law of sequences: with N children of widths w1 .. wN, a
/// sequence is `w1 + .. + wN + GAP * (N - 1)` wide for N >= 1, and 0 wide
/// for N = 0. The premise keeps every partial total far enough from the
/// `i64` bounds that no saturation fires; on sums beyond those bounds the
/// clipped fold and the plain sum part ways.
pub proof fn lemma_seq_gap_law<R: TextRuler>(
    s: Seq<SpecElement>,
    rul: &R,
    imgs: &ImageCache,
    h: u32,
)
    requires
        forall|k: int|
            1 <= k <= s.len() ==> i64::MIN + GAP <= #[trigger] spec_sum_sizes(
                s.subrange(0, k),
                rul,
                imgs,
                h,
            ) + GAP * (k - 1) <= i64::MAX - GAP,
    ensures
        s.len() == 0 ==> spec_seq_size(s, rul, imgs, h) == 0,
        s.len() >= 1 ==> spec_seq_size(s, rul, imgs, h) == spec_sum_sizes(s, rul, imgs, h) + GAP * (
        s.len() - 1),
    decreases s,
{
    if s.len() == 1 {
        assert(s.subrange(0, 1) =~= s);
    } else if s.len() >= 2 {
        let prior = s.drop_last();
        assert forall|k: int| 1 <= k <= prior.len() implies i64::MIN + GAP <= #[trigger]
        spec_sum_sizes(prior.subrange(0, k), rul, imgs, h) + GAP * (k - 1) <= i64::MAX - GAP by {
            assert(prior.subrange(0, k) =~= s.subrange(0, k));
        }
        lemma_seq_gap_law(prior, rul, imgs, h);
        assert(s.subrange(0, s.len() - 1) =~= prior);
        assert(s.subrange(0, s.len() as int) =~= s);
    }
}

} // verus!

verus! {

impl Coordtype {
    /// Maps one coordinate pair to pixels under this mode, for
    /// coordinates within the wire format's 16-bit range.
    pub fn transform(self, x: i64, y: i64, h: u32) -> (r: (i64, i64))
        requires
            valid_height(h),
            -0x1_0000 <= x <= 0x1_0000,
            -0x1_0000 <= y <= 0x1_0000,
        ensures
            r.0 as int == spec_transform(self, x as int, y as int, h).0,
            r.1 as int == spec_transform(self, x as int, y as int, h).1,
    {
        (transform_x(self, x, h), transform_y(self, y, h))
    }
}

impl DrawRect {
    /// A rectangle from its two corners.
    pub fn new(x1: u16, y1: u16, x2: u16, y2: u16) -> (r: DrawRect)
        ensures
            r == (DrawRect { x1, y1, x2, y2 }),
    {
        DrawRect { x1, y1, x2, y2 }
    }
}

impl DrawCol {
    /// Wraps a draw command in a color of its own.
    pub fn new(v: DrawCommand, c: Rgba) -> (r: DrawCol)
        ensures
            r.color == c,
            *r.cmd == v,
    {
        DrawCol { color: c, cmd: Box::new(v) }
    }
}

impl OngyDraw {
    /// A draw group from its coordinate mode and shape list.
    pub fn new(coords: Coordtype, vals: Vec<DrawCommand>) -> (r: OngyDraw)
        ensures
            r.coords == coords,
            r.values == vals,
    {
        OngyDraw { coords, values: vals }
    }
}

} // verus!
