//! Assembling and placing a bar's content.
//!
//! One update from an input source is parsed by the source's configured
//! parser, and a `Separator` is put between the elements it produced; the
//! resulting sequence is the source's content until the next update. At
//! render time the content is placed by its anchor: left-anchored content
//! starts at the base offset, right-anchored content ends there, centered
//! content straddles it. Right and middle placement measure first and
//! shift by the measured width — sound because `render` is proved to
//! occupy exactly the measured width.

use vstd::prelude::*;

use crate::cache::ImageCache;
use crate::color::Rgba;
use crate::config::{Anchor, Parser};
use crate::custom::{custom_parse, spec_custom_items};
use crate::dzen::{dzen_parse, spec_dzen_items};
use crate::element::{
    elems_abs, lemma_elems_abs, spec_size, valid_height, Element, OngyStr, Separator, SpecElement,
};
use crate::num::{sat_add, sat_add_i64, sat_neg, sat_neg_i64, tdiv, tdiv_i64};
use crate::render::{op_views, spec_render, DrawOp};
use crate::ruler::TextRuler;
use crate::scan::{spec_trim, trim_str};

verus! {

/// `s` with a separator between each pair of neighbours.
pub open spec fn spec_interleave(s: Seq<SpecElement>) -> Seq<SpecElement>
    decreases s,
{
    if s.len() <= 1 {
        s
    } else {
        spec_interleave(s.drop_last()) + seq![SpecElement::Sep, s.last()]
    }
}

/// Puts a `Separator` element between consecutive elements of `items`, as
/// the update loop does with each parser's output before installing it as
/// an input source's content.
pub fn interleave_separators(items: Vec<Element>) -> (r: Vec<Element>)
    ensures
        elems_abs(r@) == spec_interleave(elems_abs(items@)),
{
    let ghost orig = items@;
    let ghost orig_abs = elems_abs(items@);
    let mut rest = items;
    let mut out: Vec<Element> = Vec::new();
    proof {
        lemma_elems_abs(orig);
        assert(elems_abs(Seq::<Element>::empty()) =~= Seq::<SpecElement>::empty());
        assert(orig_abs.subrange(0, 0) =~= Seq::<SpecElement>::empty());
        assert(orig.subrange(0, orig.len() as int) =~= orig);
    }
    while rest.len() != 0
        invariant
            rest@.len() <= orig.len(),
            orig_abs == elems_abs(orig),
            orig_abs.len() == orig.len(),
            elems_abs(out@) =~= spec_interleave(orig_abs.subrange(0, orig.len() - rest@.len())),
            rest@ =~= orig.subrange(orig.len() - rest@.len(), orig.len() as int),
        decreases rest@.len(),
    {
        let ghost done = orig.len() - rest@.len();
        let e = rest.remove(0);
        assert(e == orig[done]);
        let ghost out_seq = out@;
        let ghost out_abs = elems_abs(out@);
        if out.len() > 0 {
            out.push(Element::Sep(Separator));
            proof {
                assert(out@.drop_last() =~= out_seq);
                assert(out@.last() == Element::Sep(Separator));
                assert(Element::Sep(Separator)@ == SpecElement::Sep);
                assert(elems_abs(out@) == out_abs.push(SpecElement::Sep));
            }
        }
        let ghost mid_seq = out@;
        let ghost mid_abs = elems_abs(out@);
        out.push(e);
        proof {
            lemma_elems_abs(orig);
            assert(out@.drop_last() =~= mid_seq);
            assert(out@.last() == e);
            assert(elems_abs(out@) == mid_abs.push(e@));
            let k = done + 1;
            assert(orig_abs.subrange(0, k).drop_last() =~= orig_abs.subrange(0, done));
            assert(orig_abs.subrange(0, k).last() == orig_abs[done]);
            assert(orig_abs[done] == e@);
            if done == 0 {
                assert(orig_abs.subrange(0, 1) =~= seq![orig_abs[0]]);
                assert(elems_abs(out@) =~= spec_interleave(orig_abs.subrange(0, 1)));
            } else {
                assert(elems_abs(out@) =~= spec_interleave(orig_abs.subrange(0, done)) + seq![
                    SpecElement::Sep,
                    orig_abs[done],
                ]);
            }
            assert(rest@ =~= orig.subrange(orig.len() - rest@.len(), orig.len() as int));
        }
    }
    proof {
        assert(orig_abs.subrange(0, orig_abs.len() as int) =~= orig_abs);
    }
    out
}

/// The content one update from a text source installs: a plain line is a
/// single text element, a dzen line is parsed as markup; both are trimmed
/// first, and the parsed elements are separated as `interleave_separators`
/// does. (Binary sources go through `binary_content`.)
pub fn line_content(parser: &Parser, line: &str) -> (r: Vec<Element>)
    requires
        *parser != Parser::Ongybar,
    ensures
        *parser == Parser::Plain ==> elems_abs(r@) == seq![SpecElement::Str(spec_trim(line@))],
        *parser == Parser::Dzen ==> elems_abs(r@) == spec_interleave(
            spec_dzen_items(spec_trim(line@)),
        ),
{
    match parser {
        Parser::Plain => {
            let mut out: Vec<Element> = Vec::new();
            let e = Element::Str(OngyStr(trim_str(line)));
            let ghost e_v = e@;
            out.push(e);
            proof {
                assert(out@.drop_last() =~= Seq::<Element>::empty());
                assert(out@.last() == e);
                assert(elems_abs(Seq::<Element>::empty()) =~= Seq::<SpecElement>::empty());
                assert(elems_abs(out@) =~= seq![e_v]);
            }
            out
        },
        Parser::Dzen => {
            let trimmed = trim_str(line);
            let items = dzen_parse(trimmed.as_str());
            interleave_separators(items)
        },
        Parser::Ongybar => vstd::pervasive::unreached(),
    }
}

/// The content one update from a binary source installs: one record of
/// the custom format, its elements separated as `interleave_separators`
/// does.
pub fn binary_content(bytes: &[u8]) -> (r: Vec<Element>)
    ensures
        elems_abs(r@) == spec_interleave(spec_custom_items(bytes@)),
{
    interleave_separators(custom_parse(bytes))
}

/// Where content of width `size` starts when anchored at `base`.
pub open spec fn spec_anchor_x(a: Anchor, base: int, size: int) -> int {
    match a {
        Anchor::Left => base,
        Anchor::Right => sat_add(base, sat_neg(size)),
        Anchor::Middle => sat_add(base, sat_neg(tdiv(size, 2))),
    }
}

/// Measures `e`, shifts the base offset by its anchor, and renders it
/// there. Returns the measured width, which the caller uses to track how
/// much of the row is covered.
pub fn render_anchored<R: TextRuler>(
    e: &Element,
    anchor: &Anchor,
    rul: &R,
    imgs: &ImageCache,
    height: u32,
    base_x: i64,
    color: Rgba,
    out: &mut Vec<DrawOp>,
) -> (w: i64)
    requires
        valid_height(height),
    ensures
        w as int == spec_size(e@, rul, imgs, height),
        op_views(final(out)@) == op_views(old(out)@) + spec_render(
            e@,
            rul,
            imgs,
            height,
            spec_anchor_x(*anchor, base_x as int, spec_size(e@, rul, imgs, height)),
            color,
        ),
{
    let size = e.measure(rul, imgs, height);
    let x = match anchor {
        Anchor::Left => base_x,
        Anchor::Right => sat_add_i64(base_x, sat_neg_i64(size)),
        Anchor::Middle => sat_add_i64(base_x, sat_neg_i64(tdiv_i64(size, 2))),
    };
    e.render(rul, imgs, height, x, color, out)
}

} // verus!
