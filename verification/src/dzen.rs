//! The dzen-compatible markup parser.
//!
//! One line of markup becomes a list of elements. Plain runs of characters
//! become text; a doubled caret `^^` escapes a literal `^` and folds into
//! the surrounding text; `^fg(#RRGGBB)` opens a color scope that the next
//! `^fg(` closes (an empty `^fg()` yields a `-GAP` adjustment, cancelling
//! the sequence gap); `^p(N)` nudges the cursor; `^r(WxH)` draws a
//! rectangle; `^i(path)` names an image; `^bg(..)` and `^pa(..)` are
//! recognized and ignored. A malformed or unknown token ends the line:
//! parsing keeps what was built and drops the rest, so the bar always has
//! something to show.

use vstd::prelude::*;

use crate::color::{parse_hex_color, spec_hex_color};
use crate::element::{
    elems_abs, Colored, Element, OngyImage, OngyPos, OngyRect, OngyStr, SpecElement, GAP,
};
use crate::scan::{
    find_char, lemma_spec_find, parse_i64_range, parse_u32_range, spec_find, spec_parse_i64,
    spec_parse_u32,
};

verus! {

/// `s` has at least two characters and starts with `c0 c1`.
pub open spec fn spec_starts2(s: Seq<char>, c0: char, c1: char) -> bool {
    s.len() >= 2 && s[0] == c0 && s[1] == c1
}

/// `s` has at least four characters and starts with `c0 c1 c2 c3`.
pub open spec fn spec_starts4(s: Seq<char>, c0: char, c1: char, c2: char, c3: char) -> bool {
    s.len() >= 4 && s[0] == c0 && s[1] == c1 && s[2] == c2 && s[3] == c3
}

/// `s` starts with the three characters `c0 c1 c2`.
pub open spec fn spec_starts3(s: Seq<char>, c0: char, c1: char, c2: char) -> bool {
    s.len() >= 3 && s[0] == c0 && s[1] == c1 && s[2] == c2
}

/// The first position at or after `from` where the four characters
/// `^fg(` stand in a row.
pub open spec fn spec_find_fg(s: Seq<char>, from: int) -> Option<int>
    decreases s.len() - from,
{
    if from < 0 || from + 4 > s.len() {
        None
    } else if s[from] == '^' && s[from + 1] == 'f' && s[from + 2] == 'g' && s[from + 3] == '(' {
        Some(from)
    } else {
        spec_find_fg(s, from + 1)
    }
}

/// What a successful or failed search for `^fg(` means.
pub proof fn lemma_spec_find_fg(s: Seq<char>, from: int)
    requires
        0 <= from,
    ensures
        match spec_find_fg(s, from) {
            Some(i) => from <= i && i + 4 <= s.len(),
            None => true,
        },
    decreases s.len() - from,
{
    if from + 4 <= s.len() && !(s[from] == '^' && s[from + 1] == 'f' && s[from + 2] == 'g' && s[from
        + 3] == '(') {
        lemma_spec_find_fg(s, from + 1);
    }
}

/// Splitting a leading run of text off the markup, folding `^^` escapes
/// into the text: the pair is the text and the unconsumed remainder.
/// `None` when the markup starts with an unescaped control sequence.
pub open spec fn spec_find_str(s: Seq<char>) -> Option<(Seq<char>, Seq<char>)>
    decreases s.len(),
    via spec_find_str_dec
{
    match spec_find(s, 0, '^') {
        None => Some((s, Seq::empty())),
        Some(i) => {
            if i + 1 < s.len() && s[i + 1] == '^' {
                match spec_find_str(s.skip(i + 2)) {
                    Some((x, ret)) => Some((s.take(i + 1) + x, ret)),
                    None => Some((s.take(i + 1), s.skip(i + 1))),
                }
            } else if i == 0 {
                None
            } else {
                Some((s.take(i), s.skip(i)))
            }
        },
    }
}

#[via_fn]
proof fn spec_find_str_dec(s: Seq<char>) {
    lemma_spec_find(s, 0, '^');
}

/// The remainder `spec_find_str` leaves is strictly shorter than its
/// input; when it finds nothing, the input starts with a control caret.
pub proof fn lemma_find_str_rest(s: Seq<char>)
    requires
        s.len() > 0,
    ensures
        match spec_find_str(s) {
            Some((t, rest)) => rest.len() < s.len(),
            None => s[0] == '^',
        },
    decreases s.len(),
{
    lemma_spec_find(s, 0, '^');
    match spec_find(s, 0, '^') {
        None => {},
        Some(i) => {
            if i + 1 < s.len() && s[i + 1] == '^' {
                let inner = s.skip(i + 2);
                if inner.len() > 0 {
                    lemma_find_str_rest(inner);
                }
            }
        },
    }
}

/// The value of a `^p(..)` argument: everything up to an optional `;` is
/// the offset; dzen's internal `_`-markers count as a `-GAP` adjustment.
pub open spec fn spec_parse_pos(arg: Seq<char>) -> Option<i64> {
    let x = match spec_find(arg, 0, ';') {
        Some(j) => arg.take(j),
        None => arg,
    };
    if x.len() > 0 && x[0] == '_' {
        Some((-(GAP as int)) as i64)
    } else {
        spec_parse_i64(x)
    }
}

/// The value of a `^r(WxH)` argument: two numbers split by an `x`.
pub open spec fn spec_parse_rect(arg: Seq<char>) -> Option<(u32, u32)> {
    match spec_find(arg, 0, 'x') {
        Some(j) => match (spec_parse_u32(arg.take(j)), spec_parse_u32(arg.skip(j + 1))) {
            (Some(w), Some(h)) => Some((w, h)),
            _ => None,
        },
        None => None,
    }
}

/// An image path with every `.xbm` rewritten to `.bmp`, scanning left to
/// right without overlap.
pub open spec fn spec_replace_ext(s: Seq<char>) -> Seq<char>
    decreases s.len(),
{
    if s.len() < 4 {
        s
    } else if s[0] == '.' && s[1] == 'x' && s[2] == 'b' && s[3] == 'm' {
        seq!['.', 'b', 'm', 'p'] + spec_replace_ext(s.skip(4))
    } else {
        seq![s[0]] + spec_replace_ext(s.skip(1))
    }
}

/// One step of the markup parser: the element read from the front of `s`
/// and the unconsumed remainder. `None` ends the line: the input was
/// empty of further content, malformed, or unrecognized.
pub open spec fn spec_dzen_step(s: Seq<char>) -> Option<(SpecElement, Seq<char>)>
    decreases s.len(), 0int,
    via spec_dzen_step_dec
{
    match spec_find_str(s) {
        Some((t, rest)) => Some((SpecElement::Str(t), rest)),
        None => {
            if spec_starts4(s, '^', 'f', 'g', '(') && s.len() >= 5 && s[4] == ')' {
                Some((SpecElement::Pos((-(GAP as int)) as i64), s.skip(5)))
            } else if spec_starts4(s, '^', 'f', 'g', '(') {
                match spec_find(s, 0, ')') {
                    Some(i) => match spec_hex_color(s.subrange(4, i)) {
                        Some(col) => match spec_find_fg(s, i + 1) {
                            Some(j) => Some(
                                (
                                    SpecElement::Color(
                                        col,
                                        Box::new(
                                            SpecElement::Group(spec_dzen_items(s.subrange(i + 1, j))),
                                        ),
                                    ),
                                    s.skip(j),
                                ),
                            ),
                            None => Some(
                                (
                                    SpecElement::Color(
                                        col,
                                        Box::new(SpecElement::Group(spec_dzen_items(s.skip(i + 1)))),
                                    ),
                                    Seq::empty(),
                                ),
                            ),
                        },
                        None => None,
                    },
                    None => None,
                }
            } else if spec_starts3(s, '^', 'p', '(') {
                match spec_find(s, 0, ')') {
                    Some(i) => match spec_parse_pos(s.subrange(3, i)) {
                        Some(v) => Some((SpecElement::Pos(v), s.skip(i + 1))),
                        None => None,
                    },
                    None => None,
                }
            } else if spec_starts3(s, '^', 'r', '(') {
                match spec_find(s, 0, ')') {
                    Some(i) => match spec_parse_rect(s.subrange(3, i)) {
                        Some((w, h)) => Some(
                            (SpecElement::Rect { width: w, height: h }, s.skip(i + 1)),
                        ),
                        None => None,
                    },
                    None => None,
                }
            } else if spec_starts2(s, '^', 'i') {
                match spec_find(s, 0, ')') {
                    Some(i) => {
                        if i >= 3 {
                            Some(
                                (
                                    SpecElement::Image(spec_replace_ext(s.subrange(3, i))),
                                    s.skip(i + 1),
                                ),
                            )
                        } else {
                            None
                        }
                    },
                    None => None,
                }
            } else if spec_starts4(s, '^', 'b', 'g', '(') || spec_starts4(s, '^', 'p', 'a', '(') {
                match spec_find(s, 0, ')') {
                    Some(i) => Some((SpecElement::Pos((-(GAP as int)) as i64), s.skip(i + 1))),
                    None => None,
                }
            } else {
                None
            }
        },
    }
}

#[via_fn]
proof fn spec_dzen_step_dec(s: Seq<char>) {
    lemma_spec_find(s, 0, ')');
    match spec_find(s, 0, ')') {
        Some(i) => {
            lemma_spec_find_fg(s, i + 1);
        },
        None => {},
    }
}

/// The whole reading of one markup line: elements read step by step until
/// the line is consumed or a step fails. (Every successful step consumes
/// at least one character — `lemma_dzen_step_rest` — so the guard on the
/// recursion never bites; it is there to make termination evident.)
pub open spec fn spec_dzen_items(s: Seq<char>) -> Seq<SpecElement>
    decreases s.len(), 1int,
{
    if s.len() == 0 {
        Seq::empty()
    } else {
        match spec_dzen_step(s) {
            Some((e, rest)) => if rest.len() < s.len() {
                seq![e] + spec_dzen_items(rest)
            } else {
                seq![e]
            },
            None => Seq::empty(),
        }
    }
}

/// Every successful step consumes at least one character.
pub proof fn lemma_dzen_step_rest(s: Seq<char>)
    requires
        s.len() > 0,
    ensures
        match spec_dzen_step(s) {
            Some((e, rest)) => rest.len() < s.len(),
            None => true,
        },
{
    lemma_find_str_rest(s);
    lemma_spec_find(s, 0, ')');
    match spec_find_str(s) {
        Some(_) => {},
        None => {
            match spec_find(s, 0, ')') {
                Some(i) => {
                    lemma_spec_find_fg(s, i + 1);
                },
                None => {},
            }
        },
    }
}

} // verus!

verus! {

/// Does `s` start with the two characters `c0 c1`?
fn starts2(s: &str, c0: char, c1: char) -> (r: bool)
    ensures
        r == spec_starts2(s@, c0, c1),
{
    let len = s.unicode_len();
    len >= 2 && s.get_char(0) == c0 && s.get_char(1) == c1
}

/// Does `s` start with the three characters `c0 c1 c2`?
fn starts3(s: &str, c0: char, c1: char, c2: char) -> (r: bool)
    ensures
        r == spec_starts3(s@, c0, c1, c2),
{
    let len = s.unicode_len();
    len >= 3 && s.get_char(0) == c0 && s.get_char(1) == c1 && s.get_char(2) == c2
}

/// Does `s` start with the four characters `c0 c1 c2 c3`?
fn starts4(s: &str, c0: char, c1: char, c2: char, c3: char) -> (r: bool)
    ensures
        r == spec_starts4(s@, c0, c1, c2, c3),
{
    let len = s.unicode_len();
    len >= 4 && s.get_char(0) == c0 && s.get_char(1) == c1 && s.get_char(2) == c2 && s.get_char(3)
        == c3
}

/// Scans `s` from `from` for a literal `^fg(`.
fn find_fg(s: &str, from: usize) -> (r: Option<usize>)
    requires
        from <= s@.len(),
    ensures
        match r {
            Some(i) => Some(i as int) == spec_find_fg(s@, from as int),
            None => spec_find_fg(s@, from as int) is None,
        },
{
    let len = s.unicode_len();
    let mut i = from;
    while len >= 4 && i <= len - 4
        invariant
            from <= i <= len,
            len == s@.len(),
            spec_find_fg(s@, from as int) == spec_find_fg(s@, i as int),
        decreases len - i,
    {
        if s.get_char(i) == '^' && s.get_char(i + 1) == 'f' && s.get_char(i + 2) == 'g'
            && s.get_char(i + 3) == '(' {
            return Some(i);
        }
        i += 1;
    }
    None
}

/// Reads a `^p(..)` argument.
pub fn parse_pos(text: &str) -> (r: Option<OngyPos>)
    ensures
        match r {
            Some(p) => spec_parse_pos(text@) == Some(p.0),
            None => spec_parse_pos(text@) is None,
        },
{
    let len = text.unicode_len();
    let end = match find_char(text, 0, ';') {
        Some(j) => {
            proof {
                lemma_spec_find(text@, 0, ';');
            }
            j
        },
        None => len,
    };
    assert(text@.subrange(0, end as int) =~= (match spec_find(text@, 0, ';') {
        Some(j) => text@.take(j),
        None => text@,
    }));
    if end > 0 && text.get_char(0) == '_' {
        Some(OngyPos(-GAP))
    } else {
        match parse_i64_range(text, 0, end) {
            Some(v) => Some(OngyPos(v)),
            None => None,
        }
    }
}

/// Reads a `^r(WxH)` argument.
fn parse_rect(text: &str) -> (r: Option<OngyRect>)
    ensures
        match r {
            Some(rc) => spec_parse_rect(text@) == Some((rc.width, rc.height)),
            None => spec_parse_rect(text@) is None,
        },
{
    let len = text.unicode_len();
    match find_char(text, 0, 'x') {
        Some(j) => {
            proof {
                lemma_spec_find(text@, 0, 'x');
            }
            assert(text@.subrange(0, j as int) =~= text@.take(j as int));
            assert(text@.subrange(j + 1, len as int) =~= text@.skip(j + 1));
            let w = parse_u32_range(text, 0, j);
            let h = parse_u32_range(text, j + 1, len);
            match (w, h) {
                (Some(w), Some(h)) => Some(OngyRect { width: w, height: h }),
                _ => None,
            }
        },
        None => None,
    }
}

/// Reads a `^i(path)` argument, rewriting each `.xbm` to `.bmp`.
pub fn parse_image(text: &str) -> (r: Option<OngyImage>)
    ensures
        r matches Some(img) && img.0@ == spec_replace_ext(text@),
{
    let len = text.unicode_len();
    let mut out = String::new();
    let mut i: usize = 0;
    proof {
        assert(text@.skip(0) =~= text@);
    }
    while i < len
        invariant
            i <= len,
            len == text@.len(),
            spec_replace_ext(text@) == out@ + spec_replace_ext(text@.skip(i as int)),
        decreases len - i,
    {
        let ghost tail = text@.skip(i as int);
        assert(tail.len() == len - i);
        assert(forall|k: int| 0 <= k < tail.len() ==> tail[k] == text@[i + k]);
        if len >= 4 && i <= len - 4 && text.get_char(i) == '.' && text.get_char(i + 1) == 'x' && text.get_char(
            i + 2,
        ) == 'b' && text.get_char(i + 3) == 'm' {
            out.append(".bmp");
            proof {
                reveal_strlit(".bmp");
                assert(".bmp"@ =~= seq!['.', 'b', 'm', 'p']);
                assert(tail.skip(4) =~= text@.skip(i + 4));
            }
            i += 4;
        } else {
            let piece = text.substring_char(i, i + 1);
            out.append(piece);
            proof {
                assert(piece@ =~= seq![tail[0]]);
                assert(tail.skip(1) =~= text@.skip(i + 1));
            }
            i += 1;
        }
    }
    proof {
        assert(text@.skip(len as int) =~= Seq::<char>::empty());
    }
    Some(OngyImage(out))
}

/// Splits the leading run of plain text off `text`, folding `^^` escapes
/// into it; returns the text and the unconsumed remainder, or `None` when
/// `text` starts with an unescaped control sequence.
pub fn find_str(text: &String) -> (r: Option<(OngyStr, String)>)
    ensures
        match r {
            Some(pair) => spec_find_str(text@) == Some((pair.0.0@, pair.1@)),
            None => spec_find_str(text@) is None,
        },
    decreases text@.len(),
{
    let len = text.as_str().unicode_len();
    match find_char(text.as_str(), 0, '^') {
        None => Some((OngyStr(text.clone()), String::new())),
        Some(i) => {
            proof {
                lemma_spec_find(text@, 0, '^');
            }
            if i + 1 < len && text.as_str().get_char(i + 1) == '^' {
                let inner_src = text.as_str().substring_char(i + 2, len).to_owned();
                match find_str(&inner_src) {
                    Some(pair) => {
                        let mut tmp = text.as_str().substring_char(0, i + 1).to_owned();
                        tmp.append(pair.0.0.as_str());
                        assert(tmp@ =~= text@.take(i + 1) + pair.0.0@);
                        Some((OngyStr(tmp), pair.1))
                    },
                    None => Some(
                        (
                            OngyStr(text.as_str().substring_char(0, i + 1).to_owned()),
                            text.as_str().substring_char(i + 1, len).to_owned(),
                        ),
                    ),
                }
            } else if i == 0 {
                None
            } else {
                Some(
                    (
                        OngyStr(text.as_str().substring_char(0, i).to_owned()),
                        text.as_str().substring_char(i, len).to_owned(),
                    ),
                )
            }
        },
    }
}

} // verus!

verus! {

/// The markup parser's cursor: the text not yet consumed.
pub struct DzenIter {
    text: String,
}

impl View for DzenIter {
    type V = Seq<char>;

    closed spec fn view(&self) -> Seq<char> {
        self.text@
    }
}

impl DzenIter {
    /// A cursor over one line of markup.
    pub fn new(text: &str) -> (it: DzenIter)
        ensures
            it@ == text@,
    {
        DzenIter { text: text.to_owned() }
    }

    /// Reads the next element off the front, consuming what it covered.
    /// `None` ends the line, leaving the text as it stands.
    fn next(&mut self) -> (r: Option<Element>)
        ensures
            match r {
                Some(el) => {
                    &&& old(self)@.len() > 0
                    &&& match spec_dzen_step(old(self)@) {
                        Some((e, rest)) => el@ == e && final(self)@ == rest,
                        None => false,
                    }
                },
                None => {
                    &&& final(self)@ == old(self)@
                    &&& (old(self)@.len() == 0 || spec_dzen_step(old(self)@) is None)
                },
            },
        decreases self@.len(), 0int,
    {
        let len = self.text.as_str().unicode_len();
        if len == 0 {
            return None;
        }
        match find_str(&self.text) {
            Some(pair) => {
                self.text = pair.1;
                return Some(Element::Str(pair.0));
            },
            None => {},
        }
        let ghost s = self.text@;
        if starts4(self.text.as_str(), '^', 'f', 'g', '(') {
            if len >= 5 && self.text.as_str().get_char(4) == ')' {
                let new_text = self.text.as_str().substring_char(5, len).to_owned();
                assert(new_text@ =~= s.skip(5));
                self.text = new_text;
                return Some(Element::Pos(OngyPos(-GAP)));
            }
            match find_char(self.text.as_str(), 0, ')') {
                Some(i) => {
                    proof {
                        lemma_spec_find(s, 0, ')');
                        assert(s[i as int] == ')');
                        if i < 4 {
                            assert(s[0] == '^' && s[1] == 'f' && s[2] == 'g' && s[3] == '(');
                            assert(false);
                        }
                    }
                    match parse_hex_color(self.text.as_str(), 4, i) {
                        Some(col) => {
                            match find_fg(self.text.as_str(), i + 1) {
                                Some(j) => {
                                    proof {
                                        lemma_spec_find_fg(s, i + 1);
                                    }
                                    let content = self.text.as_str().substring_char(
                                        i + 1,
                                        j,
                                    ).to_owned();
                                    let inner = dzen_parse(content.as_str());
                                    let ghost inner_v = inner@;
                                    let new_text = self.text.as_str().substring_char(
                                        j,
                                        len,
                                    ).to_owned();
                                    assert(new_text@ =~= s.skip(j as int));
                                    self.text = new_text;
                                    let group = Element::Group(inner);
                                    assert(group@ == SpecElement::Group(elems_abs(inner_v)));
                                    let ghost group_v = group@;
                                    let result = Element::Color(
                                        Colored { color: col, elem: Box::new(group) },
                                    );
                                    assert(result@ == SpecElement::Color(col, Box::new(group_v)));
                                    Some(result)
                                },
                                None => {
                                    let content = self.text.as_str().substring_char(
                                        i + 1,
                                        len,
                                    ).to_owned();
                                    assert(content@ =~= s.skip(i + 1));
                                    let inner = dzen_parse(content.as_str());
                                    let ghost inner_v = inner@;
                                    self.text = String::new();
                                    let group = Element::Group(inner);
                                    assert(group@ == SpecElement::Group(elems_abs(inner_v)));
                                    let ghost group_v = group@;
                                    let result = Element::Color(
                                        Colored { color: col, elem: Box::new(group) },
                                    );
                                    assert(result@ == SpecElement::Color(col, Box::new(group_v)));
                                    Some(result)
                                },
                            }
                        },
                        None => None,
                    }
                },
                None => None,
            }
        } else if starts3(self.text.as_str(), '^', 'p', '(') {
            match find_char(self.text.as_str(), 0, ')') {
                Some(i) => {
                    proof {
                        lemma_spec_find(s, 0, ')');
                        assert(s[i as int] == ')');
                        if i < 3 {
                            assert(s[0] == '^' && s[1] == 'p' && s[2] == '(');
                            assert(false);
                        }
                    }
                    let arg = self.text.as_str().substring_char(3, i).to_owned();
                    match parse_pos(arg.as_str()) {
                        Some(p) => {
                            let new_text = self.text.as_str().substring_char(
                                i + 1,
                                len,
                            ).to_owned();
                            assert(new_text@ =~= s.skip(i + 1));
                            self.text = new_text;
                            Some(Element::Pos(p))
                        },
                        None => None,
                    }
                },
                None => None,
            }
        } else if starts3(self.text.as_str(), '^', 'r', '(') {
            match find_char(self.text.as_str(), 0, ')') {
                Some(i) => {
                    proof {
                        lemma_spec_find(s, 0, ')');
                        assert(s[i as int] == ')');
                        if i < 3 {
                            assert(s[0] == '^' && s[1] == 'r' && s[2] == '(');
                            assert(false);
                        }
                    }
                    let arg = self.text.as_str().substring_char(3, i).to_owned();
                    match parse_rect(arg.as_str()) {
                        Some(rc) => {
                            let new_text = self.text.as_str().substring_char(
                                i + 1,
                                len,
                            ).to_owned();
                            assert(new_text@ =~= s.skip(i + 1));
                            self.text = new_text;
                            Some(Element::Rect(rc))
                        },
                        None => None,
                    }
                },
                None => None,
            }
        } else if starts2(self.text.as_str(), '^', 'i') {
            match find_char(self.text.as_str(), 0, ')') {
                Some(i) => {
                    proof {
                        lemma_spec_find(s, 0, ')');
                    }
                    if i >= 3 {
                        let arg = self.text.as_str().substring_char(3, i).to_owned();
                        match parse_image(arg.as_str()) {
                            Some(img) => {
                                let new_text = self.text.as_str().substring_char(
                                    i + 1,
                                    len,
                                ).to_owned();
                                assert(new_text@ =~= s.skip(i + 1));
                                self.text = new_text;
                                Some(Element::Image(img))
                            },
                            None => None,
                        }
                    } else {
                        None
                    }
                },
                None => None,
            }
        } else if starts4(self.text.as_str(), '^', 'b', 'g', '(') || starts4(
            self.text.as_str(),
            '^',
            'p',
            'a',
            '(',
        ) {
            match find_char(self.text.as_str(), 0, ')') {
                Some(i) => {
                    proof {
                        lemma_spec_find(s, 0, ')');
                    }
                    let new_text = self.text.as_str().substring_char(i + 1, len).to_owned();
                    assert(new_text@ =~= s.skip(i + 1));
                    self.text = new_text;
                    Some(Element::Pos(OngyPos(-GAP)))
                },
                None => None,
            }
        } else {
            None
        }
    }
}

/// Parses one line of markup into elements, reading until the line is
/// consumed or a malformed or unknown token ends it; what was built up to
/// that point is returned.
pub fn dzen_parse(arg: &str) -> (r: Vec<Element>)
    ensures
        elems_abs(r@) == spec_dzen_items(arg@),
    decreases arg@.len(), 1int,
{
    let mut it = DzenIter::new(arg);
    let mut out: Vec<Element> = Vec::new();
    let mut done = false;
    while !done
        invariant
            it@.len() <= arg@.len(),
            !done ==> spec_dzen_items(arg@) == elems_abs(out@) + spec_dzen_items(it@),
            done ==> spec_dzen_items(arg@) == elems_abs(out@),
        decreases it@.len(), (if done { 0int } else { 1int }),
    {
        let ghost before = it@;
        match it.next() {
            Some(e) => {
                proof {
                    lemma_dzen_step_rest(before);
                    assert(spec_dzen_items(before) == seq![e@] + spec_dzen_items(it@));
                    assert(out@.push(e).drop_last() =~= out@);
                    assert(out@.push(e).last() == e);
                    assert(elems_abs(out@.push(e)) == elems_abs(out@).push(e@));
                    assert(elems_abs(out@).push(e@) + spec_dzen_items(it@) =~= elems_abs(out@) + (
                    seq![e@] + spec_dzen_items(it@)));
                }
                out.push(e);
            },
            None => {
                proof {
                    if before.len() == 0 {
                        assert(spec_dzen_items(before) =~= Seq::<SpecElement>::empty());
                    }
                    assert(elems_abs(out@) + Seq::<SpecElement>::empty() =~= elems_abs(out@));
                }
                done = true;
            },
        }
    }
    out
}

} // verus!
