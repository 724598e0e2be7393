use ongybar::cache::ImageCache;
use ongybar::color::Rgba;
use ongybar::config::Parser;
use ongybar::dzen::{dzen_parse, find_str, parse_image, parse_pos};
use ongybar::element::{
    Colored, Element, OngyImage, OngyPos, OngyRect, OngyStr, Separator, GAP,
};
use ongybar::layout::line_content;
use ongybar::ruler::FixedRuler;

fn ruler() -> FixedRuler {
    FixedRuler { char_width: 7 }
}

fn text(s: &str) -> Element {
    Element::Str(OngyStr(s.to_string()))
}

fn red() -> Rgba {
    Rgba { r: 255, g: 0, b: 0, a: 255 }
}

#[test]
fn plain_text_is_one_element() {
    assert_eq!(dzen_parse("hello"), vec![text("hello")]);
}

#[test]
fn empty_line_is_no_elements() {
    assert_eq!(dzen_parse(""), vec![]);
}

#[test]
fn doubled_caret_escapes_a_literal_caret() {
    // the escape folds into the surrounding text
    assert_eq!(dzen_parse("a^^b"), vec![text("a^b")]);
}

#[test]
fn escape_merges_across_further_escapes() {
    assert_eq!(dzen_parse("a^^b^^c"), vec![text("a^b^c")]);
}

#[test]
fn trailing_escape_keeps_the_caret() {
    assert_eq!(dzen_parse("ab^^"), vec![text("ab^")]);
}

#[test]
fn lone_caret_ends_the_line() {
    assert_eq!(dzen_parse("^"), vec![]);
    assert_eq!(dzen_parse("xx^"), vec![text("xx")]);
}

#[test]
fn color_scope_wraps_its_content() {
    let parsed = dzen_parse("^fg(#FF0000)X^fg()Y");
    assert_eq!(
        parsed,
        vec![
            Element::Color(Colored {
                color: red(),
                elem: Box::new(Element::Group(vec![text("X")])),
            }),
            Element::Pos(OngyPos(-4)),
            text("Y"),
        ]
    );
}

#[test]
fn color_scope_adjustment_cancels_one_gap() {
    // three siblings carry two gaps; the -GAP adjustment of the closing
    // ^fg() cancels exactly one of them
    let parsed = Element::Group(dzen_parse("^fg(#FF0000)X^fg()Y"));
    let cache = ImageCache::new();
    let x = text("X").measure(&ruler(), &cache, 16);
    let y = text("Y").measure(&ruler(), &cache, 16);
    assert_eq!(parsed.measure(&ruler(), &cache, 16), x + y + GAP);
}

#[test]
fn color_scope_without_close_runs_to_the_end() {
    assert_eq!(
        dzen_parse("^fg(#00FF00)text"),
        vec![Element::Color(Colored {
            color: Rgba { r: 0, g: 255, b: 0, a: 255 },
            elem: Box::new(Element::Group(vec![text("text")])),
        })]
    );
}

#[test]
fn malformed_hex_color_degrades_to_nothing() {
    // no panic, no color element; the line is dropped from the bad token on
    assert_eq!(dzen_parse("^fg(#ZZZZZZ)X"), vec![]);
    assert_eq!(dzen_parse("^fg(#FF00)X"), vec![]);
    assert_eq!(dzen_parse("^fg(red)X"), vec![]);
}

#[test]
fn color_scope_without_paren_aborts() {
    assert_eq!(dzen_parse("^fg(#FF0000"), vec![]);
}

#[test]
fn position_token_nudges_the_cursor() {
    assert_eq!(dzen_parse("^p(10)x"), vec![Element::Pos(OngyPos(10)), text("x")]);
    assert_eq!(dzen_parse("^p(-3)"), vec![Element::Pos(OngyPos(-3))]);
}

#[test]
fn position_marker_values_become_a_gap_cancel() {
    assert_eq!(dzen_parse("^p(_LOCK_X)"), vec![Element::Pos(OngyPos(-4))]);
}

#[test]
fn position_takes_the_part_before_a_semicolon() {
    assert_eq!(dzen_parse("^p(5;9)"), vec![Element::Pos(OngyPos(5))]);
}

#[test]
fn malformed_position_aborts() {
    assert_eq!(dzen_parse("^p(abc)x"), vec![]);
}

#[test]
fn rect_token_gives_a_fixed_rectangle() {
    assert_eq!(
        dzen_parse("^r(10x5)"),
        vec![Element::Rect(OngyRect { width: 10, height: 5 })]
    );
}

#[test]
fn malformed_rect_aborts() {
    assert_eq!(dzen_parse("^r(10y5)"), vec![]);
    assert_eq!(dzen_parse("^r(x5)"), vec![]);
}

#[test]
fn image_token_rewrites_xbm_to_bmp() {
    assert_eq!(
        dzen_parse("^i(logo.xbm)"),
        vec![Element::Image(OngyImage("logo.bmp".to_string()))]
    );
    assert_eq!(
        dzen_parse("^i(logo.png)"),
        vec![Element::Image(OngyImage("logo.png".to_string()))]
    );
}

#[test]
fn background_and_absolute_position_are_ignored() {
    assert_eq!(dzen_parse("^bg(red)a"), vec![Element::Pos(OngyPos(-4)), text("a")]);
    assert_eq!(dzen_parse("^pa(5)b"), vec![Element::Pos(OngyPos(-4)), text("b")]);
}

#[test]
fn unknown_token_drops_the_rest_of_the_line() {
    assert_eq!(dzen_parse("ab^z(1)cd"), vec![text("ab")]);
}

#[test]
fn reparsing_a_line_gives_identical_content() {
    let line = "^fg(#FF0000)up ^r(3x3)^fg()^p(2)ok";
    let first = dzen_parse(line);
    let second = dzen_parse(line);
    assert_eq!(first, second);
    let cache = ImageCache::new();
    assert_eq!(
        Element::Group(first).measure(&ruler(), &cache, 16),
        Element::Group(second).measure(&ruler(), &cache, 16)
    );
}

#[test]
fn find_str_splits_text_from_the_first_control() {
    let r = find_str(&"ab^p(1)".to_string());
    let (t, rest) = r.unwrap();
    assert_eq!(t, OngyStr("ab".to_string()));
    assert_eq!(rest, "^p(1)".to_string());
    assert!(find_str(&"^p(1)".to_string()).is_none());
}

#[test]
fn parse_pos_reads_numbers_and_markers() {
    assert_eq!(parse_pos("12"), Some(OngyPos(12)));
    assert_eq!(parse_pos("-7;x"), Some(OngyPos(-7)));
    assert_eq!(parse_pos("_RIGHT"), Some(OngyPos(-4)));
    assert_eq!(parse_pos(""), None);
    assert_eq!(parse_pos("1.5"), None);
}

#[test]
fn parse_image_rewrites_every_xbm() {
    assert_eq!(parse_image("a.xbm"), Some(OngyImage("a.bmp".to_string())));
    assert_eq!(parse_image("a.xbm.xbm"), Some(OngyImage("a.bmp.bmp".to_string())));
    assert_eq!(parse_image("plain"), Some(OngyImage("plain".to_string())));
}

#[test]
fn plain_parser_trims_the_line() {
    let out = line_content(&Parser::Plain, "  hi there \n");
    assert_eq!(out, vec![text("hi there")]);
}

#[test]
fn dzen_parser_trims_and_separates() {
    let out = line_content(&Parser::Dzen, " a^p(2)b \n");
    assert_eq!(
        out,
        vec![
            text("a"),
            Element::Sep(Separator),
            Element::Pos(OngyPos(2)),
            Element::Sep(Separator),
            text("b"),
        ]
    );
}
