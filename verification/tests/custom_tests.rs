use ongybar::cache::ImageCache;
use ongybar::color::Rgba;
use ongybar::custom::custom_parse;
use ongybar::element::{
    Colored, Coordtype, DrawCommand, DrawRect, Element, OngyDraw, OngyImage, OngyRect, OngyStr,
    Separator,
};
use ongybar::layout::binary_content;
use ongybar::ruler::FixedRuler;

fn ruler() -> FixedRuler {
    FixedRuler { char_width: 7 }
}

fn text(s: &str) -> Element {
    Element::Str(OngyStr(s.to_string()))
}

/// One text element: tag 1, 16-bit length, payload, sentinel byte.
fn text_bytes(s: &str) -> Vec<u8> {
    let mut out = vec![1u8];
    let len = s.len() as u16;
    out.push((len & 0xFF) as u8);
    out.push((len >> 8) as u8);
    out.extend_from_slice(s.as_bytes());
    out.push(0);
    out
}

#[test]
fn empty_input_is_no_elements() {
    assert_eq!(custom_parse(&[]), vec![]);
    assert_eq!(custom_parse(&[0]), vec![]);
}

#[test]
fn known_tree_round_trips() {
    // count 2: text "hi", then a 10 by 5 rectangle
    let mut bytes = vec![2u8];
    bytes.extend_from_slice(&text_bytes("hi"));
    bytes.extend_from_slice(&[4, 10, 0, 5, 0]);
    let parsed = custom_parse(&bytes);
    assert_eq!(parsed, vec![text("hi"), Element::Rect(OngyRect { width: 10, height: 5 })]);
    // and the parsed elements measure as the text and the width
    let cache = ImageCache::new();
    assert_eq!(parsed[0].measure(&ruler(), &cache, 16), 14);
    assert_eq!(parsed[1].measure(&ruler(), &cache, 16), 10);
}

#[test]
fn garbage_tag_skips_the_slot_but_not_the_siblings() {
    // count 2: an unknown tag 99, then a rectangle that still parses
    let bytes = vec![2u8, 99, 4, 10, 0, 5, 0];
    assert_eq!(
        custom_parse(&bytes),
        vec![Element::Rect(OngyRect { width: 10, height: 5 })]
    );
}

#[test]
fn invalid_utf8_becomes_the_placeholder() {
    // tag 1, length 1, the invalid byte 0xFF, sentinel
    let bytes = vec![1u8, 1, 1, 0, 0xFF, 0];
    assert_eq!(custom_parse(&bytes), vec![text("ERR")]);
}

#[test]
fn image_slot_carries_the_path() {
    let mut bytes = vec![1u8];
    let mut img = text_bytes("a.png");
    img[0] = 2;
    bytes.extend_from_slice(&img);
    assert_eq!(
        custom_parse(&bytes),
        vec![Element::Image(OngyImage("a.png".to_string()))]
    );
}

#[test]
fn color_wraps_the_next_element() {
    let mut bytes = vec![1u8, 3];
    bytes.extend_from_slice(&[255, 0, 0, 255]); // foreground
    bytes.extend_from_slice(&[9, 9, 9, 9]); // background, discarded
    bytes.extend_from_slice(&text_bytes("x"));
    assert_eq!(
        custom_parse(&bytes),
        vec![Element::Color(Colored {
            color: Rgba { r: 255, g: 0, b: 0, a: 255 },
            elem: Box::new(text("x")),
        })]
    );
}

#[test]
fn color_with_a_bad_child_wraps_the_placeholder() {
    let mut bytes = vec![1u8, 3];
    bytes.extend_from_slice(&[255, 0, 0, 255]);
    bytes.extend_from_slice(&[9, 9, 9, 9]);
    bytes.push(99); // unrecognized child tag
    assert_eq!(
        custom_parse(&bytes),
        vec![Element::Color(Colored {
            color: Rgba { r: 255, g: 0, b: 0, a: 255 },
            elem: Box::new(text("ERR")),
        })]
    );
}

#[test]
fn nested_node_list_becomes_a_group() {
    let mut bytes = vec![1u8, 0, 2]; // one element: a group of two
    bytes.extend_from_slice(&[4, 1, 0, 1, 0]);
    bytes.extend_from_slice(&[4, 2, 0, 2, 0]);
    assert_eq!(
        custom_parse(&bytes),
        vec![Element::Group(vec![
            Element::Rect(OngyRect { width: 1, height: 1 }),
            Element::Rect(OngyRect { width: 2, height: 2 }),
        ])]
    );
}

#[test]
fn draw_group_reads_mode_and_shapes() {
    // tag 5, absolute coordinates, one shape: rectangle (0,0)-(10,8)
    let bytes = vec![1u8, 5, 0, 1, 1, 0, 0, 0, 0, 10, 0, 8, 0];
    assert_eq!(
        custom_parse(&bytes),
        vec![Element::Draw(OngyDraw {
            coords: Coordtype::Absolute,
            values: vec![DrawCommand::Rect(DrawRect { x1: 0, y1: 0, x2: 10, y2: 8 })],
        })]
    );
}

#[test]
fn unknown_coordinate_mode_falls_back_to_relative() {
    let bytes = vec![1u8, 5, 7, 0];
    assert_eq!(
        custom_parse(&bytes),
        vec![Element::Draw(OngyDraw { coords: Coordtype::Relative, values: vec![] })]
    );
}

#[test]
fn unknown_shape_tag_degrades_to_a_zero_rect() {
    let bytes = vec![1u8, 5, 0, 1, 42];
    assert_eq!(
        custom_parse(&bytes),
        vec![Element::Draw(OngyDraw {
            coords: Coordtype::Absolute,
            values: vec![DrawCommand::Rect(DrawRect { x1: 0, y1: 0, x2: 0, y2: 0 })],
        })]
    );
}

#[test]
fn truncated_input_keeps_what_was_read() {
    // count 2: a full rectangle, then a text slot cut short
    let bytes = vec![2u8, 4, 10, 0, 5, 0, 1, 2, 0, 104];
    assert_eq!(
        custom_parse(&bytes),
        vec![Element::Rect(OngyRect { width: 10, height: 5 })]
    );
}

#[test]
fn binary_content_separates_the_elements() {
    let mut bytes = vec![2u8];
    bytes.extend_from_slice(&text_bytes("a"));
    bytes.extend_from_slice(&text_bytes("b"));
    assert_eq!(
        binary_content(&bytes),
        vec![text("a"), Element::Sep(Separator), text("b")]
    );
}
