use ongybar::cache::{ImageCache, ImageDims};
use ongybar::color::Rgba;
use ongybar::config::Anchor;
use ongybar::element::{
    Colored, Coordtype, DrawCol, DrawCommand, DrawRect, Element, OngyDraw, OngyImage, OngyPos,
    OngyRect, OngyRectR, OngyStr, Separator, GAP,
};
use ongybar::layout::{interleave_separators, render_anchored};
use ongybar::render::DrawOp;
use ongybar::ruler::FixedRuler;

fn ruler() -> FixedRuler {
    FixedRuler { char_width: 7 }
}

fn gray() -> Rgba {
    Rgba { r: 204, g: 204, b: 204, a: 255 }
}

fn text(s: &str) -> Element {
    Element::Str(OngyStr(s.to_string()))
}

#[test]
fn text_measures_by_char_count() {
    // row height 16 gives text height (16 - 2) * 2 / 3 = 9; widths do not
    // depend on the text height for a fixed-pitch ruler
    let e = text("hi");
    assert_eq!(e.measure(&ruler(), &ImageCache::new(), 16), 14);
    assert_eq!(text("").measure(&ruler(), &ImageCache::new(), 16), 0);
}

#[test]
fn separator_is_one_pixel() {
    let e = Element::Sep(Separator);
    assert_eq!(e.measure(&ruler(), &ImageCache::new(), 16), 1);
}

#[test]
fn rect_measures_its_width() {
    let e = Element::Rect(OngyRect { width: 10, height: 5 });
    assert_eq!(e.measure(&ruler(), &ImageCache::new(), 16), 10);
}

#[test]
fn relative_rect_scales_with_row_height() {
    // 50 percent of a 16-pixel row is 8 pixels
    let e = Element::RectR(OngyRectR { width: 50, height: 25 });
    assert_eq!(e.measure(&ruler(), &ImageCache::new(), 16), 8);
}

#[test]
fn position_adjustment_is_verbatim() {
    assert_eq!(Element::Pos(OngyPos(-4)).measure(&ruler(), &ImageCache::new(), 16), -4);
    assert_eq!(Element::Pos(OngyPos(9)).measure(&ruler(), &ImageCache::new(), 16), 9);
}

#[test]
fn image_measures_cached_width_or_zero() {
    let mut cache = ImageCache::new();
    let e = Element::Image(OngyImage("logo.bmp".to_string()));
    assert_eq!(e.measure(&ruler(), &cache, 16), 0);
    cache.insert("logo.bmp".to_string(), ImageDims { width: 30, height: 10 });
    assert_eq!(e.measure(&ruler(), &cache, 16), 30);
}

#[test]
fn image_cache_keeps_first_entry() {
    let mut cache = ImageCache::new();
    cache.insert("a".to_string(), ImageDims { width: 3, height: 4 });
    cache.insert("a".to_string(), ImageDims { width: 9, height: 9 });
    assert_eq!(cache.get("a"), Some(ImageDims { width: 3, height: 4 }));
    assert_eq!(cache.get("b"), None);
}

#[test]
fn group_inserts_gap_between_children() {
    // the gap law on concrete widths: 14 + 4 + 10 + 4 + 7
    let g = Element::Group(vec![
        text("hi"),
        Element::Rect(OngyRect { width: 10, height: 5 }),
        text("x"),
    ]);
    assert_eq!(g.measure(&ruler(), &ImageCache::new(), 16), 14 + GAP + 10 + GAP + 7);
}

#[test]
fn empty_group_is_zero_wide() {
    let g = Element::Group(vec![]);
    assert_eq!(g.measure(&ruler(), &ImageCache::new(), 16), 0);
}

#[test]
fn colored_delegates_size() {
    let e = Element::Color(Colored { color: gray(), elem: Box::new(text("abc")) });
    assert_eq!(e.measure(&ruler(), &ImageCache::new(), 16), 21);
}

#[test]
fn draw_group_sums_transformed_widths() {
    let d = Element::Draw(OngyDraw {
        coords: Coordtype::Absolute,
        values: vec![
            DrawCommand::Rect(DrawRect { x1: 0, y1: 0, x2: 10, y2: 8 }),
            DrawCommand::Col(DrawCol {
                color: gray(),
                cmd: Box::new(DrawCommand::Rect(DrawRect { x1: 2, y1: 0, x2: 7, y2: 8 })),
            }),
        ],
    });
    assert_eq!(d.measure(&ruler(), &ImageCache::new(), 16), 10 + 5);
}

#[test]
fn relative_draw_group_scales_by_height() {
    // width 50 percent of a 100-pixel row is 50
    let d = Element::Draw(OngyDraw {
        coords: Coordtype::Relative,
        values: vec![DrawCommand::Rect(DrawRect { x1: 0, y1: 0, x2: 50, y2: 10 })],
    });
    assert_eq!(d.measure(&ruler(), &ImageCache::new(), 100), 50);
}

#[test]
fn measure_and_render_agree_on_a_mixed_tree() {
    let mut cache = ImageCache::new();
    cache.insert("i.bmp".to_string(), ImageDims { width: 12, height: 6 });
    let tree = Element::Group(vec![
        text("status"),
        Element::Sep(Separator),
        Element::Color(Colored {
            color: Rgba { r: 255, g: 0, b: 0, a: 255 },
            elem: Box::new(Element::Group(vec![text("warn"), Element::Pos(OngyPos(-4))])),
        }),
        Element::Image(OngyImage("i.bmp".to_string())),
        Element::RectR(OngyRectR { width: 50, height: 50 }),
    ]);
    for h in [3u32, 16, 100, 1080] {
        let measured = tree.measure(&ruler(), &cache, h);
        let mut ops: Vec<DrawOp> = Vec::new();
        let rendered = tree.render(&ruler(), &cache, h, 0, gray(), &mut ops);
        assert_eq!(measured, rendered);
    }
}

#[test]
fn render_emits_ops_at_advancing_offsets() {
    let g = Element::Group(vec![text("ab"), Element::Sep(Separator)]);
    let mut ops: Vec<DrawOp> = Vec::new();
    let w = g.render(&ruler(), &ImageCache::new(), 16, 5, gray(), &mut ops);
    assert_eq!(w, 14 + GAP + 1);
    assert_eq!(
        ops,
        vec![
            DrawOp::Text { color: gray(), height: 9, text: "ab".to_string(), x: 5, y: 11 },
            DrawOp::Line { color: gray(), x: 5 + 14 + GAP, y_top: 3, y_bottom: 13 },
        ]
    );
}

#[test]
fn colored_overrides_the_inherited_color() {
    let red = Rgba { r: 255, g: 0, b: 0, a: 255 };
    let e = Element::Color(Colored { color: red, elem: Box::new(text("a")) });
    let mut ops: Vec<DrawOp> = Vec::new();
    e.render(&ruler(), &ImageCache::new(), 16, 0, gray(), &mut ops);
    assert_eq!(
        ops,
        vec![DrawOp::Text { color: red, height: 9, text: "a".to_string(), x: 0, y: 11 }]
    );
}

#[test]
fn position_adjustment_draws_nothing() {
    let e = Element::Pos(OngyPos(-4));
    let mut ops: Vec<DrawOp> = Vec::new();
    let w = e.render(&ruler(), &ImageCache::new(), 16, 0, gray(), &mut ops);
    assert_eq!(w, -4);
    assert!(ops.is_empty());
}

#[test]
fn rect_renders_centered() {
    let e = Element::Rect(OngyRect { width: 10, height: 6 });
    let mut ops: Vec<DrawOp> = Vec::new();
    e.render(&ruler(), &ImageCache::new(), 16, 2, gray(), &mut ops);
    assert_eq!(ops, vec![DrawOp::Rect { color: gray(), x: 2, y: 8 - 3, w: 10, h: 6 }]);
}

#[test]
fn missing_image_renders_nothing() {
    let e = Element::Image(OngyImage("nope.bmp".to_string()));
    let mut ops: Vec<DrawOp> = Vec::new();
    let w = e.render(&ruler(), &ImageCache::new(), 16, 0, gray(), &mut ops);
    assert_eq!(w, 0);
    assert!(ops.is_empty());
}

#[test]
fn right_anchor_shifts_back_by_the_measured_width() {
    let e = text("ab");
    let mut ops: Vec<DrawOp> = Vec::new();
    let w = render_anchored(&e, &Anchor::Right, &ruler(), &ImageCache::new(), 16, 100, gray(), &mut ops);
    assert_eq!(w, 14);
    assert_eq!(
        ops,
        vec![DrawOp::Text { color: gray(), height: 9, text: "ab".to_string(), x: 86, y: 11 }]
    );
}

#[test]
fn middle_anchor_shifts_back_by_half() {
    let e = text("ab");
    let mut ops: Vec<DrawOp> = Vec::new();
    render_anchored(&e, &Anchor::Middle, &ruler(), &ImageCache::new(), 16, 50, gray(), &mut ops);
    assert_eq!(
        ops,
        vec![DrawOp::Text { color: gray(), height: 9, text: "ab".to_string(), x: 43, y: 11 }]
    );
}

#[test]
fn interleave_puts_separators_between_elements() {
    let out = interleave_separators(vec![text("a"), text("b"), text("c")]);
    assert_eq!(
        out,
        vec![
            text("a"),
            Element::Sep(Separator),
            text("b"),
            Element::Sep(Separator),
            text("c"),
        ]
    );
    assert_eq!(interleave_separators(vec![]), vec![]);
    assert_eq!(interleave_separators(vec![text("a")]), vec![text("a")]);
}

#[test]
fn coordtype_transform_scales_each_axis() {
    assert_eq!(Coordtype::Absolute.transform(10, 20, 100), (10, 20));
    assert_eq!(Coordtype::Relative.transform(10, 20, 100), (10, 20));
    assert_eq!(Coordtype::Relative.transform(10, 20, 50), (5, 10));
    assert_eq!(Coordtype::SemiRelative.transform(10, 20, 50), (10, 10));
    // negative extents truncate toward zero
    assert_eq!(Coordtype::Relative.transform(-10, -15, 50), (-5, -7));
}

#[test]
fn draw_builders_assemble_the_group() {
    let rect = DrawRect::new(1, 2, 3, 4);
    assert_eq!(rect, DrawRect { x1: 1, y1: 2, x2: 3, y2: 4 });
    let col = DrawCol::new(DrawCommand::Rect(rect), gray());
    assert_eq!(*col.cmd, DrawCommand::Rect(rect));
    let group = OngyDraw::new(Coordtype::Absolute, vec![DrawCommand::Col(col)]);
    assert_eq!(group.coords, Coordtype::Absolute);
    assert_eq!(group.values.len(), 1);
}
