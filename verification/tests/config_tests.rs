use std::cmp::Ordering;

use ongybar::config::{Anchor, Config, Direction, InputSource, Parser, Position, Size};
use ongybar::geometry::{check_glx_extension, get_monitor, is_viable_mon, sort_mons, Geometry, Monitor};

fn mon(name: &str, x: i16, y: i16, width: u16, height: u16) -> Monitor {
    Monitor { name: name.to_string(), x, y, width, height }
}

#[test]
fn height_in_pixels_passes_through() {
    assert_eq!(Size::Pixels(16).get_height(1080), 16);
}

#[test]
fn height_in_percent_scales_the_monitor() {
    assert_eq!(Size::Percent(50).get_height(100), 50);
    // truncates toward zero
    assert_eq!(Size::Percent(50).get_height(101), 50);
    assert_eq!(Size::Percent(-50).get_height(101), -50);
}

#[test]
fn height_for_a_font_adds_half() {
    assert_eq!(Size::Font(10).get_height(1080), 15);
    assert_eq!(Size::Font(11).get_height(1080), 16);
}

#[test]
fn default_config_reads_stdin_into_the_middle() {
    let c = Config::default();
    assert_eq!(c.position, Position::Global(Direction::Top));
    assert_eq!(c.size, Size::Pixels(16));
    assert_eq!(c.title, "ongybar".to_string());
    assert_eq!(c.inputs.len(), 1);
    assert_eq!(c.inputs[0].source, InputSource::Stdin);
    assert_eq!(c.inputs[0].layer, 0);
    assert_eq!(c.inputs[0].name, "".to_string());
    assert_eq!(c.inputs[0].parser, Parser::Plain);
    assert_eq!(c.inputs[0].position, Anchor::Middle);
}

#[test]
fn position_exposes_its_direction() {
    assert_eq!(*Position::Global(Direction::Bottom).get_direction(), Direction::Bottom);
    let pinned = Position::Monitor("DP-1".to_string(), Direction::Top);
    assert_eq!(*pinned.get_direction(), Direction::Top);
}

#[test]
fn top_bar_sits_on_the_monitor_top() {
    let m = mon("DP-1", 10, 20, 1920, 1080);
    let g = Geometry::from_mon_with_conf(&m, &Size::Pixels(16), &Direction::Top);
    assert_eq!(g, Geometry { x: 10, y: 20, width: 1920, height: 16 });
}

#[test]
fn bottom_bar_sits_on_the_monitor_bottom() {
    let m = mon("DP-1", 0, 0, 1920, 1080);
    let g = Geometry::from_mon_with_conf(&m, &Size::Pixels(16), &Direction::Bottom);
    assert_eq!(g, Geometry { x: 0, y: 1064, width: 1920, height: 16 });
}

#[test]
fn monitors_sort_along_the_bar_axis() {
    let a = mon("a", 5, 0, 100, 100);
    let b = mon("b", 0, 9, 100, 100);
    assert_eq!(sort_mons(&Direction::Top, &a, &b), Ordering::Less);
    assert_eq!(sort_mons(&Direction::Left, &a, &b), Ordering::Greater);
    assert_eq!(sort_mons(&Direction::Bottom, &a, &a), Ordering::Equal);
}

#[test]
fn viable_monitors_follow_the_position() {
    let global = Position::Global(Direction::Top);
    let pinned = Position::Monitor("DP-1".to_string(), Direction::Top);
    assert!(is_viable_mon("anything", &global));
    assert!(is_viable_mon("DP-1", &pinned));
    assert!(!is_viable_mon("HDMI-0", &pinned));
}

#[test]
fn extension_lookup_matches_whole_words() {
    let exts = "GLX_ARB_create_context GLX_EXT_swap_control";
    assert!(check_glx_extension(exts, "GLX_EXT_swap_control"));
    assert!(check_glx_extension(exts, "GLX_ARB_create_context"));
    assert!(!check_glx_extension(exts, "GLX_ARB"));
    assert!(!check_glx_extension("", "GLX_ARB"));
    assert!(check_glx_extension("a  b", "b"));
    assert!(!check_glx_extension("a  b", "c"));
}

#[test]
fn monitor_selection_takes_the_first_least_viable() {
    let mons = vec![
        mon("HDMI-0", 0, 500, 100, 100),
        mon("DP-1", 0, 0, 100, 100),
        mon("DP-2", 5, 0, 100, 100),
    ];
    let global = Position::Global(Direction::Top);
    let picked = get_monitor(&mons, &global).unwrap();
    assert_eq!(picked.name, "DP-1".to_string());

    let pinned = Position::Monitor("HDMI-0".to_string(), Direction::Top);
    assert_eq!(get_monitor(&mons, &pinned).unwrap().name, "HDMI-0".to_string());

    let absent = Position::Monitor("VGA-0".to_string(), Direction::Top);
    assert!(get_monitor(&mons, &absent).is_none());
}
