use snip2text::overlay::render_overlay;
use snip2text::selection::{Coord, Phase, Region};

fn at(pixel: u32) -> Coord {
    Coord { pixel: Some(pixel), zero: false }
}

fn drag(from: (Coord, Coord), to: (Coord, Coord)) -> Phase {
    Phase::Idle.press().drag_to(from.0, from.1).0.drag_to(to.0, to.1).0
}

#[test]
fn a_drag_joins_first_and_last_position() {
    let phase = Phase::Idle.press();
    let (phase, redraw) = phase.drag_to(at(5), at(6));
    assert!(redraw);
    let (phase, _) = phase.drag_to(at(90), at(2));
    let (phase, _) = phase.drag_to(at(20), at(30));
    assert_eq!(phase.selected(100, 100), Some(Region { x1: 5, y1: 6, x2: 20, y2: 30 }));
}

#[test]
fn a_press_does_not_restart_a_drag() {
    let phase = drag((at(5), at(6)), (at(20), at(30)));
    assert_eq!(phase.press(), phase);
}

#[test]
fn the_cursor_alone_selects_nothing() {
    let (phase, redraw) = Phase::Idle.drag_to(at(5), at(6));
    assert_eq!(phase, Phase::Idle);
    assert!(!redraw);
    assert_eq!(phase.selected(100, 100), None);
    assert_eq!(Phase::default(), Phase::Idle);
}

#[test]
fn a_start_at_the_exact_origin_moves_on() {
    let zero = Coord { pixel: Some(0), zero: true };
    let phase = drag((zero, zero), (at(20), at(30)));
    assert_eq!(phase.selected(100, 100), Some(Region { x1: 20, y1: 30, x2: 20, y2: 30 }));
    let phase = drag((zero, at(3)), (at(20), at(30)));
    assert_eq!(phase.selected(100, 100), Some(Region { x1: 0, y1: 3, x2: 20, y2: 30 }));
}

#[test]
fn direction_does_not_matter() {
    let there = drag((at(5), at(60)), (at(20), at(30)));
    let back = drag((at(20), at(30)), (at(5), at(60)));
    let region = Some(Region { x1: 5, y1: 30, x2: 20, y2: 60 });
    assert_eq!(there.selected(100, 100), region);
    assert_eq!(back.selected(100, 100), region);
    let across = drag((at(20), at(60)), (at(5), at(30)));
    let up = drag((at(5), at(30)), (at(20), at(60)));
    assert_eq!(across.selected(100, 100), region);
    assert_eq!(up.selected(100, 100), region);
}

#[test]
fn a_selection_stays_on_its_overlay() {
    let phase = drag((at(5), at(6)), (at(u32::MAX), at(200)));
    assert_eq!(phase.selected(100, 50), Some(Region { x1: 5, y1: 6, x2: 99, y2: 49 }));
    let beyond = drag((at(150), at(6)), (at(160), at(7)));
    assert_eq!(beyond.selected(100, 50), Some(Region { x1: 99, y1: 6, x2: 99, y2: 7 }));
    assert_eq!(beyond.framed(100, 50), Some(Region { x1: 150, y1: 6, x2: 99, y2: 7 }));
    assert_eq!(phase.selected(0, 0), Some(Region { x1: 0, y1: 0, x2: 0, y2: 0 }));
}

#[test]
fn a_coordinate_that_is_no_number_does_not_count() {
    let nan = Coord { pixel: None, zero: false };
    let phase = drag((nan, at(6)), (at(20), at(30)));
    assert_eq!(phase.selected(100, 100), Some(Region { x1: 20, y1: 6, x2: 20, y2: 30 }));
    let phase = drag((at(20), at(6)), (nan, at(30)));
    assert_eq!(phase.selected(100, 100), Some(Region { x1: 20, y1: 6, x2: 20, y2: 30 }));
    let phase = drag((nan, at(6)), (nan, at(30)));
    assert_eq!(phase.selected(100, 100), Some(Region { x1: 0, y1: 6, x2: 0, y2: 30 }));
}

#[test]
fn an_idle_overlay_is_dimmed() {
    let bg: Vec<u32> = vec![0x00FFFFFF, 0x00102030, 0x00000001];
    let mut buf: Vec<u32> = vec![7; 4];
    render_overlay(&mut buf, &bg, 3, 1, Phase::Idle);
    assert_eq!(buf, vec![0x007F7F7F, 0x00081018, 0, 7]);
    let mut short: Vec<u32> = vec![7; 2];
    render_overlay(&mut short, &bg, 3, 1, Phase::Idle);
    assert_eq!(short, vec![0x007F7F7F, 0x00081018]);
}

#[test]
fn a_drag_shows_a_white_frame() {
    let bg: Vec<u32> = vec![0x00808080; 25];
    let mut buf: Vec<u32> = vec![7; 26];
    let phase = drag((at(1), at(1)), (at(3), at(3)));
    render_overlay(&mut buf, &bg, 5, 5, phase);
    let (w, b, d) = (0x00FFFFFF, 0x00808080, 0x00404040);
    assert_eq!(
        buf,
        vec![
            d, d, d, d, d, //
            d, w, w, w, d, //
            d, w, b, w, d, //
            d, w, w, w, d, //
            d, d, d, d, d, 7,
        ]
    );
}

#[test]
fn a_drag_beyond_the_edge_shows_no_frame() {
    let bg: Vec<u32> = vec![0x00808080; 4];
    let mut buf: Vec<u32> = vec![7; 4];
    render_overlay(&mut buf, &bg, 2, 2, drag((at(5), at(5)), (at(6), at(6))));
    assert_eq!(buf, vec![0x00404040; 4]);
}

#[test]
fn a_drag_on_the_overlay_is_framed_where_it_selects() {
    let phase = drag((at(90), at(6)), (at(5), at(400)));
    assert_eq!(phase.framed(100, 50), Some(Region { x1: 5, y1: 6, x2: 90, y2: 49 }));
    assert_eq!(phase.framed(100, 50), phase.selected(100, 50));
}

#[test]
fn the_border_needs_no_background() {
    let mut buf: Vec<u32> = vec![7; 2];
    render_overlay(&mut buf, &[], 1, 1, drag((at(0), at(0)), (at(0), at(0))));
    assert_eq!(buf, vec![0x00FFFFFF, 7]);
}
