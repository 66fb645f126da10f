use shade::event::{Cursor, MouseButton, MouseEvent, MouseEventKind};
use shade::geom::{Bounds2i, Vec2i};
use shade::scene::SceneTree;
use shade::scroll::{max_scroll, ScrollPanel, ScrollVBar};
use shade::slotmap::{SlotKey, SlotMap};

fn keys(n: usize) -> Vec<SlotKey> {
    let mut map: SlotMap<()> = SlotMap::new();
    (0..n).map(|_| map.allocate()).collect()
}

fn bounds(x0: i32, y0: i32, x1: i32, y1: i32) -> Bounds2i {
    Bounds2i::from_coords(x0, y0, x1, y1)
}

fn mouse(kind: MouseEventKind, x: i32, y: i32) -> MouseEvent {
    MouseEvent { kind, pointer: Vec2i::new(x, y) }
}

#[test]
fn scroll_range_and_visibility() {
    let bar = ScrollVBar::new();
    let size = Vec2i::new(100, 100);
    assert_eq!(max_scroll(300, 100), 200);
    assert_eq!(max_scroll(50, 100), 0);
    assert!(bar.visible(size, 300));
    assert!(!bar.visible(size, 100));
    assert!(!bar.visible(Vec2i::new(12, 100), 300));
    assert_eq!(bar.reserved_width(size, 300), 12);
    assert_eq!(bar.reserved_width(size, 80), 0);
    assert_eq!(bar.scroll_y(100, 300), 0);
}

#[test]
fn scroll_track_and_thumb_geometry() {
    let bar = ScrollVBar::new();
    let size = Vec2i::new(100, 100);
    assert_eq!(bar.track(size, 300), Some(bounds(90, 2, 98, 98)));
    assert_eq!(bar.track(size, 100), None);
    assert_eq!(bar.track(Vec2i::new(100, 4), 300), None);
    assert_eq!(bar.thumb(size, 300, 0), Some(bounds(90, 2, 98, 34)));
    assert_eq!(bar.thumb(size, 300, 200), Some(bounds(90, 66, 98, 98)));
    assert_eq!(bar.thumb(size, 10_000, 0), Some(bounds(90, 2, 98, 26)));
    assert_eq!(bar.scroll_for_thumb_top(size, 300, 0, 34), 100);
    assert_eq!(bar.scroll_for_thumb_top(size, 300, 0, -50), 0);
    assert_eq!(bar.scroll_for_thumb_top(size, 300, 0, 500), 200);
}

#[test]
fn scroll_wheel_scrolls_within_range() {
    let k = keys(2);
    let mut scene = SceneTree::new(Vec2i::new(640, 480), k[0]);
    let mut bar = ScrollVBar::new();
    let area = bounds(0, 0, 100, 100);
    bar.event(mouse(MouseEventKind::Wheel { delta: -3 }, 50, 50), area, k[1], 300, &mut scene);
    assert_eq!(bar.scroll_y(100, 300), 6);
    bar.event(mouse(MouseEventKind::Wheel { delta: -500 }, 50, 50), area, k[1], 300, &mut scene);
    assert_eq!(bar.scroll_y(100, 300), 200);
    bar.event(mouse(MouseEventKind::Wheel { delta: 1000 }, 50, 50), area, k[1], 300, &mut scene);
    assert_eq!(bar.scroll_y(100, 300), 0);
}

#[test]
fn scroll_thumb_drag_captures_and_scrolls() {
    let k = keys(2);
    let mut scene = SceneTree::new(Vec2i::new(640, 480), k[0]);
    let mut bar = ScrollVBar::new();
    let area = bounds(0, 0, 100, 100);
    bar.event(mouse(MouseEventKind::ButtonDown { button: MouseButton::left() }, 94, 10), area, k[1], 300, &mut scene);
    assert_eq!(scene.captured(), Some(k[1]));
    assert_eq!(bar.cursor(), Some(Cursor::Grabbing));
    bar.event(mouse(MouseEventKind::Move, 94, 42), area, k[1], 300, &mut scene);
    assert_eq!(bar.scroll_y(100, 300), 100);
    bar.event(mouse(MouseEventKind::ButtonUp { button: MouseButton::left() }, 10, 10), area, k[1], 300, &mut scene);
    assert_eq!(scene.captured(), None);
    assert_eq!(bar.cursor(), None);
}

#[test]
fn scroll_track_click_jumps() {
    let k = keys(2);
    let mut scene = SceneTree::new(Vec2i::new(640, 480), k[0]);
    let mut bar = ScrollVBar::new();
    let area = bounds(0, 0, 100, 100);
    bar.event(mouse(MouseEventKind::ButtonDown { button: MouseButton::left() }, 94, 66), area, k[1], 300, &mut scene);
    assert_eq!(bar.scroll_y(100, 300), 150);
    assert_eq!(scene.captured(), None);
    bar.event(mouse(MouseEventKind::Move, 94, 80), area, k[1], 300, &mut scene);
    assert_eq!(bar.cursor(), Some(Cursor::Grab));
    bar.event(mouse(MouseEventKind::Leave, 94, 80), area, k[1], 300, &mut scene);
    assert_eq!(bar.cursor(), None);
}

#[test]
fn scroll_panel_lays_out_scrolled_content() {
    let k = keys(3);
    let mut scene = SceneTree::new(Vec2i::new(640, 480), k[0]);
    let mut panel = ScrollPanel::new(k[1], k[2], 300);
    panel.layout(Vec2i::new(100, 100));
    assert_eq!(panel.content().bounds, bounds(0, 0, 88, 300));
    panel.event(mouse(MouseEventKind::Wheel { delta: -10 }, 50, 50), bounds(0, 0, 100, 100), &mut scene);
    panel.layout(Vec2i::new(100, 100));
    assert_eq!(panel.content().bounds, bounds(0, -20, 88, 280));
    assert_eq!(panel.content_width(Vec2i::new(100, 400)), 100);
}
