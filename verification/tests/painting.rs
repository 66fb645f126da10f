use shade::decor::{ColorSwatch, DrawGrid};
use shade::dto;
use shade::geom::{Bounds2i, Vec2i};
use shade::gui::Widget;
use shade::paint::{Rgba8, Shape, TextAlign, TextStyle};
use shade::props::{OwnedProp, PropKey, Property};
use shade::scroll::ScrollPanel;
use shade::slider::SliderControl;
use shade::slotmap::{SlotKey, SlotMap};
use shade::widgets::{Button, Checkbox, MenuItem, RadioButton, Separator, Window};

fn keys(n: usize) -> Vec<SlotKey> {
    let mut map: SlotMap<()> = SlotMap::new();
    (0..n).map(|_| map.allocate()).collect()
}

fn rect(x0: i32, y0: i32, x1: i32, y1: i32) -> Bounds2i {
    Bounds2i::from_coords(x0, y0, x1, y1)
}

fn rgb(r: u8, g: u8, b: u8) -> Rgba8 {
    Rgba8 { r, g, b, a: 255 }
}

fn fill(bounds: Bounds2i, color: Rgba8) -> Shape {
    Shape::Fill { bounds, color }
}

fn edge(bounds: Bounds2i, color: Rgba8) -> Shape {
    Shape::Edge { bounds, color }
}

fn text(bounds: Bounds2i, align: TextAlign, style: TextStyle, color: Rgba8, outline: Rgba8, s: &str) -> Shape {
    Shape::Text { bounds, align, style, color, outline, text: s.to_owned() }
}

const SOFT_OUTLINE: Rgba8 = Rgba8 { r: 18, g: 20, b: 24, a: 219 };

#[test]
fn button_fill_and_edge_follow_its_state() {
    let k = keys(2);
    let button = Button::new(k[0], k[1], Property::Key(PropKey(3)));
    let size = Vec2i::new(100, 30);
    assert_eq!(button.draw(size, None), vec![fill(rect(0, 0, 100, 30), rgb(54, 58, 68)), edge(rect(0, 0, 100, 30), rgb(88, 94, 108))]);
    assert_eq!(button.draw(size, Some(false)), vec![fill(rect(0, 0, 100, 30), rgb(44, 47, 56)), edge(rect(0, 0, 100, 30), rgb(74, 79, 92))]);
}

#[test]
fn separator_draws_a_line_across_its_middle() {
    let k = keys(1);
    let sep = Separator::new(k[0]);
    assert_eq!(sep.draw(Vec2i::new(240, 9)), vec![fill(rect(8, 4, 232, 5), rgb(83, 88, 101))]);
}

#[test]
fn menu_item_with_submenu_draws_label_and_arrow() {
    let k = keys(2);
    let item = MenuItem::new(k[0], OwnedProp::Static("Open"), Property::Value(true), Some(k[1]));
    let white = rgb(230, 232, 236);
    assert_eq!(
        item.draw(Vec2i::new(240, 32), None, None),
        vec![
            text(rect(12, 0, 204, 32), TextAlign::MiddleLeft, TextStyle::Body, white, SOFT_OUTLINE, "Open"),
            text(rect(216, 0, 228, 32), TextAlign::MiddleCenter, TextStyle::Body, white, SOFT_OUTLINE, ">"),
        ]
    );
    let keyed = MenuItem::new(k[0], OwnedProp::Key(PropKey(1)), Property::Value(false), None);
    let grey = rgb(153, 158, 170);
    assert_eq!(
        keyed.draw(Vec2i::new(240, 32), None, None),
        vec![text(rect(12, 0, 228, 32), TextAlign::MiddleLeft, TextStyle::Body, grey, SOFT_OUTLINE, "<menu item>")]
    );
    assert_eq!(
        keyed.draw(Vec2i::new(240, 32), None, Some("Saved")),
        vec![text(rect(12, 0, 228, 32), TextAlign::MiddleLeft, TextStyle::Body, grey, SOFT_OUTLINE, "Saved")]
    );
}

#[test]
fn checked_checkbox_draws_box_mark_and_label() {
    let k = keys(1);
    let cb = Checkbox::new(k[0], OwnedProp::Static("Check"), Property::Value(true), Property::Value(true));
    assert_eq!(
        cb.draw(Vec2i::new(200, 30), None, None, None),
        vec![
            edge(rect(0, 3, 24, 27), rgb(93, 99, 113)),
            fill(rect(5, 8, 19, 22), rgb(92, 150, 218)),
            text(rect(34, 0, 200, 30), TextAlign::MiddleLeft, TextStyle::Body, rgb(230, 232, 236), rgb(18, 20, 24), "Check"),
        ]
    );
}

#[test]
fn selected_radio_button_draws_checked_ring_and_mark() {
    let k = keys(1);
    let rb = RadioButton::new(k[0], OwnedProp::Static("Two"), Property::Key(PropKey(9)), 2, Property::Value(true));
    let blue = rgb(92, 150, 218);
    assert_eq!(
        rb.draw(Vec2i::new(200, 30), None, Some(2), None),
        vec![
            edge(rect(0, 4, 22, 26), blue),
            fill(rect(6, 10, 16, 20), blue),
            text(rect(32, 0, 200, 30), TextAlign::MiddleLeft, TextStyle::Body, rgb(230, 232, 236), SOFT_OUTLINE, "Two"),
        ]
    );
    assert_eq!(rb.draw(Vec2i::new(200, 30), None, Some(1), None)[0], edge(rect(0, 4, 22, 26), rgb(93, 99, 113)));
}

#[test]
fn window_draws_background_header_edge_and_title() {
    let k = keys(2);
    let win = Window::new(k[0], OwnedProp::Static("Hello"), k[1]);
    let hh = win.header_height();
    assert_eq!(
        win.draw(Vec2i::new(300, 200), None),
        vec![
            fill(rect(0, 0, 300, 200), rgb(37, 40, 48)),
            fill(rect(0, 0, 300, hh), rgb(48, 52, 62)),
            edge(rect(0, 0, 300, 200), rgb(83, 88, 101)),
            text(rect(16, 10, 284, hh - 10), TextAlign::MiddleLeft, TextStyle::Title, rgb(244, 245, 247), SOFT_OUTLINE, "Hello"),
        ]
    );
}

#[test]
fn scroll_panel_draws_track_and_thumb() {
    let k = keys(2);
    let panel = ScrollPanel::new(k[0], k[1], 500);
    assert_eq!(
        panel.draw(Vec2i::new(100, 100)),
        vec![fill(rect(90, 2, 98, 98), Rgba8 { r: 24, g: 26, b: 31, a: 181 }), fill(rect(90, 2, 98, 26), rgb(112, 121, 137))]
    );
    let short = ScrollPanel::new(k[0], k[1], 50);
    assert_eq!(short.draw(Vec2i::new(100, 100)), vec![]);
}

#[test]
fn slider_draws_track_fill_and_knob() {
    let k = keys(1);
    let slider = SliderControl::new(k[0], Property::Value(true));
    assert_eq!(
        slider.draw(Vec2i::new(200, 20), None, 50, 45),
        vec![fill(rect(0, 7, 200, 13), rgb(26, 28, 34)), fill(rect(0, 7, 50, 13), rgb(92, 150, 218)), fill(rect(45, 0, 55, 20), rgb(177, 203, 232))]
    );
    let keyed = SliderControl::new(k[0], Property::Key(PropKey(4)));
    assert_eq!(keyed.draw(Vec2i::new(200, 20), Some(false), 50, 45)[2], fill(rect(45, 0, 55, 20), rgb(123, 130, 143)));
}

#[test]
fn color_swatch_skips_transparent_parts() {
    let k = keys(1);
    let border = Rgba8 { r: 250, g: 250, b: 252, a: 89 };
    let swatch = ColorSwatch::new(k[0], Property::Value(rgb(10, 20, 30)), Property::Value(border), 5);
    assert_eq!(swatch.draw(Vec2i::new(50, 40), None, None), vec![fill(rect(5, 5, 45, 35), rgb(10, 20, 30)), edge(rect(5, 5, 45, 35), border)]);
    let keyed = ColorSwatch::new(k[0], Property::Key(PropKey(2)), Property::Value(border), 5);
    assert_eq!(keyed.draw(Vec2i::new(50, 40), None, None), vec![edge(rect(5, 5, 45, 35), border)]);
}

#[test]
fn grid_lines_are_spaced_from_the_origin() {
    let k = keys(1);
    let bg = rgb(27, 29, 34);
    let line = Rgba8 { r: 255, g: 255, b: 255, a: 15 };
    let grid = DrawGrid::new(k[0], bg, line, 48);
    assert_eq!(
        grid.draw(Vec2i::new(100, 50)),
        vec![
            fill(rect(0, 0, 100, 50), bg),
            edge(rect(0, 0, 1, 50), line),
            edge(rect(48, 0, 49, 50), line),
            edge(rect(96, 0, 97, 50), line),
            edge(rect(0, 0, 100, 1), line),
            edge(rect(0, 48, 100, 49), line),
        ]
    );
    let tight = DrawGrid::new(k[0], bg, line, 0);
    assert_eq!(tight.draw(Vec2i::new(2, 1)).len(), 1 + 2 + 1);
}

#[test]
fn swatch_and_grid_built_from_description() {
    let desc = dto::Scene {
        size: Vec2i::new(640, 480),
        roots: vec![
            dto::ChildWidget {
                bounds: rect(0, 0, 640, 480),
                widget: Box::new(dto::Widget::DrawGrid(dto::DrawGrid { name: Some("grid".to_owned()), background: None, line_color: None, spacing: None })),
            },
            dto::ChildWidget {
                bounds: rect(10, 10, 60, 50),
                widget: Box::new(dto::Widget::ColorSwatch(dto::ColorSwatch {
                    name: Some("swatch".to_owned()),
                    color: dto::Property::Value(rgb(1, 2, 3)),
                    border: None,
                    inset: None,
                })),
            },
        ],
    };
    let (scene, ctx) = desc.build();
    let grid = ctx.key("grid").unwrap();
    let swatch = ctx.key("swatch").unwrap();
    match scene.get_widget(grid) {
        Some(Widget::DrawGrid(g)) => assert_eq!(g.spacing(), 48),
        _ => panic!("expected a grid"),
    }
    match scene.get_widget(swatch) {
        Some(Widget::ColorSwatch(s)) => {
            assert_eq!(s.inset(), 5);
            assert_eq!(s.border_property(), Property::Value(Rgba8 { r: 250, g: 250, b: 252, a: 89 }));
        },
        _ => panic!("expected a swatch"),
    }
    assert_eq!(scene.hit_test(Vec2i::new(20, 20)), Some(swatch));
    assert_eq!(scene.hit_test(Vec2i::new(300, 300)), Some(scene.tree().content()));
}
