use shade::context::DrawContext;
use shade::dto;
use shade::event::{Cursor, MouseButton, MouseEventKind};
use shade::geom::{clip_child, Bounds2i, Vec2i};
use shade::gui::{Scene, Widget};
use shade::scene::{ChildWidget, SceneTree};
use shade::slotmap::SlotMap;
use shade::widgets::{header_height, Panel, Separator, Window, MIN_HEADER_HEIGHT};
use shade::props::{OwnedProp, Property};
use shade::slider::{knob_position, progress_track_rect, slider_track_rect, KnobPosition, SliderControl, SliderMoved};

fn bounds(x0: i32, y0: i32, x1: i32, y1: i32) -> Bounds2i {
    Bounds2i::from_coords(x0, y0, x1, y1)
}

fn left_down() -> MouseEventKind {
    MouseEventKind::ButtonDown { button: MouseButton::left() }
}

fn left_up() -> MouseEventKind {
    MouseEventKind::ButtonUp { button: MouseButton::left() }
}

fn separator(name: &str) -> dto::Widget {
    dto::Widget::Separator(dto::Separator { name: Some(name.to_owned()) })
}

fn checkbox(name: &str) -> dto::Widget {
    dto::Widget::Checkbox(dto::Checkbox {
        name: Some(name.to_owned()),
        label: dto::Property::Value("Check".to_owned()),
        checked: dto::Property::Value(false),
        enabled: None,
    })
}

/// A scene with a panel at (100, 100)-(300, 250) holding a checkbox at (10, 20)-(60, 40)
/// and a separator at (0, 0)-(200, 150) behind it.
fn panel_scene() -> (Scene, dto::BuildContext) {
    let desc = dto::Scene {
        size: Vec2i::new(640, 480),
        roots: vec![dto::ChildWidget {
            bounds: bounds(100, 100, 300, 250),
            widget: Box::new(dto::Widget::Panel(dto::Panel {
                name: Some("panel".to_owned()),
                children: vec![
                    dto::ChildWidget { bounds: bounds(0, 0, 200, 150), widget: Box::new(separator("sep")) },
                    dto::ChildWidget { bounds: bounds(10, 20, 60, 40), widget: Box::new(checkbox("check")) },
                ],
            })),
        }],
    };
    desc.build()
}

#[test]
fn scene_build_shows_roots_at_their_bounds() {
    let (scene, ctx) = panel_scene();
    let panel = ctx.key("panel").unwrap();
    let check = ctx.key("check").unwrap();
    assert_eq!(scene.size(), Vec2i::new(640, 480));
    assert!(scene.is_shown(panel));
    assert_eq!(scene.tree().root_children(), &vec![ChildWidget::new(bounds(100, 100, 300, 250), panel)]);
    assert_eq!(scene.parent(check), Some(panel));
    assert_eq!(scene.children_of_widget(panel).len(), 2);
}

#[test]
fn hit_test_finds_front_most_hittable_widget() {
    let (scene, ctx) = panel_scene();
    let panel = ctx.key("panel").unwrap();
    let check = ctx.key("check").unwrap();
    // Over the checkbox.
    assert_eq!(scene.hit_test(Vec2i::new(120, 130)), Some(check));
    // Over the separator only: separators are not hit, so the panel is.
    assert_eq!(scene.hit_test(Vec2i::new(250, 200)), Some(panel));
    // Over nothing shown: the root panel.
    assert_eq!(scene.hit_test(Vec2i::new(5, 5)), Some(scene.tree().content()));
    // Outside the scene.
    assert_eq!(scene.hit_test(Vec2i::new(700, 5)), None);
}

#[test]
fn client_rect_is_clipped_by_ancestors() {
    let (scene, ctx) = panel_scene();
    let panel = ctx.key("panel").unwrap();
    let check = ctx.key("check").unwrap();
    assert_eq!(scene.get_client_rect(panel), Some(bounds(100, 100, 300, 250)));
    assert_eq!(scene.get_client_rect(check), Some(bounds(110, 120, 160, 140)));
    assert_eq!(scene.get_client_rect(scene.tree().content()), Some(bounds(0, 0, 640, 480)));
}

#[test]
fn clip_child_moves_and_clips() {
    assert_eq!(clip_child(bounds(10, 20, 60, 40), bounds(100, 100, 300, 250)), Some(bounds(110, 120, 160, 140)));
    assert_eq!(clip_child(bounds(150, 100, 400, 200), bounds(100, 100, 300, 250)), Some(bounds(250, 200, 300, 250)));
    assert_eq!(clip_child(bounds(300, 300, 400, 400), bounds(100, 100, 300, 250)), None);
}

#[test]
fn root_panel_drags_pressed_child() {
    let (mut scene, ctx) = panel_scene();
    let panel = ctx.key("panel").unwrap();
    scene.root_event(left_down(), Vec2i::new(150, 120), panel);
    assert_eq!(scene.tree().dragging(), Some(panel));
    assert_eq!(scene.tree().drag_offset(), Vec2i::new(50, 20));
    assert_eq!(scene.tree().captured(), Some(panel));
    scene.root_event(MouseEventKind::Move, Vec2i::new(180, 160), panel);
    assert_eq!(scene.tree().root_children(), &vec![ChildWidget::new(bounds(130, 140, 330, 290), panel)]);
    scene.root_event(left_up(), Vec2i::new(180, 160), panel);
    assert_eq!(scene.tree().dragging(), None);
    assert_eq!(scene.tree().captured(), None);
    // Moving after release leaves the child in place.
    scene.root_event(MouseEventKind::Move, Vec2i::new(0, 0), panel);
    assert_eq!(scene.tree().root_children(), &vec![ChildWidget::new(bounds(130, 140, 330, 290), panel)]);
}

#[test]
fn root_panel_press_on_other_target_only_raises() {
    let (mut scene, ctx) = panel_scene();
    let panel = ctx.key("panel").unwrap();
    let check = ctx.key("check").unwrap();
    let other = scene.create_widget(|key| Widget::Panel(Panel::empty(key)));
    scene.show(other, bounds(0, 0, 640, 480));
    assert_eq!(scene.tree().root_children()[1].key, other);
    scene.root_event(left_down(), Vec2i::new(150, 120), check);
    // `other` is in front and is hit, but the event aims at the checkbox.
    assert_eq!(scene.tree().dragging(), None);
    assert_eq!(scene.tree().root_children()[1].key, other);
    scene.bring_to_front(panel);
    scene.root_event(left_down(), Vec2i::new(150, 120), check);
    assert_eq!(scene.tree().dragging(), None);
    assert_eq!(scene.tree().root_children()[1].key, panel);
}

#[test]
fn root_layout_keeps_children_inside() {
    let (mut scene, ctx) = panel_scene();
    let panel = ctx.key("panel").unwrap();
    scene.show(panel, bounds(600, -20, 800, 130));
    scene.layout_root();
    assert_eq!(scene.tree().root_children(), &vec![ChildWidget::new(bounds(440, 0, 640, 150), panel)]);
}

#[test]
fn panel_attach_and_detach() {
    let mut slots: SlotMap<u8> = SlotMap::new();
    let root = slots.allocate();
    let mut tree = SceneTree::new(Vec2i::new(100, 100), root);
    let panel_key = slots.allocate();
    let child = slots.allocate();
    let mut panel = Panel::empty(panel_key);
    panel.attach(child, bounds(0, 0, 10, 10), &mut tree);
    assert_eq!(panel.children(), &vec![ChildWidget::new(bounds(0, 0, 10, 10), child)]);
    assert_eq!(tree.parent(child), Some(panel_key));
    panel.attach(child, bounds(5, 5, 15, 15), &mut tree);
    assert_eq!(panel.children(), &vec![ChildWidget::new(bounds(5, 5, 15, 15), child)]);
    assert!(panel.detach(child, &mut tree));
    assert!(panel.children().is_empty());
    assert_eq!(tree.parent(child), None);
    assert!(!panel.detach(child, &mut tree));
}

#[test]
fn window_header_height() {
    assert_eq!(header_height(100, 22, 400), 42);
    assert_eq!(header_height(390, 22, 400), 46);
    assert_eq!(header_height(10, 10, 400), MIN_HEADER_HEIGHT);
}

#[test]
fn window_drag_capture_and_layout() {
    let mut slots: SlotMap<u8> = SlotMap::new();
    let root = slots.allocate();
    let key = slots.allocate();
    let content = slots.allocate();
    let mut tree = SceneTree::new(Vec2i::new(640, 480), root);
    let mut window = Window::new(key, OwnedProp::Owned("Title".to_owned()), content);
    assert_eq!(window.content(), ChildWidget::new(bounds(0, 40, 0, 0), content));
    assert_eq!(window.cursor(), Some(Cursor::Grab));
    window.event(left_down(), Vec2i::new(130, 115), key, bounds(100, 100, 400, 300), &mut tree);
    assert_eq!(window.drag_offset(), Some(Vec2i::new(30, 15)));
    assert_eq!(window.cursor(), Some(Cursor::Grabbing));
    assert_eq!(tree.captured(), Some(key));
    window.event(left_up(), Vec2i::new(130, 115), content, bounds(100, 100, 400, 300), &mut tree);
    assert_eq!(window.drag_offset(), None);
    assert_eq!(tree.captured(), None);
    window.layout(100, 22, bounds(100, 100, 400, 300));
    assert_eq!(window.header_height(), 42);
    assert_eq!(window.content(), ChildWidget::new(bounds(0, 42, 300, 200), content));
}

#[test]
fn window_built_from_description() {
    let desc = dto::Scene {
        size: Vec2i::new(640, 480),
        roots: vec![dto::ChildWidget {
            bounds: bounds(10, 10, 210, 160),
            widget: Box::new(dto::Widget::Window(dto::Window {
                name: Some("win".to_owned()),
                title: dto::Property::Value("Hello".to_owned()),
                content: Box::new(dto::Widget::Button(dto::Button {
                    name: Some("button".to_owned()),
                    enabled: None,
                    content: Box::new(dto::Widget::ScrollPanel(dto::ScrollPanel {
                        name: Some("scroll".to_owned()),
                        content_height: 500,
                        content: Box::new(checkbox("inner")),
                    })),
                })),
            })),
        }],
    };
    let (scene, ctx) = desc.build();
    let win = ctx.key("win").unwrap();
    let button = ctx.key("button").unwrap();
    let scroll = ctx.key("scroll").unwrap();
    let inner = ctx.key("inner").unwrap();
    assert!(scene.is_shown(win));
    assert_eq!(scene.parent(button), Some(win));
    assert_eq!(scene.parent(scroll), Some(button));
    assert_eq!(scene.parent(inner), Some(scroll));
    assert_eq!(scene.children_of_widget(win), vec![ChildWidget::new(bounds(0, MIN_HEADER_HEIGHT, 0, 0), button)]);
    assert!(matches!(scene.get_widget(win), Some(Widget::Window(_))));
    assert_eq!(scene.route_to(inner), vec![inner, scroll, button, win, scene.tree().content()]);
}

#[test]
fn build_records_every_nested_name() {
    let desc = dto::Scene {
        size: Vec2i::new(640, 480),
        roots: vec![
            dto::ChildWidget {
                bounds: bounds(0, 0, 100, 20),
                widget: Box::new(dto::Widget::MenuBar(dto::MenuBar {
                    name: Some("bar".to_owned()),
                    children: vec![dto::MenuBarItem {
                        name: Some("file".to_owned()),
                        label: dto::Property::Value("File".to_owned()),
                        enabled: None,
                        menu: Box::new(dto::Menu {
                            name: Some("file_menu".to_owned()),
                            children: vec![separator("rule"), checkbox("autosave")],
                        }),
                    }],
                })),
            },
            dto::ChildWidget { bounds: bounds(0, 40, 50, 60), widget: Box::new(checkbox("loose")) },
        ],
    };
    let (scene, ctx) = desc.build();
    let names = ["bar", "file", "file_menu", "rule", "autosave", "loose"];
    let keys: Vec<_> = names.iter().map(|n| ctx.key(n).unwrap()).collect();
    for (i, k) in keys.iter().enumerate() {
        assert!(scene.get_widget(*k).is_some());
        assert_ne!(*k, scene.tree().content());
        for other in &keys[i + 1..] {
            assert_ne!(k, other);
        }
    }
    assert!(matches!(scene.get_widget(keys[2]), Some(Widget::Menu(_))));
    assert!(matches!(scene.get_widget(keys[3]), Some(Widget::Separator(_))));
    assert_eq!(ctx.key("missing"), None);
}

#[test]
fn destroying_a_window_frees_its_whole_subtree() {
    let desc = dto::Scene {
        size: Vec2i::new(640, 480),
        roots: vec![
            dto::ChildWidget {
                bounds: bounds(10, 10, 210, 160),
                widget: Box::new(dto::Widget::Window(dto::Window {
                    name: Some("win".to_owned()),
                    title: dto::Property::Value("Hello".to_owned()),
                    content: Box::new(dto::Widget::Button(dto::Button {
                        name: Some("button".to_owned()),
                        enabled: None,
                        content: Box::new(dto::Widget::ScrollPanel(dto::ScrollPanel {
                            name: Some("scroll".to_owned()),
                            content_height: 500,
                            content: Box::new(checkbox("inner")),
                        })),
                    })),
                })),
            },
            dto::ChildWidget { bounds: bounds(300, 10, 350, 30), widget: Box::new(checkbox("other")) },
        ],
    };
    let (mut scene, ctx) = desc.build();
    let gone: Vec<_> = ["win", "button", "scroll", "inner"].iter().map(|n| ctx.key(n).unwrap()).collect();
    let other = ctx.key("other").unwrap();
    scene.destroy_widget(gone[0]);
    for k in &gone {
        assert!(scene.get_widget(*k).is_none());
        assert_eq!(scene.parent(*k), None);
    }
    assert!(matches!(scene.get_widget(other), Some(Widget::Checkbox(_))));
    assert!(scene.is_shown(other));
    assert!(scene.get_widget(scene.tree().content()).is_some());
}

#[test]
fn route_bounds_follow_children() {
    let (scene, ctx) = panel_scene();
    let panel = ctx.key("panel").unwrap();
    let check = ctx.key("check").unwrap();
    let root = scene.tree().content();
    let root_bounds = bounds(0, 0, 640, 480);
    let panel_bounds = scene.child_route_bounds(root, panel, root_bounds);
    assert_eq!(panel_bounds, bounds(100, 100, 300, 250));
    assert_eq!(scene.child_route_bounds(panel, check, panel_bounds), bounds(110, 120, 160, 140));
}

#[test]
fn press_outside_popup_dismisses_it() {
    let mut scene = Scene::new(Vec2i::new(640, 480));
    let mut ctx = dto::BuildContext::new();
    let menu = dto::Menu { name: Some("menu".to_owned()), children: vec![separator("row")] }.construct(&mut scene, &mut ctx);
    let row = ctx.key("row").unwrap();
    let other = scene.create_widget(|key| Widget::Separator(Separator::new(key)));
    assert!(!scene.press_dismisses_popup(Some(other)));
    scene.show_popup(menu, bounds(0, 0, 240, 9));
    assert!(scene.press_dismisses_popup(Some(other)));
    assert!(scene.press_dismisses_popup(None));
    assert!(!scene.press_dismisses_popup(Some(menu)));
    assert!(!scene.press_dismisses_popup(Some(row)));
}

#[test]
fn draw_context_scissor_and_child() {
    let ctx = DrawContext {
        viewport: bounds(0, 0, 640, 480),
        clip: bounds(10, 20, 110, 70),
        time: std::time::Instant::now(),
        bounds: bounds(10, 20, 110, 70),
    };
    assert_eq!(ctx.scissor(), bounds(10, 410, 110, 460));
    let child = ctx.child(bounds(50, 10, 150, 40));
    assert_eq!(child.bounds, bounds(60, 30, 160, 60));
    assert_eq!(child.clip, bounds(60, 30, 110, 60));
    assert_eq!(child.viewport, ctx.viewport);
    let hidden = ctx.child(bounds(200, 200, 250, 250));
    assert_eq!(hidden.clip, bounds(0, 0, 0, 0));
    let outside = DrawContext { clip: bounds(700, 0, 800, 10), ..ctx };
    assert_eq!(outside.scissor(), bounds(0, 0, 0, 0));
}

#[test]
fn destroy_widget_frees_the_subtree() {
    let (mut scene, ctx) = panel_scene();
    let panel = ctx.key("panel").unwrap();
    let check = ctx.key("check").unwrap();
    let sep = ctx.key("sep").unwrap();
    scene.capture_pointer(check);
    scene.destroy_widget(panel);
    assert!(scene.get_widget(panel).is_none());
    assert!(scene.get_widget(check).is_none());
    assert!(scene.get_widget(sep).is_none());
    assert_eq!(scene.parent(panel), None);
    assert_eq!(scene.parent(check), None);
    assert_eq!(scene.tree().captured(), None);
    // The root panel still lists the destroyed widget, which is no longer hit.
    assert_eq!(scene.tree().root_children().len(), 1);
    assert_eq!(scene.hit_test(Vec2i::new(120, 130)), Some(scene.tree().content()));
    // Destroying it again leaves the scene alone.
    scene.destroy_widget(panel);
    assert_eq!(scene.tree().root_children().len(), 1);
    assert!(scene.get_widget(scene.tree().content()).is_some());
}

#[test]
fn destroying_the_root_panel_tears_the_scene_down() {
    let (mut scene, ctx) = panel_scene();
    let panel = ctx.key("panel").unwrap();
    let check = ctx.key("check").unwrap();
    let spare = scene.create_widget(|key| Widget::Separator(Separator::new(key)));
    let root = scene.tree().content();
    scene.destroy_widget(root);
    assert!(scene.get_widget(root).is_none());
    assert!(scene.get_widget(panel).is_none());
    assert!(scene.get_widget(check).is_none());
    // A widget that was never shown is not below the root panel and stays.
    assert!(scene.get_widget(spare).is_some());
}

#[test]
fn destroying_popup_owner_closes_its_chain() {
    let mut scene = Scene::new(Vec2i::new(640, 480));
    let mut ctx = dto::BuildContext::new();
    let bar = dto::MenuBar {
        name: Some("bar".to_owned()),
        children: vec![dto::MenuBarItem {
            name: Some("heading".to_owned()),
            label: dto::Property::Value("File".to_owned()),
            enabled: None,
            menu: Box::new(dto::Menu { name: Some("popup".to_owned()), children: vec![separator("row")] }),
        }],
    }
    .construct(&mut scene, &mut ctx);
    scene.show(bar, bounds(0, 0, 640, 32));
    let heading = ctx.key("heading").unwrap();
    let popup = ctx.key("popup").unwrap();
    scene.open_popup(heading, popup, bounds(0, 0, 88, 32));
    scene.apply_popup_request();
    assert!(scene.is_shown(popup));
    scene.destroy_widget(bar);
    assert!(scene.get_widget(heading).is_none());
    assert!(!scene.is_shown(popup));
    assert!(scene.get_widget(popup).is_some());
    assert!(scene.popup_chain().is_empty());
}

#[test]
fn widget_event_reports_checkbox_change() {
    let (mut scene, ctx) = panel_scene();
    let check = ctx.key("check").unwrap();
    let up = shade::event::MouseEvent { kind: left_up(), pointer: Vec2i::new(120, 130) };
    let none = shade::gui::LookedUp { enabled: None, checked: None, selected: None };
    assert!(scene.check_event_fits(check, up, check, bounds(110, 120, 160, 140)));
    let r = scene.widget_event(check, up, check, bounds(110, 120, 160, 140), none);
    assert!(matches!(r, Some(shade::gui::WidgetAction::CheckboxChanged(c)) if c.key == check && c.checked));
    let looked = shade::gui::LookedUp { enabled: None, checked: Some(true), selected: None };
    let r = scene.widget_event(check, up, check, bounds(110, 120, 160, 140), looked);
    // The checkbox holds its checked state directly, so what the state holds is not read.
    assert!(matches!(r, Some(shade::gui::WidgetAction::CheckboxChanged(c)) if c.checked));
    assert!(scene.get_widget(check).is_some());
}

#[test]
fn property_keys_and_cursors() {
    let desc = dto::Scene {
        size: Vec2i::new(640, 480),
        roots: vec![dto::ChildWidget {
            bounds: bounds(0, 0, 100, 30),
            widget: Box::new(dto::Widget::Checkbox(dto::Checkbox {
                name: Some("keyed".to_owned()),
                label: dto::Property::Value("Keyed".to_owned()),
                checked: dto::Property::Key(7),
                enabled: Some(dto::Property::Key(9)),
            })),
        }],
    };
    let (scene, ctx) = desc.build();
    let keyed = ctx.key("keyed").unwrap();
    let keys = scene.property_keys(keyed);
    assert_eq!(keys.checked.map(|k| k.value()), Some(7));
    assert_eq!(keys.enabled.map(|k| k.value()), Some(9));
    assert_eq!(keys.selected, None);
    assert_eq!(scene.widget_cursor(keyed, Some(true)), Some(Cursor::Pointer));
    assert_eq!(scene.widget_cursor(keyed, Some(false)), None);
    assert_eq!(scene.widget_cursor(keyed, None), Some(Cursor::Pointer));
    assert_eq!(scene.widget_cursor(scene.tree().content(), None), Some(Cursor::Default));
}

#[test]
fn event_checks_catch_overflow() {
    let mut scene = Scene::new(Vec2i::new(640, 480));
    let mut ctx = dto::BuildContext::new();
    let win = dto::Window {
        name: Some("win".to_owned()),
        title: dto::Property::Value("W".to_owned()),
        content: Box::new(separator("body")),
    }
    .construct(&mut scene, &mut ctx);
    let press = shade::event::MouseEvent { kind: left_down(), pointer: Vec2i::new(i32::MAX, 0) };
    assert!(!scene.check_event_fits(win, press, win, bounds(-10, 0, 10, 10)));
    assert!(scene.check_event_fits(win, press, win, bounds(10, 0, 20, 10)));
    assert!(scene.check_route(win));
    assert!(scene.check_apply_popup_request());
    assert_eq!(scene.update_pointed(Some(win)), (None, Some(win)));
    assert_eq!(scene.update_pointed(Some(win)), (None, None));
    assert_eq!(scene.update_pointed(None), (Some(win), None));
}

#[test]
fn slider_and_progress_tracks() {
    assert_eq!(slider_track_rect(bounds(10, 20, 110, 40)), bounds(10, 27, 110, 33));
    assert_eq!(progress_track_rect(bounds(10, 20, 110, 40)), bounds(10, 25, 110, 35));
    // A track never gets narrower than one pixel; a short widget centres it above.
    assert_eq!(slider_track_rect(bounds(5, 5, 5, 8)), bounds(5, 4, 6, 10));
    assert_eq!(knob_position(Vec2i::new(60, 30), bounds(10, 20, 110, 40)), KnobPosition { offset: 45, travel: 90 });
    assert_eq!(knob_position(Vec2i::new(0, 30), bounds(10, 20, 110, 40)), KnobPosition { offset: 0, travel: 90 });
    assert_eq!(knob_position(Vec2i::new(500, 30), bounds(10, 20, 110, 40)), KnobPosition { offset: 90, travel: 90 });
    assert_eq!(knob_position(Vec2i::new(12, 30), bounds(10, 20, 18, 40)), KnobPosition { offset: 0, travel: -2 });
}

#[test]
fn slider_drags_with_capture() {
    let mut slots: SlotMap<u8> = SlotMap::new();
    let root = slots.allocate();
    let key = slots.allocate();
    let other = slots.allocate();
    let mut tree = SceneTree::new(Vec2i::new(640, 480), root);
    let mut slider = SliderControl::new(key, Property::Value(true));
    let area = bounds(10, 20, 110, 40);
    let moved = slider.event(left_down(), Vec2i::new(60, 30), key, area, None, &mut tree);
    assert_eq!(moved, Some(SliderMoved { key, knob: KnobPosition { offset: 45, travel: 90 } }));
    assert!(slider.dragging());
    assert_eq!(tree.captured(), Some(key));
    let moved = slider.event(MouseEventKind::Move, Vec2i::new(80, 30), key, area, None, &mut tree);
    assert_eq!(moved, Some(SliderMoved { key, knob: KnobPosition { offset: 65, travel: 90 } }));
    // Releasing away from the slider ends the drag without a value.
    let moved = slider.event(left_up(), Vec2i::new(300, 300), other, area, None, &mut tree);
    assert_eq!(moved, None);
    assert!(!slider.dragging());
    assert_eq!(tree.captured(), None);
    // A disabled slider reports nothing.
    let mut disabled = SliderControl::new(key, Property::Value(false));
    assert_eq!(disabled.event(left_down(), Vec2i::new(60, 30), key, area, None, &mut tree), None);
    assert_eq!(disabled.cursor(None), None);
}

#[test]
fn layout_widget_lays_out_each_kind() {
    let mut scene = Scene::new(Vec2i::new(640, 480));
    let mut ctx = dto::BuildContext::new();
    let menu = dto::Menu {
        name: Some("menu".to_owned()),
        children: vec![
            dto::Widget::MenuItem(dto::MenuItem { name: Some("a".to_owned()), label: dto::Property::Value("A".to_owned()), enabled: None, submenu: None }),
            separator("line"),
            dto::Widget::MenuItem(dto::MenuItem { name: Some("b".to_owned()), label: dto::Property::Value("B".to_owned()), enabled: None, submenu: None }),
        ],
    }
    .construct(&mut scene, &mut ctx);
    let a = ctx.key("a").unwrap();
    let line = ctx.key("line").unwrap();
    let b = ctx.key("b").unwrap();
    assert!(scene.check_layout_fits(menu, bounds(0, 0, 240, 73), None));
    scene.layout_widget(menu, bounds(0, 0, 240, 73), None);
    assert_eq!(
        scene.children_of_widget(menu),
        vec![
            ChildWidget::new(bounds(0, 0, 240, 32), a),
            ChildWidget::new(bounds(0, 32, 240, 41), line),
            ChildWidget::new(bounds(0, 41, 240, 73), b),
        ]
    );

    let win = dto::Window { name: Some("win".to_owned()), title: dto::Property::Value("T".to_owned()), content: Box::new(separator("body")) }
        .construct(&mut scene, &mut ctx);
    let body = ctx.key("body").unwrap();
    assert!(!scene.check_layout_fits(win, bounds(0, 0, 300, 200), None));
    assert!(scene.check_layout_fits(win, bounds(0, 0, 300, 200), Some((100, 22))));
    scene.layout_widget(win, bounds(0, 0, 300, 200), Some((100, 22)));
    assert_eq!(scene.children_of_widget(win), vec![ChildWidget::new(bounds(0, 42, 300, 200), body)]);
    assert!(scene.get_widget(win).unwrap().draggable());
    assert!(!scene.get_widget(menu).unwrap().draggable());

    if let Some(Widget::Window(w)) = scene.get_widget_mut(win) {
        w.layout(10, 10, bounds(0, 0, 50, 50));
    }
    assert_eq!(scene.children_of_widget(win), vec![ChildWidget::new(bounds(0, 40, 50, 50), body)]);
}

#[test]
fn with_widget_puts_back_what_the_closure_left() {
    let desc = dto::Scene {
        size: Vec2i::new(640, 480),
        roots: vec![dto::ChildWidget {
            bounds: bounds(10, 10, 310, 210),
            widget: Box::new(dto::Widget::Window(dto::Window {
                name: Some("win".to_owned()),
                title: dto::Property::Value("Hello".to_owned()),
                content: Box::new(checkbox("inner")),
            })),
        }],
    };
    let (mut scene, ctx) = desc.build();
    let win = ctx.key("win").unwrap();
    let size = scene.with_widget(win, |w: &mut Widget, s: &mut Scene| {
        assert!(s.get_widget(win).is_none());
        if let Widget::Window(window) = w {
            window.layout(100, 22, bounds(10, 10, 310, 210));
        }
        s.size()
    });
    assert_eq!(size, Vec2i::new(640, 480));
    match scene.get_widget(win) {
        Some(Widget::Window(window)) => assert_eq!(window.header_height(), 42),
        _ => panic!("expected the window back in its slot"),
    }
}
