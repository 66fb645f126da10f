use shade::dispatch::DispatchAction::{self, Continue, Deliver, Done};
use shade::dto;
use shade::event::{MouseButton, MouseEvent, MouseEventKind};
use shade::geom::{Bounds2i, Vec2i};
use shade::gui::{Scene, Widget};
use shade::scene::ChildWidget;
use shade::widgets::{Panel, MENU_BAR_HEIGHT};

fn bounds(x0: i32, y0: i32, x1: i32, y1: i32) -> Bounds2i {
    Bounds2i::from_coords(x0, y0, x1, y1)
}

fn menu_item(name: &str, label: &str, submenu: Option<dto::Menu>) -> dto::Widget {
    dto::Widget::MenuItem(dto::MenuItem {
        name: Some(name.to_owned()),
        label: dto::Property::Value(label.to_owned()),
        enabled: None,
        submenu: submenu.map(Box::new),
    })
}

#[test]
fn popup_chain_shows_and_hides_retained_submenus() {
    let mut scene = Scene::new(Vec2i::new(640, 480));
    let mut ctx = dto::BuildContext::new();
    let root = dto::Menu {
        name: Some("root".to_owned()),
        children: vec![menu_item(
            "parent_item",
            "Parent",
            Some(dto::Menu { name: Some("submenu".to_owned()), children: vec![menu_item("leaf", "Leaf", None)] }),
        )],
    }
    .construct(&mut scene, &mut ctx);
    let item = ctx.key("parent_item").unwrap();
    let submenu = ctx.key("submenu").unwrap();

    scene.show_popup(root, bounds(20, 20, 260, 52));
    assert!(scene.is_shown(root));
    assert!(!scene.is_shown(submenu));

    scene.open_popup(item, submenu, bounds(20, 20, 260, 52));
    scene.apply_popup_request();
    assert!(scene.is_shown(root));
    assert!(scene.is_shown(submenu));
    assert_eq!(scene.popup_chain(), vec![root, submenu]);

    scene.close_popup(Some(root));
    scene.apply_popup_request();
    assert!(scene.is_shown(root));
    assert!(!scene.is_shown(submenu));
    assert!(scene.get_widget(submenu).is_some());

    scene.close_popup(None);
    scene.apply_popup_request();
    assert!(!scene.is_shown(root));
    assert!(scene.get_widget(root).is_some());
    assert!(scene.get_widget(submenu).is_some());
}

#[test]
fn popup_owner_can_be_nested_in_an_arbitrary_widget() {
    let mut scene = Scene::new(Vec2i::new(640, 480));
    let mut ctx = dto::BuildContext::new();
    let bar = dto::MenuBar {
        name: Some("bar".to_owned()),
        children: vec![dto::MenuBarItem {
            name: Some("heading".to_owned()),
            label: dto::Property::Value("File".to_owned()),
            enabled: None,
            menu: Box::new(dto::Menu { name: Some("popup".to_owned()), children: vec![menu_item("action", "New", None)] }),
        }],
    }
    .construct(&mut scene, &mut ctx);
    let container = scene.create_widget(|key| {
        Widget::Panel(Panel::new(key, vec![ChildWidget::new(bounds(0, 0, 300, MENU_BAR_HEIGHT), bar)]))
    });
    scene.show(container, bounds(50, 60, 350, 160));

    let heading = ctx.key("heading").unwrap();
    let popup = ctx.key("popup").unwrap();
    scene.open_popup(heading, popup, bounds(50, 60, 138, 92));
    scene.apply_popup_request();

    assert!(scene.is_shown(popup));
    assert!(scene.popup_owned_by(heading));

    scene.hide_popup();
    assert!(!scene.is_shown(popup));
    assert!(scene.get_widget(popup).is_some());
}

use shade::geom::Bounds2i as Rect;
use shade::scene::{dropdown_placement, submenu_placement, SceneTree};
use shade::slotmap::SlotMap;

#[test]
fn submenu_opens_beside_its_item_and_flips_at_the_edge() {
    let size = Vec2i::new(640, 480);
    assert_eq!(submenu_placement(bounds(20, 20, 260, 52), size, 64), bounds(259, 20, 499, 84));
    assert_eq!(submenu_placement(bounds(400, 20, 640, 52), size, 64), bounds(161, 20, 401, 84));
    assert_eq!(submenu_placement(bounds(20, 460, 260, 492), size, 64), bounds(259, 416, 499, 480));
}

#[test]
fn dropdown_opens_below_its_anchor_and_flips_at_the_bottom() {
    let size = Vec2i::new(640, 480);
    assert_eq!(dropdown_placement(bounds(50, 60, 138, 92), size, 32), bounds(50, 91, 290, 123));
    assert_eq!(dropdown_placement(bounds(50, 440, 138, 472), size, 64), bounds(50, 377, 290, 441));
    assert_eq!(dropdown_placement(bounds(600, 60, 688, 92), size, 32), bounds(400, 91, 640, 123));
}

#[test]
fn reopening_the_open_submenu_changes_nothing() {
    let mut map: SlotMap<()> = SlotMap::new();
    let (content, root, item, sub) = (map.allocate(), map.allocate(), map.allocate(), map.allocate());
    let mut tree = SceneTree::new(Vec2i::new(640, 480), content);
    tree.set_parent(item, root);
    tree.show_popup(root, bounds(0, 0, 240, 32));
    tree.open_popup(item, sub, bounds(0, 0, 240, 32));
    tree.apply_popup_request(Some(32));
    assert_eq!(tree.popup_chain(), &vec![root, sub]);
    let children = tree.root_children().len();
    tree.open_popup(item, sub, bounds(0, 0, 240, 32));
    tree.apply_popup_request(Some(32));
    assert_eq!(tree.popup_chain(), &vec![root, sub]);
    assert_eq!(tree.root_children().len(), children);
    let _: Option<Rect> = None;
}

#[test]
fn closing_after_an_unknown_menu_keeps_the_chain() {
    let mut map: SlotMap<()> = SlotMap::new();
    let (content, root, other) = (map.allocate(), map.allocate(), map.allocate());
    let mut tree = SceneTree::new(Vec2i::new(640, 480), content);
    tree.show_popup(root, bounds(0, 0, 240, 32));
    tree.close_popup(Some(other));
    tree.apply_popup_request(None);
    assert_eq!(tree.popup_chain(), &vec![root]);
    assert!(tree.is_shown(root));
    tree.hide_popup();
    assert!(tree.popup_chain().is_empty());
    assert!(!tree.is_shown(root));
}

#[test]
fn open_request_for_a_non_menu_is_dropped() {
    let mut scene = Scene::new(Vec2i::new(640, 480));
    let mut ctx = dto::BuildContext::new();
    let sep = dto::Separator { name: Some("sep".to_owned()) }.construct(&mut scene, &mut ctx);
    let anchor = dto::Separator { name: None }.construct(&mut scene, &mut ctx);
    assert_eq!(ctx.key("sep"), Some(sep));
    scene.open_popup(anchor, sep, bounds(0, 0, 10, 10));
    assert_eq!(scene.menu_height(sep), None);
    scene.apply_popup_request();
    assert!(!scene.is_shown(sep));
    assert!(scene.popup_chain().is_empty());
}

#[test]
fn constructed_menu_height_counts_rows() {
    let mut scene = Scene::new(Vec2i::new(640, 480));
    let mut ctx = dto::BuildContext::new();
    let menu = dto::Menu {
        name: Some("m".to_owned()),
        children: vec![
            menu_item("a", "A", None),
            dto::Widget::Separator(dto::Separator { name: None }),
            menu_item("b", "B", None),
        ],
    }
    .construct(&mut scene, &mut ctx);
    assert_eq!(scene.menu_height(menu), Some(73));
    let a = ctx.key("a").unwrap();
    let b = ctx.key("b").unwrap();
    assert_eq!(scene.parent(a), Some(menu));
    assert_eq!(scene.parent(b), Some(menu));
    assert_eq!(scene.parent(menu), None);
    assert!(scene.get_widget(menu).is_some());
}

fn run_dispatch(scene: &mut Scene, mouse: MouseEvent) -> Vec<DispatchAction> {
    let mut d = scene.start_mouse_dispatch(mouse);
    let mut actions = Vec::new();
    loop {
        let a = scene.dispatch_step(&mut d);
        actions.push(a);
        if a == Done || a == DispatchAction::PopupRejected {
            return actions;
        }
    }
}

#[test]
fn mouse_dispatch_points_then_delivers_to_the_hovered_widget() {
    let mut scene = Scene::new(Vec2i::new(640, 480));
    let mut ctx = dto::BuildContext::new();
    let menu = dto::Menu { name: Some("menu".to_owned()), children: vec![menu_item("item", "Item", None)] }.construct(&mut scene, &mut ctx);
    scene.show(menu, bounds(0, 0, 240, 32));
    let item = ctx.key("item").unwrap();
    let moved = MouseEvent { kind: MouseEventKind::Move, pointer: Vec2i::new(10, 10) };
    let hovered = scene.hit_test(moved.pointer);
    assert_eq!(
        run_dispatch(&mut scene, moved),
        vec![
            Continue,
            Continue,
            Deliver { target: hovered.unwrap(), mouse: MouseEvent { kind: MouseEventKind::Enter, pointer: Vec2i::new(10, 10) } },
            Deliver { target: hovered.unwrap(), mouse: moved },
            Done,
        ]
    );
    assert_eq!(scene.tree().pointed(), hovered);
    let _ = item;

    let away = MouseEvent { kind: MouseEventKind::Move, pointer: Vec2i::new(400, 400) };
    let actions = run_dispatch(&mut scene, away);
    assert_eq!(actions[2], Deliver { target: hovered.unwrap(), mouse: MouseEvent { kind: MouseEventKind::Leave, pointer: Vec2i::new(400, 400) } });
    let press = MouseEvent { kind: MouseEventKind::ButtonDown { button: MouseButton::left() }, pointer: Vec2i::new(400, 400) };
    assert_eq!(*run_dispatch(&mut scene, press).last().unwrap(), Done);
}

#[test]
fn press_away_from_popup_closes_it_before_routing() {
    let mut scene = Scene::new(Vec2i::new(640, 480));
    let mut ctx = dto::BuildContext::new();
    let menu = dto::Menu { name: Some("menu".to_owned()), children: vec![menu_item("item", "Item", None)] }.construct(&mut scene, &mut ctx);
    scene.show_popup(menu, bounds(20, 20, 260, 52));
    assert!(scene.is_shown(menu));
    let press = MouseEvent { kind: MouseEventKind::ButtonDown { button: MouseButton::left() }, pointer: Vec2i::new(500, 400) };
    let actions = run_dispatch(&mut scene, press);
    assert!(!scene.is_shown(menu));
    assert_eq!(scene.popup_chain(), vec![]);
    assert_eq!(*actions.last().unwrap(), DispatchAction::Done);
}

#[test]
fn built_menu_tree_links_rows_and_submenus() {
    let mut scene = Scene::new(Vec2i::new(640, 480));
    let mut ctx = dto::BuildContext::new();
    let root = dto::Menu {
        name: Some("root".to_owned()),
        children: vec![menu_item(
            "parent_item",
            "Parent",
            Some(dto::Menu { name: Some("submenu".to_owned()), children: vec![menu_item("leaf", "Leaf", None)] }),
        )],
    }
    .construct(&mut scene, &mut ctx);
    let item = ctx.key("parent_item").unwrap();
    let submenu = ctx.key("submenu").unwrap();
    let leaf = ctx.key("leaf").unwrap();
    assert_eq!(ctx.key("root"), Some(root));
    assert_eq!(scene.parent(root), None);
    assert_eq!(scene.parent(item), Some(root));
    assert_eq!(scene.parent(submenu), None);
    assert_eq!(scene.parent(leaf), Some(submenu));
    assert_eq!(scene.children_of_widget(root).iter().map(|c| c.key).collect::<Vec<_>>(), vec![item]);
    assert_eq!(scene.children_of_widget(submenu).iter().map(|c| c.key).collect::<Vec<_>>(), vec![leaf]);
    match scene.get_widget(item) {
        Some(Widget::MenuItem(w)) => {
            assert_eq!(w.submenu(), Some(submenu));
            assert_eq!(w.key(), item);
        },
        _ => panic!("parent_item is not a menu item"),
    }
    assert!(matches!(scene.get_widget(submenu), Some(Widget::Menu(_))));
    assert!(!scene.is_shown(submenu));
}
