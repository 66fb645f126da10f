use shade::event::{Cursor, MouseButton, MouseEventKind};
use shade::geom::{Bounds2i, Vec2i};
use shade::props::{OwnedProp, PropKey, Property};
use shade::scene::{ChildWidget, PopupRequest, SceneTree};
use shade::slotmap::{SlotKey, SlotMap};
use shade::widgets::{
    contain_bounds, menu_height, Button, ButtonClicked, ButtonState, Checkbox, CheckboxChanged, Menu, MenuBar, MenuBarItem,
    MenuItem, MenuItemClicked, Panel, RadioButton, Separator, MENU_BAR_ITEM_WIDTH,
};

fn keys(n: usize) -> Vec<SlotKey> {
    let mut map: SlotMap<()> = SlotMap::new();
    (0..n).map(|_| map.allocate()).collect()
}

fn left_down() -> MouseEventKind {
    MouseEventKind::ButtonDown { button: MouseButton::left() }
}

fn left_up() -> MouseEventKind {
    MouseEventKind::ButtonUp { button: MouseButton::left() }
}

fn bounds(x0: i32, y0: i32, x1: i32, y1: i32) -> Bounds2i {
    Bounds2i::from_coords(x0, y0, x1, y1)
}

#[test]
fn button_press_then_release_clicks() {
    let k = keys(2);
    let mut button = Button::new(k[0], k[1], Property::Value(true));
    assert_eq!(button.event(MouseEventKind::Enter, k[0], None), None);
    assert_eq!(button.state(), ButtonState::Hover);
    assert_eq!(button.event(left_down(), k[1], None), None);
    assert_eq!(button.state(), ButtonState::Pressed);
    assert_eq!(button.event(left_up(), k[0], None), Some(ButtonClicked { key: k[0] }));
    assert_eq!(button.state(), ButtonState::Hover);
}

#[test]
fn button_release_elsewhere_does_not_click() {
    let k = keys(3);
    let mut button = Button::new(k[0], k[1], Property::Value(true));
    button.event(left_down(), k[0], None);
    assert_eq!(button.event(left_up(), k[2], None), None);
    assert_eq!(button.state(), ButtonState::Normal);
}

#[test]
fn button_disabled_by_property_stays_normal() {
    let k = keys(2);
    let mut button = Button::new(k[0], k[1], Property::Key(PropKey(4)));
    assert_eq!(button.event(left_down(), k[0], Some(false)), None);
    assert_eq!(button.state(), ButtonState::Normal);
    assert_eq!(button.cursor(Some(false)), None);
    assert_eq!(button.cursor(None), Some(Cursor::Pointer));
}

#[test]
fn button_enter_keeps_pressed_state() {
    let k = keys(2);
    let mut button = Button::new(k[0], k[1], Property::Value(true));
    button.event(left_down(), k[0], None);
    button.event(MouseEventKind::Leave, k[0], None);
    assert_eq!(button.state(), ButtonState::Normal);
    button.event(left_down(), k[0], None);
    button.event(MouseEventKind::Enter, k[0], None);
    assert_eq!(button.state(), ButtonState::Pressed);
    button.event(MouseEventKind::Move, k[1], None);
    assert_eq!(button.state(), ButtonState::Pressed);
}

#[test]
fn button_layout_fills_its_bounds() {
    let k = keys(2);
    let mut button = Button::new(k[0], k[1], Property::Value(true));
    button.layout(bounds(10, 20, 110, 50));
    assert_eq!(button.content(), ChildWidget::new(bounds(0, 0, 100, 30), k[1]));
}

#[test]
fn checkbox_click_asks_for_the_opposite_state() {
    let k = keys(1);
    let mut checkbox = Checkbox::new(k[0], OwnedProp::Static("check"), Property::Key(PropKey(1)), Property::Value(true));
    assert_eq!(checkbox.event(MouseEventKind::Move, k[0], None, Some(true)), None);
    assert!(checkbox.hover());
    assert_eq!(checkbox.event(left_up(), k[0], None, Some(true)), Some(CheckboxChanged { key: k[0], checked: false }));
    assert_eq!(checkbox.event(left_up(), k[0], None, None), Some(CheckboxChanged { key: k[0], checked: true }));
}

#[test]
fn checkbox_disabled_ignores_clicks() {
    let k = keys(1);
    let mut checkbox = Checkbox::new(k[0], OwnedProp::Owned("x".to_owned()), Property::Value(false), Property::Value(false));
    assert_eq!(checkbox.event(left_up(), k[0], None, None), None);
    assert!(!checkbox.hover());
}

#[test]
fn radio_button_selects_only_when_not_checked() {
    let k = keys(1);
    let mut radio = RadioButton::new(k[0], OwnedProp::Static("b"), Property::Key(PropKey(2)), 1, Property::Value(true));
    assert!(radio.checked(Some(1)));
    assert!(!radio.checked(Some(0)));
    assert!(!radio.checked(None));
    assert_eq!(radio.event(left_up(), k[0], None, Some(1)), None);
    let changed = radio.event(left_up(), k[0], None, Some(0)).unwrap();
    assert_eq!(changed.key, k[0]);
    assert_eq!(changed.selected, 1);
    assert_eq!(changed.property, Property::Key(PropKey(2)));
}

#[test]
fn menu_item_with_submenu_opens_it_on_enter() {
    let k = keys(4);
    let (content, menu, item, submenu) = (k[0], k[1], k[2], k[3]);
    let mut scene = SceneTree::new(Vec2i::new(640, 480), content);
    scene.set_parent(item, menu);
    let mut entry = MenuItem::new(item, OwnedProp::Static("Open"), Property::Value(true), Some(submenu));
    let b = bounds(0, 0, 240, 32);
    assert_eq!(entry.event(MouseEventKind::Enter, item, b, None, &mut scene), None);
    assert!(entry.hover());
    assert_eq!(scene.requested_menu(), Some(submenu));
    assert_eq!(entry.event(left_up(), item, b, None, &mut scene), None);
    assert_eq!(scene.requested_menu(), Some(submenu));
}

#[test]
fn menu_item_without_submenu_closes_siblings_and_clicks() {
    let k = keys(3);
    let (content, menu, item) = (k[0], k[1], k[2]);
    let mut scene = SceneTree::new(Vec2i::new(640, 480), content);
    scene.set_parent(item, menu);
    let mut entry = MenuItem::new(item, OwnedProp::Static("Quit"), Property::Value(true), None);
    let b = bounds(0, 0, 240, 32);
    entry.event(MouseEventKind::Enter, item, b, None, &mut scene);
    scene.apply_popup_request(None);
    assert_eq!(entry.event(left_up(), item, b, None, &mut scene), Some(MenuItemClicked { key: item }));
    assert!(!entry.hover());
    assert_eq!(scene.requested_menu(), None);
}

#[test]
fn menu_bar_item_toggles_its_menu() {
    let k = keys(4);
    let (content, bar, heading, popup) = (k[0], k[1], k[2], k[3]);
    let mut scene = SceneTree::new(Vec2i::new(640, 480), content);
    scene.set_parent(heading, bar);
    let mut item = MenuBarItem::new(heading, OwnedProp::Static("File"), Property::Value(true), popup);
    let b = bounds(0, 0, 88, 32);
    item.event(left_down(), heading, b, None, &mut scene);
    assert_eq!(scene.requested_menu(), Some(popup));
    scene.apply_popup_request(Some(64));
    assert!(scene.popup_owned_by(heading));
    assert!(scene.is_shown(popup));
    item.event(left_down(), heading, b, None, &mut scene);
    scene.apply_popup_request(Some(64));
    assert!(!scene.is_shown(popup));
    assert!(!scene.popup_owned_by(heading));
}

#[test]
fn menu_pointing_at_itself_truncates_after_it() {
    let k = keys(2);
    let (content, menu_key) = (k[0], k[1]);
    let mut scene = SceneTree::new(Vec2i::new(640, 480), content);
    let menu = Menu::new(menu_key, Vec::new(), &Vec::new());
    menu.event(MouseEventKind::Move, menu_key, &mut scene);
    assert_eq!(scene.requested_menu(), None);
    menu.event(MouseEventKind::Move, content, &mut scene);
    menu.event(MouseEventKind::Leave, menu_key, &mut scene);
    scene.apply_popup_request(None);
    assert_eq!(scene.requested_menu(), None);
    let _ = PopupRequest::Truncate { after: Some(menu_key) };
}

#[test]
fn menu_layout_stacks_rows() {
    let k = keys(4);
    let children = vec![
        ChildWidget::new(Bounds2i::zero(), k[1]),
        ChildWidget::new(Bounds2i::zero(), k[2]),
        ChildWidget::new(Bounds2i::zero(), k[3]),
    ];
    let separators = vec![false, true, false];
    assert_eq!(menu_height(&separators), 73);
    let mut menu = Menu::new(k[0], children, &separators);
    assert_eq!(menu.height(), 73);
    menu.layout(&separators);
    let rows = menu.children();
    assert_eq!(rows[0].bounds, bounds(0, 0, 240, 32));
    assert_eq!(rows[1].bounds, bounds(0, 32, 240, 41));
    assert_eq!(rows[2].bounds, bounds(0, 41, 240, 73));
    assert_eq!(rows[2].key, k[3]);
}

#[test]
fn menu_bar_layout_places_items_side_by_side() {
    let k = keys(3);
    let mut bar = MenuBar::new(k[0], vec![ChildWidget::new(Bounds2i::zero(), k[1]), ChildWidget::new(Bounds2i::zero(), k[2])]);
    bar.layout(32);
    assert_eq!(bar.children()[0].bounds, bounds(0, 0, MENU_BAR_ITEM_WIDTH, 32));
    assert_eq!(bar.children()[1].bounds, bounds(88, 0, 176, 32));
}

#[test]
fn separator_is_not_hittable() {
    let k = keys(1);
    assert!(!Separator::new(k[0]).hittable());
}

#[test]
fn panel_hit_test_finds_the_front_child() {
    let k = keys(3);
    let panel = Panel::new(k[0], vec![ChildWidget::new(bounds(0, 0, 100, 100), k[1]), ChildWidget::new(bounds(50, 50, 150, 150), k[2])]);
    assert_eq!(panel.hit_test(Vec2i::new(60, 60)).map(|c| c.key), Some(k[2]));
    assert_eq!(panel.hit_test(Vec2i::new(10, 10)).map(|c| c.key), Some(k[1]));
    assert_eq!(panel.hit_test(Vec2i::new(100, 100)).map(|c| c.key), Some(k[2]));
    assert_eq!(panel.hit_test(Vec2i::new(200, 10)), None);
    assert!(Panel::empty(k[0]).hit_test(Vec2i::new(0, 0)).is_none());
}

#[test]
fn contain_bounds_keeps_children_inside() {
    let container = bounds(0, 0, 640, 480);
    assert_eq!(contain_bounds(bounds(-10, 5, 90, 55), container), bounds(0, 5, 100, 55));
    assert_eq!(contain_bounds(bounds(600, 470, 700, 500), container), bounds(540, 450, 640, 480));
    assert_eq!(contain_bounds(bounds(10, 10, 20, 20), container), bounds(10, 10, 20, 20));
    assert_eq!(contain_bounds(bounds(100, 100, 900, 200), container), bounds(0, 100, 800, 200));
}

#[test]
fn property_resolution() {
    let key = PropKey(9);
    assert_eq!(key.value(), 9);
    let by_key: Property<i32> = Property::Key(key);
    assert_eq!(by_key.copied(Some(3)), Some(3));
    assert_eq!(by_key.copied(None), None);
    assert_eq!(by_key.copied_or(None, 7), 7);
    assert_eq!(by_key.key(), Some(key));
    let direct: Property<i32> = Property::Value(5);
    assert_eq!(direct.copied(Some(3)), Some(5));
    assert_eq!(direct.key(), None);
    assert_eq!(OwnedProp::Owned("abc".to_owned()).text(), Some("abc"));
    assert_eq!(OwnedProp::Key(key).text(), None);
    assert_eq!(OwnedProp::Static("s").text(), Some("s"));
}
