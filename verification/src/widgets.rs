//! Widgets of the retained GUI: their state and the rules by which they react to
//! mouse input.
//!
//! A widget's properties may be held by the application state under a key; the
//! caller looks such a value up and hands it to the widget (`None` when the
//! application state holds nothing under the key).
use vstd::prelude::*;

use crate::event::{Cursor, MouseEventKind};
use crate::geom::{fits_i32, rect, spec_max, Bounds2i, Vec2i};
use crate::props::{OwnedProp, Property};
use crate::scene::{child_position, position_of, ChildWidget, PopupRequest, SceneTree};
use crate::slotmap::SlotKey;

verus! {

/// Fixed menu item height until widgets gain preferred sizes.
pub const MENU_ITEM_HEIGHT: i32 = 32;

/// Fixed separator height until widgets gain preferred sizes.
pub const SEPARATOR_HEIGHT: i32 = 9;

/// Fixed menu bar height until widgets gain preferred sizes.
pub const MENU_BAR_HEIGHT: i32 = 32;

/// Fixed menu bar item width until widgets gain preferred sizes.
pub const MENU_BAR_ITEM_WIDTH: i32 = 88;

/// A boolean property resolved against what the application state holds, with a default.
pub open spec fn resolved_or(p: Property<bool>, looked_up: Option<bool>, default: bool) -> bool {
    match p.resolved(looked_up) {
        Some(v) => v,
        None => default,
    }
}

/// Event emitted when a [`Button`] is clicked.
#[derive(Copy, Clone, Debug, PartialEq, Eq, Structural)]
pub struct ButtonClicked {
    /// Key of the button that was clicked.
    pub key: SlotKey,
}

/// Visual state of a button.
#[derive(Copy, Clone, Debug, PartialEq, Eq, Structural)]
pub enum ButtonState {
    Normal,
    Hover,
    Pressed,
}

/// The state a button moves to on a mouse event, with `hover` telling whether the
/// event targets the button or its content.
pub open spec fn next_button_state(state: ButtonState, hover: bool, kind: MouseEventKind) -> ButtonState {
    let was_pressed = state == ButtonState::Pressed;
    if kind == MouseEventKind::Enter {
        if was_pressed { ButtonState::Pressed } else { ButtonState::Hover }
    } else if kind == MouseEventKind::Leave {
        ButtonState::Normal
    } else if kind.is_left_down() && hover {
        ButtonState::Pressed
    } else if kind.is_left_up() {
        if hover { ButtonState::Hover } else { ButtonState::Normal }
    } else if kind == MouseEventKind::Move {
        if was_pressed && hover {
            ButtonState::Pressed
        } else if hover {
            ButtonState::Hover
        } else {
            ButtonState::Normal
        }
    } else if !hover {
        ButtonState::Normal
    } else if !was_pressed {
        ButtonState::Hover
    } else {
        state
    }
}

/// Clickable button widget.
pub struct Button {
    key: SlotKey,
    content: ChildWidget,
    enabled: Property<bool>,
    state: ButtonState,
}

impl Button {
    pub closed spec fn spec_key(&self) -> SlotKey {
        self.key
    }

    pub closed spec fn spec_content(&self) -> ChildWidget {
        self.content
    }

    pub closed spec fn spec_enabled(&self) -> Property<bool> {
        self.enabled
    }

    pub closed spec fn spec_state(&self) -> ButtonState {
        self.state
    }

    /// Creates a button around `content`, in its normal state.
    pub fn new(key: SlotKey, content: SlotKey, enabled: Property<bool>) -> (r: Button)
        ensures
            r.spec_key() == key,
            r.spec_content() == (ChildWidget { bounds: rect(0, 0, 0, 0), key: content }),
            r.spec_enabled() == enabled,
            r.spec_state() == ButtonState::Normal,
    {
        Button { key, content: ChildWidget::new(Bounds2i::zero(), content), enabled, state: ButtonState::Normal }
    }

    /// Returns the key of the button.
    pub fn key(&self) -> (r: SlotKey)
        ensures
            r == self.spec_key(),
    {
        self.key
    }

    /// Returns the button's `enabled` property.
    pub fn enabled_property(&self) -> (r: Property<bool>)
        ensures
            r == self.spec_enabled(),
    {
        self.enabled
    }

    /// Returns the visual state of the button.
    pub fn state(&self) -> (r: ButtonState)
        ensures
            r == self.spec_state(),
    {
        self.state
    }

    /// Returns the child widget shown inside the button.
    pub fn content(&self) -> (r: ChildWidget)
        ensures
            r == self.spec_content(),
    {
        self.content
    }

    /// Whether the button reacts to input (enabled unless the property says otherwise).
    pub fn is_enabled(&self, looked_up: Option<bool>) -> (r: bool)
        ensures
            r == resolved_or(self.spec_enabled(), looked_up, true),
    {
        self.enabled.copied_or(looked_up, true)
    }

    /// The cursor over the button: a pointer when it is enabled.
    pub fn cursor(&self, looked_up: Option<bool>) -> (r: Option<Cursor>)
        ensures
            r == if resolved_or(self.spec_enabled(), looked_up, true) { Some(Cursor::Pointer) } else { None },
    {
        if self.is_enabled(looked_up) {
            Some(Cursor::Pointer)
        } else {
            None
        }
    }

    /// `self` is `old` laid out at `bounds`: the content covers the whole button.
    pub open spec fn laid_out(&self, old: Button, bounds: Bounds2i) -> bool {
        &&& self.spec_content().bounds == (Bounds2i {
            mins: Vec2i { x: 0, y: 0 },
            maxs: Vec2i { x: bounds.spec_width() as i32, y: bounds.spec_height() as i32 },
        })
        &&& self.spec_content().key == old.spec_content().key
        &&& self.spec_key() == old.spec_key()
        &&& self.spec_enabled() == old.spec_enabled()
        &&& self.spec_state() == old.spec_state()
    }

    /// Lays the content out over the whole button, whose bounds are `bounds`.
    pub fn layout(&mut self, bounds: Bounds2i)
        requires
            bounds.size_fits(),
        ensures
            final(self).laid_out(*old(self), bounds),
    {
        self.content.bounds = Bounds2i::vec(bounds.size());
    }

    /// `self` is `old` after handling a mouse event, which reported `r`.
    pub open spec fn event_applied(&self, old: Button, kind: MouseEventKind, target: SlotKey, looked_up: Option<bool>, r: Option<ButtonClicked>) -> bool {
        &&& ({
            let enabled = resolved_or(old.spec_enabled(), looked_up, true);
            let hover = target == old.spec_key() || target == old.spec_content().key;
            let was_pressed = old.spec_state() == ButtonState::Pressed;
            &&& self.spec_state() == if enabled {
                next_button_state(old.spec_state(), hover, kind)
            } else {
                ButtonState::Normal
            }
            &&& r == if enabled && kind.is_left_up() && was_pressed && hover {
                Some(ButtonClicked { key: old.spec_key() })
            } else {
                None
            }
        })
        &&& self.spec_key() == old.spec_key()
        &&& self.spec_content() == old.spec_content()
        &&& self.spec_enabled() == old.spec_enabled()
    }

    /// Reacts to a mouse event aimed at `target`; `looked_up` is what the application
    /// state holds for the `enabled` property. Returns the click, if the event
    /// completes one.
    pub fn event(&mut self, kind: MouseEventKind, target: SlotKey, looked_up: Option<bool>) -> (r: Option<ButtonClicked>)
        ensures
            final(self).event_applied(*old(self), kind, target, looked_up, r),
    {
        let hover = target == self.key || target == self.content.key;
        let was_pressed = self.state == ButtonState::Pressed;
        if !self.is_enabled(looked_up) {
            self.state = ButtonState::Normal;
            return None;
        }
        let mut clicked = None;
        match kind {
            MouseEventKind::Enter => {
                self.state = if was_pressed { ButtonState::Pressed } else { ButtonState::Hover };
            },
            MouseEventKind::Leave => {
                self.state = ButtonState::Normal;
            },
            MouseEventKind::ButtonDown { button } if button.0 == 0 && hover => {
                self.state = ButtonState::Pressed;
            },
            MouseEventKind::ButtonUp { button } if button.0 == 0 => {
                if was_pressed && hover {
                    clicked = Some(ButtonClicked { key: self.key });
                }
                self.state = if hover { ButtonState::Hover } else { ButtonState::Normal };
            },
            MouseEventKind::Move => {
                self.state = if was_pressed && hover {
                    ButtonState::Pressed
                } else if hover {
                    ButtonState::Hover
                } else {
                    ButtonState::Normal
                };
            },
            _ => {
                if !hover {
                    self.state = ButtonState::Normal;
                } else if !was_pressed {
                    self.state = ButtonState::Hover;
                }
            },
        }
        clicked
    }
}

/// Event emitted when a [`Checkbox`] toggles.
#[derive(Copy, Clone, Debug, PartialEq, Eq, Structural)]
pub struct CheckboxChanged {
    /// Key of the checkbox that changed.
    pub key: SlotKey,
    /// New checked state.
    pub checked: bool,
}

/// Whether a label-style widget is hovered after a mouse event aimed at `target`.
pub open spec fn next_hover(kind: MouseEventKind, target: SlotKey, key: SlotKey) -> bool {
    if kind == MouseEventKind::Enter {
        true
    } else if kind == MouseEventKind::Leave {
        false
    } else {
        target == key
    }
}

/// Checkbox widget with a text label.
pub struct Checkbox {
    key: SlotKey,
    label: OwnedProp,
    checked: Property<bool>,
    enabled: Property<bool>,
    hover: bool,
}

impl Checkbox {
    pub closed spec fn spec_key(&self) -> SlotKey {
        self.key
    }

    pub closed spec fn spec_checked(&self) -> Property<bool> {
        self.checked
    }

    pub closed spec fn spec_enabled(&self) -> Property<bool> {
        self.enabled
    }

    pub closed spec fn spec_hover(&self) -> bool {
        self.hover
    }

    pub closed spec fn spec_label(&self) -> OwnedProp {
        self.label
    }

    /// Creates a checkbox that is not hovered.
    pub fn new(key: SlotKey, label: OwnedProp, checked: Property<bool>, enabled: Property<bool>) -> (r: Checkbox)
        ensures
            r.spec_key() == key,
            r.spec_label() == label,
            r.spec_checked() == checked,
            r.spec_enabled() == enabled,
            !r.spec_hover(),
    {
        Checkbox { key, label, checked, enabled, hover: false }
    }

    /// Returns the key of the checkbox.
    pub fn key(&self) -> (r: SlotKey)
        ensures
            r == self.spec_key(),
    {
        self.key
    }

    /// Returns the checkbox's `enabled` property.
    pub fn enabled_property(&self) -> (r: Property<bool>)
        ensures
            r == self.spec_enabled(),
    {
        self.enabled
    }

    /// Returns the checkbox's `checked` property.
    pub fn checked_property(&self) -> (r: Property<bool>)
        ensures
            r == self.spec_checked(),
    {
        self.checked
    }

    /// Returns whether the pointer is over the checkbox.
    pub fn hover(&self) -> (r: bool)
        ensures
            r == self.spec_hover(),
    {
        self.hover
    }

    /// Returns the label of the checkbox.
    pub fn label(&self) -> (r: &OwnedProp)
        ensures
            *r == self.spec_label(),
    {
        &self.label
    }

    /// Whether the checkbox reacts to input.
    pub fn is_enabled(&self, looked_up: Option<bool>) -> (r: bool)
        ensures
            r == resolved_or(self.spec_enabled(), looked_up, true),
    {
        self.enabled.copied_or(looked_up, true)
    }

    /// The cursor over the checkbox: a pointer when it is enabled.
    pub fn cursor(&self, looked_up: Option<bool>) -> (r: Option<Cursor>)
        ensures
            r == if resolved_or(self.spec_enabled(), looked_up, true) { Some(Cursor::Pointer) } else { None },
    {
        if self.is_enabled(looked_up) {
            Some(Cursor::Pointer)
        } else {
            None
        }
    }

    /// `self` is `old` after handling a mouse event, which reported `r`.
    pub open spec fn event_applied(&self, old: Checkbox, kind: MouseEventKind, target: SlotKey, enabled_looked_up: Option<bool>, checked_looked_up: Option<bool>, r: Option<CheckboxChanged>) -> bool {
        &&& ({
            let enabled = resolved_or(old.spec_enabled(), enabled_looked_up, true);
            let hover = next_hover(kind, target, old.spec_key());
            &&& self.spec_hover() == (enabled && hover)
            &&& r == if enabled && hover && kind.is_left_up() {
                Some(CheckboxChanged { key: old.spec_key(), checked: !resolved_or(old.spec_checked(), checked_looked_up, false) })
            } else {
                None
            }
        })
        &&& self.spec_key() == old.spec_key()
        &&& self.spec_checked() == old.spec_checked()
        &&& self.spec_enabled() == old.spec_enabled()
    }

    /// Reacts to a mouse event aimed at `target`, given what the application state
    /// holds for the `enabled` and `checked` properties. A left click while hovered
    /// asks for the opposite of the current checked state.
    pub fn event(&mut self, kind: MouseEventKind, target: SlotKey, enabled_looked_up: Option<bool>, checked_looked_up: Option<bool>) -> (r: Option<CheckboxChanged>)
        ensures
            final(self).event_applied(*old(self), kind, target, enabled_looked_up, checked_looked_up, r),
    {
        if !self.is_enabled(enabled_looked_up) {
            self.hover = false;
            return None;
        }
        match kind {
            MouseEventKind::Enter => self.hover = true,
            MouseEventKind::Leave => self.hover = false,
            _ => self.hover = target == self.key,
        }
        if self.hover && kind.left_up() {
            let checked = !self.checked.copied_or(checked_looked_up, false);
            Some(CheckboxChanged { key: self.key, checked })
        } else {
            None
        }
    }
}

/// Event emitted when a [`RadioButton`] selects its index.
#[derive(Copy, Clone, Debug, PartialEq, Eq)]
pub struct RadioButtonChanged {
    /// Key of the radio button that was clicked.
    pub key: SlotKey,
    /// Property of the selected index.
    pub property: Property<usize>,
    /// New selected index for the group.
    pub selected: usize,
}

/// Radio button widget with a text label.
pub struct RadioButton {
    key: SlotKey,
    label: OwnedProp,
    property: Property<usize>,
    index: usize,
    enabled: Property<bool>,
    hover: bool,
}

impl RadioButton {
    pub closed spec fn spec_key(&self) -> SlotKey {
        self.key
    }

    pub closed spec fn spec_property(&self) -> Property<usize> {
        self.property
    }

    pub closed spec fn spec_index(&self) -> usize {
        self.index
    }

    pub closed spec fn spec_enabled(&self) -> Property<bool> {
        self.enabled
    }

    pub closed spec fn spec_hover(&self) -> bool {
        self.hover
    }

    pub closed spec fn spec_label(&self) -> OwnedProp {
        self.label
    }

    /// Creates a radio button that selects `index` of the group held by `property`.
    pub fn new(key: SlotKey, label: OwnedProp, property: Property<usize>, index: usize, enabled: Property<bool>) -> (r: RadioButton)
        ensures
            r.spec_key() == key,
            r.spec_label() == label,
            r.spec_property() == property,
            r.spec_index() == index,
            r.spec_enabled() == enabled,
            !r.spec_hover(),
    {
        RadioButton { key, label, property, index, enabled, hover: false }
    }

    /// Returns the key of the radio button.
    pub fn key(&self) -> (r: SlotKey)
        ensures
            r == self.spec_key(),
    {
        self.key
    }

    /// Returns the radio button's `enabled` property.
    pub fn enabled_property(&self) -> (r: Property<bool>)
        ensures
            r == self.spec_enabled(),
    {
        self.enabled
    }

    /// Returns the radio button's label.
    pub fn label(&self) -> (r: &OwnedProp)
        ensures
            *r == self.spec_label(),
    {
        &self.label
    }

    /// Returns the property of the group's selected index.
    pub fn selected_property(&self) -> (r: Property<usize>)
        ensures
            r == self.spec_property(),
    {
        self.property
    }

    /// Returns whether the pointer is over the radio button.
    pub fn hover(&self) -> (r: bool)
        ensures
            r == self.spec_hover(),
    {
        self.hover
    }

    /// Whether the group currently selects this button's index.
    pub fn checked(&self, looked_up: Option<usize>) -> (r: bool)
        ensures
            r == (self.spec_property().resolved(looked_up) == Some(self.spec_index())),
    {
        match self.property.copied(looked_up) {
            Some(v) => v == self.index,
            None => false,
        }
    }

    /// Whether the radio button reacts to input.
    pub fn is_enabled(&self, looked_up: Option<bool>) -> (r: bool)
        ensures
            r == resolved_or(self.spec_enabled(), looked_up, true),
    {
        self.enabled.copied_or(looked_up, true)
    }

    /// The cursor over the radio button: a pointer when it is enabled.
    pub fn cursor(&self, looked_up: Option<bool>) -> (r: Option<Cursor>)
        ensures
            r == if resolved_or(self.spec_enabled(), looked_up, true) { Some(Cursor::Pointer) } else { None },
    {
        if self.is_enabled(looked_up) {
            Some(Cursor::Pointer)
        } else {
            None
        }
    }

    /// `self` is `old` after handling a mouse event, which reported `r`.
    pub open spec fn event_applied(&self, old: RadioButton, kind: MouseEventKind, target: SlotKey, enabled_looked_up: Option<bool>, selected_looked_up: Option<usize>, r: Option<RadioButtonChanged>) -> bool {
        &&& ({
            let enabled = resolved_or(old.spec_enabled(), enabled_looked_up, true);
            let hover = next_hover(kind, target, old.spec_key());
            let checked = old.spec_property().resolved(selected_looked_up) == Some(old.spec_index());
            &&& self.spec_hover() == (enabled && hover)
            &&& r == if enabled && hover && kind.is_left_up() && !checked {
                Some(RadioButtonChanged { key: old.spec_key(), property: old.spec_property(), selected: old.spec_index() })
            } else {
                None
            }
        })
        &&& self.spec_key() == old.spec_key()
        &&& self.spec_property() == old.spec_property()
        &&& self.spec_index() == old.spec_index()
        &&& self.spec_enabled() == old.spec_enabled()
    }

    /// Reacts to a mouse event aimed at `target`. A left click while hovered selects
    /// this button's index, unless it already is selected.
    pub fn event(&mut self, kind: MouseEventKind, target: SlotKey, enabled_looked_up: Option<bool>, selected_looked_up: Option<usize>) -> (r: Option<RadioButtonChanged>)
        ensures
            final(self).event_applied(*old(self), kind, target, enabled_looked_up, selected_looked_up, r),
    {
        if !self.is_enabled(enabled_looked_up) {
            self.hover = false;
            return None;
        }
        match kind {
            MouseEventKind::Enter => self.hover = true,
            MouseEventKind::Leave => self.hover = false,
            _ => self.hover = target == self.key,
        }
        if self.hover && kind.left_up() && !self.checked(selected_looked_up) {
            Some(RadioButtonChanged { key: self.key, property: self.property, selected: self.index })
        } else {
            None
        }
    }
}

/// Event emitted when a [`MenuItem`] is clicked.
#[derive(Copy, Clone, Debug, PartialEq, Eq, Structural)]
pub struct MenuItemClicked {
    /// Key of the menu item that was clicked.
    pub key: SlotKey,
}

/// Clickable text row in a [`Menu`].
pub struct MenuItem {
    key: SlotKey,
    label: OwnedProp,
    enabled: Property<bool>,
    submenu: Option<SlotKey>,
    hover: bool,
}

impl MenuItem {
    pub closed spec fn spec_key(&self) -> SlotKey {
        self.key
    }

    pub closed spec fn spec_enabled(&self) -> Property<bool> {
        self.enabled
    }

    pub closed spec fn spec_submenu(&self) -> Option<SlotKey> {
        self.submenu
    }

    pub closed spec fn spec_hover(&self) -> bool {
        self.hover
    }

    pub closed spec fn spec_label(&self) -> OwnedProp {
        self.label
    }

    /// Creates a menu item, optionally opening `submenu`, that is not hovered.
    pub fn new(key: SlotKey, label: OwnedProp, enabled: Property<bool>, submenu: Option<SlotKey>) -> (r: MenuItem)
        ensures
            r.spec_key() == key,
            r.spec_label() == label,
            r.spec_enabled() == enabled,
            r.spec_submenu() == submenu,
            !r.spec_hover(),
    {
        MenuItem { key, label, enabled, submenu, hover: false }
    }

    /// Returns the key of the menu item.
    pub fn key(&self) -> (r: SlotKey)
        ensures
            r == self.spec_key(),
    {
        self.key
    }

    /// Returns the item's `enabled` property.
    pub fn enabled_property(&self) -> (r: Property<bool>)
        ensures
            r == self.spec_enabled(),
    {
        self.enabled
    }

    /// Returns the item's label.
    pub fn label(&self) -> (r: &OwnedProp)
        ensures
            *r == self.spec_label(),
    {
        &self.label
    }

    /// Returns the submenu this item opens, if any.
    pub fn submenu(&self) -> (r: Option<SlotKey>)
        ensures
            r == self.spec_submenu(),
    {
        self.submenu
    }

    /// Returns whether the pointer is over the item.
    pub fn hover(&self) -> (r: bool)
        ensures
            r == self.spec_hover(),
    {
        self.hover
    }

    /// Whether the item reacts to input.
    pub fn is_enabled(&self, looked_up: Option<bool>) -> (r: bool)
        ensures
            r == resolved_or(self.spec_enabled(), looked_up, true),
    {
        self.enabled.copied_or(looked_up, true)
    }

    /// The cursor over the item: a pointer when it is enabled.
    pub fn cursor(&self, looked_up: Option<bool>) -> (r: Option<Cursor>)
        ensures
            r == if resolved_or(self.spec_enabled(), looked_up, true) { Some(Cursor::Pointer) } else { None },
    {
        if self.is_enabled(looked_up) {
            Some(Cursor::Pointer)
        } else {
            None
        }
    }

    /// The popup request an item queues on a mouse event, if any.
    pub open spec fn spec_request(&self, kind: MouseEventKind, target: SlotKey, bounds: Bounds2i, enabled: bool, scene: SceneTree) -> Option<PopupRequest> {
        let hover = enabled && next_hover(kind, target, self.spec_key());
        if kind == MouseEventKind::Enter {
            if enabled && self.spec_submenu() is Some {
                Some(PopupRequest::Open { anchor_widget: self.spec_key(), menu: self.spec_submenu()->Some_0, anchor_bounds: bounds })
            } else if scene.spec_parent(self.spec_key()) is Some {
                Some(PopupRequest::Truncate { after: scene.spec_parent(self.spec_key()) })
            } else {
                None
            }
        } else if enabled && hover && kind.is_left_up() {
            if self.spec_submenu() is Some {
                Some(PopupRequest::Open { anchor_widget: self.spec_key(), menu: self.spec_submenu()->Some_0, anchor_bounds: bounds })
            } else {
                Some(PopupRequest::Truncate { after: None })
            }
        } else {
            None
        }
    }

    /// `self` and `scene` are `old` and `old_scene` after handling a mouse event, which reported `r`.
    pub open spec fn event_applied(&self, old: MenuItem, kind: MouseEventKind, target: SlotKey, bounds: Bounds2i, looked_up: Option<bool>, old_scene: SceneTree, scene: SceneTree, r: Option<MenuItemClicked>) -> bool {
        &&& ({
            let enabled = resolved_or(old.spec_enabled(), looked_up, true);
            let hover = enabled && next_hover(kind, target, old.spec_key());
            let clicked = enabled && hover && kind.is_left_up() && old.spec_submenu() is None;
            &&& r == if clicked { Some(MenuItemClicked { key: old.spec_key() }) } else { None }
            &&& self.spec_hover() == (hover && !clicked)
            &&& scene.spec_popup_request() == match old.spec_request(kind, target, bounds, enabled, old_scene) {
                Some(request) => Some(request),
                None => old_scene.spec_popup_request(),
            }
        })
        &&& scene.unchanged_except_request(old_scene)
        &&& self.spec_key() == old.spec_key()
        &&& self.spec_enabled() == old.spec_enabled()
        &&& self.spec_submenu() == old.spec_submenu()
    }

    /// Reacts to a mouse event aimed at `target`; `bounds` are the item's scene bounds.
    ///
    /// Entering an enabled item with a submenu opens that submenu beside it; entering
    /// any other item closes what its menu opened. Clicking an item with a submenu
    /// opens it; clicking any other item closes all popups and reports the click.
    pub fn event(&mut self, kind: MouseEventKind, target: SlotKey, bounds: Bounds2i, looked_up: Option<bool>, scene: &mut SceneTree) -> (r: Option<MenuItemClicked>)
        ensures
            final(self).event_applied(*old(self), kind, target, bounds, looked_up, *old(scene), *final(scene), r),
    {
        let enabled = self.is_enabled(looked_up);
        proof {
            scene.lemma_unchanged_refl();
        }
        match kind {
            MouseEventKind::Enter => {
                self.hover = enabled;
                match self.submenu {
                    Some(submenu) if enabled => {
                        scene.open_popup(self.key, submenu, bounds);
                    },
                    _ => {
                        match scene.parent(self.key) {
                            Some(menu) => scene.close_popup(Some(menu)),
                            None => {},
                        }
                    },
                }
            },
            MouseEventKind::Leave => self.hover = false,
            _ => self.hover = enabled && target == self.key,
        }
        if !enabled {
            return None;
        }
        if self.hover && kind.left_up() {
            match self.submenu {
                Some(submenu) => {
                    scene.open_popup(self.key, submenu, bounds);
                    return None;
                },
                None => {},
            }
            self.hover = false;
            scene.close_popup(None);
            return Some(MenuItemClicked { key: self.key });
        }
        None
    }
}

/// Menu bar item that opens a retained popup menu.
pub struct MenuBarItem {
    key: SlotKey,
    label: OwnedProp,
    enabled: Property<bool>,
    menu: SlotKey,
    hover: bool,
}

impl MenuBarItem {
    pub closed spec fn spec_key(&self) -> SlotKey {
        self.key
    }

    pub closed spec fn spec_enabled(&self) -> Property<bool> {
        self.enabled
    }

    pub closed spec fn spec_menu(&self) -> SlotKey {
        self.menu
    }

    pub closed spec fn spec_hover(&self) -> bool {
        self.hover
    }

    pub closed spec fn spec_label(&self) -> OwnedProp {
        self.label
    }

    /// Creates a menu bar item that opens `menu`, not hovered.
    pub fn new(key: SlotKey, label: OwnedProp, enabled: Property<bool>, menu: SlotKey) -> (r: MenuBarItem)
        ensures
            r.spec_key() == key,
            r.spec_label() == label,
            r.spec_enabled() == enabled,
            r.spec_menu() == menu,
            !r.spec_hover(),
    {
        MenuBarItem { key, label, enabled, menu, hover: false }
    }

    /// Returns the key of the item.
    pub fn key(&self) -> (r: SlotKey)
        ensures
            r == self.spec_key(),
    {
        self.key
    }

    /// Returns the item's `enabled` property.
    pub fn enabled_property(&self) -> (r: Property<bool>)
        ensures
            r == self.spec_enabled(),
    {
        self.enabled
    }

    /// Returns the item's label.
    pub fn label(&self) -> (r: &OwnedProp)
        ensures
            *r == self.spec_label(),
    {
        &self.label
    }

    /// Returns the menu the item opens.
    pub fn menu(&self) -> (r: SlotKey)
        ensures
            r == self.spec_menu(),
    {
        self.menu
    }

    /// Returns whether the pointer is over the item.
    pub fn hover(&self) -> (r: bool)
        ensures
            r == self.spec_hover(),
    {
        self.hover
    }

    /// Whether the item reacts to input.
    pub fn is_enabled(&self, looked_up: Option<bool>) -> (r: bool)
        ensures
            r == resolved_or(self.spec_enabled(), looked_up, true),
    {
        self.enabled.copied_or(looked_up, true)
    }

    /// The cursor over the item: a pointer when it is enabled.
    pub fn cursor(&self, looked_up: Option<bool>) -> (r: Option<Cursor>)
        ensures
            r == if resolved_or(self.spec_enabled(), looked_up, true) { Some(Cursor::Pointer) } else { None },
    {
        if self.is_enabled(looked_up) {
            Some(Cursor::Pointer)
        } else {
            None
        }
    }

    /// `self` and `scene` are `old` and `old_scene` after handling a mouse event.
    pub open spec fn event_applied(&self, old: MenuBarItem, kind: MouseEventKind, target: SlotKey, bounds: Bounds2i, looked_up: Option<bool>, old_scene: SceneTree, scene: SceneTree) -> bool {
        &&& ({
            let enabled = resolved_or(old.spec_enabled(), looked_up, true);
            let open = PopupRequest::Open { anchor_widget: old.spec_key(), menu: old.spec_menu(), anchor_bounds: bounds };
            let sibling_owns = match old_scene.spec_popup_owner() {
                Some(owner) => old_scene.spec_parent(owner) is Some && old_scene.spec_parent(owner) == old_scene.spec_parent(old.spec_key()),
                None => false,
            };
            let owns = old_scene.spec_popup_owner() == Some(old.spec_key()) && old_scene.popup_chain_view().len() > 0;
            &&& self.spec_hover() == if kind == MouseEventKind::Enter {
                enabled
            } else if kind == MouseEventKind::Leave {
                false
            } else if kind.is_left_down() && enabled {
                true
            } else {
                enabled && target == old.spec_key()
            }
            &&& scene.spec_popup_request() == if kind == MouseEventKind::Enter && enabled && sibling_owns {
                Some(open)
            } else if kind.is_left_down() && enabled {
                if owns { Some(PopupRequest::Truncate { after: None }) } else { Some(open) }
            } else {
                old_scene.spec_popup_request()
            }
        })
        &&& scene.unchanged_except_request(old_scene)
        &&& self.spec_key() == old.spec_key()
        &&& self.spec_enabled() == old.spec_enabled()
        &&& self.spec_menu() == old.spec_menu()
    }

    /// Reacts to a mouse event aimed at `target`; `bounds` are the item's scene bounds.
    ///
    /// Pressing the left button toggles the item's menu. Entering the item while a
    /// sibling owns the open popup switches to this item's menu.
    pub fn event(&mut self, kind: MouseEventKind, target: SlotKey, bounds: Bounds2i, looked_up: Option<bool>, scene: &mut SceneTree)
        ensures
            final(self).event_applied(*old(self), kind, target, bounds, looked_up, *old(scene), *final(scene)),
    {
        let enabled = self.is_enabled(looked_up);
        proof {
            scene.lemma_unchanged_refl();
        }
        if kind == MouseEventKind::Enter {
            self.hover = enabled;
            if enabled && scene.popup_owned_by_sibling(self.key) {
                scene.open_popup(self.key, self.menu, bounds);
            }
        } else if kind == MouseEventKind::Leave {
            self.hover = false;
        } else if kind.left_down() && enabled {
            self.hover = true;
            if scene.popup_owned_by(self.key) {
                scene.close_popup(None);
            } else {
                scene.open_popup(self.key, self.menu, bounds);
            }
        } else {
            self.hover = enabled && target == self.key;
        }
    }
}



/// How far a span `[kmin, kmax]` sticks out of `[cmin, cmax]` on one axis: a span
/// wider than the container is aligned with its start, otherwise the overhang.
pub open spec fn overhang(kmin: int, kmax: int, cmin: int, cmax: int) -> int {
    if kmax - kmin > cmax - cmin {
        kmin - cmin
    } else if kmin < cmin {
        kmin - cmin
    } else if kmax > cmax {
        kmax - cmax
    } else {
        0
    }
}

/// The arithmetic of keeping `child` inside `container` stays within `i32`.
pub open spec fn contain_fits(child: Bounds2i, container: Bounds2i) -> bool {
    let dx = overhang(child.mins.x as int, child.maxs.x as int, container.mins.x as int, container.maxs.x as int);
    let dy = overhang(child.mins.y as int, child.maxs.y as int, container.mins.y as int, container.maxs.y as int);
    &&& child.size_fits()
    &&& container.size_fits()
    &&& fits_i32(child.mins.x - container.mins.x)
    &&& fits_i32(child.mins.y - container.mins.y)
    &&& fits_i32(child.maxs.x - container.maxs.x)
    &&& fits_i32(child.maxs.y - container.maxs.y)
    &&& fits_i32(-dx)
    &&& fits_i32(-dy)
    &&& child.can_translate(Vec2i { x: (-dx) as i32, y: (-dy) as i32 })
}

/// Returns whether keeping `child` inside `container` stays within `i32`.
pub fn check_contain_fits(child: Bounds2i, container: Bounds2i) -> (r: bool)
    ensures
        r == contain_fits(child, container),
{
    let min = i32::MIN as i64;
    let max = i32::MAX as i64;
    let (kx0, ky0, kx1, ky1) = (child.mins.x as i64, child.mins.y as i64, child.maxs.x as i64, child.maxs.y as i64);
    let (cx0, cy0, cx1, cy1) = (container.mins.x as i64, container.mins.y as i64, container.maxs.x as i64, container.maxs.y as i64);
    let dx = if kx1 - kx0 > cx1 - cx0 { kx0 - cx0 } else if kx0 < cx0 { kx0 - cx0 } else if kx1 > cx1 { kx1 - cx1 } else { 0 };
    let dy = if ky1 - ky0 > cy1 - cy0 { ky0 - cy0 } else if ky0 < cy0 { ky0 - cy0 } else if ky1 > cy1 { ky1 - cy1 } else { 0 };
    let fits = |v: i64| -> (b: bool)
        ensures
            b == (min <= v <= max),
        { min <= v && v <= max };
    fits(kx1 - kx0) && fits(ky1 - ky0) && fits(cx1 - cx0) && fits(cy1 - cy0)
        && fits(kx0 - cx0) && fits(ky0 - cy0) && fits(kx1 - cx1) && fits(ky1 - cy1)
        && fits(-dx) && fits(-dy)
        && fits(kx0 - dx) && fits(ky0 - dy) && fits(kx1 - dx) && fits(ky1 - dy)
}

/// `child` moved by its overhang over `container`, as [`contain_bounds`] moves it.
pub open spec fn contained(child: Bounds2i, container: Bounds2i) -> Bounds2i {
    child.spec_translate(Vec2i {
        x: (-overhang(child.mins.x as int, child.maxs.x as int, container.mins.x as int, container.maxs.x as int)) as i32,
        y: (-overhang(child.mins.y as int, child.maxs.y as int, container.mins.y as int, container.maxs.y as int)) as i32,
    })
}

/// Moves `child` so that it lies inside `container` where it fits; a child larger
/// than the container is aligned with the container's top-left corner.
pub fn contain_bounds(child: Bounds2i, container: Bounds2i) -> (r: Bounds2i)
    requires
        contain_fits(child, container),
    ensures
        r == contained(child, container),
{
    let dx = if child.width() > container.width() {
        child.mins.x - container.mins.x
    } else if child.mins.x < container.mins.x {
        child.mins.x - container.mins.x
    } else if child.maxs.x > container.maxs.x {
        child.maxs.x - container.maxs.x
    } else {
        0
    };
    let dy = if child.height() > container.height() {
        child.mins.y - container.mins.y
    } else if child.mins.y < container.mins.y {
        child.mins.y - container.mins.y
    } else if child.maxs.y > container.maxs.y {
        child.maxs.y - container.maxs.y
    } else {
        0
    };
    child.translate(Vec2i::new(-dx, -dy))
}

/// Height of a menu row: separators are thinner than items.
pub open spec fn row_height(separator: bool) -> int {
    if separator { SEPARATOR_HEIGHT as int } else { MENU_ITEM_HEIGHT as int }
}

/// Top of row `i` of a menu whose rows are separators where `separators` says so.
pub open spec fn row_top(separators: Seq<bool>, i: int) -> int
    decreases i,
{
    if i <= 0 {
        0
    } else {
        row_top(separators, i - 1) + row_height(separators[i - 1])
    }
}

/// Row tops never decrease.
pub proof fn lemma_row_top_monotone(separators: Seq<bool>, i: int, j: int)
    requires
        0 <= i <= j,
    ensures
        0 <= row_top(separators, i) <= row_top(separators, j),
    decreases j,
{
    if j > 0 {
        lemma_row_top_monotone(separators, if i < j { i } else { j - 1 }, j - 1);
    }
}

/// Vertical menu that positions menu items and separators.
pub struct Menu {
    key: SlotKey,
    children: Vec<ChildWidget>,
    height: i32,
}

impl Menu {
    pub closed spec fn spec_key(&self) -> SlotKey {
        self.key
    }

    pub closed spec fn children_view(&self) -> Seq<ChildWidget> {
        self.children@
    }

    pub closed spec fn spec_height(&self) -> i32 {
        self.height
    }

    /// Creates a menu over `children`; its height is that of its rows, `separators`
    /// telling which of them are separators.
    pub fn new(key: SlotKey, children: Vec<ChildWidget>, separators: &Vec<bool>) -> (r: Menu)
        requires
            separators@.len() == children@.len(),
            row_top(separators@, separators@.len() as int) <= i32::MAX,
        ensures
            r.spec_key() == key,
            r.children_view() == children@,
            r.spec_height() == row_top(separators@, separators@.len() as int),
    {
        let height = menu_height(separators);
        Menu { key, children, height }
    }

    /// Returns the key of the menu.
    pub fn key(&self) -> (r: SlotKey)
        ensures
            r == self.spec_key(),
    {
        self.key
    }

    /// Returns the height of the menu.
    pub fn height(&self) -> (r: i32)
        ensures
            r == self.spec_height(),
    {
        self.height
    }

    /// Returns the rows of the menu.
    pub fn children(&self) -> (r: &Vec<ChildWidget>)
        ensures
            r@ == self.children_view(),
    {
        &self.children
    }

    /// The cursor over a menu is the default one.
    pub fn cursor(&self) -> (r: Option<Cursor>)
        ensures
            r == Some(Cursor::Default),
    {
        Some(Cursor::Default)
    }

    /// Pointing at the menu itself (not one of its rows) closes the submenus it opened.
    pub fn event(&self, kind: MouseEventKind, target: SlotKey, scene: &mut SceneTree)
        ensures
            final(scene).spec_popup_request() == if target == self.spec_key() && (kind == MouseEventKind::Enter || kind == MouseEventKind::Move) {
                Some(PopupRequest::Truncate { after: Some(self.spec_key()) })
            } else {
                old(scene).spec_popup_request()
            },
            final(scene).unchanged_except_request(*old(scene)),
    {
        proof {
            scene.lemma_unchanged_refl();
        }
        if target == self.key && (kind == MouseEventKind::Enter || kind == MouseEventKind::Move) {
            scene.close_popup(Some(self.key));
        }
    }

    /// `self` is `old` with its rows stacked from the top, full menu width, where
    /// `separators` tells which rows are separators.
    pub open spec fn laid_out(&self, old: Menu, separators: Seq<bool>) -> bool {
        &&& self.children_view().len() == old.children_view().len()
        &&& forall|i: int| 0 <= i < self.children_view().len() ==> #[trigger] self.children_view()[i] == (ChildWidget {
            bounds: rect(0, row_top(separators, i), crate::scene::MENU_WIDTH as int, row_top(separators, i + 1)),
            key: old.children_view()[i].key,
        })
        &&& self.spec_key() == old.spec_key()
        &&& self.spec_height() == old.spec_height()
    }

    /// Stacks the rows from the top, full menu width; `separators` tells which rows
    /// are separators.
    pub fn layout(&mut self, separators: &Vec<bool>)
        requires
            separators@.len() == old(self).children_view().len(),
            row_top(separators@, separators@.len() as int) <= i32::MAX,
        ensures
            final(self).laid_out(*old(self), separators@),
    {
        let n = self.children.len();
        let mut top: i32 = 0;
        let mut i: usize = 0;
        while i < n
            invariant
                n == self.children@.len(),
                n == old(self).children_view().len(),
                separators@.len() == n,
                row_top(separators@, n as int) <= i32::MAX,
                i <= n,
                top == row_top(separators@, i as int),
                forall|j: int| 0 <= j < i ==> #[trigger] self.children@[j] == (ChildWidget {
                    bounds: rect(0, row_top(separators@, j), crate::scene::MENU_WIDTH as int, row_top(separators@, j + 1)),
                    key: old(self).children_view()[j].key,
                }),
                forall|j: int| i <= j < n ==> #[trigger] self.children@[j] == old(self).children_view()[j],
                self.key == old(self).spec_key(),
                self.height == old(self).spec_height(),
            decreases n - i,
        {
            proof {
                lemma_row_top_monotone(separators@, i as int + 1, n as int);
            }
            let height = if separators[i] { SEPARATOR_HEIGHT } else { MENU_ITEM_HEIGHT };
            let key = self.children[i].key;
            self.children.set(i, ChildWidget { bounds: Bounds2i::from_coords(0, top, crate::scene::MENU_WIDTH, top + height), key });
            top = top + height;
            i = i + 1;
        }
    }
}

/// Height of a menu whose rows are separators where `separators` says so.
pub fn menu_height(separators: &Vec<bool>) -> (r: i32)
    requires
        row_top(separators@, separators@.len() as int) <= i32::MAX,
    ensures
        r == row_top(separators@, separators@.len() as int),
{
    let mut total: i32 = 0;
    let mut i: usize = 0;
    while i < separators.len()
        invariant
            i <= separators@.len(),
            total == row_top(separators@, i as int),
            row_top(separators@, separators@.len() as int) <= i32::MAX,
        decreases separators@.len() - i,
    {
        proof {
            lemma_row_top_monotone(separators@, i as int + 1, separators@.len() as int);
        }
        total = total + if separators[i] { SEPARATOR_HEIGHT } else { MENU_ITEM_HEIGHT };
        i = i + 1;
    }
    total
}

/// Horizontal container for [`MenuBarItem`] widgets.
pub struct MenuBar {
    key: SlotKey,
    children: Vec<ChildWidget>,
}

impl MenuBar {
    pub closed spec fn spec_key(&self) -> SlotKey {
        self.key
    }

    pub closed spec fn children_view(&self) -> Seq<ChildWidget> {
        self.children@
    }

    /// Creates a menu bar over `children`.
    pub fn new(key: SlotKey, children: Vec<ChildWidget>) -> (r: MenuBar)
        ensures
            r.spec_key() == key,
            r.children_view() == children@,
    {
        MenuBar { key, children }
    }

    /// Returns the key of the menu bar.
    pub fn key(&self) -> (r: SlotKey)
        ensures
            r == self.spec_key(),
    {
        self.key
    }

    /// Returns the items of the menu bar.
    pub fn children(&self) -> (r: &Vec<ChildWidget>)
        ensures
            r@ == self.children_view(),
    {
        &self.children
    }

    /// The cursor over a menu bar is the default one.
    pub fn cursor(&self) -> (r: Option<Cursor>)
        ensures
            r == Some(Cursor::Default),
    {
        Some(Cursor::Default)
    }

    /// `self` is `old` with its items side by side from the left, each of the fixed
    /// item width and of the bar's full `height`.
    pub open spec fn laid_out(&self, old: MenuBar, height: i32) -> bool {
        &&& self.children_view().len() == old.children_view().len()
        &&& forall|i: int| 0 <= i < self.children_view().len() ==> #[trigger] self.children_view()[i] == (ChildWidget {
            bounds: rect(i * MENU_BAR_ITEM_WIDTH, 0, (i + 1) * MENU_BAR_ITEM_WIDTH, height as int),
            key: old.children_view()[i].key,
        })
        &&& self.spec_key() == old.spec_key()
    }

    /// Places the items side by side from the left, each of the fixed item width and
    /// of the bar's full `height`.
    pub fn layout(&mut self, height: i32)
        requires
            old(self).children_view().len() * MENU_BAR_ITEM_WIDTH <= i32::MAX,
        ensures
            final(self).laid_out(*old(self), height),
    {
        let n = self.children.len();
        let mut left: i32 = 0;
        let mut i: usize = 0;
        while i < n
            invariant
                n == self.children@.len(),
                n == old(self).children_view().len(),
                n * MENU_BAR_ITEM_WIDTH <= i32::MAX,
                i <= n,
                left == i * MENU_BAR_ITEM_WIDTH,
                forall|j: int| 0 <= j < i ==> #[trigger] self.children@[j] == (ChildWidget {
                    bounds: rect(j * MENU_BAR_ITEM_WIDTH, 0, (j + 1) * MENU_BAR_ITEM_WIDTH, height as int),
                    key: old(self).children_view()[j].key,
                }),
                forall|j: int| i <= j < n ==> #[trigger] self.children@[j] == old(self).children_view()[j],
                self.key == old(self).spec_key(),
            decreases n - i,
        {
            let key = self.children[i].key;
            self.children.set(i, ChildWidget { bounds: Bounds2i::from_coords(left, 0, left + MENU_BAR_ITEM_WIDTH, height), key });
            left = left + MENU_BAR_ITEM_WIDTH;
            i = i + 1;
        }
    }
}

/// Decorative separator between menu items.
pub struct Separator {
    key: SlotKey,
}

impl Separator {
    pub closed spec fn spec_key(&self) -> SlotKey {
        self.key
    }

    /// Creates a separator.
    pub fn new(key: SlotKey) -> (r: Separator)
        ensures
            r.spec_key() == key,
    {
        Separator { key }
    }

    /// Returns the key of the separator.
    pub fn key(&self) -> (r: SlotKey)
        ensures
            r == self.spec_key(),
    {
        self.key
    }

    /// Separators never take pointer input.
    pub fn hittable(&self) -> (r: bool)
        ensures
            !r,
    {
        false
    }
}

/// Position of the last child of `children` whose bounds contain `p`, if any.
pub open spec fn last_hit(children: Seq<ChildWidget>, p: Vec2i) -> Option<int>
    decreases children.len(),
{
    if children.len() == 0 {
        None
    } else if children.last().bounds.spec_contains(p) {
        Some(children.len() - 1)
    } else {
        last_hit(children.drop_last(), p)
    }
}

/// `last_hit` names a child whose bounds contain the point.
pub proof fn lemma_last_hit(children: Seq<ChildWidget>, p: Vec2i)
    ensures
        last_hit(children, p) matches Some(i) ==> 0 <= i < children.len() && children[i].bounds.spec_contains(p),
    decreases children.len(),
{
    if children.len() > 0 && !children.last().bounds.spec_contains(p) {
        lemma_last_hit(children.drop_last(), p);
    }
}

/// Container widget that holds positioned children.
pub struct Panel {
    key: SlotKey,
    children: Vec<ChildWidget>,
}

impl Panel {
    pub closed spec fn spec_key(&self) -> SlotKey {
        self.key
    }

    pub closed spec fn children_view(&self) -> Seq<ChildWidget> {
        self.children@
    }

    /// Creates a panel over `children`.
    pub fn new(key: SlotKey, children: Vec<ChildWidget>) -> (r: Panel)
        ensures
            r.spec_key() == key,
            r.children_view() == children@,
    {
        Panel { key, children }
    }

    /// Creates a panel without children.
    pub fn empty(key: SlotKey) -> (r: Panel)
        ensures
            r.spec_key() == key,
            r.children_view().len() == 0,
    {
        Panel { key, children: Vec::new() }
    }

    /// Returns the key of the panel.
    pub fn key(&self) -> (r: SlotKey)
        ensures
            r == self.spec_key(),
    {
        self.key
    }

    /// Returns the children of the panel.
    pub fn children(&self) -> (r: &Vec<ChildWidget>)
        ensures
            r@ == self.children_view(),
    {
        &self.children
    }

    /// The cursor over a panel is the default one.
    pub fn cursor(&self) -> (r: Option<Cursor>)
        ensures
            r == Some(Cursor::Default),
    {
        Some(Cursor::Default)
    }

    /// The front-most child whose bounds contain `point`.
    pub fn hit_test(&self, point: Vec2i) -> (r: Option<ChildWidget>)
        ensures
            r == match last_hit(self.children_view(), point) {
                Some(i) => Some(self.children_view()[i]),
                None => None,
            },
    {
        hit_child(&self.children, point)
    }
}

/// Returns the front-most (last) of `children` whose bounds contain `point`.
pub fn hit_child(children: &Vec<ChildWidget>, point: Vec2i) -> (r: Option<ChildWidget>)
    ensures
        r == match last_hit(children@, point) {
            Some(i) => Some(children@[i]),
            None => None,
        },
        last_hit(children@, point) matches Some(i) ==> 0 <= i < children@.len() && children@[i].bounds.spec_contains(point),
{
    let mut i = children.len();
    assert(children@.subrange(0, i as int) =~= children@);
    while i > 0
        invariant
            i <= children@.len(),
            last_hit(children@, point) == last_hit(children@.subrange(0, i as int), point),
        decreases i,
    {
        let child = children[i - 1];
        let ghost prefix = children@.subrange(0, i as int);
        assert(prefix.drop_last() =~= children@.subrange(0, i - 1));
        if child.bounds.contains(point) {
            return Some(child);
        }
        i = i - 1;
    }
    None
}

impl Panel {
    /// Attaches `key` at `bounds`: where it already is a child only its bounds change,
    /// else it is appended and the panel becomes its parent.
    pub fn attach(&mut self, key: SlotKey, bounds: Bounds2i, scene: &mut SceneTree)
        requires
            child_position(old(self).children_view(), key) is None ==> {
                &&& old(scene).spec_parent(key) is None
                &&& old(self).spec_key() != old(scene).spec_content()
                &&& key.spec_index() < usize::MAX
            },
        ensures
            final(self).spec_key() == old(self).spec_key(),
            match child_position(old(self).children_view(), key) {
                Some(i) => {
                    &&& final(self).children_view() == old(self).children_view().update(i, ChildWidget { bounds, key })
                    &&& *final(scene) == *old(scene)
                },
                None => {
                    &&& final(self).children_view() == old(self).children_view().push(ChildWidget { bounds, key })
                    &&& final(scene).relinked(*old(scene), key, Some(old(self).spec_key()))
                },
            },
    {
        match position_of(&self.children, key) {
            Some(i) => {
                self.children.set(i, ChildWidget::new(bounds, key));
            },
            None => {
                self.children.push(ChildWidget::new(bounds, key));
                scene.set_parent(key, self.key);
            },
        }
    }

    /// Detaches `key` and forgets its parent; returns whether it was a child.
    pub fn detach(&mut self, key: SlotKey, scene: &mut SceneTree) -> (r: bool)
        ensures
            final(self).spec_key() == old(self).spec_key(),
            r == child_position(old(self).children_view(), key) is Some,
            match child_position(old(self).children_view(), key) {
                Some(i) => {
                    &&& final(self).children_view() == old(self).children_view().remove(i)
                    &&& final(scene).relinked(*old(scene), key, None)
                },
                None => {
                    &&& final(self).children_view() == old(self).children_view()
                    &&& *final(scene) == *old(scene)
                },
            },
    {
        match position_of(&self.children, key) {
            Some(i) => {
                self.children.remove(i);
                scene.clear_parent(key);
                true
            },
            None => false,
        }
    }
}

/// Horizontal padding around a window's title.
pub const HEADER_PAD_X: i32 = 16;

/// Vertical padding around a window's title.
pub const HEADER_PAD_Y: i32 = 10;

/// Least height of a window's header, and the height a new window starts with.
pub const MIN_HEADER_HEIGHT: i32 = 40;

/// Height of a window header for a title measured `text_width` by `text_height` in a
/// window `width` wide: the padded title, a little taller where the title does not
/// fit across, and never less than [`MIN_HEADER_HEIGHT`].
pub open spec fn spec_header_height(text_width: int, text_height: int, width: int) -> int {
    let adjust: int = if text_width + 2 * HEADER_PAD_X > width { 4 } else { 0 };
    spec_max(text_height + 2 * HEADER_PAD_Y + adjust, MIN_HEADER_HEIGHT as int)
}

/// The header height computes within `i32`.
pub open spec fn header_fits(text_width: int, text_height: int) -> bool {
    fits_i32(text_width + 2 * HEADER_PAD_X) && fits_i32(text_height + 2 * HEADER_PAD_Y + 4)
}

/// Returns the height of a window header for a title measured `text_width` by
/// `text_height` in a window `width` wide.
pub fn header_height(text_width: i32, text_height: i32, width: i32) -> (r: i32)
    requires
        header_fits(text_width as int, text_height as int),
    ensures
        r == spec_header_height(text_width as int, text_height as int, width as int),
{
    let adjust: i32 = if text_width + HEADER_PAD_X * 2 > width { 4 } else { 0 };
    let h = text_height + HEADER_PAD_Y * 2 + adjust;
    if h >= MIN_HEADER_HEIGHT { h } else { MIN_HEADER_HEIGHT }
}

/// Draggable window: a header with a title above its content.
pub struct Window {
    key: SlotKey,
    title: OwnedProp,
    header_height: i32,
    drag_offset: Option<Vec2i>,
    content: ChildWidget,
}

impl Window {
    pub closed spec fn spec_key(&self) -> SlotKey {
        self.key
    }

    pub closed spec fn spec_title(&self) -> OwnedProp {
        self.title
    }

    pub closed spec fn spec_header_height(&self) -> i32 {
        self.header_height
    }

    /// Where the pointer holds the window while it is pressed on it.
    pub closed spec fn spec_drag_offset(&self) -> Option<Vec2i> {
        self.drag_offset
    }

    pub closed spec fn spec_content(&self) -> ChildWidget {
        self.content
    }

    /// Creates a window over `content`, whose header has its least height.
    pub fn new(key: SlotKey, title: OwnedProp, content: SlotKey) -> (r: Window)
        ensures
            r.spec_key() == key,
            r.spec_title() == title,
            r.spec_header_height() == MIN_HEADER_HEIGHT,
            r.spec_drag_offset() is None,
            r.spec_content() == (ChildWidget { bounds: rect(0, MIN_HEADER_HEIGHT as int, 0, 0), key: content }),
    {
        Window {
            key,
            title,
            header_height: MIN_HEADER_HEIGHT,
            drag_offset: None,
            content: ChildWidget::new(Bounds2i::from_coords(0, MIN_HEADER_HEIGHT, 0, 0), content),
        }
    }

    /// Returns the key of the window.
    pub fn key(&self) -> (r: SlotKey)
        ensures
            r == self.spec_key(),
    {
        self.key
    }

    /// Returns the window's title.
    pub fn title(&self) -> (r: &OwnedProp)
        ensures
            *r == self.spec_title(),
    {
        &self.title
    }

    /// Returns the height of the window's header.
    pub fn header_height(&self) -> (r: i32)
        ensures
            r == self.spec_header_height(),
    {
        self.header_height
    }

    /// Returns where the pointer holds the window, while it is pressed on it.
    pub fn drag_offset(&self) -> (r: Option<Vec2i>)
        ensures
            r == self.spec_drag_offset(),
    {
        self.drag_offset
    }

    /// Returns the window's content with its bounds.
    pub fn content(&self) -> (r: ChildWidget)
        ensures
            r == self.spec_content(),
    {
        self.content
    }

    /// The cursor grabs the window, or is grabbing it while it is pressed.
    pub fn cursor(&self) -> (r: Option<Cursor>)
        ensures
            r == Some(if self.spec_drag_offset() is Some { Cursor::Grabbing } else { Cursor::Grab }),
    {
        if self.drag_offset.is_some() {
            Some(Cursor::Grabbing)
        } else {
            Some(Cursor::Grab)
        }
    }

    /// A window may be dragged around the root panel.
    pub fn draggable(&self) -> (r: bool)
        ensures
            r,
    {
        true
    }

    /// `self` and `scene` are `old` and `old_scene` after handling a mouse event.
    pub open spec fn event_applied(&self, old: Window, kind: MouseEventKind, pointer: Vec2i, target: SlotKey, bounds: Bounds2i, old_scene: SceneTree, scene: SceneTree) -> bool {
        &&& self.spec_key() == old.spec_key()
        &&& self.spec_title() == old.spec_title()
        &&& self.spec_header_height() == old.spec_header_height()
        &&& self.spec_content() == old.spec_content()
        &&& if target == old.spec_key() && kind.is_left_down() {
            &&& self.spec_drag_offset() == Some(Vec2i { x: (pointer.x - bounds.mins.x) as i32, y: (pointer.y - bounds.mins.y) as i32 })
            &&& scene.with_captured(old_scene, Some(old.spec_key()))
        } else if kind.is_left_up() {
            &&& self.spec_drag_offset() is None
            &&& scene.with_captured(old_scene, None)
        } else {
            &&& self.spec_drag_offset() == old.spec_drag_offset()
            &&& scene == old_scene
        }
    }

    /// Handles a mouse event of `kind` at `pointer` aimed at `target`, the window
    /// lying at `bounds`: pressing the left button on the window holds it and captures
    /// the pointer; releasing the left button, wherever aimed, lets it go and releases
    /// the pointer.
    pub fn event(&mut self, kind: MouseEventKind, pointer: Vec2i, target: SlotKey, bounds: Bounds2i, scene: &mut SceneTree)
        requires
            target == old(self).spec_key() && kind.is_left_down() ==> pointer.can_sub(bounds.mins),
        ensures
            final(self).event_applied(*old(self), kind, pointer, target, bounds, *old(scene), *final(scene)),
    {
        if target == self.key && kind.left_down() {
            self.drag_offset = Some(pointer.sub(bounds.mins));
            scene.capture_pointer(self.key);
        } else if kind.left_up() {
            self.drag_offset = None;
            scene.release_pointer();
        }
    }

    /// `self` is `old` laid out in `bounds` for a title measured `text_width` by
    /// `text_height`: the header takes its height and the content the rest.
    pub open spec fn laid_out(&self, old: Window, text_width: i32, text_height: i32, bounds: Bounds2i) -> bool {
        &&& self.spec_key() == old.spec_key()
        &&& self.spec_title() == old.spec_title()
        &&& self.spec_drag_offset() == old.spec_drag_offset()
        &&& self.spec_header_height() == spec_header_height(text_width as int, text_height as int, bounds.spec_width())
        &&& self.spec_content() == (ChildWidget {
            bounds: rect(0, self.spec_header_height() as int, bounds.spec_width(), bounds.spec_height()),
            key: old.spec_content().key,
        })
    }

    /// Lays the window out in `bounds` for a title measured `text_width` by
    /// `text_height`: the header takes its height and the content the rest.
    pub fn layout(&mut self, text_width: i32, text_height: i32, bounds: Bounds2i)
        requires
            header_fits(text_width as int, text_height as int),
            bounds.size_fits(),
        ensures
            final(self).laid_out(*old(self), text_width, text_height, bounds),
    {
        let size = bounds.size();
        self.header_height = header_height(text_width, text_height, size.x);
        self.content = ChildWidget::new(Bounds2i::from_coords(0, self.header_height, size.x, size.y), self.content.key);
    }
}

/// A button clicks exactly when the left button is released over it after being
/// pressed over it: pressing over an enabled button makes it pressed, and releasing
/// over it then reports the click and leaves it hovered.
pub proof fn law_press_then_release_clicks(hover: bool, state: ButtonState)
    ensures
        next_button_state(state, true, MouseEventKind::ButtonDown { button: crate::event::MouseButton(0) }) == ButtonState::Pressed,
        next_button_state(ButtonState::Pressed, true, MouseEventKind::ButtonUp { button: crate::event::MouseButton(0) }) == ButtonState::Hover,
        next_button_state(state, hover, MouseEventKind::Leave) == ButtonState::Normal,
{
}

/// A child that fits in its container ends up inside it.
pub proof fn law_contained_child_inside(child: Bounds2i, container: Bounds2i)
    requires
        contain_fits(child, container),
        child.spec_width() <= container.spec_width(),
        child.spec_height() <= container.spec_height(),
    ensures
        ({
            let dx = overhang(child.mins.x as int, child.maxs.x as int, container.mins.x as int, container.maxs.x as int);
            let dy = overhang(child.mins.y as int, child.maxs.y as int, container.mins.y as int, container.maxs.y as int);
            let r = child.spec_translate(Vec2i { x: (-dx) as i32, y: (-dy) as i32 });
            &&& container.mins.x <= r.mins.x && r.maxs.x <= container.maxs.x
            &&& container.mins.y <= r.mins.y && r.maxs.y <= container.maxs.y
            &&& r.spec_width() == child.spec_width()
            &&& r.spec_height() == child.spec_height()
        }),
{
}

/// A child already inside its container stays where it is.
pub proof fn law_inside_child_unmoved(child: Bounds2i, container: Bounds2i)
    requires
        contain_fits(child, container),
        child.spec_width() <= container.spec_width(),
        child.spec_height() <= container.spec_height(),
        container.mins.x <= child.mins.x,
        child.maxs.x <= container.maxs.x,
        container.mins.y <= child.mins.y,
        child.maxs.y <= container.maxs.y,
    ensures
        child.spec_translate(Vec2i {
            x: (-overhang(child.mins.x as int, child.maxs.x as int, container.mins.x as int, container.maxs.x as int)) as i32,
            y: (-overhang(child.mins.y as int, child.maxs.y as int, container.mins.y as int, container.maxs.y as int)) as i32,
        }) == child,
{
}

/// A button reports a click only when the left button is released over it after it
/// was pressed over it: the click names the button, the event is a left release aimed
/// at the button or its content, the button was pressed before the event, and it is
/// enabled. A release over a button that was not pressed reports nothing.
pub proof fn law_click_needs_press(new: Button, old: Button, kind: MouseEventKind, target: SlotKey, looked_up: Option<bool>, r: Option<ButtonClicked>)
    requires
        new.event_applied(old, kind, target, looked_up, r),
    ensures
        r is Some ==> {
            &&& r == Some(ButtonClicked { key: old.spec_key() })
            &&& kind.is_left_up()
            &&& old.spec_state() == ButtonState::Pressed
            &&& (target == old.spec_key() || target == old.spec_content().key)
            &&& resolved_or(old.spec_enabled(), looked_up, true)
        },
        old.spec_state() != ButtonState::Pressed ==> r is None,
        !kind.is_left_up() ==> r is None,
{
}

} // verus!
