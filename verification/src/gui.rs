//! The retained GUI scene: every widget, stored under a stable key, together with
//! the structure that links them (see [`SceneTree`]).
use vstd::prelude::*;

use crate::built::{built_as, built_from, child_built, child_widgets, item_widgets, in_built, in_item, in_menu, item_built, menu_built, lemma_built_kept, lemma_insert_agrees, lemma_item_kept, lemma_menu_kept, names_agree};
use crate::decor::{ColorSwatch, DrawGrid};
use crate::dto;
use crate::geom::{clip_child, clip_to_parent, contains_at, rect, Bounds2i, Vec2i};
use crate::props::{OwnedProp, PropKey, Property};
use crate::scroll::ScrollPanel;
use crate::scene::{child_position, distinct_keys, position_of, ChildWidget, PopupRequest, SceneTree};
use crate::slotmap::{SlotKey, SlotMap};
use crate::event::{Cursor, MouseEvent, MouseEventKind};
use crate::widgets::{last_hit, row_top, ButtonClicked, CheckboxChanged, MenuItemClicked, RadioButtonChanged, Button, Checkbox, Menu, MenuBar, MenuBarItem, MenuItem, Panel, RadioButton, Separator, Window};

verus! {

/// A widget of the scene.
pub enum Widget {
    /// The root panel; its children are the scene's shown widgets.
    Root(SlotKey),
    Panel(Panel),
    Button(Button),
    Checkbox(Checkbox),
    RadioButton(RadioButton),
    Menu(Menu),
    MenuItem(MenuItem),
    MenuBar(MenuBar),
    MenuBarItem(MenuBarItem),
    Separator(Separator),
    ScrollPanel(ScrollPanel),
    Window(Window),
    ColorSwatch(ColorSwatch),
    DrawGrid(DrawGrid),
}

impl Widget {
    /// The key the widget was created with.
    pub open spec fn spec_key(&self) -> SlotKey {
        match self {
            Widget::Root(k) => *k,
            Widget::Panel(w) => w.spec_key(),
            Widget::Button(w) => w.spec_key(),
            Widget::Checkbox(w) => w.spec_key(),
            Widget::RadioButton(w) => w.spec_key(),
            Widget::Menu(w) => w.spec_key(),
            Widget::MenuItem(w) => w.spec_key(),
            Widget::MenuBar(w) => w.spec_key(),
            Widget::MenuBarItem(w) => w.spec_key(),
            Widget::Separator(w) => w.spec_key(),
            Widget::ScrollPanel(w) => w.spec_key(),
            Widget::Window(w) => w.spec_key(),
            Widget::ColorSwatch(w) => w.spec_key(),
            Widget::DrawGrid(w) => w.spec_key(),
        }
    }

    /// The positioned children the widget holds (the root panel's are kept by the scene).
    pub open spec fn children_view(&self) -> Seq<ChildWidget> {
        match self {
            Widget::Panel(w) => w.children_view(),
            Widget::Button(w) => seq![w.spec_content()],
            Widget::Menu(w) => w.children_view(),
            Widget::MenuBar(w) => w.children_view(),
            Widget::ScrollPanel(w) => seq![w.spec_content()],
            Widget::Window(w) => seq![w.spec_content()],
            _ => Seq::empty(),
        }
    }

    /// Returns the key the widget was created with.
    pub fn key(&self) -> (r: SlotKey)
        ensures
            r == self.spec_key(),
    {
        match self {
            Widget::Root(k) => *k,
            Widget::Panel(w) => w.key(),
            Widget::Button(w) => w.key(),
            Widget::Checkbox(w) => w.key(),
            Widget::RadioButton(w) => w.key(),
            Widget::Menu(w) => w.key(),
            Widget::MenuItem(w) => w.key(),
            Widget::MenuBar(w) => w.key(),
            Widget::MenuBarItem(w) => w.key(),
            Widget::Separator(w) => w.key(),
            Widget::ScrollPanel(w) => w.key(),
            Widget::Window(w) => w.key(),
            Widget::ColorSwatch(w) => w.key(),
            Widget::DrawGrid(w) => w.key(),
        }
    }

    /// Returns a copy of the widget's positioned children.
    pub fn children(&self) -> (r: Vec<ChildWidget>)
        ensures
            r@ == self.children_view(),
    {
        match self {
            Widget::Panel(w) => w.children().clone(),
            Widget::Button(w) => vec![w.content()],
            Widget::Menu(w) => w.children().clone(),
            Widget::MenuBar(w) => w.children().clone(),
            Widget::ScrollPanel(w) => vec![w.content()],
            Widget::Window(w) => vec![w.content()],
            _ => Vec::new(),
        }
    }

    /// Whether the widget can be dragged around the root panel: only windows can.
    pub fn draggable(&self) -> (r: bool)
        ensures
            r == (self is Window),
    {
        match self {
            Widget::Window(w) => w.draggable(),
            _ => false,
        }
    }

    /// Whether the widget takes pointer input: every widget but a separator and a
    /// grid does.
    pub open spec fn spec_hittable(&self) -> bool {
        !(self is Separator) && !(self is DrawGrid)
    }

    /// Returns whether the widget takes pointer input.
    pub fn hittable(&self) -> (r: bool)
        ensures
            r == self.spec_hittable(),
    {
        match self {
            Widget::Separator(_) | Widget::DrawGrid(_) => false,
            _ => true,
        }
    }
}

/// What the application state holds for a widget's properties, looked up by the
/// caller before the widget handles an event (`None` where it holds nothing).
#[derive(Copy, Clone, Debug)]
pub struct LookedUp {
    /// The `enabled` property.
    pub enabled: Option<bool>,
    /// A checkbox's `checked` property.
    pub checked: Option<bool>,
    /// A radio button's `selected` property.
    pub selected: Option<usize>,
}

/// The keys under which the application state holds a widget's properties, where it
/// holds them (`None` for a property stored on the widget, or one it does not have).
#[derive(Copy, Clone, Debug)]
pub struct PropertyKeys {
    pub enabled: Option<PropKey>,
    pub checked: Option<PropKey>,
    pub selected: Option<PropKey>,
}

/// The key of a property held by the application state, if it is.
pub open spec fn key_of<T>(p: Property<T>) -> Option<PropKey> {
    match p {
        Property::Key(k) => Some(k),
        Property::Value(_) => None,
    }
}

/// What a widget reports after handling an event.
#[derive(Copy, Clone, Debug)]
pub enum WidgetAction {
    ButtonClicked(ButtonClicked),
    CheckboxChanged(CheckboxChanged),
    RadioButtonChanged(RadioButtonChanged),
    MenuItemClicked(MenuItemClicked),
}

/// `r` as a button's click, if it is one.
pub open spec fn as_button_clicked(r: Option<WidgetAction>) -> Option<ButtonClicked> {
    match r {
        Some(WidgetAction::ButtonClicked(c)) => Some(c),
        _ => None,
    }
}

/// `r` as a checkbox's change, if it is one.
pub open spec fn as_checkbox_changed(r: Option<WidgetAction>) -> Option<CheckboxChanged> {
    match r {
        Some(WidgetAction::CheckboxChanged(c)) => Some(c),
        _ => None,
    }
}

/// `r` as a radio button's change, if it is one.
pub open spec fn as_radio_button_changed(r: Option<WidgetAction>) -> Option<RadioButtonChanged> {
    match r {
        Some(WidgetAction::RadioButtonChanged(c)) => Some(c),
        _ => None,
    }
}

/// `r` as a menu item's click, if it is one.
pub open spec fn as_menu_item_clicked(r: Option<WidgetAction>) -> Option<MenuItemClicked> {
    match r {
        Some(WidgetAction::MenuItemClicked(c)) => Some(c),
        _ => None,
    }
}

/// Whether some child in `children` has key `k`.
pub open spec fn has_child(children: Seq<ChildWidget>, k: SlotKey) -> bool {
    exists|i: int| 0 <= i < children.len() && (#[trigger] children[i]).key == k
}

/// Retained GUI scene containing all widgets and root ordering.
pub struct Scene {
    slots: SlotMap<Widget>,
    tree: SceneTree,
}

impl Scene {
    /// The slots of the scene, by index.
    pub closed spec fn slots_view(&self) -> Map<nat, Option<Widget>> {
        self.slots@
    }

    /// The structural state of the scene.
    pub closed spec fn tree_view(&self) -> SceneTree {
        self.tree
    }

    /// Number of slots the scene has used.
    pub closed spec fn slot_count(&self) -> nat {
        self.slots.slot_count()
    }

    /// Whether `k` names a slot of the scene (holding a widget or taken out).
    pub open spec fn contains(&self, k: SlotKey) -> bool {
        self.slots_view().dom().contains(k.spec_index())
    }

    /// The widget stored under `k`, if any.
    pub open spec fn widget(&self, k: SlotKey) -> Option<Widget> {
        if self.contains(k) { self.slots_view()[k.spec_index()] } else { None }
    }

    /// The scene's invariant: storage and structure are consistent, the root panel
    /// exists, and widgets no longer in the scene have no parent.
    pub closed spec fn wf(&self) -> bool {
        &&& self.slots.wf()
        &&& self.tree.wf()
        &&& self.slots@.dom().contains(self.tree.spec_content().spec_index())
        &&& forall|k: SlotKey| !self.slots@.dom().contains(k.spec_index()) ==> #[trigger] self.tree.spec_parent(k) is None
        &&& self.slots.slot_count() <= u32::MAX
    }

    /// In a well-formed scene the root panel is one of its widgets, and each widget
    /// shown on the root panel is among the root panel's children.
    pub proof fn lemma_wf_root(&self, k: SlotKey)
        requires
            self.wf(),
        ensures
            self.contains(self.tree_view().spec_content()),
            self.tree_view().spec_is_shown(k) ==> child_position(self.tree_view().root_children_view(), k) is Some,
    {
    }

    /// Widgets that may become the children of a new widget: distinct widgets of the
    /// scene without a parent, other than the root panel.
    pub open spec fn can_adopt(&self, children: Seq<ChildWidget>) -> bool {
        &&& distinct_keys(children)
        &&& forall|i: int| 0 <= i < children.len() ==> {
            &&& self.contains(#[trigger] children[i].key)
            &&& self.tree_view().spec_parent(children[i].key) is None
            &&& children[i].key != self.tree_view().spec_content()
        }
    }

    proof fn lemma_index_bounded(&self, k: SlotKey)
        requires
            self.wf(),
            self.contains(k),
        ensures
            k.spec_index() < self.slot_count(),
    {
        self.slots.lemma_next_index_free();
    }

    /// Creates an empty scene of the given size; its root panel is the first widget.
    pub fn new(size: Vec2i) -> (r: Scene)
        ensures
            r.wf(),
            r.tree_view().spec_size() == size,
            r.tree_view().root_children_view().len() == 0,
            r.tree_view().popup_chain_view().len() == 0,
            r.tree_view().spec_popup_owner() is None,
            r.tree_view().spec_popup_request() is None,
            r.tree_view().tracks_children(),
            r.widget(r.tree_view().spec_content()) == Some(Widget::Root(r.tree_view().spec_content())),
            forall|k: SlotKey| #[trigger] r.tree_view().spec_parent(k) is None,
            r.slot_count() == 1,
    {
        let mut slots: SlotMap<Widget> = SlotMap::new();
        let content = slots.allocate();
        slots.put(content, Widget::Root(content));
        let tree = SceneTree::new(size, content);
        Scene { slots, tree }
    }

    /// Returns the structural state of the scene.
    pub fn tree(&self) -> (r: &SceneTree)
        ensures
            *r == self.tree_view(),
    {
        &self.tree
    }

    /// Allocates a key, constructs a widget with `f`, and records the new widget as the
    /// parent of the widget's children.
    pub fn create_widget<F: FnOnce(SlotKey) -> Widget>(&mut self, f: F) -> (key: SlotKey)
        requires
            old(self).wf(),
            old(self).slot_count() < u32::MAX,
            forall|k: SlotKey| #[trigger] f.requires((k,)),
            forall|k: SlotKey, w: Widget| #[trigger] f.ensures((k,), w) ==> w.spec_key() == k && old(self).can_adopt(w.children_view()),
        ensures
            final(self).wf(),
            !old(self).contains(key),
            exists|w: Widget| #[trigger] f.ensures((key,), w) && final(self).slots_view() == old(self).slots_view().insert(key.spec_index(), Some(w))
                && forall|k: SlotKey| #[trigger] final(self).tree_view().spec_parent(k) == if has_child(w.children_view(), k) {
                    Some(key)
                } else {
                    old(self).tree_view().spec_parent(k)
                },
            final(self).slot_count() <= old(self).slot_count() + 1,
            final(self).tree_view().spec_content() == old(self).tree_view().spec_content(),
            final(self).tree_view().root_children_view() == old(self).tree_view().root_children_view(),
            final(self).tree_view().popup_chain_view() == old(self).tree_view().popup_chain_view(),
            final(self).tree_view().spec_popup_owner() == old(self).tree_view().spec_popup_owner(),
            final(self).tree_view().spec_popup_request() == old(self).tree_view().spec_popup_request(),
            final(self).tree_view().spec_pointed() == old(self).tree_view().spec_pointed(),
            final(self).tree_view().spec_captured() == old(self).tree_view().spec_captured(),
            final(self).tree_view().spec_size() == old(self).tree_view().spec_size(),
            old(self).tree_view().tracks_children() ==> final(self).tree_view().tracks_children(),
    {
        proof {
            self.slots.lemma_next_index_free();
        }
        let key = self.slots.allocate();
        let widget = f(key);
        let children = widget.children();
        let ghost start = *self;
        let n = children.len();
        let mut i: usize = 0;
        while i < n
            invariant
                n == children@.len(),
                children@ == widget.children_view(),
                f.ensures((key,), widget),
                old(self).can_adopt(children@),
                !old(self).contains(key),
                i <= n,
                self.slots == start.slots,
                self.tree.wf(),
                start.slots@ == old(self).slots@.insert(key.spec_index(), None),
                old(self).wf(),
                old(self).slot_count() < u32::MAX,
                start.slots.wf(),
                forall|k: SlotKey| #[trigger] self.tree.spec_parent(k) == if has_child(children@.subrange(0, i as int), k) {
                    Some(key)
                } else {
                    old(self).tree.spec_parent(k)
                },
                self.tree.spec_content() == old(self).tree.spec_content(),
                self.tree.root_children_view() == old(self).tree.root_children_view(),
                self.tree.popup_chain_view() == old(self).tree.popup_chain_view(),
                self.tree.spec_popup_owner() == old(self).tree.spec_popup_owner(),
                self.tree.spec_popup_request() == old(self).tree.spec_popup_request(),
                self.tree.spec_pointed() == old(self).tree.spec_pointed(),
                self.tree.spec_captured() == old(self).tree.spec_captured(),
                self.tree.spec_size() == old(self).tree.spec_size(),
                old(self).tree.tracks_children() ==> self.tree.tracks_children(),
                old(self).tree.wf(),
            decreases n - i,
        {
            let child = children[i].key;
            proof {
                old(self).lemma_index_bounded(child);
                start.slots.lemma_next_index_free();
                assert(old(self).contains(child));
                assert(!has_child(children@.subrange(0, i as int), child)) by {
                    if has_child(children@.subrange(0, i as int), child) {
                        let j = choose|j: int| 0 <= j < i && (#[trigger] children@.subrange(0, i as int)[j]).key == child;
                        assert(children@[j].key == children@[i as int].key);
                    }
                }
                assert(self.tree.spec_parent(child) is None);
                assert(key != old(self).tree.spec_content()) by {
                    old(self).lemma_index_bounded(old(self).tree.spec_content());
                }
            }
            let ghost before = self.tree;
            self.tree.set_parent(child, key);
            proof {
                assert forall|k: SlotKey| #[trigger] self.tree.spec_parent(k) == if has_child(children@.subrange(0, i + 1), k) {
                    Some(key)
                } else {
                    old(self).tree.spec_parent(k)
                } by {
                    let s0 = children@.subrange(0, i as int);
                    let s1 = children@.subrange(0, i + 1);
                    assert(s1[i as int].key == child);
                    if has_child(s0, k) {
                        let j = choose|j: int| 0 <= j < s0.len() && (#[trigger] s0[j]).key == k;
                        assert(s1[j].key == k);
                    }
                    if k.spec_index() == child.spec_index() {
                        SlotKey::lemma_same_index(k, child);
                    } else {
                        assert(self.tree.spec_parent(k) == before.spec_parent(k));
                        if has_child(s1, k) {
                            let j = choose|j: int| 0 <= j < s1.len() && (#[trigger] s1[j]).key == k;
                            assert(s0[j].key == k);
                        }
                    }
                }
                if old(self).tree.tracks_children() {
                    assert forall|m: int| 0 <= m < self.tree.root_children_view().len() implies #[trigger] self.tree.spec_is_shown(self.tree.root_children_view()[m].key) by {
                        let rk = self.tree.root_children_view()[m].key;
                        assert(before.spec_is_shown(rk));
                        if rk.spec_index() == child.spec_index() {
                            SlotKey::lemma_same_index(rk, child);
                        }
                    }
                }
            }
            i = i + 1;
        }
        self.slots.put(key, widget);
        proof {
            assert(children@.subrange(0, n as int) =~= children@);
            assert forall|k: SlotKey| !self.slots@.dom().contains(k.spec_index()) implies #[trigger] self.tree.spec_parent(k) is None by {
                assert(!old(self).slots@.dom().contains(k.spec_index()));
                if has_child(children@, k) {
                    let j = choose|j: int| 0 <= j < children@.len() && (#[trigger] children@[j]).key == k;
                    assert(old(self).contains(children@[j].key));
                }
            }
            assert(self.slots_view() == old(self).slots_view().insert(key.spec_index(), Some(widget)));
        }
        key
    }

    /// The positioned children of the widget under `k`; those of the root panel are
    /// the widgets shown on it.
    pub open spec fn children_of(&self, k: SlotKey) -> Seq<ChildWidget> {
        match self.widget(k) {
            Some(Widget::Root(_)) => self.tree_view().root_children_view(),
            Some(w) => w.children_view(),
            None => Seq::empty(),
        }
    }

    /// Returns a copy of the positioned children of the widget under `key`.
    pub fn children_of_widget(&self, key: SlotKey) -> (r: Vec<ChildWidget>)
        ensures
            r@ == self.children_of(key),
    {
        match self.slots.get(key) {
            Some(Widget::Root(_)) => self.tree.root_children().clone(),
            Some(w) => w.children(),
            None => Vec::new(),
        }
    }

    /// The widget hit at `(x, y)`, given in the coordinates of `k`, looking at most
    /// `fuel` levels down: a missing or non-hittable widget is not hit; else the hit
    /// of its front-most child containing the point, or the widget itself.
    pub open spec fn hit(&self, k: SlotKey, x: int, y: int, fuel: nat) -> Option<SlotKey>
        decreases fuel, 0int, 0int,
    {
        match self.widget(k) {
            None => None,
            Some(w) => {
                if !w.spec_hittable() {
                    None
                } else if fuel == 0 {
                    Some(k)
                } else {
                    match self.hit_children(self.children_of(k), self.children_of(k).len() as int, x, y, (fuel - 1) as nat) {
                        Some(h) => Some(h),
                        None => Some(k),
                    }
                }
            },
        }
    }

    /// The hit of the front-most of `children[..n]` whose bounds contain `(x, y)`
    /// and which is hit itself.
    pub open spec fn hit_children(&self, children: Seq<ChildWidget>, n: int, x: int, y: int, fuel: nat) -> Option<SlotKey>
        decreases fuel, 1int, n,
    {
        if n <= 0 {
            None
        } else {
            let c = children[n - 1];
            let below = if contains_at(c.bounds, x, y) {
                self.hit(c.key, x - c.bounds.mins.x, y - c.bounds.mins.y, fuel)
            } else {
                None
            };
            match below {
                Some(h) => Some(h),
                None => self.hit_children(children, n - 1, x, y, fuel),
            }
        }
    }

    fn hit_at(&self, key: SlotKey, x: i64, y: i64, fuel: u32) -> (r: Option<SlotKey>)
        requires
            i32::MIN <= x <= 0xffff_ffff,
            i32::MIN <= y <= 0xffff_ffff,
        ensures
            r == self.hit(key, x as int, y as int, fuel as nat),
        decreases fuel,
    {
        match self.slots.get(key) {
            None => None,
            Some(w) => {
                if !w.hittable() {
                    return None;
                }
                if fuel == 0 {
                    return Some(key);
                }
                let children = self.children_of_widget(key);
                let mut i = children.len();
                while i > 0
                    invariant
                        i <= children@.len(),
                        children@ == self.children_of(key),
                        self.widget(key) == Some(*w),
                        w.spec_hittable(),
                        fuel > 0,
                        i32::MIN <= x <= 0xffff_ffff,
                        i32::MIN <= y <= 0xffff_ffff,
                        self.hit_children(children@, children@.len() as int, x as int, y as int, (fuel - 1) as nat)
                            == self.hit_children(children@, i as int, x as int, y as int, (fuel - 1) as nat),
                    decreases i,
                {
                    let c = children[i - 1];
                    if (c.bounds.mins.x as i64) <= x && (c.bounds.mins.y as i64) <= y && x <= (c.bounds.maxs.x as i64) && y <= (c.bounds.maxs.y as i64) {
                        let lx = x - c.bounds.mins.x as i64;
                        let ly = y - c.bounds.mins.y as i64;
                        match self.hit_at(c.key, lx, ly, fuel - 1) {
                            Some(h) => {
                                return Some(h);
                            },
                            None => {},
                        }
                    }
                    i = i - 1;
                }
                Some(key)
            },
        }
    }

    /// The widget hit at `point` (see [`hit_test`](Scene::hit_test)).
    pub open spec fn spec_hit_test(&self, point: Vec2i) -> Option<SlotKey> {
        if Bounds2i::spec_contains(Bounds2i { mins: Vec2i { x: 0, y: 0 }, maxs: self.tree_view().spec_size() }, point) {
            self.hit(self.tree_view().spec_content(), point.x as int, point.y as int, self.slot_count())
        } else {
            None
        }
    }

    /// Returns the widget's key at the given point, if any: nothing outside the scene,
    /// else the hit below the root panel, looking as many levels down as the scene has
    /// slots (deeper nesting only arises where children form a cycle).
    pub fn hit_test(&self, point: Vec2i) -> (r: Option<SlotKey>)
        requires
            self.wf(),
        ensures
            r == self.spec_hit_test(point),
    {
        let area = Bounds2i::vec(self.tree.size());
        if !area.contains(point) {
            return None;
        }
        let fuel = self.slots.slots_used();
        self.hit_at(self.tree.content(), point.x as i64, point.y as i64, fuel as u32)
    }

    /// The scene rectangle of `k`, clipped by all its ancestors, following at most
    /// `fuel` parent links: a widget without parent covers the whole scene; else it
    /// is its bounds in its parent, clipped to the parent's rectangle.
    pub open spec fn client_rect(&self, k: SlotKey, fuel: nat) -> Option<Bounds2i>
        decreases fuel,
    {
        match self.tree_view().spec_parent(k) {
            None => Some(Bounds2i { mins: Vec2i { x: 0, y: 0 }, maxs: self.tree_view().spec_size() }),
            Some(p) => {
                if fuel == 0 {
                    None
                } else {
                    match self.client_rect(p, (fuel - 1) as nat) {
                        None => None,
                        Some(pb) => {
                            if self.widget(p) is None {
                                None
                            } else {
                                match child_position(self.children_of(p), k) {
                                    None => None,
                                    Some(i) => clip_to_parent(self.children_of(p)[i].bounds, pb),
                                }
                            }
                        },
                    }
                }
            },
        }
    }

    fn client_rect_at(&self, key: SlotKey, fuel: usize) -> (r: Option<Bounds2i>)
        ensures
            r == self.client_rect(key, fuel as nat),
        decreases fuel,
    {
        let parent = match self.tree.parent(key) {
            None => {
                return Some(Bounds2i::vec(self.tree.size()));
            },
            Some(p) => p,
        };
        if fuel == 0 {
            return None;
        }
        let parent_bounds = match self.client_rect_at(parent, fuel - 1) {
            None => {
                return None;
            },
            Some(b) => b,
        };
        if self.slots.get(parent).is_none() {
            return None;
        }
        let children = self.children_of_widget(parent);
        match position_of(&children, key) {
            None => None,
            Some(i) => clip_child(children[i].bounds, parent_bounds),
        }
    }

    /// Returns the scene rectangle of the widget, clipped by its ancestors. Fails where
    /// a widget on the way up is missing or does not list the widget below it, where
    /// the widget is clipped out, or after more parent links than the scene has
    /// parent entries (only possible on a cycle).
    pub fn get_client_rect(&self, widget: SlotKey) -> (r: Option<Bounds2i>)
        ensures
            r == self.client_rect(widget, self.tree_view().parent_slots()),
    {
        let fuel = self.tree.parent_slot_count();
        self.client_rect_at(widget, fuel)
    }

    /// Whether the root child under `point` takes input: it is a widget of the scene
    /// that is hittable (see [`Widget::spec_hittable`]).
    pub open spec fn root_draggable(&self, point: Vec2i) -> bool {
        match last_hit(self.tree_view().root_children_view(), point) {
            Some(i) => self.widget(self.tree_view().root_children_view()[i].key) matches Some(w) && w.spec_hittable(),
            None => false,
        }
    }

    /// Lets the root panel handle a mouse event at `point` aimed at `target`: it drags
    /// its children (see [`SceneTree::root_event`]).
    pub fn root_event(&mut self, kind: MouseEventKind, point: Vec2i, target: SlotKey)
        requires
            old(self).wf(),
            old(self).tree_view().root_event_fits(kind, point),
        ensures
            final(self).wf(),
            final(self).slots_view() == old(self).slots_view(),
            final(self).tree_view().root_event_applied(old(self).tree_view(), kind, point, target, old(self).root_draggable(point)),
    {
        let draggable = match self.tree.root_hit_test(point) {
            Some(c) => match self.slots.get(c.key) {
                Some(w) => w.hittable(),
                None => false,
            },
            None => false,
        };
        let ghost start = *self;
        self.tree.root_event(kind, point, target, draggable);
        proof {
            self.lemma_wf_kept(start);
        }
    }

    /// Keeps the widgets shown on the root panel within the scene (see
    /// [`SceneTree::layout_root`]).
    pub fn layout_root(&mut self)
        requires
            old(self).wf(),
            old(self).tree_view().layout_fits(),
        ensures
            final(self).wf(),
            final(self).slots_view() == old(self).slots_view(),
            final(self).tree_view().root_laid_out(old(self).tree_view()),
    {
        let ghost start = *self;
        self.tree.layout_root();
        proof {
            self.lemma_wf_kept(start);
        }
    }

    /// `self` is `old` once the widget `key` itself is destroyed: the scene forgets it
    /// (see [`SceneTree::forgotten`]) and its slot is freed.
    pub open spec fn destroy_step(&self, old: Scene, key: SlotKey) -> bool {
        &&& self.tree_view().forgotten(old.tree_view(), key)
        &&& self.slots_view() == old.slots_view().remove(key.spec_index())
        &&& self.slot_count() == old.slot_count()
    }

    /// `self` is `old` after destroying `key` and then, in order, the subtrees of the
    /// children it had, looking at most `fuel` levels down. A key holding no widget,
    /// and the root panel (which [`torn_down`](Scene::torn_down) covers), are left alone.
    pub open spec fn destroyed(&self, old: Scene, key: SlotKey, fuel: nat) -> bool
        decreases fuel, 0int, 0int,
    {
        if fuel == 0 || old.widget(key) is None || key == old.tree_view().spec_content() {
            *self == old
        } else {
            exists|mid: Scene| #[trigger] mid.destroy_step(old, key)
                && self.children_destroyed(mid, old.children_of(key), (fuel - 1) as nat)
        }
    }

    /// `self` is `old` after destroying, in order, the subtrees of `children`.
    pub open spec fn children_destroyed(&self, old: Scene, children: Seq<ChildWidget>, fuel: nat) -> bool
        decreases fuel, 1int, children.len(),
    {
        if children.len() == 0 {
            *self == old
        } else {
            exists|mid: Scene| #[trigger] mid.slot_count() == old.slot_count()
                && mid.children_destroyed(old, children.drop_last(), fuel)
                && self.destroyed(mid, children.last().key, fuel)
        }
    }

    proof fn lemma_children_destroyed_step(&self, mid: Scene, before: Scene, t: Seq<ChildWidget>, fuel: nat)
        requires
            t.len() > 0,
            before.slot_count() == mid.slot_count(),
            before.children_destroyed(mid, t.drop_last(), fuel),
            self.destroyed(before, t.last().key, fuel),
        ensures
            self.children_destroyed(mid, t, fuel),
    {
        assert(before.slot_count() == mid.slot_count());
    }

    fn destroy_at(&mut self, key: SlotKey, fuel: usize)
        requires
            old(self).wf(),
        ensures
            final(self).wf(),
            final(self).slot_count() == old(self).slot_count(),
            final(self).destroyed(*old(self), key, fuel as nat),
        decreases fuel, 0int,
    {
        if fuel == 0 || key == self.tree.content() {
            return;
        }
        if self.slots.get(key).is_none() {
            return;
        }
        let children = self.children_of_widget(key);
        let ghost start = *self;
        self.remove_one(key);
        let ghost mid = *self;
        self.destroy_subtrees(&children, fuel - 1);
        proof {
            assert(mid.destroy_step(start, key));
        }
    }

    /// Forgets the widget `key` and frees its slot, leaving the widgets below it.
    fn remove_one(&mut self, key: SlotKey)
        requires
            old(self).wf(),
            old(self).contains(key),
            old(self).widget(key) is Some,
            key != old(self).tree_view().spec_content(),
        ensures
            final(self).wf(),
            final(self).destroy_step(*old(self), key),
    {
        let ghost start = *self;
        self.tree.forget_widget(key);
        self.slots.remove(key);
        proof {
            assert forall|k: SlotKey| !self.slots@.dom().contains(k.spec_index()) implies #[trigger] self.tree.spec_parent(k) is None by {
                if k.spec_index() == key.spec_index() {
                    SlotKey::lemma_same_index(k, key);
                } else {
                    assert(!start.slots@.dom().contains(k.spec_index()));
                    assert(start.tree.spec_parent(k) is None);
                    let m = choose|m: SceneTree| #[trigger] self.tree.forgotten_via(start.tree, key, m);
                    assert(self.tree.spec_parent(k) == m.spec_parent(k));
                }
            }
            if key.spec_index() == start.tree.spec_content().spec_index() {
                SlotKey::lemma_same_index(key, start.tree.spec_content());
            }
            assert(self.slots@.dom().contains(self.tree.spec_content().spec_index()));
        }
    }

    /// Destroys, in order, the subtrees of `children`, each looking at most `fuel`
    /// levels down.
    fn destroy_subtrees(&mut self, children: &Vec<ChildWidget>, fuel: usize)
        requires
            old(self).wf(),
        ensures
            final(self).wf(),
            final(self).slot_count() == old(self).slot_count(),
            final(self).children_destroyed(*old(self), children@, fuel as nat),
        decreases fuel, 1int,
    {
        let ghost mid = *self;
        proof {
            assert(children@.take(0) =~= Seq::<ChildWidget>::empty());
        }
        let n = children.len();
        let mut i: usize = 0;
        while i < n
            invariant
                i <= n,
                n == children@.len(),
                self.wf(),
                self.slot_count() == mid.slot_count(),
                self.children_destroyed(mid, children@.take(i as int), fuel as nat),
            decreases n - i,
        {
            let ghost before = *self;
            self.destroy_at(children[i].key, fuel);
            proof {
                let t = children@.take(i + 1);
                assert(t.drop_last() =~= children@.take(i as int));
                assert(t.last() == children@[i as int]);
                self.lemma_children_destroyed_step(mid, before, t, fuel as nat);
            }
            i = i + 1;
        }
        proof {
            assert(children@.take(n as int) =~= children@);
        }
    }

    /// `self` is `old` after its root panel is destroyed: the subtrees of the widgets
    /// shown on it are destroyed in order, then the root panel itself is forgotten and
    /// its slot freed. The scene has no root panel left, so no other operation of the
    /// scene can follow.
    pub open spec fn torn_down(&self, old: Scene) -> bool {
        exists|mid: Scene| #[trigger] mid.children_destroyed(old, old.tree_view().root_children_view(), (old.slot_count() - 1) as nat)
            && self.tree_view().forgotten(mid.tree_view(), old.tree_view().spec_content())
            && self.slots_view() == mid.slots_view().remove(old.tree_view().spec_content().spec_index())
            && self.slot_count() == old.slot_count()
    }

    /// Recursively destroys a widget and all the widgets below it, freeing their slots
    /// and forgetting them as pointed, captured, parent or popup (see
    /// [`destroyed`](Scene::destroyed)), looking as many levels down as the scene has
    /// slots; a key holding no widget is left alone. Destroying the root panel tears
    /// the scene down (see [`torn_down`](Scene::torn_down)).
    pub fn destroy_widget(&mut self, key: SlotKey)
        requires
            old(self).wf(),
        ensures
            key != old(self).tree_view().spec_content() ==> final(self).wf(),
            key != old(self).tree_view().spec_content() ==> final(self).destroyed(*old(self), key, old(self).slot_count()),
            key == old(self).tree_view().spec_content() && old(self).widget(key) is Some ==> final(self).torn_down(*old(self)),
            key == old(self).tree_view().spec_content() && old(self).widget(key) is None ==> *final(self) == *old(self),
    {
        let fuel = self.slots.slots_used();
        if key == self.tree.content() {
            if self.slots.get(key).is_none() {
                return;
            }
            proof {
                self.lemma_index_bounded(key);
            }
            let children = self.tree.root_children().clone();
            let ghost start = *self;
            self.destroy_subtrees(&children, fuel - 1);
            let ghost mid = *self;
            proof {
                mid.lemma_children_destroyed_shrinks(start, children@, (fuel - 1) as nat);
                assert(mid.contains(key));
            }
            self.tree.forget_widget(key);
            self.slots.remove(key);
            proof {
                assert(self.tree_view().forgotten(mid.tree_view(), start.tree_view().spec_content()));
            }
        } else {
            self.destroy_at(key, fuel);
        }
    }

    /// `self` keeps only widgets, parent links, pointed and captured widgets of `old`:
    /// none is added or changed, some may be gone.
    pub open spec fn shrunk_from(&self, old: Scene) -> bool {
        &&& forall|k: SlotKey| #[trigger] self.contains(k) ==> old.contains(k) && self.widget(k) == old.widget(k)
        &&& forall|k: SlotKey| #[trigger] self.tree_view().spec_parent(k) is None || self.tree_view().spec_parent(k) == old.tree_view().spec_parent(k)
        &&& (self.tree_view().spec_pointed() is None || self.tree_view().spec_pointed() == old.tree_view().spec_pointed())
        &&& (self.tree_view().spec_captured() is None || self.tree_view().spec_captured() == old.tree_view().spec_captured())
        &&& self.tree_view().spec_content() == old.tree_view().spec_content()
    }

    /// Destroying widgets only removes: no widget, parent link, pointed or captured
    /// widget is added or changed.
    pub proof fn lemma_destroyed_shrinks(&self, old: Scene, key: SlotKey, fuel: nat)
        requires
            self.destroyed(old, key, fuel),
        ensures
            self.shrunk_from(old),
        decreases fuel, 0int, 0int,
    {
        if !(fuel == 0 || old.widget(key) is None || key == old.tree_view().spec_content()) {
            let mid = choose|mid: Scene| #[trigger] mid.destroy_step(old, key)
                && self.children_destroyed(mid, old.children_of(key), (fuel - 1) as nat);
            self.lemma_children_destroyed_shrinks(mid, old.children_of(key), (fuel - 1) as nat);
            mid.lemma_step_shrinks(old, key);
        }
    }

    /// Destroying the subtrees of children only removes.
    pub proof fn lemma_children_destroyed_shrinks(&self, old: Scene, children: Seq<ChildWidget>, fuel: nat)
        requires
            self.children_destroyed(old, children, fuel),
        ensures
            self.shrunk_from(old),
        decreases fuel, 1int, children.len(),
    {
        if children.len() > 0 {
            let mid = choose|mid: Scene| #[trigger] mid.slot_count() == old.slot_count()
                && mid.children_destroyed(old, children.drop_last(), fuel)
                && self.destroyed(mid, children.last().key, fuel);
            mid.lemma_children_destroyed_shrinks(old, children.drop_last(), fuel);
            self.lemma_destroyed_shrinks(mid, children.last().key, fuel);
            assert forall|k: SlotKey| #[trigger] self.contains(k) implies old.contains(k) && self.widget(k) == old.widget(k) by {
                assert(mid.contains(k));
            }
            assert forall|k: SlotKey| #[trigger] self.tree_view().spec_parent(k) is None || self.tree_view().spec_parent(k) == old.tree_view().spec_parent(k) by {
                assert(mid.tree_view().spec_parent(k) is None || mid.tree_view().spec_parent(k) == old.tree_view().spec_parent(k));
            }
        }
    }

    /// Destroying one widget only removes.
    proof fn lemma_step_shrinks(&self, old: Scene, key: SlotKey)
        requires
            self.destroy_step(old, key),
        ensures
            self.shrunk_from(old),
            !self.contains(key),
            self.tree_view().spec_parent(key) is None,
            self.tree_view().spec_pointed() != Some(key),
            self.tree_view().spec_captured() != Some(key),
    {
        let t0 = old.tree_view();
        let t1 = self.tree_view();
        let m = choose|m: SceneTree| #[trigger] t1.forgotten_via(t0, key, m);
        assert forall|k: SlotKey| #[trigger] self.contains(k) implies old.contains(k) && self.widget(k) == old.widget(k) by {
            assert(k.spec_index() != key.spec_index());
        }
        assert forall|k: SlotKey| #[trigger] t1.spec_parent(k) is None || t1.spec_parent(k) == t0.spec_parent(k) by {
            if k.spec_index() == key.spec_index() {
                SlotKey::lemma_same_index(k, key);
            } else {
                assert(t1.spec_parent(k) == m.spec_parent(k));
            }
        }
    }

    /// Makes `new` the pointed widget. Returns the widgets that must receive a `Leave`
    /// and an `Enter` event, in that order; both are `None` when nothing changed.
    pub fn update_pointed(&mut self, new: Option<SlotKey>) -> (r: (Option<SlotKey>, Option<SlotKey>))
        requires
            old(self).wf(),
        ensures
            final(self).wf(),
            final(self).slots_view() == old(self).slots_view(),
            final(self).tree_view().pointed_to(old(self).tree_view(), new),
            final(self).tree_view().spec_pointed() == new,
            r == if old(self).tree_view().spec_pointed() == new {
                (None::<SlotKey>, None::<SlotKey>)
            } else {
                (old(self).tree_view().spec_pointed(), new)
            },
    {
        let ghost start = *self;
        let r = self.tree.update_pointed(new);
        proof {
            self.lemma_wf_kept(start);
        }
        r
    }

    /// The keys under which the application state holds the properties of the widget
    /// under `key`.
    pub open spec fn spec_property_keys(&self, key: SlotKey) -> PropertyKeys {
        let none = PropertyKeys { enabled: None, checked: None, selected: None };
        match self.widget(key) {
            Some(Widget::Button(b)) => PropertyKeys { enabled: key_of(b.spec_enabled()), ..none },
            Some(Widget::Checkbox(c)) => PropertyKeys { enabled: key_of(c.spec_enabled()), checked: key_of(c.spec_checked()), ..none },
            Some(Widget::RadioButton(b)) => PropertyKeys { enabled: key_of(b.spec_enabled()), selected: key_of(b.spec_property()), ..none },
            Some(Widget::MenuItem(i)) => PropertyKeys { enabled: key_of(i.spec_enabled()), ..none },
            Some(Widget::MenuBarItem(i)) => PropertyKeys { enabled: key_of(i.spec_enabled()), ..none },
            _ => none,
        }
    }

    /// Returns the keys under which the application state holds the properties of the
    /// widget under `key`, to be looked up before it handles an event.
    pub fn property_keys(&self, key: SlotKey) -> (r: PropertyKeys)
        ensures
            r == self.spec_property_keys(key),
    {
        let none = PropertyKeys { enabled: None, checked: None, selected: None };
        match self.slots.get(key) {
            Some(Widget::Button(b)) => PropertyKeys { enabled: b.enabled_property().key(), ..none },
            Some(Widget::Checkbox(c)) => PropertyKeys { enabled: c.enabled_property().key(), checked: c.checked_property().key(), ..none },
            Some(Widget::RadioButton(b)) => PropertyKeys { enabled: b.enabled_property().key(), selected: b.selected_property().key(), ..none },
            Some(Widget::MenuItem(i)) => PropertyKeys { enabled: i.enabled_property().key(), ..none },
            Some(Widget::MenuBarItem(i)) => PropertyKeys { enabled: i.enabled_property().key(), ..none },
            _ => none,
        }
    }

    /// The cursor the widget under `key` asks for, `enabled` being what the
    /// application state holds for its `enabled` property; `None` inherits the cursor
    /// of the widget's parent.
    pub open spec fn spec_widget_cursor(&self, key: SlotKey, enabled: Option<bool>) -> Option<Cursor> {
        let pointer = |p: Property<bool>| if crate::widgets::resolved_or(p, enabled, true) { Some(Cursor::Pointer) } else { None };
        match self.widget(key) {
            Some(Widget::Root(_)) | Some(Widget::Panel(_)) | Some(Widget::Menu(_)) | Some(Widget::MenuBar(_)) => Some(Cursor::Default),
            Some(Widget::Button(b)) => pointer(b.spec_enabled()),
            Some(Widget::Checkbox(c)) => pointer(c.spec_enabled()),
            Some(Widget::RadioButton(b)) => pointer(b.spec_enabled()),
            Some(Widget::MenuItem(i)) => pointer(i.spec_enabled()),
            Some(Widget::MenuBarItem(i)) => pointer(i.spec_enabled()),
            Some(Widget::Window(w)) => Some(if w.spec_drag_offset() is Some { Cursor::Grabbing } else { Cursor::Grab }),
            Some(Widget::ScrollPanel(p)) => if p.spec_vbar().spec_drag_offset() is Some {
                Some(Cursor::Grabbing)
            } else if p.spec_vbar().spec_hover_thumb() {
                Some(Cursor::Grab)
            } else {
                None
            },
            Some(Widget::Separator(_)) | Some(Widget::ColorSwatch(_)) | Some(Widget::DrawGrid(_)) | None => None,
        }
    }

    /// Returns the cursor the widget under `key` asks for, given what the application
    /// state holds for its `enabled` property.
    pub fn widget_cursor(&self, key: SlotKey, enabled: Option<bool>) -> (r: Option<Cursor>)
        ensures
            r == self.spec_widget_cursor(key, enabled),
    {
        match self.slots.get(key) {
            Some(Widget::Root(_)) => Some(Cursor::Default),
            Some(Widget::Panel(p)) => p.cursor(),
            Some(Widget::Menu(m)) => m.cursor(),
            Some(Widget::MenuBar(m)) => m.cursor(),
            Some(Widget::Button(b)) => b.cursor(enabled),
            Some(Widget::Checkbox(c)) => c.cursor(enabled),
            Some(Widget::RadioButton(b)) => b.cursor(enabled),
            Some(Widget::MenuItem(i)) => i.cursor(enabled),
            Some(Widget::MenuBarItem(i)) => i.cursor(enabled),
            Some(Widget::Window(w)) => w.cursor(),
            Some(Widget::ScrollPanel(p)) => p.cursor(),
            Some(Widget::Separator(_)) | Some(Widget::ColorSwatch(_)) | Some(Widget::DrawGrid(_)) => None,
            None => None,
        }
    }

    /// Which of `children` are separators of the scene.
    pub open spec fn separator_rows(&self, children: Seq<ChildWidget>) -> Seq<bool> {
        Seq::new(children.len(), |i: int| self.widget(children[i].key) matches Some(Widget::Separator(_)))
    }

    /// What laying out the widget under `key` at `bounds` needs, `title` being the
    /// measured size of a window's title: its arithmetic stays within `i32`.
    pub open spec fn layout_fits(&self, key: SlotKey, bounds: Bounds2i, title: Option<(i32, i32)>) -> bool {
        match self.widget(key) {
            Some(Widget::Root(_)) => self.tree_view().layout_fits(),
            Some(Widget::Button(_)) => bounds.size_fits(),
            Some(Widget::Menu(m)) => row_top(self.separator_rows(m.children_view()), m.children_view().len() as int) <= i32::MAX,
            Some(Widget::MenuBar(m)) => bounds.size_fits() && m.children_view().len() * crate::widgets::MENU_BAR_ITEM_WIDTH <= i32::MAX,
            Some(Widget::ScrollPanel(p)) => {
                &&& bounds.size_fits()
                &&& crate::geom::fits_i32(p.spec_content_height() - bounds.spec_height())
                &&& p.spec_content_height() >= 0
            },
            Some(Widget::Window(_)) => {
                &&& bounds.size_fits()
                &&& title matches Some((w, h)) && crate::widgets::header_fits(w as int, h as int)
            },
            _ => true,
        }
    }

    /// Returns whether the widget under `key` may be laid out at `bounds` (see
    /// [`layout_fits`](Scene::layout_fits)).
    pub fn check_layout_fits(&self, key: SlotKey, bounds: Bounds2i, title: Option<(i32, i32)>) -> (r: bool)
        ensures
            r == self.layout_fits(key, bounds, title),
    {
        let min = i32::MIN as i64;
        let max = i32::MAX as i64;
        let w = bounds.maxs.x as i64 - bounds.mins.x as i64;
        let h = bounds.maxs.y as i64 - bounds.mins.y as i64;
        let size_fits = min <= w && w <= max && min <= h && h <= max;
        match self.slots.get(key) {
            Some(Widget::Root(_)) => self.tree.check_layout_fits(),
            Some(Widget::Button(_)) => size_fits,
            Some(Widget::Menu(m)) => {
                let children = m.children();
                let mut top: i64 = 0;
                let mut i: usize = 0;
                while i < children.len()
                    invariant
                        i <= children@.len(),
                        top == row_top(self.separator_rows(m.children_view()), i as int),
                        top <= i32::MAX,
                        children@ == m.children_view(),
                        self.widget(key) == Some(Widget::Menu(*m)),
                    decreases children@.len() - i,
                {
                    let sep = match self.slots.get(children[i].key) {
                        Some(Widget::Separator(_)) => true,
                        _ => false,
                    };
                    proof {
                        assert(self.separator_rows(m.children_view())[i as int] == sep);
                        crate::widgets::lemma_row_top_monotone(self.separator_rows(m.children_view()), i as int, i as int);
                    }
                    top = top + if sep { crate::widgets::SEPARATOR_HEIGHT as i64 } else { crate::widgets::MENU_ITEM_HEIGHT as i64 };
                    if top > i32::MAX as i64 {
                        proof {
                            let seps = self.separator_rows(m.children_view());
                            assert(top == row_top(seps, i + 1));
                            crate::widgets::lemma_row_top_monotone(seps, i + 1, children@.len() as int);
                            assert(row_top(seps, m.children_view().len() as int) > i32::MAX);
                        }
                        return false;
                    }
                    i = i + 1;
                }
                true
            },
            Some(Widget::MenuBar(m)) => size_fits && m.children().len() <= (i32::MAX as usize) / 88,
            Some(Widget::ScrollPanel(p)) => {
                let d = p.content_height() as i64 - h;
                size_fits && min <= d && d <= max && p.content_height() >= 0
            },
            Some(Widget::Window(_)) => match title {
                Some((tw, th)) => {
                    let a = tw as i64 + 2 * crate::widgets::HEADER_PAD_X as i64;
                    let b = th as i64 + 2 * crate::widgets::HEADER_PAD_Y as i64 + 4;
                    size_fits && min <= a && a <= max && min <= b && b <= max
                },
                None => false,
            },
            _ => true,
        }
    }

    /// What [`layout_widget`](Scene::layout_widget) does, from the scene `old`: the
    /// widget under `key` is laid out at `bounds` as its own `layout` does, a menu
    /// with its separator rows as the scene holds them and a window for a title
    /// measured `title`; a widget with nothing to lay out is left as it was.
    pub open spec fn widget_laid_out(&self, old: Scene, key: SlotKey, bounds: Bounds2i, title: Option<(i32, i32)>) -> bool {
        match old.widget(key) {
            Some(Widget::Root(_)) => {
                &&& self.slots_view() == old.slots_view()
                &&& self.tree_view().root_laid_out(old.tree_view())
            },
            Some(Widget::Button(w0)) => {
                &&& self.tree_view() == old.tree_view()
                &&& self.widget(key) matches Some(Widget::Button(w1)) && w1.laid_out(w0, bounds)
            },
            Some(Widget::Menu(w0)) => {
                &&& self.tree_view() == old.tree_view()
                &&& self.widget(key) matches Some(Widget::Menu(w1)) && w1.laid_out(w0, old.separator_rows(w0.children_view()))
            },
            Some(Widget::MenuBar(w0)) => {
                &&& self.tree_view() == old.tree_view()
                &&& self.widget(key) matches Some(Widget::MenuBar(w1)) && w1.laid_out(w0, bounds.spec_height() as i32)
            },
            Some(Widget::ScrollPanel(w0)) => {
                &&& self.tree_view() == old.tree_view()
                &&& self.widget(key) matches Some(Widget::ScrollPanel(w1)) && w1.laid_out(w0, Vec2i { x: bounds.spec_width() as i32, y: bounds.spec_height() as i32 })
            },
            Some(Widget::Window(w0)) => {
                &&& self.tree_view() == old.tree_view()
                &&& (title matches Some((tw, th)) && self.widget(key) matches Some(Widget::Window(w1)) && w1.laid_out(w0, tw, th, bounds))
            },
            Some(_) => {
                &&& self.tree_view() == old.tree_view()
                &&& self.widget(key) == old.widget(key)
            },
            None => *self == old,
        }
    }

    /// Lays out the widget under `key` at `bounds` (scene coordinates): the root panel
    /// keeps its children inside the scene, a button's content fills it, a menu stacks
    /// its rows (separators thinner), a menu bar places its items side by side, a scroll
    /// panel fits its scrollbar and content, and a window sizes its header for its
    /// title, measured `title`.
    pub fn layout_widget(&mut self, key: SlotKey, bounds: Bounds2i, title: Option<(i32, i32)>)
        requires
            old(self).wf(),
            old(self).layout_fits(key, bounds, title),
        ensures
            final(self).wf(),
            forall|k: SlotKey| k != key ==> #[trigger] final(self).widget(k) == old(self).widget(k),
            forall|k: SlotKey| #[trigger] final(self).contains(k) == old(self).contains(k),
            forall|k: SlotKey| #[trigger] final(self).tree_view().spec_parent(k) == old(self).tree_view().spec_parent(k),
            old(self).widget(key) matches Some(w0) ==> (final(self).widget(key) matches Some(w1) && w1.spec_key() == w0.spec_key()),
            final(self).widget_laid_out(*old(self), key, bounds, title),
    {
        let separators = match self.slots.get(key) {
            None => {
                return;
            },
            Some(Widget::Root(_)) => {
                let ghost start = *self;
                self.tree.layout_root();
                proof {
                    self.lemma_wf_kept(start);
                }
                return;
            },
            Some(Widget::Menu(m)) => {
                let children = m.children();
                let mut seps: Vec<bool> = Vec::new();
                let mut i: usize = 0;
                while i < children.len()
                    invariant
                        i <= children@.len(),
                        seps@.len() == i,
                        forall|j: int| 0 <= j < i ==> #[trigger] seps@[j] == (self.widget(children@[j].key) matches Some(Widget::Separator(_))),
                    decreases children@.len() - i,
                {
                    let sep = match self.slots.get(children[i].key) {
                        Some(Widget::Separator(_)) => true,
                        _ => false,
                    };
                    seps.push(sep);
                    i = i + 1;
                }
                proof {
                    assert(seps@ =~= self.separator_rows(m.children_view()));
                }
                seps
            },
            Some(_) => Vec::new(),
        };
        proof {
            self.lemma_index_bounded(key);
        }
        let ghost start = *self;
        let w = self.take_widget(key);
        let w = match w {
            Widget::Button(mut b) => {
                b.layout(bounds);
                Widget::Button(b)
            },
            Widget::Menu(mut m) => {
                m.layout(&separators);
                Widget::Menu(m)
            },
            Widget::MenuBar(mut m) => {
                m.layout(bounds.height());
                Widget::MenuBar(m)
            },
            Widget::ScrollPanel(mut p) => {
                p.layout(bounds.size());
                Widget::ScrollPanel(p)
            },
            Widget::Window(mut win) => {
                let (tw, th) = match title {
                    Some(t) => t,
                    None => vstd::pervasive::unreached(),
                };
                win.layout(tw, th, bounds);
                Widget::Window(win)
            },
            other => other,
        };
        self.put_widget(key, w);
        proof {
            assert forall|k: SlotKey| k != key implies #[trigger] self.widget(k) == start.widget(k) by {
                if k.spec_index() == key.spec_index() {
                    SlotKey::lemma_same_index(k, key);
                }
            }
        }
    }

    /// What [`widget_event`](Scene::widget_event) does, from the scene `old`: the widget
    /// under `key` handles `mouse` as its own `event` does, with the looked-up
    /// properties `looked`, and what that returns comes back as `r`. A menu only
    /// asks to truncate the popup chain; the root panel drags its children; a widget
    /// that takes no input is left as it was.
    pub open spec fn widget_event_applied(&self, old: Scene, key: SlotKey, mouse: MouseEvent, target: SlotKey, bounds: Bounds2i, looked: LookedUp, r: Option<WidgetAction>) -> bool {
        match old.widget(key) {
            Some(Widget::Root(_)) => {
                &&& r is None
                &&& self.slots_view() == old.slots_view()
                &&& self.tree_view().root_event_applied(old.tree_view(), mouse.kind, mouse.pointer, target, old.root_draggable(mouse.pointer))
            },
            Some(Widget::Menu(m)) => {
                &&& r is None
                &&& self.slots_view() == old.slots_view()
                &&& self.tree_view().spec_popup_request() == if target == m.spec_key() && (mouse.kind == MouseEventKind::Enter || mouse.kind == MouseEventKind::Move) {
                    Some(PopupRequest::Truncate { after: Some(m.spec_key()) })
                } else {
                    old.tree_view().spec_popup_request()
                }
                &&& self.tree_view().unchanged_except_request(old.tree_view())
            },
            Some(Widget::Button(w0)) => {
                &&& (r is None || r matches Some(WidgetAction::ButtonClicked(_)))
                &&& self.tree_view() == old.tree_view()
                &&& self.widget(key) matches Some(Widget::Button(w1)) && w1.event_applied(w0, mouse.kind, target, looked.enabled, as_button_clicked(r))
            },
            Some(Widget::Checkbox(w0)) => {
                &&& (r is None || r matches Some(WidgetAction::CheckboxChanged(_)))
                &&& self.tree_view() == old.tree_view()
                &&& self.widget(key) matches Some(Widget::Checkbox(w1)) && w1.event_applied(w0, mouse.kind, target, looked.enabled, looked.checked, as_checkbox_changed(r))
            },
            Some(Widget::RadioButton(w0)) => {
                &&& (r is None || r matches Some(WidgetAction::RadioButtonChanged(_)))
                &&& self.tree_view() == old.tree_view()
                &&& self.widget(key) matches Some(Widget::RadioButton(w1)) && w1.event_applied(w0, mouse.kind, target, looked.enabled, looked.selected, as_radio_button_changed(r))
            },
            Some(Widget::MenuItem(w0)) => {
                &&& (r is None || r matches Some(WidgetAction::MenuItemClicked(_)))
                &&& self.widget(key) matches Some(Widget::MenuItem(w1)) && w1.event_applied(w0, mouse.kind, target, bounds, looked.enabled, old.tree_view(), self.tree_view(), as_menu_item_clicked(r))
            },
            Some(Widget::MenuBarItem(w0)) => {
                &&& r is None
                &&& self.widget(key) matches Some(Widget::MenuBarItem(w1)) && w1.event_applied(w0, mouse.kind, target, bounds, looked.enabled, old.tree_view(), self.tree_view())
            },
            Some(Widget::Window(w0)) => {
                &&& r is None
                &&& self.widget(key) matches Some(Widget::Window(w1)) && w1.event_applied(w0, mouse.kind, mouse.pointer, target, bounds, old.tree_view(), self.tree_view())
            },
            Some(Widget::ScrollPanel(w0)) => {
                &&& r is None
                &&& self.widget(key) matches Some(Widget::ScrollPanel(w1)) && w1.event_applied(w0, mouse, bounds, old.tree_view(), self.tree_view())
            },
            Some(_) => {
                &&& r is None
                &&& self.widget(key) == old.widget(key)
                &&& self.tree_view() == old.tree_view()
            },
            None => r is None && *self == old,
        }
    }

    /// What letting the widget under `key`, lying at `bounds`, handle `mouse` aimed at
    /// `target` needs: its arithmetic stays within `i32`.
    pub open spec fn event_fits(&self, key: SlotKey, mouse: MouseEvent, target: SlotKey, bounds: Bounds2i) -> bool {
        match self.widget(key) {
            Some(Widget::Root(_)) => self.tree_view().root_event_fits(mouse.kind, mouse.pointer),
            Some(Widget::Window(w)) => target == w.spec_key() && mouse.kind.is_left_down() ==> mouse.pointer.can_sub(bounds.mins),
            Some(Widget::ScrollPanel(p)) => p.event_fits(mouse, bounds),
            _ => true,
        }
    }

    /// Returns whether the widget under `key` may handle `mouse` at `bounds` (see
    /// [`event_fits`](Scene::event_fits)).
    pub fn check_event_fits(&self, key: SlotKey, mouse: MouseEvent, target: SlotKey, bounds: Bounds2i) -> (r: bool)
        ensures
            r == self.event_fits(key, mouse, target, bounds),
    {
        match self.slots.get(key) {
            Some(Widget::Root(_)) => self.tree.check_root_event_fits(mouse.kind, mouse.pointer),
            Some(Widget::Window(w)) => {
                if w.key() == target && mouse.kind.left_down() {
                    let dx = mouse.pointer.x as i64 - bounds.mins.x as i64;
                    let dy = mouse.pointer.y as i64 - bounds.mins.y as i64;
                    i32::MIN as i64 <= dx && dx <= i32::MAX as i64 && i32::MIN as i64 <= dy && dy <= i32::MAX as i64
                } else {
                    true
                }
            },
            Some(Widget::ScrollPanel(p)) => p.check_event_fits(mouse, bounds),
            _ => true,
        }
    }

    /// Returns whether the route of an event aimed at `target` holds at most
    /// [`ROUTE_CAPACITY`](crate::scene::ROUTE_CAPACITY) widgets.
    pub fn check_route(&self, target: SlotKey) -> (r: bool)
        ensures
            r == (self.tree_view().path_up(target, crate::scene::ROUTE_CAPACITY as nat).len() <= crate::scene::ROUTE_CAPACITY),
    {
        self.tree.check_route(target)
    }

    /// Lets the widget under `key`, lying at `bounds` (scene coordinates), handle
    /// `mouse` aimed at `target`, given what the application state holds for its
    /// properties; returns what the widget reports. The root panel drags its children,
    /// and a widget that does not react to the pointer is left as it is.
    pub fn widget_event(&mut self, key: SlotKey, mouse: MouseEvent, target: SlotKey, bounds: Bounds2i, looked: LookedUp) -> (r: Option<WidgetAction>)
        requires
            old(self).wf(),
            old(self).event_fits(key, mouse, target, bounds),
        ensures
            final(self).wf(),
            forall|k: SlotKey| k != key ==> #[trigger] final(self).widget(k) == old(self).widget(k),
            forall|k: SlotKey| #[trigger] final(self).contains(k) == old(self).contains(k),
            forall|k: SlotKey| #[trigger] final(self).tree_view().spec_parent(k) == old(self).tree_view().spec_parent(k),
            old(self).widget(key) matches Some(w0) ==> (final(self).widget(key) matches Some(w1) && w1.spec_key() == w0.spec_key()),
            final(self).widget_event_applied(*old(self), key, mouse, target, bounds, looked, r),
    {
        match self.slots.get(key) {
            None => {
                return None;
            },
            Some(Widget::Root(_)) => {
                self.root_event(mouse.kind, mouse.pointer, target);
                return None;
            },
            Some(Widget::Menu(m)) => {
                let ghost start = *self;
                m.event(mouse.kind, target, &mut self.tree);
                proof {
                    self.lemma_wf_kept(start);
                }
                return None;
            },
            _ => {},
        }
        proof {
            self.lemma_index_bounded(key);
        }
        let ghost start = *self;
        let w = self.take_widget(key);
        let ghost taken = *self;
        let (w, r) = match w {
            Widget::Button(mut b) => {
                let r = b.event(mouse.kind, target, looked.enabled);
                (Widget::Button(b), match r {
                    Some(c) => Some(WidgetAction::ButtonClicked(c)),
                    None => None,
                })
            },
            Widget::Checkbox(mut c) => {
                let r = c.event(mouse.kind, target, looked.enabled, looked.checked);
                (Widget::Checkbox(c), match r {
                    Some(c) => Some(WidgetAction::CheckboxChanged(c)),
                    None => None,
                })
            },
            Widget::RadioButton(mut b) => {
                let r = b.event(mouse.kind, target, looked.enabled, looked.selected);
                (Widget::RadioButton(b), match r {
                    Some(c) => Some(WidgetAction::RadioButtonChanged(c)),
                    None => None,
                })
            },
            Widget::MenuItem(mut item) => {
                let r = item.event(mouse.kind, target, bounds, looked.enabled, &mut self.tree);
                (Widget::MenuItem(item), match r {
                    Some(c) => Some(WidgetAction::MenuItemClicked(c)),
                    None => None,
                })
            },
            Widget::MenuBarItem(mut item) => {
                item.event(mouse.kind, target, bounds, looked.enabled, &mut self.tree);
                (Widget::MenuBarItem(item), None)
            },
            Widget::Window(mut win) => {
                win.event(mouse.kind, mouse.pointer, target, bounds, &mut self.tree);
                (Widget::Window(win), None)
            },
            Widget::ScrollPanel(mut panel) => {
                panel.event(mouse, bounds, &mut self.tree);
                (Widget::ScrollPanel(panel), None)
            },
            other => (other, None),
        };
        proof {
            self.lemma_wf_kept(taken);
        }
        self.put_widget(key, w);
        proof {
            assert forall|k: SlotKey| k != key implies #[trigger] self.widget(k) == start.widget(k) by {
                if k.spec_index() == key.spec_index() {
                    SlotKey::lemma_same_index(k, key);
                }
            }
        }
        r
    }

    /// Returns the widget with the given key, if any.
    pub fn get_widget(&self, key: SlotKey) -> (r: Option<&Widget>)
        ensures
            match r {
                Some(w) => self.widget(key) == Some(*w),
                None => self.widget(key) is None,
            },
    {
        self.slots.get(key)
    }

    /// Returns the widget with the given key mutably, if any.
    pub fn get_widget_mut(&mut self, key: SlotKey) -> (r: Option<&mut Widget>)
        requires
            old(self).wf(),
        ensures
            match r {
                Some(w) => {
                    &&& old(self).widget(key) == Some(*w)
                    &&& final(self).wf()
                    &&& final(self).slots_view() == old(self).slots_view().insert(key.spec_index(), Some(*final(w)))
                    &&& final(self).tree_view() == old(self).tree_view()
                    &&& final(self).slot_count() == old(self).slot_count()
                },
                None => {
                    &&& old(self).widget(key) is None
                    &&& *final(self) == *old(self)
                },
            },
    {
        self.slots.get_mut(key)
    }

    /// Resizes the scene to the given size.
    pub fn resize(&mut self, size: Vec2i)
        requires
            old(self).wf(),
        ensures
            final(self).wf(),
            final(self).tree_view().spec_size() == size,
            final(self).slots_view() == old(self).slots_view(),
            forall|k: SlotKey| #[trigger] final(self).tree_view().spec_parent(k) == old(self).tree_view().spec_parent(k),
            final(self).tree_view().root_children_view() == old(self).tree_view().root_children_view(),
            final(self).tree_view().popup_chain_view() == old(self).tree_view().popup_chain_view(),
    {
        self.tree.resize(size);
    }

    /// Returns the scene size.
    pub fn size(&self) -> (r: Vec2i)
        ensures
            r == self.tree_view().spec_size(),
    {
        self.tree.size()
    }

    /// Returns the parent of the given widget, if any.
    pub fn parent(&self, key: SlotKey) -> (r: Option<SlotKey>)
        ensures
            r == self.tree_view().spec_parent(key),
    {
        self.tree.parent(key)
    }

    /// Returns whether a widget is currently attached directly to the root panel.
    pub fn is_shown(&self, key: SlotKey) -> (r: bool)
        ensures
            r == self.tree_view().spec_is_shown(key),
    {
        self.tree.is_shown(key)
    }

    /// Returns the menus of the active popup chain, from the root menu outwards.
    pub fn popup_chain(&self) -> (r: Vec<SlotKey>)
        ensures
            r@ == self.tree_view().popup_chain_view(),
    {
        self.tree.popup_chain().clone()
    }

    /// A scene whose slots are those of `old` and whose structure only cleared or kept
    /// the parents of widgets not in the scene is well formed.
    proof fn lemma_wf_kept(&self, old: Scene)
        requires
            old.wf(),
            self.slots == old.slots,
            self.tree.wf(),
            self.tree.spec_content() == old.tree.spec_content(),
            forall|k: SlotKey| !old.slots@.dom().contains(k.spec_index()) ==> #[trigger] self.tree.spec_parent(k) is None || self.tree.spec_parent(k) == old.tree.spec_parent(k),
        ensures
            self.wf(),
    {
        assert forall|k: SlotKey| !self.slots@.dom().contains(k.spec_index()) implies #[trigger] self.tree.spec_parent(k) is None by {
            assert(old.tree.spec_parent(k) is None);
        }
    }

    /// Shows the widget on the root panel with given bounds; if it already is attached,
    /// its bounds are updated.
    pub fn show(&mut self, key: SlotKey, bounds: Bounds2i)
        requires
            old(self).wf(),
            old(self).widget(key) is Some,
            old(self).tree_view().spec_parent(key) is None || old(self).tree_view().spec_parent(key) == Some(old(self).tree_view().spec_content()),
        ensures
            final(self).wf(),
            final(self).slots_view() == old(self).slots_view(),
            final(self).slot_count() == old(self).slot_count(),
            final(self).tree_view().show_applied(old(self).tree_view(), key, bounds),
    {
        proof {
            self.lemma_index_bounded(key);
        }
        let ghost start = *self;
        self.tree.show(key, bounds);
        proof {
            assert forall|k: SlotKey| !start.slots@.dom().contains(k.spec_index()) implies #[trigger] self.tree.spec_parent(k) is None || self.tree.spec_parent(k) == start.tree.spec_parent(k) by {
                if k.spec_index() == key.spec_index() {
                    SlotKey::lemma_same_index(k, key);
                }
            }
            self.lemma_wf_kept(start);
        }
    }

    /// Hides the widget from the root panel: it is detached, not destroyed.
    pub fn hide_widget(&mut self, key: SlotKey)
        requires
            old(self).wf(),
            old(self).widget(key) is Some,
            old(self).tree_view().spec_is_shown(key),
        ensures
            final(self).wf(),
            final(self).slots_view() == old(self).slots_view(),
            final(self).tree_view().hide_applied(old(self).tree_view(), key),
    {
        let ghost start = *self;
        self.tree.hide_widget(key);
        proof {
            self.lemma_wf_kept(start);
        }
    }

    /// Brings the top level widget with the given key to the front of the root panel.
    pub fn bring_to_front(&mut self, key: SlotKey) -> (found: bool)
        requires
            old(self).wf(),
        ensures
            final(self).wf(),
            final(self).slots_view() == old(self).slots_view(),
            found == crate::scene::child_position(old(self).tree_view().root_children_view(), key) is Some,
            final(self).tree_view().root_children_view() == match crate::scene::child_position(old(self).tree_view().root_children_view(), key) {
                Some(i) => old(self).tree_view().root_children_view().remove(i).push(old(self).tree_view().root_children_view()[i]),
                None => old(self).tree_view().root_children_view(),
            },
            forall|k: SlotKey| #[trigger] final(self).tree_view().spec_parent(k) == old(self).tree_view().spec_parent(k),
            final(self).tree_view().popup_chain_view() == old(self).tree_view().popup_chain_view(),
    {
        let ghost start = *self;
        let found = self.tree.bring_to_front(key);
        proof {
            self.lemma_wf_kept(start);
        }
        found
    }

    /// Shows a menu as the root of a new popup chain, replacing any open chain.
    pub fn show_popup(&mut self, menu: SlotKey, bounds: Bounds2i)
        requires
            old(self).wf(),
            old(self).widget(menu) is Some,
            old(self).tree_view().spec_parent(menu) is None || old(self).tree_view().spec_parent(menu) == Some(old(self).tree_view().spec_content()),
        ensures
            final(self).wf(),
            final(self).slots_view() == old(self).slots_view(),
            exists|mid: SceneTree| #[trigger] mid.popup_tail_closed(old(self).tree_view(), 0) && final(self).tree_view().menu_opened(mid, menu, bounds),
            final(self).tree_view().popup_chain_view() == seq![menu],
            final(self).tree_view().spec_popup_owner() is None,
            final(self).tree_view().spec_popup_request() is None,
    {
        proof {
            self.lemma_index_bounded(menu);
        }
        let ghost start = *self;
        self.tree.show_popup(menu, bounds);
        proof {
            let mid = choose|mid: SceneTree| #[trigger] mid.popup_tail_closed(start.tree, 0) && self.tree.menu_opened(mid, menu, bounds);
            assert forall|k: SlotKey| !start.slots@.dom().contains(k.spec_index()) implies #[trigger] self.tree.spec_parent(k) is None || self.tree.spec_parent(k) == start.tree.spec_parent(k) by {
                assert(k != menu);
                assert(self.tree.spec_parent(k) == mid.spec_parent(k));
            }
            self.lemma_wf_kept(start);
        }
    }

    /// Queues a menu to open from an arbitrary anchor widget after event routing.
    pub fn open_popup(&mut self, anchor_widget: SlotKey, menu: SlotKey, anchor_bounds: Bounds2i)
        requires
            old(self).wf(),
        ensures
            final(self).wf(),
            final(self).slots_view() == old(self).slots_view(),
            final(self).tree_view().spec_popup_request() == Some(crate::scene::PopupRequest::Open { anchor_widget, menu, anchor_bounds }),
            final(self).tree_view().unchanged_except_request(old(self).tree_view()),
    {
        let ghost start = *self;
        self.tree.open_popup(anchor_widget, menu, anchor_bounds);
        proof {
            self.lemma_wf_kept(start);
        }
    }

    /// Queues the popup chain to be truncated after event routing: `Some(menu)` keeps
    /// the chain through that menu, `None` closes it all.
    pub fn close_popup(&mut self, after: Option<SlotKey>)
        requires
            old(self).wf(),
        ensures
            final(self).wf(),
            final(self).slots_view() == old(self).slots_view(),
            final(self).tree_view().spec_popup_request() == Some(crate::scene::PopupRequest::Truncate { after }),
            final(self).tree_view().unchanged_except_request(old(self).tree_view()),
    {
        let ghost start = *self;
        self.tree.close_popup(after);
        proof {
            self.lemma_wf_kept(start);
        }
    }

    /// Hides the active popup chain without destroying its menus.
    pub fn hide_popup(&mut self)
        requires
            old(self).wf(),
        ensures
            final(self).wf(),
            final(self).slots_view() == old(self).slots_view(),
            final(self).tree_view().popup_tail_closed(old(self).tree_view(), 0),
            final(self).tree_view().popup_chain_view().len() == 0,
            final(self).tree_view().spec_popup_owner() is None,
            final(self).tree_view().spec_popup_request() is None,
    {
        let ghost start = *self;
        self.tree.hide_popup();
        proof {
            self.lemma_wf_kept(start);
        }
    }

    /// Returns whether `widget` owns the active popup chain.
    pub fn popup_owned_by(&self, widget: SlotKey) -> (r: bool)
        ensures
            r == (self.tree_view().spec_popup_owner() == Some(widget) && self.tree_view().popup_chain_view().len() > 0),
    {
        self.tree.popup_owned_by(widget)
    }

    /// Returns whether the active popup was opened by a sibling of `widget`.
    pub fn popup_owned_by_sibling(&self, widget: SlotKey) -> (r: bool)
        ensures
            r == (match self.tree_view().spec_popup_owner() {
                Some(owner) => self.tree_view().spec_parent(owner) is Some && self.tree_view().spec_parent(owner) == self.tree_view().spec_parent(widget),
                None => false,
            }),
    {
        self.tree.popup_owned_by_sibling(widget)
    }

    /// Whether pressing a mouse button with `hovered` under the pointer closes the
    /// popup chain: a chain is open and the press is neither inside one of its menus
    /// nor on a sibling of the widget that opened it.
    pub open spec fn spec_press_dismisses_popup(&self, hovered: Option<SlotKey>) -> bool {
        &&& self.tree_view().popup_chain_view().len() > 0
        &&& !(hovered matches Some(t) && (self.tree_view().spec_over_popup(t) || match self.tree_view().spec_popup_owner() {
            Some(owner) => self.tree_view().spec_parent(owner) is Some && self.tree_view().spec_parent(owner) == self.tree_view().spec_parent(t),
            None => false,
        }))
    }

    /// Returns whether pressing a mouse button with `hovered` under the pointer closes
    /// the popup chain.
    pub fn press_dismisses_popup(&self, hovered: Option<SlotKey>) -> (r: bool)
        ensures
            r == self.spec_press_dismisses_popup(hovered),
    {
        if self.tree.popup_chain().len() == 0 {
            return false;
        }
        match hovered {
            None => true,
            Some(t) => !(self.tree.over_popup(t) || self.tree.popup_owned_by_sibling(t)),
        }
    }

    /// Returns the route of an event aimed at `target`: `target` first, then each
    /// parent up to the widget without parent.
    pub fn route_to(&self, target: SlotKey) -> (r: Vec<SlotKey>)
        requires
            self.tree_view().path_up(target, crate::scene::ROUTE_CAPACITY as nat).len() <= crate::scene::ROUTE_CAPACITY,
        ensures
            r@ == self.tree_view().path_up(target, crate::scene::ROUTE_CAPACITY as nat),
    {
        self.tree.route_to(target)
    }

    /// Returns the scene bounds of `child` along an event route, given those of its
    /// parent: its bounds in the parent moved by the parent's corner.
    pub fn child_route_bounds(&self, parent: SlotKey, child: SlotKey, parent_bounds: Bounds2i) -> (r: Bounds2i)
        requires
            child_position(self.children_of(parent), child) is Some,
            self.children_of(parent)[child_position(self.children_of(parent), child)->Some_0].bounds.can_translate(parent_bounds.mins),
        ensures
            r == self.children_of(parent)[child_position(self.children_of(parent), child)->Some_0].bounds.spec_translate(parent_bounds.mins),
    {
        let children = self.children_of_widget(parent);
        match position_of(&children, child) {
            Some(i) => children[i].bounds.translate(parent_bounds.mins),
            None => vstd::pervasive::unreached(),
        }
    }

    /// Captures mouse routing to `target` until it is released again.
    pub fn capture_pointer(&mut self, target: SlotKey)
        requires
            old(self).wf(),
        ensures
            final(self).wf(),
            final(self).slots_view() == old(self).slots_view(),
            final(self).tree_view().spec_captured() == Some(target),
    {
        let ghost start = *self;
        self.tree.capture_pointer(target);
        proof {
            self.lemma_wf_kept(start);
        }
    }

    /// Releases any current mouse capture.
    pub fn release_pointer(&mut self)
        requires
            old(self).wf(),
        ensures
            final(self).wf(),
            final(self).slots_view() == old(self).slots_view(),
            final(self).tree_view().spec_captured() is None,
    {
        let ghost start = *self;
        self.tree.release_pointer();
        proof {
            self.lemma_wf_kept(start);
        }
    }

    /// The height of `menu`, when it is a menu of the scene.
    pub open spec fn spec_menu_height(&self, menu: SlotKey) -> Option<i32> {
        match self.widget(menu) {
            Some(Widget::Menu(m)) => Some(m.spec_height()),
            _ => None,
        }
    }

    /// Returns the height of `menu`, when it is a menu of the scene.
    pub fn menu_height(&self, menu: SlotKey) -> (r: Option<i32>)
        ensures
            r == self.spec_menu_height(menu),
    {
        match self.slots.get(menu) {
            Some(Widget::Menu(m)) => Some(m.height()),
            _ => None,
        }
    }

    /// The height the queued open request's menu has, if one is queued and is a menu.
    pub open spec fn requested_height(&self) -> Option<i32> {
        match self.tree_view().spec_popup_request() {
            Some(crate::scene::PopupRequest::Open { menu, .. }) => self.spec_menu_height(menu),
            _ => None,
        }
    }

    /// What applying the queued popup request needs: a menu it opens may only be
    /// attached to the root panel, and its placement must not overflow.
    pub open spec fn can_apply_popup_request(&self) -> bool {
        match self.tree_view().spec_popup_request() {
            Some(crate::scene::PopupRequest::Open { anchor_widget, menu, anchor_bounds }) => self.requested_height() matches Some(h)
                ==> (!self.tree_view().open_is_noop(anchor_widget, menu) ==> {
                    &&& (self.tree_view().spec_parent(menu) is None || self.tree_view().spec_parent(menu) == Some(self.tree_view().spec_content()))
                    &&& if self.tree_view().anchor_menu_index(anchor_widget) is Some {
                        crate::scene::submenu_fits(anchor_bounds, self.tree_view().spec_size(), h as int)
                    } else {
                        crate::scene::dropdown_fits(anchor_bounds, self.tree_view().spec_size(), h as int)
                    }
                }),
            _ => true,
        }
    }

    /// Returns whether the queued popup request may be applied (see
    /// [`can_apply_popup_request`](Scene::can_apply_popup_request)).
    pub fn check_apply_popup_request(&self) -> (r: bool)
        requires
            self.wf(),
        ensures
            r == self.can_apply_popup_request(),
    {
        let height = match self.tree.requested_menu() {
            Some(menu) => self.menu_height(menu),
            None => None,
        };
        proof {
            if let Some(crate::scene::PopupRequest::Open { menu, .. }) = self.tree.spec_popup_request() {
                if height is Some {
                    self.lemma_index_bounded(menu);
                }
            }
        }
        self.tree.check_apply_allowed(height)
    }

    /// Applies the popup request queued during event routing, if any; an open request
    /// whose widget is not a menu is dropped.
    pub fn apply_popup_request(&mut self)
        requires
            old(self).wf(),
            old(self).can_apply_popup_request(),
        ensures
            final(self).wf(),
            final(self).slots_view() == old(self).slots_view(),
            final(self).tree_view().spec_popup_request() is None,
            final(self).tree_view().popup_request_applied(old(self).tree_view(), old(self).requested_height()),
    {
        let height = match self.tree.requested_menu() {
            Some(menu) => self.menu_height(menu),
            None => None,
        };
        proof {
            if let Some(crate::scene::PopupRequest::Open { menu, .. }) = self.tree.spec_popup_request() {
                if height is Some {
                    self.lemma_index_bounded(menu);
                }
            }
        }
        let ghost start = *self;
        self.tree.apply_popup_request(height);
        proof {
            assert forall|k: SlotKey| !start.slots@.dom().contains(k.spec_index()) implies #[trigger] self.tree.spec_parent(k) is None || self.tree.spec_parent(k) == start.tree.spec_parent(k) by {
                match start.tree.spec_popup_request() {
                    Some(crate::scene::PopupRequest::Open { anchor_widget, menu, anchor_bounds }) => {
                        if let Some(h) = height {
                            if !start.tree.open_is_noop(anchor_widget, menu) {
                                assert(k != menu);
                                if let Some(i) = start.tree.anchor_menu_index(anchor_widget) {
                                    let mid = choose|mid: SceneTree| #[trigger] mid.popup_tail_closed(start.tree, i + 1)
                                        && self.tree.menu_opened(mid, menu, crate::scene::submenu_bounds(anchor_bounds, start.tree.spec_size(), h as int));
                                    assert(self.tree.spec_parent(k) == mid.spec_parent(k));
                                } else {
                                    let mid = choose|mid: SceneTree| #[trigger] mid.popup_tail_closed(start.tree, 0)
                                        && self.tree.menu_opened(mid, menu, crate::scene::dropdown_bounds(anchor_bounds, start.tree.spec_size(), h as int));
                                    assert(self.tree.spec_parent(k) == mid.spec_parent(k));
                                }
                            }
                        }
                    },
                    _ => {},
                }
            }
            self.lemma_wf_kept(start);
        }
    }

    /// Temporarily takes a widget out of its slot; the slot stays reserved until the
    /// widget is put back with [`put_widget`](Scene::put_widget).
    pub fn take_widget(&mut self, key: SlotKey) -> (w: Widget)
        requires
            old(self).wf(),
            old(self).widget(key) is Some,
        ensures
            final(self).wf(),
            Some(w) == old(self).widget(key),
            final(self).slots_view() == old(self).slots_view().insert(key.spec_index(), None),
            final(self).tree_view() == old(self).tree_view(),
    {
        let w = self.slots.take(key);
        w
    }

    /// Takes the widget under `key` out of its slot, runs `f` with it and the scene,
    /// and puts the widget, as `f` left it, back into its slot. `f` is given the scene
    /// with that slot empty, and must leave it so.
    pub fn with_widget<R, F: FnOnce(&mut Widget, &mut Scene) -> R>(&mut self, key: SlotKey, f: F) -> (r: R)
        requires
            old(self).wf(),
            old(self).widget(key) is Some,
            forall|w: &mut Widget, s: &mut Scene| (*s).wf() && (*s).contains(key) && (*s).widget(key) is None ==> f.requires((w, s)),
            forall|w: &mut Widget, s: &mut Scene, r: R| #[trigger] f.ensures((w, s), r)
                ==> final(s).wf() && final(s).contains(key) && final(s).widget(key) is None,
        ensures
            exists|w: &mut Widget, s: &mut Scene| {
                &&& #[trigger] f.ensures((w, s), r)
                &&& Some(*w) == old(self).widget(key)
                &&& (*s).slots_view() == old(self).slots_view().insert(key.spec_index(), None)
                &&& (*s).tree_view() == old(self).tree_view()
                &&& final(self).slots_view() == final(s).slots_view().insert(key.spec_index(), Some(*final(w)))
                &&& final(self).tree_view() == final(s).tree_view()
            },
            final(self).wf(),
    {
        let mut w = self.take_widget(key);
        let r = f(&mut w, self);
        self.put_widget(key, w);
        r
    }

    /// Puts a widget back into the slot it was taken from.
    pub fn put_widget(&mut self, key: SlotKey, widget: Widget)
        requires
            old(self).wf(),
            old(self).contains(key),
            old(self).widget(key) is None,
        ensures
            final(self).wf(),
            final(self).slots_view() == old(self).slots_view().insert(key.spec_index(), Some(widget)),
            final(self).tree_view() == old(self).tree_view(),
    {
        self.slots.put(key, widget);
    }
}

/// The retained property for a declarative one.
pub fn property_from_dto<T>(p: dto::Property<T>) -> (r: Property<T>)
    ensures
        r == match p {
            dto::Property::Key(k) => Property::Key(PropKey::spec_new(k)),
            dto::Property::Value(v) => Property::Value(v),
        },
{
    match p {
        dto::Property::Key(k) => Property::Key(PropKey(k)),
        dto::Property::Value(v) => Property::Value(v),
    }
}

/// The retained enabled property for a declarative one: enabled unless stated.
pub fn enabled_from_dto(p: Option<dto::Property<bool>>) -> (r: Property<bool>)
    ensures
        r == match p {
            Some(dto::Property::Key(k)) => Property::Key(PropKey::spec_new(k)),
            Some(dto::Property::Value(v)) => Property::Value(v),
            None => Property::Value(true),
        },
{
    match p {
        Some(p) => property_from_dto(p),
        None => Property::Value(true),
    }
}

/// The retained string property for a declarative one.
pub fn label_from_dto(p: dto::Property<String>) -> (r: OwnedProp)
    ensures
        r == match p {
            dto::Property::Key(k) => OwnedProp::Key(PropKey::spec_new(k)),
            dto::Property::Value(v) => OwnedProp::Owned(v),
        },
{
    match p {
        dto::Property::Key(k) => OwnedProp::Key(PropKey(k)),
        dto::Property::Value(v) => OwnedProp::Owned(v),
    }
}

impl Scene {
    /// Every slot `old` uses is still used in `self`, holding the same widget.
    pub open spec fn keeps_widgets(&self, old: Scene) -> bool {
        forall|k: SlotKey| #[trigger] old.contains(k) ==> self.contains(k) && self.widget(k) == old.widget(k)
    }

    /// `self` is `old` with more widgets: every widget of `old` and its parent link
    /// are kept, and the scene's structure is otherwise unchanged.
    pub open spec fn extends(&self, old: Scene) -> bool {
        &&& forall|k: SlotKey| #[trigger] old.contains(k) ==> {
            &&& self.contains(k)
            &&& self.widget(k) == old.widget(k)
            &&& self.tree_view().spec_parent(k) == old.tree_view().spec_parent(k)
        }
        &&& self.tree_view().spec_content() == old.tree_view().spec_content()
        &&& self.tree_view().root_children_view() == old.tree_view().root_children_view()
        &&& self.tree_view().popup_chain_view() == old.tree_view().popup_chain_view()
        &&& self.tree_view().spec_popup_owner() == old.tree_view().spec_popup_owner()
        &&& self.tree_view().spec_popup_request() == old.tree_view().spec_popup_request()
        &&& self.tree_view().spec_pointed() == old.tree_view().spec_pointed()
        &&& self.tree_view().spec_captured() == old.tree_view().spec_captured()
        &&& self.tree_view().spec_size() == old.tree_view().spec_size()
        &&& (old.tree_view().tracks_children() ==> self.tree_view().tracks_children())
    }

    /// `self` is `old` after building a declarative tree of at most `count` widgets
    /// whose root, `r`, is a new widget without a parent.
    pub open spec fn built(&self, old: Scene, r: SlotKey, count: nat) -> bool {
        &&& self.wf()
        &&& self.extends(old)
        &&& self.slot_count() <= old.slot_count() + count
        &&& !old.contains(r)
        &&& self.widget(r) is Some
        &&& self.tree_view().spec_parent(r) is None
    }

    /// Creates a widget without children.
    fn create_leaf<F: FnOnce(SlotKey) -> Widget>(&mut self, f: F) -> (key: SlotKey)
        requires
            old(self).wf(),
            old(self).slot_count() < u32::MAX,
            forall|k: SlotKey| #[trigger] f.requires((k,)),
            forall|k: SlotKey, w: Widget| #[trigger] f.ensures((k,), w) ==> w.spec_key() == k && w.children_view().len() == 0,
        ensures
            final(self).built(*old(self), key, 1),
            exists|w: Widget| #[trigger] f.ensures((key,), w) && final(self).widget(key) == Some(w),
    {
        let key = self.create_widget(f);
        proof {
            let w = choose|w: Widget| #[trigger] f.ensures((key,), w) && self.slots_view() == old(self).slots_view().insert(key.spec_index(), Some(w))
                && forall|k: SlotKey| #[trigger] self.tree_view().spec_parent(k) == if has_child(w.children_view(), k) {
                    Some(key)
                } else {
                    old(self).tree_view().spec_parent(k)
                };
            assert(self.tree_view().spec_parent(key) == old(self).tree_view().spec_parent(key));
            assert forall|k: SlotKey| #[trigger] old(self).contains(k) implies {
                &&& self.contains(k)
                &&& self.widget(k) == old(self).widget(k)
                &&& self.tree_view().spec_parent(k) == old(self).tree_view().spec_parent(k)
            } by {
                assert(self.tree_view().spec_parent(k) == old(self).tree_view().spec_parent(k));
                assert(k.spec_index() != key.spec_index());
            }
            assert(self.widget(key) == Some(w));
        }
        key
    }
}

impl dto::Separator {
    /// Builds a separator.
    pub fn construct(self, scene: &mut Scene, ctx: &mut dto::BuildContext) -> (r: SlotKey)
        requires
            old(scene).wf(),
            old(ctx).wf(),
            old(scene).slot_count() < u32::MAX,
        ensures
            final(scene).built(*old(scene), r, 1),
            built_from(*final(scene), *old(scene), final(ctx)@, dto::Widget::Separator(self), r),
            final(scene).widget(r) matches Some(w) && w is Separator,
            final(ctx).wf(),
            final(ctx)@ == match self.name {
                Some(n) => old(ctx)@.insert(n@, r),
                None => old(ctx)@,
            },
            names_recorded(final(ctx)@, old(ctx)@, dto::own_name(self.name), *old(scene), *final(scene)),
    {
        let ghost whole = self;
        let key = scene.create_leaf(|key: SlotKey| -> (w: Widget)
            ensures
                w is Separator,
                w.spec_key() == key,
                w.children_view().len() == 0,
            { Widget::Separator(Separator::new(key)) });
        ctx.insert(self.name, key);
        proof {
            lemma_recorded_insert(ctx@, old(ctx)@, whole.name, key, *old(scene), *scene);
        }
        key
    }
}

/// `ctx` is `old_ctx` with each of `names` recorded under the key of a widget
/// that building `scene` from `old` created; the other names keep their keys.
pub open spec fn names_recorded(ctx: Map<Seq<char>, SlotKey>, old_ctx: Map<Seq<char>, SlotKey>, names: Set<Seq<char>>, old: Scene, scene: Scene) -> bool {
    &&& ctx.dom() == old_ctx.dom() + names
    &&& forall|n: Seq<char>| #[trigger] ctx.contains_key(n) ==> if names.contains(n) {
        scene.widget(ctx[n]) is Some && !old.contains(ctx[n])
    } else {
        ctx[n] == old_ctx[n]
    }
}

/// Recording nothing leaves the names as they were.
proof fn lemma_recorded_none(ctx: Map<Seq<char>, SlotKey>, old: Scene, scene: Scene)
    ensures
        names_recorded(ctx, ctx, Set::empty(), old, scene),
{
    assert(ctx.dom() =~= ctx.dom() + Set::<Seq<char>>::empty());
}

/// Recording the name of a widget just built records that name alone.
proof fn lemma_recorded_insert(ctx: Map<Seq<char>, SlotKey>, old_ctx: Map<Seq<char>, SlotKey>, name: Option<String>, key: SlotKey, old: Scene, scene: Scene)
    requires
        ctx == match name {
            Some(n) => old_ctx.insert(n@, key),
            None => old_ctx,
        },
        !old.contains(key),
        scene.widget(key) is Some,
    ensures
        names_recorded(ctx, old_ctx, dto::own_name(name), old, scene),
{
    assert(ctx.dom() =~= old_ctx.dom() + dto::own_name(name));
}

/// Recording names keeps every other name.
proof fn lemma_recorded_agree(ctx: Map<Seq<char>, SlotKey>, old_ctx: Map<Seq<char>, SlotKey>, names: Set<Seq<char>>, old: Scene, scene: Scene, other: Set<Seq<char>>)
    requires
        names_recorded(ctx, old_ctx, names, old, scene),
        names.disjoint(other),
    ensures
        names_agree(old_ctx, ctx, other),
{
    assert forall|n: Seq<char>| #[trigger] other.contains(n) && old_ctx.contains_key(n) implies ctx.contains_key(n) && ctx[n] == old_ctx[n] by {
        assert(!names.contains(n));
        assert(ctx.dom().contains(n));
    }
}

/// The widgets built from `ws` stand under `keys` in `s`, as [`built_as`] says,
/// each new since `start`, and no widget is built from two of them.
pub open spec fn rows_ok(s: Scene, start: Scene, ctx: Map<Seq<char>, SlotKey>, ws: Seq<dto::Widget>, keys: Seq<ChildWidget>, nm: bool) -> bool {
    &&& ws.len() == keys.len()
    &&& forall|j: int| 0 <= j < ws.len() ==> built_as(s, ctx, ws[j], (#[trigger] keys[j]).key, nm)
    &&& forall|j: int, k: SlotKey| 0 <= j < ws.len() && #[trigger] in_built(s, ws[j], keys[j].key, k) ==> !start.contains(k) && s.contains(k)
    &&& forall|i: int, j: int, k: SlotKey| 0 <= i < ws.len() && 0 <= j < ws.len() && i != j
        && #[trigger] in_built(s, ws[i], keys[i].key, k) ==> !#[trigger] in_built(s, ws[j], keys[j].key, k)
}

/// Building one more widget after those of `ws` keeps them and adds it.
proof fn lemma_rows_step(before: Scene, after: Scene, start: Scene, cb: Map<Seq<char>, SlotKey>, ca: Map<Seq<char>, SlotKey>, ws: Seq<dto::Widget>, keys: Seq<ChildWidget>, w: dto::Widget, k: SlotKey, b: Bounds2i, nm: bool)
    requires
        rows_ok(before, start, cb, ws, keys, nm),
        after.extends(before),
        before.keeps_widgets(start),
        built_from(after, before, ca, w, k),
        names_recorded(ca, cb, dto::widget_names(w), before, after),
        nm ==> dto::unique_names(w),
        nm ==> forall|j: int| 0 <= j < ws.len() ==> dto::widget_names(w).disjoint(#[trigger] dto::widget_names(ws[j])),
    ensures
        rows_ok(after, start, ca, ws.push(w), keys.push(ChildWidget { bounds: b, key: k }), nm),
        forall|j: int, x: SlotKey| 0 <= j < ws.len() ==> #[trigger] in_built(after, ws[j], keys[j].key, x) == in_built(before, ws[j], keys[j].key, x),
{
    let ws2 = ws.push(w);
    let keys2 = keys.push(ChildWidget { bounds: b, key: k });
    assert forall|j: int| 0 <= j < ws.len() implies {
        &&& built_as(after, ca, ws[j], keys[j].key, nm)
        &&& forall|x: SlotKey| #[trigger] in_built(after, ws[j], keys[j].key, x) == in_built(before, ws[j], keys[j].key, x)
    } by {
        assert(built_as(before, cb, ws[j], keys[j].key, nm));
        assert forall|x: SlotKey| #[trigger] in_built(before, ws[j], keys[j].key, x) implies after.widget(x) == before.widget(x) && after.tree_view().spec_parent(x) == before.tree_view().spec_parent(x) by {
            assert(before.contains(x));
        }
        if nm {
            lemma_recorded_agree(ca, cb, dto::widget_names(w), before, after, dto::widget_names(ws[j]));
        }
        lemma_built_kept(before, after, cb, ca, ws[j], keys[j].key, nm, nm);
    }
    lemma_built_kept(after, after, ca, ca, w, k, dto::unique_names(w), nm);
    assert forall|j: int| 0 <= j < ws2.len() implies built_as(after, ca, ws2[j], (#[trigger] keys2[j]).key, nm) by {
        if j < ws.len() {
            assert(ws2[j] == ws[j] && keys2[j] == keys[j]);
        }
    }
    assert forall|j: int, x: SlotKey| 0 <= j < ws2.len() && #[trigger] in_built(after, ws2[j], keys2[j].key, x) implies !start.contains(x) && after.contains(x) by {
        if j < ws.len() {
            assert(ws2[j] == ws[j] && keys2[j] == keys[j]);
            assert(in_built(before, ws[j], keys[j].key, x));
        } else {
            if start.contains(x) {
                assert(before.contains(x));
            }
        }
    }
    assert forall|i: int, j: int, x: SlotKey| 0 <= i < ws2.len() && 0 <= j < ws2.len() && i != j
        && #[trigger] in_built(after, ws2[i], keys2[i].key, x) implies !#[trigger] in_built(after, ws2[j], keys2[j].key, x) by {
        if i < ws.len() {
            assert(ws2[i] == ws[i] && keys2[i] == keys[i]);
            assert(in_built(before, ws[i], keys[i].key, x));
        }
        if j < ws.len() {
            assert(ws2[j] == ws[j] && keys2[j] == keys[j]);
            if in_built(after, ws2[j], keys2[j].key, x) {
                assert(in_built(before, ws[j], keys[j].key, x));
            }
        }
    }
}

/// Once a new widget `key` adopts the widgets built from `ws` as its children at
/// `keys`, each of them is its child as [`child_built`] says.
proof fn lemma_rows_adopted(pre: Scene, fin: Scene, start: Scene, cp: Map<Seq<char>, SlotKey>, cf: Map<Seq<char>, SlotKey>, ws: Seq<dto::Widget>, keys: Seq<ChildWidget>, key: SlotKey, nm: bool)
    requires
        rows_ok(pre, start, cp, ws, keys, nm),
        fin.keeps_widgets(pre),
        !pre.contains(key),
        fin.contains(key),
        fin.children_of(key) == keys,
        forall|x: SlotKey| #[trigger] fin.tree_view().spec_parent(x) == if has_child(keys, x) {
            Some(key)
        } else {
            pre.tree_view().spec_parent(x)
        },
        nm ==> forall|j: int| 0 <= j < ws.len() ==> names_agree(cp, cf, #[trigger] dto::widget_names(ws[j])),
    ensures
        rows_ok(fin, start, cf, ws, keys, nm),
        forall|j: int| 0 <= j < ws.len() ==> child_built(fin, cf, ws[j], key, j, (#[trigger] keys[j]).bounds, nm),
        forall|j: int, x: SlotKey| 0 <= j < ws.len() ==> #[trigger] in_built(fin, ws[j], keys[j].key, x) == in_built(pre, ws[j], keys[j].key, x),
{
    assert forall|j: int| 0 <= j < ws.len() implies {
        &&& built_as(fin, cf, ws[j], keys[j].key, nm)
        &&& forall|x: SlotKey| #[trigger] in_built(fin, ws[j], keys[j].key, x) == in_built(pre, ws[j], keys[j].key, x)
    } by {
        assert(built_as(pre, cp, ws[j], keys[j].key, nm));
        assert forall|x: SlotKey| #[trigger] in_built(pre, ws[j], keys[j].key, x) implies fin.widget(x) == pre.widget(x) by {
            assert(pre.contains(x));
        }
        assert forall|x: SlotKey| #[trigger] in_built(pre, ws[j], keys[j].key, x) && x != keys[j].key implies fin.tree_view().spec_parent(x) == pre.tree_view().spec_parent(x) by {
            if has_child(keys, x) {
                let m = choose|m: int| 0 <= m < keys.len() && (#[trigger] keys[m]).key == x;
                assert(in_built(pre, ws[m], keys[m].key, x));
            }
        }
        lemma_built_kept(pre, fin, cp, cf, ws[j], keys[j].key, nm, nm);
    }
    assert forall|j: int| 0 <= j < ws.len() implies child_built(fin, cf, ws[j], key, j, (#[trigger] keys[j]).bounds, nm) by {
        assert(built_as(fin, cf, ws[j], keys[j].key, nm));
        assert(has_child(keys, keys[j].key));
        assert(!in_built(fin, ws[j], keys[j].key, key)) by {
            if in_built(fin, ws[j], keys[j].key, key) {
                assert(in_built(pre, ws[j], keys[j].key, key));
            }
        }
    }
    assert forall|j: int, x: SlotKey| 0 <= j < ws.len() && #[trigger] in_built(fin, ws[j], keys[j].key, x) implies !start.contains(x) && fin.contains(x) by {
        assert(built_as(fin, cf, ws[j], keys[j].key, nm));
        assert(in_built(pre, ws[j], keys[j].key, x));
    }
    assert forall|i: int, j: int, x: SlotKey| 0 <= i < ws.len() && 0 <= j < ws.len() && i != j
        && #[trigger] in_built(fin, ws[i], keys[i].key, x) implies !#[trigger] in_built(fin, ws[j], keys[j].key, x) by {
        assert(built_as(fin, cf, ws[i], keys[i].key, nm));
        assert(built_as(fin, cf, ws[j], keys[j].key, nm));
        assert(in_built(pre, ws[i], keys[i].key, x));
        if in_built(fin, ws[j], keys[j].key, x) {
            assert(in_built(pre, ws[j], keys[j].key, x));
        }
    }
}

/// A menu created over the rows built from `m` is built from `m`.
proof fn lemma_menu_adopted(pre: Scene, fin: Scene, start: Scene, cp: Map<Seq<char>, SlotKey>, cf: Map<Seq<char>, SlotKey>, m: dto::Menu, kv: Seq<ChildWidget>, key: SlotKey, nm: bool, w: Widget)
    requires
        nm == dto::menu_unique(m),
        rows_ok(pre, start, cp, m.children@, kv, nm),
        forall|j: int| 0 <= j < kv.len() ==> (#[trigger] kv[j]).bounds == rect(0, 0, 0, 0),
        pre.keeps_widgets(start),
        !pre.contains(key),
        fin.slots_view() == pre.slots_view().insert(key.spec_index(), Some(w)),
        w.spec_key() == key,
        w.children_view() == kv,
        w matches Widget::Menu(x) && x.spec_height() == row_top(dto::separators(m.children@), m.children@.len() as int),
        forall|x: SlotKey| #[trigger] fin.tree_view().spec_parent(x) == if has_child(kv, x) {
            Some(key)
        } else {
            pre.tree_view().spec_parent(x)
        },
        cf == match m.name {
            Some(n) => cp.insert(n@, key),
            None => cp,
        },
    ensures
        built_from(fin, start, cf, dto::Widget::Menu(m), key),
{
    assert(fin.widget(key) == Some(w));
    assert forall|x: SlotKey| #[trigger] pre.contains(x) implies fin.contains(x) && fin.widget(x) == pre.widget(x) by {
        assert(x.spec_index() != key.spec_index());
    }
    if nm {
        assert forall|j: int| 0 <= j < m.children@.len() implies names_agree(cp, cf, #[trigger] dto::widget_names(m.children@[j])) by {
            lemma_insert_agrees(cp, m.name, key, dto::widget_names(m.children@[j]));
        }
    }
    lemma_rows_adopted(pre, fin, start, cp, cf, m.children@, kv, key, nm);
    assert forall|i: int| 0 <= i < m.children@.len() implies child_built(fin, cf, #[trigger] m.children@[i], key, i, rect(0, 0, 0, 0), nm) by {
        assert(child_built(fin, cf, m.children@[i], key, i, kv[i].bounds, nm));
    }
    assert(menu_built(fin, cf, m, key, nm));
    assert forall|x: SlotKey| #[trigger] in_built(fin, dto::Widget::Menu(m), key, x) implies !start.contains(x) && fin.contains(x) by {
        if x == key {
            if start.contains(key) {
                assert(pre.contains(key));
            }
        } else {
            assert(in_menu(fin, m, key, x));
            let i = choose|i: int| 0 <= i < m.children@.len() && i < fin.children_of(key).len() && in_built(fin, m.children@[i], #[trigger] fin.children_of(key)[i].key, x);
            assert(in_built(fin, m.children@[i], kv[i].key, x));
        }
    }
}

/// A panel created over the children built from `p` is built from `p`.
proof fn lemma_panel_adopted(pre: Scene, fin: Scene, start: Scene, cp: Map<Seq<char>, SlotKey>, cf: Map<Seq<char>, SlotKey>, p: dto::Panel, kv: Seq<ChildWidget>, key: SlotKey, nm: bool, w: Widget)
    requires
        nm == dto::unique_names(dto::Widget::Panel(p)),
        rows_ok(pre, start, cp, child_widgets(p.children@), kv, nm),
        forall|j: int| 0 <= j < kv.len() ==> (#[trigger] kv[j]).bounds == p.children@[j].bounds,
        pre.keeps_widgets(start),
        !pre.contains(key),
        fin.slots_view() == pre.slots_view().insert(key.spec_index(), Some(w)),
        w.spec_key() == key,
        w.children_view() == kv,
        w is Panel,
        forall|x: SlotKey| #[trigger] fin.tree_view().spec_parent(x) == if has_child(kv, x) {
            Some(key)
        } else {
            pre.tree_view().spec_parent(x)
        },
        cf == match p.name {
            Some(n) => cp.insert(n@, key),
            None => cp,
        },
    ensures
        built_from(fin, start, cf, dto::Widget::Panel(p), key),
{
    let ws = child_widgets(p.children@);
    assert(fin.widget(key) == Some(w));
    assert forall|x: SlotKey| #[trigger] pre.contains(x) implies fin.contains(x) && fin.widget(x) == pre.widget(x) by {
        assert(x.spec_index() != key.spec_index());
    }
    if nm {
        assert forall|j: int| 0 <= j < ws.len() implies names_agree(cp, cf, #[trigger] dto::widget_names(ws[j])) by {
            assert(ws[j] == *p.children@[j].widget);
            lemma_insert_agrees(cp, p.name, key, dto::widget_names(ws[j]));
        }
    }
    lemma_rows_adopted(pre, fin, start, cp, cf, ws, kv, key, nm);
    assert forall|i: int| 0 <= i < p.children@.len() implies child_built(fin, cf, *p.children@[i].widget, key, i, #[trigger] p.children@[i].bounds, nm) by {
        assert(ws[i] == *p.children@[i].widget);
        assert(child_built(fin, cf, ws[i], key, i, kv[i].bounds, nm));
    }
    assert forall|i: int, j: int, x: SlotKey| 0 <= i < p.children@.len() && 0 <= j < p.children@.len() && i != j
        && #[trigger] in_built(fin, *p.children@[i].widget, fin.children_of(key)[i].key, x)
        implies !#[trigger] in_built(fin, *p.children@[j].widget, fin.children_of(key)[j].key, x) by {
        assert(ws[i] == *p.children@[i].widget);
        assert(ws[j] == *p.children@[j].widget);
        assert(in_built(fin, ws[i], kv[i].key, x));
    }
    assert(built_as(fin, cf, dto::Widget::Panel(p), key, nm));
    assert forall|x: SlotKey| #[trigger] in_built(fin, dto::Widget::Panel(p), key, x) implies !start.contains(x) && fin.contains(x) by {
        if x == key {
            if start.contains(key) {
                assert(pre.contains(key));
            }
        } else {
            let i = choose|i: int| 0 <= i < p.children@.len() && i < fin.children_of(key).len() && in_built(fin, *p.children@[i].widget, #[trigger] fin.children_of(key)[i].key, x);
            assert(ws[i] == *p.children@[i].widget);
            assert(in_built(fin, ws[i], kv[i].key, x));
        }
    }
}

/// A menu bar created over the items built from `b` is built from `b`.
proof fn lemma_bar_adopted(pre: Scene, fin: Scene, start: Scene, cp: Map<Seq<char>, SlotKey>, cf: Map<Seq<char>, SlotKey>, b: dto::MenuBar, kv: Seq<ChildWidget>, key: SlotKey, nm: bool, w: Widget)
    requires
        nm == dto::unique_names(dto::Widget::MenuBar(b)),
        rows_ok(pre, start, cp, item_widgets(b.children@), kv, nm),
        forall|j: int| 0 <= j < kv.len() ==> (#[trigger] kv[j]).bounds == rect(0, 0, 0, 0),
        pre.keeps_widgets(start),
        !pre.contains(key),
        fin.slots_view() == pre.slots_view().insert(key.spec_index(), Some(w)),
        w.spec_key() == key,
        w.children_view() == kv,
        w is MenuBar,
        forall|x: SlotKey| #[trigger] fin.tree_view().spec_parent(x) == if has_child(kv, x) {
            Some(key)
        } else {
            pre.tree_view().spec_parent(x)
        },
        cf == match b.name {
            Some(n) => cp.insert(n@, key),
            None => cp,
        },
    ensures
        built_from(fin, start, cf, dto::Widget::MenuBar(b), key),
{
    let ws = item_widgets(b.children@);
    assert(fin.widget(key) == Some(w));
    assert forall|x: SlotKey| #[trigger] pre.contains(x) implies fin.contains(x) && fin.widget(x) == pre.widget(x) by {
        assert(x.spec_index() != key.spec_index());
    }
    if nm {
        assert forall|j: int| 0 <= j < ws.len() implies names_agree(cp, cf, #[trigger] dto::widget_names(ws[j])) by {
            assert(ws[j] == dto::Widget::MenuBarItem(b.children@[j]));
            lemma_insert_agrees(cp, b.name, key, dto::widget_names(ws[j]));
        }
    }
    lemma_rows_adopted(pre, fin, start, cp, cf, ws, kv, key, nm);
    assert forall|i: int| 0 <= i < b.children@.len() implies {
        let c = #[trigger] fin.children_of(key)[i];
        &&& c.bounds == rect(0, 0, 0, 0)
        &&& fin.tree_view().spec_parent(c.key) == Some(key)
        &&& !in_item(fin, b.children@[i], c.key, key)
        &&& item_built(fin, cf, b.children@[i], c.key, nm)
    } by {
        assert(ws[i] == dto::Widget::MenuBarItem(b.children@[i]));
        assert(child_built(fin, cf, ws[i], key, i, kv[i].bounds, nm));
        assert(in_built(fin, ws[i], kv[i].key, key) == in_item(fin, b.children@[i], kv[i].key, key));
    }
    assert forall|i: int, j: int, x: SlotKey| 0 <= i < b.children@.len() && 0 <= j < b.children@.len() && i != j
        && #[trigger] in_item(fin, b.children@[i], fin.children_of(key)[i].key, x)
        implies !#[trigger] in_item(fin, b.children@[j], fin.children_of(key)[j].key, x) by {
        assert(ws[i] == dto::Widget::MenuBarItem(b.children@[i]));
        assert(ws[j] == dto::Widget::MenuBarItem(b.children@[j]));
        assert(in_built(fin, ws[i], kv[i].key, x));
        if in_item(fin, b.children@[j], fin.children_of(key)[j].key, x) {
            assert(in_built(fin, ws[j], kv[j].key, x));
        }
    }
    assert(built_as(fin, cf, dto::Widget::MenuBar(b), key, nm));
    assert forall|x: SlotKey| #[trigger] in_built(fin, dto::Widget::MenuBar(b), key, x) implies !start.contains(x) && fin.contains(x) by {
        if x == key {
            if start.contains(key) {
                assert(pre.contains(key));
            }
        } else {
            let i = choose|i: int| 0 <= i < b.children@.len() && i < fin.children_of(key).len() && in_item(fin, b.children@[i], #[trigger] fin.children_of(key)[i].key, x);
            assert(ws[i] == dto::Widget::MenuBarItem(b.children@[i]));
            assert(in_built(fin, ws[i], kv[i].key, x));
        }
    }
}

/// Recording names in two steps records both sets of names.
proof fn lemma_recorded_trans(c0: Map<Seq<char>, SlotKey>, c1: Map<Seq<char>, SlotKey>, c2: Map<Seq<char>, SlotKey>, n1: Set<Seq<char>>, n2: Set<Seq<char>>, s0: Scene, s1: Scene, s2: Scene)
    requires
        names_recorded(c1, c0, n1, s0, s1),
        names_recorded(c2, c1, n2, s1, s2),
        s1.keeps_widgets(s0),
        s2.keeps_widgets(s1),
    ensures
        names_recorded(c2, c0, n1 + n2, s0, s2),
{
    assert(c2.dom() =~= c0.dom() + (n1 + n2));
    assert forall|n: Seq<char>| #[trigger] c2.contains_key(n) implies if (n1 + n2).contains(n) {
        s2.widget(c2[n]) is Some && !s0.contains(c2[n])
    } else {
        c2[n] == c0[n]
    } by {
        if n2.contains(n) {
            if s0.contains(c2[n]) {
                assert(s1.contains(c2[n]));
            }
        } else {
            assert(c1.contains_key(n));
            if n1.contains(n) {
                assert(s1.contains(c1[n]));
            }
        }
    }
}

/// Extending is transitive.
pub proof fn lemma_extends_trans(a: Scene, b: Scene, c: Scene)
    requires
        b.extends(a),
        c.extends(b),
    ensures
        c.extends(a),
{
    assert forall|k: SlotKey| #[trigger] a.contains(k) implies {
        &&& c.contains(k)
        &&& c.widget(k) == a.widget(k)
        &&& c.tree_view().spec_parent(k) == a.tree_view().spec_parent(k)
    } by {
        assert(b.contains(k));
    }
}

impl dto::Checkbox {
    /// Builds a checkbox.
    pub fn construct(self, scene: &mut Scene, ctx: &mut dto::BuildContext) -> (r: SlotKey)
        requires
            old(scene).wf(),
            old(ctx).wf(),
            old(scene).slot_count() < u32::MAX,
        ensures
            final(scene).built(*old(scene), r, 1),
            built_from(*final(scene), *old(scene), final(ctx)@, dto::Widget::Checkbox(self), r),
            final(scene).widget(r) matches Some(w) && w is Checkbox,
            final(ctx).wf(),
            final(ctx)@ == match self.name {
                Some(n) => old(ctx)@.insert(n@, r),
                None => old(ctx)@,
            },
            names_recorded(final(ctx)@, old(ctx)@, dto::own_name(self.name), *old(scene), *final(scene)),
    {
        let ghost whole = self;
        let dto::Checkbox { name, label, checked, enabled } = self;
        let label = label_from_dto(label);
        let checked = property_from_dto(checked);
        let enabled = enabled_from_dto(enabled);
        let key = scene.create_leaf(move |key: SlotKey| -> (w: Widget)
            ensures
                w is Checkbox,
                w.spec_key() == key,
                w.children_view().len() == 0,
            { Widget::Checkbox(Checkbox::new(key, label, checked, enabled)) });
        ctx.insert(name, key);
        proof {
            lemma_recorded_insert(ctx@, old(ctx)@, whole.name, key, *old(scene), *scene);
        }
        key
    }
}

impl dto::RadioButton {
    /// Builds a radio button.
    pub fn construct(self, scene: &mut Scene, ctx: &mut dto::BuildContext) -> (r: SlotKey)
        requires
            old(scene).wf(),
            old(ctx).wf(),
            old(scene).slot_count() < u32::MAX,
        ensures
            final(scene).built(*old(scene), r, 1),
            built_from(*final(scene), *old(scene), final(ctx)@, dto::Widget::RadioButton(self), r),
            final(scene).widget(r) matches Some(w) && w is RadioButton,
            final(ctx).wf(),
            final(ctx)@ == match self.name {
                Some(n) => old(ctx)@.insert(n@, r),
                None => old(ctx)@,
            },
            names_recorded(final(ctx)@, old(ctx)@, dto::own_name(self.name), *old(scene), *final(scene)),
    {
        let ghost whole = self;
        let dto::RadioButton { name, label, selected, index, enabled } = self;
        let label = label_from_dto(label);
        let selected = property_from_dto(selected);
        let enabled = enabled_from_dto(enabled);
        let key = scene.create_leaf(move |key: SlotKey| -> (w: Widget)
            ensures
                w is RadioButton,
                w.spec_key() == key,
                w.children_view().len() == 0,
            { Widget::RadioButton(RadioButton::new(key, label, selected, index, enabled)) });
        ctx.insert(name, key);
        proof {
            lemma_recorded_insert(ctx@, old(ctx)@, whole.name, key, *old(scene), *scene);
        }
        key
    }
}

/// The retained colour property for a declarative one.
pub open spec fn color_property(p: dto::Property<crate::paint::Rgba8>) -> Property<crate::paint::Rgba8> {
    match p {
        dto::Property::Key(k) => Property::Key(PropKey::spec_new(k)),
        dto::Property::Value(v) => Property::Value(v),
    }
}

impl dto::ColorSwatch {
    /// Builds a colour swatch; its border is a faint white and its inset five pixels
    /// unless given.
    pub fn construct(self, scene: &mut Scene, ctx: &mut dto::BuildContext) -> (r: SlotKey)
        requires
            old(scene).wf(),
            old(ctx).wf(),
            old(scene).slot_count() < u32::MAX,
        ensures
            final(scene).built(*old(scene), r, 1),
            built_from(*final(scene), *old(scene), final(ctx)@, dto::Widget::ColorSwatch(self), r),
            final(scene).widget(r) matches Some(Widget::ColorSwatch(w)) && {
                &&& w.spec_color() == color_property(self.color)
                &&& w.spec_border() == match self.border {
                    Some(b) => color_property(b),
                    None => Property::Value(crate::decor::default_swatch_border()),
                }
                &&& w.spec_inset() == match self.inset {
                    Some(i) => i,
                    None => crate::decor::DEFAULT_SWATCH_INSET,
                }
            },
            final(ctx).wf(),
            final(ctx)@ == match self.name {
                Some(n) => old(ctx)@.insert(n@, r),
                None => old(ctx)@,
            },
            names_recorded(final(ctx)@, old(ctx)@, dto::own_name(self.name), *old(scene), *final(scene)),
    {
        let ghost whole = self;
        let dto::ColorSwatch { name, color, border, inset } = self;
        let color = property_from_dto(color);
        let border = match border {
            Some(b) => property_from_dto(b),
            None => Property::Value(crate::decor::swatch_border()),
        };
        let inset = match inset {
            Some(i) => i,
            None => crate::decor::DEFAULT_SWATCH_INSET,
        };
        let key = scene.create_leaf(move |key: SlotKey| -> (w: Widget)
            ensures
                w matches Widget::ColorSwatch(c) && c.spec_color() == color && c.spec_border() == border && c.spec_inset() == inset,
                w.spec_key() == key,
                w.children_view().len() == 0,
            { Widget::ColorSwatch(ColorSwatch::new(key, color, border, inset)) });
        ctx.insert(name, key);
        proof {
            lemma_recorded_insert(ctx@, old(ctx)@, whole.name, key, *old(scene), *scene);
        }
        key
    }
}

impl dto::DrawGrid {
    /// Builds a background grid; unless given, its background is dark, its lines a
    /// barely visible white and their spacing 48 pixels.
    pub fn construct(self, scene: &mut Scene, ctx: &mut dto::BuildContext) -> (r: SlotKey)
        requires
            old(scene).wf(),
            old(ctx).wf(),
            old(scene).slot_count() < u32::MAX,
        ensures
            final(scene).built(*old(scene), r, 1),
            built_from(*final(scene), *old(scene), final(ctx)@, dto::Widget::DrawGrid(self), r),
            final(scene).widget(r) matches Some(Widget::DrawGrid(w)) && {
                &&& w.spec_background() == match self.background {
                    Some(c) => c,
                    None => crate::decor::default_grid_background(),
                }
                &&& w.spec_line_color() == match self.line_color {
                    Some(c) => c,
                    None => crate::decor::default_grid_line(),
                }
                &&& w.spec_spacing() == match self.spacing {
                    Some(sp) => sp,
                    None => crate::decor::DEFAULT_GRID_SPACING,
                }
            },
            final(ctx).wf(),
            final(ctx)@ == match self.name {
                Some(n) => old(ctx)@.insert(n@, r),
                None => old(ctx)@,
            },
            names_recorded(final(ctx)@, old(ctx)@, dto::own_name(self.name), *old(scene), *final(scene)),
    {
        let ghost whole = self;
        let dto::DrawGrid { name, background, line_color, spacing } = self;
        let background = match background {
            Some(c) => c,
            None => crate::decor::grid_background(),
        };
        let line_color = match line_color {
            Some(c) => c,
            None => crate::decor::grid_line(),
        };
        let spacing = match spacing {
            Some(sp) => sp,
            None => crate::decor::DEFAULT_GRID_SPACING,
        };
        let key = scene.create_leaf(move |key: SlotKey| -> (w: Widget)
            ensures
                w matches Widget::DrawGrid(g) && g.spec_background() == background && g.spec_line_color() == line_color && g.spec_spacing() == spacing,
                w.spec_key() == key,
                w.children_view().len() == 0,
            { Widget::DrawGrid(DrawGrid::new(key, background, line_color, spacing)) });
        ctx.insert(name, key);
        proof {
            lemma_recorded_insert(ctx@, old(ctx)@, whole.name, key, *old(scene), *scene);
        }
        key
    }
}

impl dto::Widget {
    /// Builds the retained widgets of a declarative tree; returns the key of its root.
    pub fn construct(self, scene: &mut Scene, ctx: &mut dto::BuildContext) -> (r: SlotKey)
        requires
            old(scene).wf(),
            old(ctx).wf(),
            old(scene).slot_count() + dto::widget_count(self) <= u32::MAX,
            dto::widget_fits(self),
        ensures
            final(scene).built(*old(scene), r, dto::widget_count(self)),
            final(ctx).wf(),
            names_recorded(final(ctx)@, old(ctx)@, dto::widget_names(self), *old(scene), *final(scene)),
            dto::name_of(self) matches Some(n) ==> final(ctx)@.contains_key(n@) && final(ctx)@[n@] == r,
            dto::is_separator(self) ==> (final(scene).widget(r) matches Some(w) && w is Separator),
            built_from(*final(scene), *old(scene), final(ctx)@, self, r),
        decreases self,
    {
        match self {
            dto::Widget::Button(w) => w.construct(scene, ctx),
            dto::Widget::Panel(w) => w.construct(scene, ctx),
            dto::Widget::ScrollPanel(w) => w.construct(scene, ctx),
            dto::Widget::Window(w) => w.construct(scene, ctx),
            dto::Widget::Checkbox(w) => w.construct(scene, ctx),
            dto::Widget::RadioButton(w) => w.construct(scene, ctx),
            dto::Widget::Separator(w) => w.construct(scene, ctx),
            dto::Widget::Menu(w) => w.construct(scene, ctx),
            dto::Widget::MenuItem(w) => w.construct(scene, ctx),
            dto::Widget::MenuBar(w) => w.construct(scene, ctx),
            dto::Widget::MenuBarItem(w) => w.construct(scene, ctx),
            dto::Widget::ColorSwatch(w) => w.construct(scene, ctx),
            dto::Widget::DrawGrid(w) => w.construct(scene, ctx),
        }
    }
}

impl dto::Menu {
    /// Builds a menu and its rows; the menu's height is that of its rows.
    pub fn construct(self, scene: &mut Scene, ctx: &mut dto::BuildContext) -> (r: SlotKey)
        requires
            old(scene).wf(),
            old(ctx).wf(),
            old(scene).slot_count() + 1 + dto::widgets_count(self.children@) <= u32::MAX,
            dto::rows_fit(self),
            dto::widgets_fit(self.children@),
        ensures
            final(scene).built(*old(scene), r, 1 + dto::widgets_count(self.children@)),
            built_from(*final(scene), *old(scene), final(ctx)@, dto::Widget::Menu(self), r),
            final(scene).widget(r) matches Some(Widget::Menu(m))
                && m.spec_height() == row_top(dto::separators(self.children@), self.children@.len() as int),
            final(ctx).wf(),
            self.name matches Some(n) ==> final(ctx)@.contains_key(n@) && final(ctx)@[n@] == r,
            names_recorded(final(ctx)@, old(ctx)@, dto::widget_names(dto::Widget::Menu(self)), *old(scene), *final(scene)),
        decreases self,
    {
        let ghost whole = self;
        let dto::Menu { name, children } = self;
        let ghost all = children@;
        let n = children.len();
        let mut rest = children;
        let mut keys: Vec<ChildWidget> = Vec::new();
        let mut seps: Vec<bool> = Vec::new();
        let ghost start = *scene;
        let ghost ctx0 = ctx@;
        let ghost nm = dto::unique_names(dto::Widget::Menu(whole));
        proof {
            assert(nm == dto::menu_unique(whole));
            assert(all.subrange(0, 0) =~= Seq::<dto::Widget>::empty());
            assert(dto::widgets_names(all.subrange(0, 0)) =~= Set::<Seq<char>>::empty());
            lemma_recorded_none(ctx@, start, start);
            assert(all.subrange(0, n as int) =~= all);
        }
        while rest.len() > 0
            invariant
                whole == self,
                all == whole.children@,
                n == all.len(),
                keys@.len() + rest@.len() == n,
                rest@ == all.subrange(keys@.len() as int, n as int),
                seps@.len() == keys@.len(),
                forall|j: int| 0 <= j < seps@.len() ==> #[trigger] seps@[j] == dto::is_separator(all[j]),
                scene.wf(),
                ctx.wf(),
                start.wf(),
                scene.extends(start),
                names_recorded(ctx@, ctx0, dto::widgets_names(all.subrange(0, keys@.len() as int)), start, *scene),
                scene.slot_count() <= start.slot_count() + dto::widgets_count(all.subrange(0, keys@.len() as int)),
                start.slot_count() + 1 + dto::widgets_count(all) <= u32::MAX,
                dto::widgets_fit(all),
                distinct_keys(keys@),
                forall|j: int| 0 <= j < keys@.len() ==> {
                    &&& !start.contains(#[trigger] keys@[j].key)
                    &&& scene.contains(keys@[j].key)
                    &&& scene.tree_view().spec_parent(keys@[j].key) is None
                    &&& keys@[j].bounds == rect(0, 0, 0, 0)
                },
                nm == dto::menu_unique(whole),
                rows_ok(*scene, start, ctx@, all.subrange(0, keys@.len() as int), keys@, nm),
            decreases rest@.len(),
        {
            let i = keys.len();
            let child = rest.remove(0);
            proof {
                assert(child == all[i as int]);
                dto::lemma_widgets_prefix(all, i as int);
                dto::lemma_widgets_whole(all, i as int + 1);
                dto::lemma_widgets_whole(all, i as int);
                assert(rest@ =~= all.subrange(i + 1, n as int));
                assert(decreases_to!(whole => whole.children));
                assert(decreases_to!(whole.children => whole.children@));
                assert(decreases_to!(whole.children@ => whole.children@[i as int]));
            }
            let ghost sep = dto::is_separator(child);
            let is_sep = match &child {
                dto::Widget::Separator(_) => true,
                _ => false,
            };
            let ghost before = *scene;
            let ghost cb = ctx@;
            let ghost kb = keys@;
            let k = child.construct(scene, ctx);
            proof {
                assert(all.subrange(0, i as int)[0int] == all[0int] || i == 0);
                if nm {
                    assert forall|j: int| 0 <= j < all.subrange(0, i as int).len() implies dto::widget_names(child).disjoint(#[trigger] dto::widget_names(all.subrange(0, i as int)[j])) by {
                        assert(all.subrange(0, i as int)[j] == whole.children@[j]);
                        assert(child == whole.children@[i as int]);
                    }
                    assert(dto::unique_names(whole.children@[i as int]));
                }
                lemma_rows_step(before, *scene, start, cb, ctx@, all.subrange(0, i as int), kb, child, k, rect(0, 0, 0, 0), nm);
                lemma_extends_trans(start, before, *scene);
                lemma_recorded_trans(ctx0, cb, ctx@, dto::widgets_names(all.subrange(0, i as int)), dto::widget_names(all[i as int]), start, before, *scene);
                assert forall|j: int| 0 <= j < keys@.len() implies (#[trigger] keys@[j]).key != k by {
                    assert(before.contains(keys@[j].key));
                }
            }
            keys.push(ChildWidget::new(Bounds2i::zero(), k));
            seps.push(is_sep);
            proof {
                assert(all.subrange(0, i as int).push(child) =~= all.subrange(0, i as int + 1));
                assert(keys@ == kb.push(ChildWidget { bounds: rect(0, 0, 0, 0), key: k }));
                assert(!start.contains(k)) by {
                    if start.contains(k) {
                        assert(before.contains(k));
                    }
                }
                assert forall|a: int, b: int| 0 <= a < b < keys@.len() implies (#[trigger] keys@[a]).key != (#[trigger] keys@[b]).key by {
                    if b == keys@.len() - 1 {
                        assert(before.contains(keys@[a].key));
                    }
                }
                assert forall|j: int| 0 <= j < keys@.len() implies {
                    &&& !start.contains(#[trigger] keys@[j].key)
                    &&& scene.contains(keys@[j].key)
                    &&& scene.tree_view().spec_parent(keys@[j].key) is None
                    &&& keys@[j].bounds == rect(0, 0, 0, 0)
                } by {
                    if j < keys@.len() - 1 {
                        assert(before.contains(keys@[j].key));
                    }
                }
            }
        }
        proof {
            assert(keys@.len() == n);
            assert(all.subrange(0, n as int) =~= all);
            assert(seps@ =~= dto::separators(all));
            assert(scene.can_adopt(keys@)) by {
                assert forall|j: int| 0 <= j < keys@.len() implies keys@[j].key != scene.tree_view().spec_content() by {
                    assert(start.contains(start.tree_view().spec_content()));
                }
            }
        }
        let ghost kv = keys@;
        let ghost sv = seps@;
        let ghost pre = *scene;
        let make = move |key: SlotKey| -> (w: Widget)
            requires
                seps@.len() == keys@.len(),
                row_top(seps@, seps@.len() as int) <= i32::MAX,
                kv == keys@,
                sv == seps@,
            ensures
                w.spec_key() == key,
                w.children_view() == kv,
                w matches Widget::Menu(m) && m.spec_height() == row_top(sv, sv.len() as int),
            { Widget::Menu(Menu::new(key, keys, &seps)) };
        let ghost mk = make;
        let key = scene.create_widget(make);
        let ghost cmid = ctx@;
        ctx.insert(name, key);
        proof {
            let w = choose|w: Widget| #[trigger] mk.ensures((key,), w) && scene.slots_view() == pre.slots_view().insert(key.spec_index(), Some(w))
                && forall|k: SlotKey| #[trigger] scene.tree_view().spec_parent(k) == if has_child(w.children_view(), k) {
                    Some(key)
                } else {
                    pre.tree_view().spec_parent(k)
                };
            lemma_menu_adopted(pre, *scene, start, cmid, ctx@, whole, kv, key, nm, w);
            lemma_recorded_insert(ctx@, cmid, whole.name, key, pre, *scene);
            lemma_recorded_trans(ctx0, cmid, ctx@, dto::widgets_names(all), dto::own_name(whole.name), start, pre, *scene);
            assert(dto::widgets_names(all) + dto::own_name(whole.name) =~= dto::widget_names(dto::Widget::Menu(whole)));
        }
        key
    }
}

impl dto::MenuItem {
    /// Builds a menu item and, first, the submenu it opens.
    pub fn construct(self, scene: &mut Scene, ctx: &mut dto::BuildContext) -> (r: SlotKey)
        requires
            old(scene).wf(),
            old(ctx).wf(),
            old(scene).slot_count() + dto::widget_count(dto::Widget::MenuItem(self)) <= u32::MAX,
            dto::widget_fits(dto::Widget::MenuItem(self)),
        ensures
            final(scene).built(*old(scene), r, dto::widget_count(dto::Widget::MenuItem(self))),
            built_from(*final(scene), *old(scene), final(ctx)@, dto::Widget::MenuItem(self), r),
            final(scene).widget(r) matches Some(Widget::MenuItem(item)) && (item.spec_submenu() matches Some(k) ==> {
                &&& final(scene).widget(k) matches Some(w) && w is Menu
                &&& !old(scene).contains(k)
                &&& final(scene).tree_view().spec_parent(k) is None
            }),
            final(scene).widget(r) matches Some(Widget::MenuItem(item))
                && (item.spec_submenu() is Some <==> self.submenu is Some),
            final(ctx).wf(),
            self.name matches Some(n) ==> final(ctx)@.contains_key(n@) && final(ctx)@[n@] == r,
            names_recorded(final(ctx)@, old(ctx)@, dto::widget_names(dto::Widget::MenuItem(self)), *old(scene), *final(scene)),
        decreases self,
    {
        let ghost whole = self;
        let dto::MenuItem { name, label, enabled, submenu } = self;
        let ghost start = *scene;
        let ghost ctx0 = ctx@;
        let ghost subnames = match whole.submenu {
            Some(sub) => dto::widget_names(dto::Widget::Menu(*sub)),
            None => Set::<Seq<char>>::empty(),
        };
        let submenu = match submenu {
            Some(sub) => {
                proof {
                    assert(decreases_to!(whole => whole.submenu));
                }
                let k = sub.construct(scene, ctx);
                Some(k)
            },
            None => {
                proof {
                    lemma_recorded_none(ctx@, start, start);
                }
                None
            },
        };
        let ghost c1 = ctx@;
        let label = label_from_dto(label);
        let enabled = enabled_from_dto(enabled);
        let ghost mid = *scene;
        let key = scene.create_leaf(move |key: SlotKey| -> (w: Widget)
            ensures
                w matches Widget::MenuItem(item) && item.spec_submenu() == submenu,
                w.spec_key() == key,
                w.children_view().len() == 0,
            { Widget::MenuItem(MenuItem::new(key, label, enabled, submenu)) });
        proof {
            lemma_extends_trans(start, mid, *scene);
            if let Some(k) = submenu {
                assert(k != key);
            }
        }
        ctx.insert(name, key);
        proof {
            lemma_recorded_insert(ctx@, c1, whole.name, key, mid, *scene);
            lemma_recorded_trans(ctx0, c1, ctx@, subnames, dto::own_name(whole.name), start, mid, *scene);
            assert(subnames + dto::own_name(whole.name) =~= dto::widget_names(dto::Widget::MenuItem(whole)));
            let nm = dto::unique_names(dto::Widget::MenuItem(whole));
            if let Some(sub) = whole.submenu {
                let sk = submenu->Some_0;
                let mw = dto::Widget::Menu(*sub);
                assert(in_menu(mid, *sub, sk, sk));
                assert forall|k: SlotKey| #[trigger] in_menu(mid, *sub, sk, k) implies scene.widget(k) == mid.widget(k) && mid.contains(k) && !start.contains(k) by {
                    assert(in_built(mid, mw, sk, k));
                }
                if nm {
                    lemma_insert_agrees(c1, whole.name, key, dto::widget_names(mw));
                }
                lemma_menu_kept(mid, *scene, c1, ctx@, *sub, sk, dto::menu_unique(*sub), nm);
                assert(!in_menu(*scene, *sub, sk, key)) by {
                    if in_menu(*scene, *sub, sk, key) {
                        assert(in_menu(mid, *sub, sk, key));
                    }
                }
                assert forall|k: SlotKey| #[trigger] in_built(*scene, dto::Widget::MenuItem(whole), key, k) implies !start.contains(k) && scene.contains(k) by {
                    if k != key {
                        assert(in_menu(*scene, *sub, sk, k));
                        assert(in_menu(mid, *sub, sk, k));
                    }
                }
            }
        }
        key
    }
}

impl dto::MenuBarItem {
    /// Builds a menu bar item and, first, the menu it opens.
    pub fn construct(self, scene: &mut Scene, ctx: &mut dto::BuildContext) -> (r: SlotKey)
        requires
            old(scene).wf(),
            old(ctx).wf(),
            old(scene).slot_count() + dto::widget_count(dto::Widget::MenuBarItem(self)) <= u32::MAX,
            dto::widget_fits(dto::Widget::MenuBarItem(self)),
        ensures
            final(scene).built(*old(scene), r, dto::widget_count(dto::Widget::MenuBarItem(self))),
            built_from(*final(scene), *old(scene), final(ctx)@, dto::Widget::MenuBarItem(self), r),
            final(scene).widget(r) matches Some(Widget::MenuBarItem(item)) && {
                &&& final(scene).widget(item.spec_menu()) matches Some(w) && w is Menu
                &&& !old(scene).contains(item.spec_menu())
                &&& final(scene).tree_view().spec_parent(item.spec_menu()) is None
            },
            final(scene).widget(r) matches Some(w) && w is MenuBarItem,
            final(ctx).wf(),
            self.name matches Some(n) ==> final(ctx)@.contains_key(n@) && final(ctx)@[n@] == r,
            names_recorded(final(ctx)@, old(ctx)@, dto::widget_names(dto::Widget::MenuBarItem(self)), *old(scene), *final(scene)),
        decreases self,
    {
        let ghost whole = self;
        let dto::MenuBarItem { name, label, enabled, menu } = self;
        let ghost start = *scene;
        let ghost ctx0 = ctx@;
        proof {
            assert(decreases_to!(whole => whole.menu));
        }
        let menu = menu.construct(scene, ctx);
        let ghost c1 = ctx@;
        let label = label_from_dto(label);
        let enabled = enabled_from_dto(enabled);
        let ghost mid = *scene;
        let key = scene.create_leaf(move |key: SlotKey| -> (w: Widget)
            ensures
                w matches Widget::MenuBarItem(i) && i.spec_menu() == menu,
                w.spec_key() == key,
                w.children_view().len() == 0,
            { Widget::MenuBarItem(MenuBarItem::new(key, label, enabled, menu)) });
        proof {
            lemma_extends_trans(start, mid, *scene);
        }
        ctx.insert(name, key);
        proof {
            let menu_names = dto::widget_names(dto::Widget::Menu(*whole.menu));
            lemma_recorded_insert(ctx@, c1, whole.name, key, mid, *scene);
            lemma_recorded_trans(ctx0, c1, ctx@, menu_names, dto::own_name(whole.name), start, mid, *scene);
            assert(menu_names + dto::own_name(whole.name) =~= dto::widget_names(dto::Widget::MenuBarItem(whole)));
            let nm = dto::unique_names(dto::Widget::MenuBarItem(whole));
            assert(nm == dto::item_unique(whole));
            let mw = dto::Widget::Menu(*whole.menu);
            assert(in_menu(mid, *whole.menu, menu, menu));
            assert forall|k: SlotKey| #[trigger] in_menu(mid, *whole.menu, menu, k) implies scene.widget(k) == mid.widget(k) && mid.contains(k) && !start.contains(k) by {
                assert(in_built(mid, mw, menu, k));
            }
            if nm {
                lemma_insert_agrees(c1, whole.name, key, dto::widget_names(mw));
            }
            lemma_menu_kept(mid, *scene, c1, ctx@, *whole.menu, menu, dto::menu_unique(*whole.menu), nm);
            assert(!in_menu(*scene, *whole.menu, menu, key)) by {
                if in_menu(*scene, *whole.menu, menu, key) {
                    assert(in_menu(mid, *whole.menu, menu, key));
                }
            }
            assert(item_built(*scene, ctx@, whole, key, nm));
            assert forall|k: SlotKey| #[trigger] in_built(*scene, dto::Widget::MenuBarItem(whole), key, k) implies !start.contains(k) && scene.contains(k) by {
                if k != key {
                    assert(in_item(*scene, whole, key, k));
                    assert(in_menu(*scene, *whole.menu, menu, k));
                    assert(in_menu(mid, *whole.menu, menu, k));
                }
            }
        }
        key
    }
}

impl dto::MenuBar {
    /// Builds a menu bar and its items.
    pub fn construct(self, scene: &mut Scene, ctx: &mut dto::BuildContext) -> (r: SlotKey)
        requires
            old(scene).wf(),
            old(ctx).wf(),
            old(scene).slot_count() + 1 + dto::items_count(self.children@) <= u32::MAX,
            dto::items_fit(self.children@),
        ensures
            final(scene).built(*old(scene), r, 1 + dto::items_count(self.children@)),
            built_from(*final(scene), *old(scene), final(ctx)@, dto::Widget::MenuBar(self), r),
            final(scene).widget(r) matches Some(w) && w is MenuBar,
            final(ctx).wf(),
            self.name matches Some(n) ==> final(ctx)@.contains_key(n@) && final(ctx)@[n@] == r,
            names_recorded(final(ctx)@, old(ctx)@, dto::widget_names(dto::Widget::MenuBar(self)), *old(scene), *final(scene)),
        decreases self,
    {
        let ghost whole = self;
        let dto::MenuBar { name, children } = self;
        let ghost all = children@;
        let n = children.len();
        let mut rest = children;
        let mut keys: Vec<ChildWidget> = Vec::new();
        let ghost start = *scene;
        let ghost ctx0 = ctx@;
        let ghost nm = dto::unique_names(dto::Widget::MenuBar(whole));
        let ghost iw = item_widgets(all);
        proof {
            assert(iw.subrange(0, 0) =~= Seq::<dto::Widget>::empty());
            assert(all.subrange(0, 0) =~= Seq::<dto::MenuBarItem>::empty());
            assert(dto::items_names(all.subrange(0, 0)) =~= Set::<Seq<char>>::empty());
            lemma_recorded_none(ctx@, start, start);
        }
        while rest.len() > 0
            invariant
                whole == self,
                all == whole.children@,
                n == all.len(),
                keys@.len() + rest@.len() == n,
                rest@ == all.subrange(keys@.len() as int, n as int),
                scene.wf(),
                ctx.wf(),
                start.wf(),
                scene.extends(start),
                names_recorded(ctx@, ctx0, dto::items_names(all.subrange(0, keys@.len() as int)), start, *scene),
                scene.slot_count() <= start.slot_count() + dto::items_count(all.subrange(0, keys@.len() as int)),
                start.slot_count() + 1 + dto::items_count(all) <= u32::MAX,
                dto::items_fit(all),
                distinct_keys(keys@),
                forall|j: int| 0 <= j < keys@.len() ==> {
                    &&& !start.contains(#[trigger] keys@[j].key)
                    &&& scene.contains(keys@[j].key)
                    &&& scene.tree_view().spec_parent(keys@[j].key) is None
                    &&& keys@[j].bounds == rect(0, 0, 0, 0)
                },
                nm == dto::unique_names(dto::Widget::MenuBar(whole)),
                iw == item_widgets(all),
                rows_ok(*scene, start, ctx@, iw.subrange(0, keys@.len() as int), keys@, nm),
            decreases rest@.len(),
        {
            let i = keys.len();
            let child = rest.remove(0);
            proof {
                assert(child == all[i as int]);
                dto::lemma_items_prefix(all, i as int);
                dto::lemma_items_whole(all, i as int + 1);
                dto::lemma_items_whole(all, i as int);
                assert(rest@ =~= all.subrange(i + 1, n as int));
                assert(decreases_to!(whole => whole.children));
                assert(decreases_to!(whole.children => whole.children@));
                assert(decreases_to!(whole.children@ => whole.children@[i as int]));
            }
            let ghost before = *scene;
            let ghost cb = ctx@;
            let ghost kb = keys@;
            let k = child.construct(scene, ctx);
            proof {
                assert(iw[i as int] == dto::Widget::MenuBarItem(child));
                if nm {
                    assert forall|j: int| 0 <= j < iw.subrange(0, i as int).len() implies dto::widget_names(iw[i as int]).disjoint(#[trigger] dto::widget_names(iw.subrange(0, i as int)[j])) by {
                        assert(iw.subrange(0, i as int)[j] == dto::Widget::MenuBarItem(whole.children@[j]));
                        assert(child == whole.children@[i as int]);
                    }
                    assert(dto::item_unique(whole.children@[i as int]));
                    assert(dto::unique_names(iw[i as int]));
                }
                lemma_rows_step(before, *scene, start, cb, ctx@, iw.subrange(0, i as int), kb, iw[i as int], k, rect(0, 0, 0, 0), nm);
                lemma_extends_trans(start, before, *scene);
                lemma_recorded_trans(ctx0, cb, ctx@, dto::items_names(all.subrange(0, i as int)), dto::widget_names(dto::Widget::MenuBarItem(all[i as int])), start, before, *scene);
                assert(dto::items_names(all.subrange(0, i as int)) + dto::widget_names(dto::Widget::MenuBarItem(all[i as int])) =~= dto::items_names(all.subrange(0, i as int + 1)));
            }
            keys.push(ChildWidget::new(Bounds2i::zero(), k));
            proof {
                assert(iw.subrange(0, i as int).push(iw[i as int]) =~= iw.subrange(0, i as int + 1));
                assert(keys@ == kb.push(ChildWidget { bounds: rect(0, 0, 0, 0), key: k }));
                assert(!start.contains(k)) by {
                    if start.contains(k) {
                        assert(before.contains(k));
                    }
                }
                assert forall|a: int, b: int| 0 <= a < b < keys@.len() implies (#[trigger] keys@[a]).key != (#[trigger] keys@[b]).key by {
                    if b == keys@.len() - 1 {
                        assert(before.contains(keys@[a].key));
                    }
                }
                assert forall|j: int| 0 <= j < keys@.len() implies {
                    &&& !start.contains(#[trigger] keys@[j].key)
                    &&& scene.contains(keys@[j].key)
                    &&& scene.tree_view().spec_parent(keys@[j].key) is None
                    &&& keys@[j].bounds == rect(0, 0, 0, 0)
                } by {
                    if j < keys@.len() - 1 {
                        assert(before.contains(keys@[j].key));
                    }
                }
            }
        }
        proof {
            assert(all.subrange(0, n as int) =~= all);
            assert(iw.subrange(0, n as int) =~= iw);
            assert(scene.can_adopt(keys@)) by {
                assert forall|j: int| 0 <= j < keys@.len() implies keys@[j].key != scene.tree_view().spec_content() by {
                    assert(start.contains(start.tree_view().spec_content()));
                }
            }
        }
        let ghost kv = keys@;
        let ghost pre = *scene;
        let make = move |key: SlotKey| -> (w: Widget)
            requires
                kv == keys@,
            ensures
                w.spec_key() == key,
                w.children_view() == kv,
                w is MenuBar,
            { Widget::MenuBar(MenuBar::new(key, keys)) };
        let ghost mk = make;
        let key = scene.create_widget(make);
        let ghost cmid = ctx@;
        ctx.insert(name, key);
        proof {
            let w = choose|w: Widget| #[trigger] mk.ensures((key,), w) && scene.slots_view() == pre.slots_view().insert(key.spec_index(), Some(w))
                && forall|k: SlotKey| #[trigger] scene.tree_view().spec_parent(k) == if has_child(w.children_view(), k) {
                    Some(key)
                } else {
                    pre.tree_view().spec_parent(k)
                };
            lemma_bar_adopted(pre, *scene, start, cmid, ctx@, whole, kv, key, nm, w);
            lemma_recorded_insert(ctx@, cmid, whole.name, key, pre, *scene);
            lemma_recorded_trans(ctx0, cmid, ctx@, dto::items_names(all), dto::own_name(whole.name), start, pre, *scene);
            assert(dto::items_names(all) + dto::own_name(whole.name) =~= dto::widget_names(dto::Widget::MenuBar(whole)));
        }
        key
    }
}

impl Scene {
    /// Creates a widget whose only child is `content`, a new parentless widget of
    /// the scene that `self` extends from `start`.
    fn create_wrapper<F: FnOnce(SlotKey) -> Widget>(&mut self, f: F, content: SlotKey, Ghost(start): Ghost<Scene>, Ghost(count): Ghost<nat>) -> (key: SlotKey)
        requires
            old(self).built(start, content, count),
            start.wf(),
            old(self).slot_count() < u32::MAX,
            forall|k: SlotKey| #[trigger] f.requires((k,)),
            forall|k: SlotKey, w: Widget| #[trigger] f.ensures((k,), w)
                ==> w.spec_key() == k && w.children_view() == seq![(ChildWidget { bounds: w.children_view()[0].bounds, key: content })],
        ensures
            final(self).built(start, key, count + 1),
            exists|w: Widget| #[trigger] f.ensures((key,), w) && final(self).widget(key) == Some(w),
            final(self).tree_view().spec_parent(content) == Some(key),
            forall|k: SlotKey| k != content ==> #[trigger] final(self).tree_view().spec_parent(k) == old(self).tree_view().spec_parent(k),
            !old(self).contains(key),
            final(self).keeps_widgets(*old(self)),
    {
        proof {
            assert(start.contains(start.tree_view().spec_content()));
            assert forall|k: SlotKey, w: Widget| #[trigger] f.ensures((k,), w) implies w.spec_key() == k && old(self).can_adopt(w.children_view()) by {
                assert(w.children_view()[0].key == content);
            }
        }
        let ghost mid = *self;
        let key = self.create_widget(f);
        proof {
            let w = choose|w: Widget| #[trigger] f.ensures((key,), w) && self.slots_view() == mid.slots_view().insert(key.spec_index(), Some(w))
                && forall|k: SlotKey| #[trigger] self.tree_view().spec_parent(k) == if has_child(w.children_view(), k) {
                    Some(key)
                } else {
                    mid.tree_view().spec_parent(k)
                };
            assert(w.children_view()[0].key == content);
            assert(has_child(w.children_view(), content));
            assert(self.widget(key) == Some(w));
            assert(!has_child(w.children_view(), key)) by {
                if has_child(w.children_view(), key) {
                    let i = choose|i: int| 0 <= i < w.children_view().len() && (#[trigger] w.children_view()[i]).key == key;
                    assert(w.children_view()[i].key == content);
                }
            }
            assert(self.tree_view().spec_parent(key) == mid.tree_view().spec_parent(key));
            assert forall|k: SlotKey| #[trigger] start.contains(k) implies {
                &&& self.contains(k)
                &&& self.widget(k) == start.widget(k)
                &&& self.tree_view().spec_parent(k) == start.tree_view().spec_parent(k)
            } by {
                assert(mid.contains(k));
                assert(k.spec_index() != key.spec_index());
                if has_child(w.children_view(), k) {
                    let i = choose|i: int| 0 <= i < w.children_view().len() && (#[trigger] w.children_view()[i]).key == k;
                    assert(w.children_view()[i].key == content);
                }
            }
            assert(!start.contains(key)) by {
                if start.contains(key) {
                    assert(mid.contains(key));
                }
            }
            assert forall|k: SlotKey| k != content implies #[trigger] self.tree_view().spec_parent(k) == mid.tree_view().spec_parent(k) by {
                if has_child(w.children_view(), k) {
                    let i = choose|i: int| 0 <= i < w.children_view().len() && (#[trigger] w.children_view()[i]).key == k;
                    assert(w.children_view()[i].key == content);
                }
            }
        }
        key
    }

    /// A widget wrapping content built from `inner` under `c` is built from `w`.
    proof fn lemma_wrapper_built(start: Scene, mid: Scene, fin: Scene, c1: Map<Seq<char>, SlotKey>, c2: Map<Seq<char>, SlotKey>, w: dto::Widget, inner: dto::Widget, c: SlotKey, key: SlotKey, b: Bounds2i)
        requires
            w is Button || w is ScrollPanel || w is Window,
            inner == match w {
                dto::Widget::Button(x) => *x.content,
                dto::Widget::ScrollPanel(x) => *x.content,
                dto::Widget::Window(x) => *x.content,
                _ => inner,
            },
            b == match w {
                dto::Widget::Window(_) => rect(0, crate::widgets::MIN_HEADER_HEIGHT as int, 0, 0),
                _ => rect(0, 0, 0, 0),
            },
            built_from(mid, start, c1, inner, c),
            mid.keeps_widgets(start),
            fin.keeps_widgets(mid),
            !mid.contains(key),
            fin.contains(key),
            forall|k: SlotKey| k != c ==> #[trigger] fin.tree_view().spec_parent(k) == mid.tree_view().spec_parent(k),
            fin.tree_view().spec_parent(c) == Some(key),
            fin.widget(key) matches Some(x) && x.spec_key() == key && x.children_view() == seq![ChildWidget { bounds: b, key: c }] && match w {
                dto::Widget::Button(_) => x is Button,
                dto::Widget::ScrollPanel(_) => x is ScrollPanel,
                _ => x is Window,
            },
            c2 == match dto::name_of(w) {
                Some(n) => c1.insert(n@, key),
                None => c1,
            },
            dto::unique_names(w) ==> dto::unique_names(inner) && dto::own_name(dto::name_of(w)).disjoint(dto::widget_names(inner)),
        ensures
            built_from(fin, start, c2, w, key),
    {
        let nm = dto::unique_names(w);
        assert(in_built(mid, inner, c, c));
        assert forall|k: SlotKey| #[trigger] in_built(mid, inner, c, k) implies fin.widget(k) == mid.widget(k) by {
            assert(mid.contains(k));
        }
        if nm {
            lemma_insert_agrees(c1, dto::name_of(w), key, dto::widget_names(inner));
        }
        lemma_built_kept(mid, fin, c1, c2, inner, c, dto::unique_names(inner), nm);
        assert(fin.children_of(key)[0] == ChildWidget { bounds: b, key: c });
        assert(!in_built(fin, inner, c, key)) by {
            if in_built(fin, inner, c, key) {
                assert(in_built(mid, inner, c, key));
            }
        }
        assert(child_built(fin, c2, inner, key, 0, b, nm));
        assert forall|k: SlotKey| #[trigger] in_built(fin, w, key, k) implies !start.contains(k) && fin.contains(k) by {
            if k != key {
                assert(in_built(fin, inner, c, k));
                assert(in_built(mid, inner, c, k));
            } else {
                if start.contains(key) {
                    assert(mid.contains(key));
                }
            }
        }
    }
}

impl dto::Button {
    /// Builds a button and, first, its content.
    pub fn construct(self, scene: &mut Scene, ctx: &mut dto::BuildContext) -> (r: SlotKey)
        requires
            old(scene).wf(),
            old(ctx).wf(),
            old(scene).slot_count() + dto::widget_count(dto::Widget::Button(self)) <= u32::MAX,
            dto::widget_fits(dto::Widget::Button(self)),
        ensures
            final(scene).built(*old(scene), r, dto::widget_count(dto::Widget::Button(self))),
            built_from(*final(scene), *old(scene), final(ctx)@, dto::Widget::Button(self), r),
            final(scene).widget(r) matches Some(w) && w is Button,
            final(ctx).wf(),
            self.name matches Some(n) ==> final(ctx)@.contains_key(n@) && final(ctx)@[n@] == r,
            names_recorded(final(ctx)@, old(ctx)@, dto::widget_names(dto::Widget::Button(self)), *old(scene), *final(scene)),
        decreases self,
    {
        let ghost whole = self;
        let dto::Button { name, enabled, content } = self;
        let ghost start = *scene;
        let ghost ctx0 = ctx@;
        proof {
            assert(decreases_to!(whole => whole.content));
        }
        let content = content.construct(scene, ctx);
        let ghost mid = *scene;
        let ghost c1 = ctx@;
        let enabled = enabled_from_dto(enabled);
        let ghost kids = seq![ChildWidget { bounds: rect(0, 0, 0, 0), key: content }];
        let make = move |key: SlotKey| -> (w: Widget)
            ensures
                w is Button,
                w.spec_key() == key,
                w.children_view() == kids,
            { Widget::Button(Button::new(key, content, enabled)) };
        let key = scene.create_wrapper(make, content, Ghost(start), Ghost(dto::widget_count(*whole.content)));
        ctx.insert(name, key);
        proof {
            Scene::lemma_wrapper_built(start, mid, *scene, c1, ctx@, dto::Widget::Button(whole), *whole.content, content, key, rect(0, 0, 0, 0));
            lemma_recorded_insert(ctx@, c1, whole.name, key, mid, *scene);
            lemma_recorded_trans(ctx0, c1, ctx@, dto::widget_names(*whole.content), dto::own_name(whole.name), start, mid, *scene);
            assert(dto::widget_names(*whole.content) + dto::own_name(whole.name) =~= dto::widget_names(dto::Widget::Button(whole)));
        }
        key
    }
}

impl dto::ScrollPanel {
    /// Builds a scroll panel and, first, its content.
    pub fn construct(self, scene: &mut Scene, ctx: &mut dto::BuildContext) -> (r: SlotKey)
        requires
            old(scene).wf(),
            old(ctx).wf(),
            old(scene).slot_count() + dto::widget_count(dto::Widget::ScrollPanel(self)) <= u32::MAX,
            dto::widget_fits(dto::Widget::ScrollPanel(self)),
        ensures
            final(scene).built(*old(scene), r, dto::widget_count(dto::Widget::ScrollPanel(self))),
            built_from(*final(scene), *old(scene), final(ctx)@, dto::Widget::ScrollPanel(self), r),
            final(scene).widget(r) matches Some(w) && w is ScrollPanel,
            final(ctx).wf(),
            self.name matches Some(n) ==> final(ctx)@.contains_key(n@) && final(ctx)@[n@] == r,
            names_recorded(final(ctx)@, old(ctx)@, dto::widget_names(dto::Widget::ScrollPanel(self)), *old(scene), *final(scene)),
        decreases self,
    {
        let ghost whole = self;
        let dto::ScrollPanel { name, content_height, content } = self;
        let ghost start = *scene;
        let ghost ctx0 = ctx@;
        proof {
            assert(decreases_to!(whole => whole.content));
        }
        let content = content.construct(scene, ctx);
        let ghost mid = *scene;
        let ghost c1 = ctx@;
        let ghost kids = seq![ChildWidget { bounds: rect(0, 0, 0, 0), key: content }];
        let make = move |key: SlotKey| -> (w: Widget)
            ensures
                w is ScrollPanel,
                w.spec_key() == key,
                w.children_view() == kids,
            { Widget::ScrollPanel(ScrollPanel::new(key, content, content_height)) };
        let key = scene.create_wrapper(make, content, Ghost(start), Ghost(dto::widget_count(*whole.content)));
        ctx.insert(name, key);
        proof {
            Scene::lemma_wrapper_built(start, mid, *scene, c1, ctx@, dto::Widget::ScrollPanel(whole), *whole.content, content, key, rect(0, 0, 0, 0));
            lemma_recorded_insert(ctx@, c1, whole.name, key, mid, *scene);
            lemma_recorded_trans(ctx0, c1, ctx@, dto::widget_names(*whole.content), dto::own_name(whole.name), start, mid, *scene);
            assert(dto::widget_names(*whole.content) + dto::own_name(whole.name) =~= dto::widget_names(dto::Widget::ScrollPanel(whole)));
        }
        key
    }
}

impl dto::Window {
    /// Builds a window and, first, its content.
    pub fn construct(self, scene: &mut Scene, ctx: &mut dto::BuildContext) -> (r: SlotKey)
        requires
            old(scene).wf(),
            old(ctx).wf(),
            old(scene).slot_count() + dto::widget_count(dto::Widget::Window(self)) <= u32::MAX,
            dto::widget_fits(dto::Widget::Window(self)),
        ensures
            final(scene).built(*old(scene), r, dto::widget_count(dto::Widget::Window(self))),
            built_from(*final(scene), *old(scene), final(ctx)@, dto::Widget::Window(self), r),
            final(scene).widget(r) matches Some(w) && w is Window,
            final(ctx).wf(),
            self.name matches Some(n) ==> final(ctx)@.contains_key(n@) && final(ctx)@[n@] == r,
            names_recorded(final(ctx)@, old(ctx)@, dto::widget_names(dto::Widget::Window(self)), *old(scene), *final(scene)),
        decreases self,
    {
        let ghost whole = self;
        let dto::Window { name, title, content } = self;
        let ghost start = *scene;
        let ghost ctx0 = ctx@;
        proof {
            assert(decreases_to!(whole => whole.content));
        }
        let content = content.construct(scene, ctx);
        let ghost mid = *scene;
        let ghost c1 = ctx@;
        let title = label_from_dto(title);
        let ghost kids = seq![ChildWidget { bounds: rect(0, crate::widgets::MIN_HEADER_HEIGHT as int, 0, 0), key: content }];
        let make = move |key: SlotKey| -> (w: Widget)
            ensures
                w is Window,
                w.spec_key() == key,
                w.children_view() == kids,
            { Widget::Window(Window::new(key, title, content)) };
        let key = scene.create_wrapper(make, content, Ghost(start), Ghost(dto::widget_count(*whole.content)));
        ctx.insert(name, key);
        proof {
            Scene::lemma_wrapper_built(start, mid, *scene, c1, ctx@, dto::Widget::Window(whole), *whole.content, content, key, rect(0, crate::widgets::MIN_HEADER_HEIGHT as int, 0, 0));
            lemma_recorded_insert(ctx@, c1, whole.name, key, mid, *scene);
            lemma_recorded_trans(ctx0, c1, ctx@, dto::widget_names(*whole.content), dto::own_name(whole.name), start, mid, *scene);
            assert(dto::widget_names(*whole.content) + dto::own_name(whole.name) =~= dto::widget_names(dto::Widget::Window(whole)));
        }
        key
    }
}

impl dto::Panel {
    /// Builds a panel and, first, its children, each at its declared bounds.
    pub fn construct(self, scene: &mut Scene, ctx: &mut dto::BuildContext) -> (r: SlotKey)
        requires
            old(scene).wf(),
            old(ctx).wf(),
            old(scene).slot_count() + 1 + dto::children_count(self.children@) <= u32::MAX,
            dto::children_fit(self.children@),
        ensures
            final(scene).built(*old(scene), r, 1 + dto::children_count(self.children@)),
            built_from(*final(scene), *old(scene), final(ctx)@, dto::Widget::Panel(self), r),
            final(scene).widget(r) matches Some(w) && w is Panel,
            final(scene).children_of(r).len() == self.children@.len(),
            forall|i: int| 0 <= i < self.children@.len() ==> (#[trigger] final(scene).children_of(r)[i]).bounds == self.children@[i].bounds,
            final(ctx).wf(),
            self.name matches Some(n) ==> final(ctx)@.contains_key(n@) && final(ctx)@[n@] == r,
            names_recorded(final(ctx)@, old(ctx)@, dto::widget_names(dto::Widget::Panel(self)), *old(scene), *final(scene)),
        decreases self,
    {
        let ghost whole = self;
        let dto::Panel { name, children } = self;
        let ghost all = children@;
        let n = children.len();
        let mut rest = children;
        let mut keys: Vec<ChildWidget> = Vec::new();
        let ghost start = *scene;
        let ghost ctx0 = ctx@;
        let ghost nm = dto::unique_names(dto::Widget::Panel(whole));
        let ghost cw = child_widgets(all);
        proof {
            assert(cw.subrange(0, 0) =~= Seq::<dto::Widget>::empty());
            assert(all.subrange(0, 0) =~= Seq::<dto::ChildWidget>::empty());
            assert(dto::children_names(all.subrange(0, 0)) =~= Set::<Seq<char>>::empty());
            lemma_recorded_none(ctx@, start, start);
            assert(all.subrange(0, n as int) =~= all);
        }
        while rest.len() > 0
            invariant
                whole == self,
                all == whole.children@,
                n == all.len(),
                keys@.len() + rest@.len() == n,
                rest@ == all.subrange(keys@.len() as int, n as int),
                scene.wf(),
                ctx.wf(),
                start.wf(),
                scene.extends(start),
                names_recorded(ctx@, ctx0, dto::children_names(all.subrange(0, keys@.len() as int)), start, *scene),
                scene.slot_count() <= start.slot_count() + dto::children_count(all.subrange(0, keys@.len() as int)),
                start.slot_count() + 1 + dto::children_count(all) <= u32::MAX,
                dto::children_fit(all),
                distinct_keys(keys@),
                forall|j: int| 0 <= j < keys@.len() ==> {
                    &&& !start.contains(#[trigger] keys@[j].key)
                    &&& scene.contains(keys@[j].key)
                    &&& scene.tree_view().spec_parent(keys@[j].key) is None
                    &&& keys@[j].bounds == all[j].bounds
                },
                nm == dto::unique_names(dto::Widget::Panel(whole)),
                cw == child_widgets(all),
                rows_ok(*scene, start, ctx@, cw.subrange(0, keys@.len() as int), keys@, nm),
            decreases rest@.len(),
        {
            let i = keys.len();
            let child = rest.remove(0);
            proof {
                assert(child == all[i as int]);
                dto::lemma_children_prefix(all, i as int);
                dto::lemma_children_whole(all, i as int + 1);
                dto::lemma_children_whole(all, i as int);
                assert(rest@ =~= all.subrange(i + 1, n as int));
                assert(decreases_to!(whole => whole.children));
                assert(decreases_to!(whole.children => whole.children@));
                assert(decreases_to!(whole.children@ => whole.children@[i as int]));
                assert(decreases_to!(whole.children@[i as int] => whole.children@[i as int].widget));
            }
            let dto::ChildWidget { bounds, widget } = child;
            let ghost before = *scene;
            let ghost cb = ctx@;
            let ghost kb = keys@;
            let k = widget.construct(scene, ctx);
            proof {
                assert(cw[i as int] == *widget);
                if nm {
                    assert forall|j: int| 0 <= j < cw.subrange(0, i as int).len() implies dto::widget_names(cw[i as int]).disjoint(#[trigger] dto::widget_names(cw.subrange(0, i as int)[j])) by {
                        assert(cw.subrange(0, i as int)[j] == *whole.children@[j].widget);
                        assert(*widget == *whole.children@[i as int].widget);
                    }
                    assert(dto::unique_names(*whole.children@[i as int].widget));
                }
                lemma_rows_step(before, *scene, start, cb, ctx@, cw.subrange(0, i as int), kb, *widget, k, bounds, nm);
                lemma_extends_trans(start, before, *scene);
                lemma_recorded_trans(ctx0, cb, ctx@, dto::children_names(all.subrange(0, i as int)), dto::widget_names(*all[i as int].widget), start, before, *scene);
                assert forall|j: int| 0 <= j < keys@.len() implies (#[trigger] keys@[j]).key != k by {
                    assert(before.contains(keys@[j].key));
                }
            }
            keys.push(ChildWidget::new(bounds, k));
            proof {
                assert(cw.subrange(0, i as int).push(*widget) =~= cw.subrange(0, i as int + 1));
                assert(keys@ == kb.push(ChildWidget { bounds: bounds, key: k }));
                assert(!start.contains(k)) by {
                    if start.contains(k) {
                        assert(before.contains(k));
                    }
                }
                assert forall|a: int, b: int| 0 <= a < b < keys@.len() implies (#[trigger] keys@[a]).key != (#[trigger] keys@[b]).key by {
                    if b == keys@.len() - 1 {
                        assert(before.contains(keys@[a].key));
                    }
                }
                assert forall|j: int| 0 <= j < keys@.len() implies {
                    &&& !start.contains(#[trigger] keys@[j].key)
                    &&& scene.contains(keys@[j].key)
                    &&& scene.tree_view().spec_parent(keys@[j].key) is None
                    &&& keys@[j].bounds == all[j].bounds
                } by {
                    if j < keys@.len() - 1 {
                        assert(before.contains(keys@[j].key));
                    }
                }
            }
        }
        proof {
            assert(keys@.len() == n);
            assert(all.subrange(0, n as int) =~= all);
            assert(cw.subrange(0, n as int) =~= cw);
            assert(scene.can_adopt(keys@)) by {
                assert forall|j: int| 0 <= j < keys@.len() implies keys@[j].key != scene.tree_view().spec_content() by {
                    assert(start.contains(start.tree_view().spec_content()));
                }
            }
        }
        let ghost kv = keys@;
        let ghost pre = *scene;
        let make = move |key: SlotKey| -> (w: Widget)
            requires
                kv == keys@,
            ensures
                w.spec_key() == key,
                w.children_view() == kv,
                w is Panel,
            { Widget::Panel(Panel::new(key, keys)) };
        let ghost mk = make;
        let key = scene.create_widget(make);
        let ghost cmid = ctx@;
        ctx.insert(name, key);
        proof {
            let w = choose|w: Widget| #[trigger] mk.ensures((key,), w) && scene.slots_view() == pre.slots_view().insert(key.spec_index(), Some(w))
                && forall|k: SlotKey| #[trigger] scene.tree_view().spec_parent(k) == if has_child(w.children_view(), k) {
                    Some(key)
                } else {
                    pre.tree_view().spec_parent(k)
                };
            lemma_panel_adopted(pre, *scene, start, cmid, ctx@, whole, kv, key, nm, w);
            lemma_recorded_insert(ctx@, cmid, whole.name, key, pre, *scene);
            lemma_recorded_trans(ctx0, cmid, ctx@, dto::children_names(all), dto::own_name(whole.name), start, pre, *scene);
            assert(dto::children_names(all) + dto::own_name(whole.name) =~= dto::widget_names(dto::Widget::Panel(whole)));
        }
        key
    }
}

impl dto::Scene {
    /// A scene built from `self`: of its size, with one widget shown on the root
    /// panel for each root, at the root's bounds and in the same order.
    pub open spec fn built_scene(&self, r: Scene) -> bool {
        &&& r.wf()
        &&& r.tree_view().tracks_children()
        &&& r.tree_view().spec_size() == self.size
        &&& r.tree_view().popup_chain_view().len() == 0
        &&& r.tree_view().spec_popup_request() is None
        &&& r.tree_view().root_children_view().len() == self.roots@.len()
        &&& forall|i: int| 0 <= i < self.roots@.len() ==> {
            &&& (#[trigger] r.tree_view().root_children_view()[i]).bounds == self.roots@[i].bounds
            &&& r.widget(r.tree_view().root_children_view()[i].key) is Some
            &&& r.tree_view().spec_is_shown(r.tree_view().root_children_view()[i].key)
        }
    }

    /// Builds a retained scene from this declarative scene, together with the names
    /// of its widgets.
    pub fn build(self) -> (r: (Scene, dto::BuildContext))
        requires
            1 + dto::children_count(self.roots@) <= u32::MAX,
            dto::children_fit(self.roots@),
        ensures
            self.built_scene(r.0),
            r.1.wf(),
            r.1@.dom() == dto::children_names(self.roots@),
            forall|n: Seq<char>| #[trigger] r.1@.contains_key(n)
                ==> r.0.widget(r.1@[n]) is Some && r.1@[n] != r.0.tree_view().spec_content(),
    {
        let mut ctx = dto::BuildContext::new();
        let scene = self.construct(&mut ctx);
        (scene, ctx)
    }

    /// Builds a retained scene from this declarative scene and records the names of
    /// its widgets into `ctx`: each root is built and shown at its bounds.
    pub fn construct(self, ctx: &mut dto::BuildContext) -> (r: Scene)
        requires
            old(ctx).wf(),
            1 + dto::children_count(self.roots@) <= u32::MAX,
            dto::children_fit(self.roots@),
        ensures
            self.built_scene(r),
            final(ctx).wf(),
            final(ctx)@.dom() == old(ctx)@.dom() + dto::children_names(self.roots@),
            forall|n: Seq<char>| #[trigger] final(ctx)@.contains_key(n) ==> if dto::children_names(self.roots@).contains(n) {
                r.widget(final(ctx)@[n]) is Some && final(ctx)@[n] != r.tree_view().spec_content()
            } else {
                final(ctx)@[n] == old(ctx)@[n]
            },
    {
        let ghost whole = self;
        let dto::Scene { size, roots } = self;
        let ghost all = roots@;
        let n = roots.len();
        let mut rest = roots;
        let mut scene = Scene::new(size);
        let ghost s0 = scene;
        let ghost ctx0 = ctx@;
        proof {
            assert(all.subrange(0, 0) =~= Seq::<dto::ChildWidget>::empty());
            assert(dto::children_names(all.subrange(0, 0)) =~= Set::<Seq<char>>::empty());
            lemma_recorded_none(ctx@, s0, s0);
            assert(s0.contains(s0.tree_view().spec_content()));
        }
        while rest.len() > 0
            invariant
                all == whole.roots@,
                size == whole.size,
                n == all.len(),
                scene.tree_view().root_children_view().len() + rest@.len() == n,
                rest@ == all.subrange(scene.tree_view().root_children_view().len() as int, n as int),
                scene.wf(),
                ctx.wf(),
                scene.tree_view().tracks_children(),
                scene.tree_view().spec_size() == size,
                scene.tree_view().popup_chain_view().len() == 0,
                scene.tree_view().spec_popup_request() is None,
                ctx0 == old(ctx)@,
                s0.contains(s0.tree_view().spec_content()),
                scene.tree_view().spec_content() == s0.tree_view().spec_content(),
                scene.keeps_widgets(s0),
                names_recorded(ctx@, ctx0, dto::children_names(all.subrange(0, scene.tree_view().root_children_view().len() as int)), s0, scene),
                scene.slot_count() <= 1 + dto::children_count(all.subrange(0, scene.tree_view().root_children_view().len() as int)),
                1 + dto::children_count(all) <= u32::MAX,
                dto::children_fit(all),
                forall|j: int| 0 <= j < scene.tree_view().root_children_view().len() ==> {
                    &&& (#[trigger] scene.tree_view().root_children_view()[j]).bounds == all[j].bounds
                    &&& scene.widget(scene.tree_view().root_children_view()[j].key) is Some
                    &&& scene.tree_view().spec_is_shown(scene.tree_view().root_children_view()[j].key)
                },
            decreases rest@.len(),
        {
            let ghost i = scene.tree_view().root_children_view().len() as int;
            let child = rest.remove(0);
            proof {
                assert(child == all[i]);
                dto::lemma_children_prefix(all, i);
                dto::lemma_children_whole(all, i + 1);
                dto::lemma_children_whole(all, i);
                assert(rest@ =~= all.subrange(i + 1, n as int));
            }
            let dto::ChildWidget { bounds, widget } = child;
            let ghost before = scene;
            let ghost cb = ctx@;
            let k = widget.construct(&mut scene, ctx);
            let ghost mid = scene;
            proof {
                lemma_recorded_trans(ctx0, cb, ctx@, dto::children_names(all.subrange(0, i)), dto::widget_names(*all[i].widget), s0, before, mid);
            }
            proof {
                let rc = before.tree_view().root_children_view();
                assert forall|j: int| 0 <= j < rc.len() implies (#[trigger] rc[j]).key != k by {
                    assert(before.widget(rc[j].key) is Some);
                }
                crate::scene::lemma_child_position(rc, k);
            }
            scene.show(k, bounds);
            proof {
                let rc = before.tree_view().root_children_view();
                assert(scene.tree_view().root_children_view() == rc.push(ChildWidget { bounds, key: k }));
                assert forall|j: int| 0 <= j < scene.tree_view().root_children_view().len() implies {
                    &&& (#[trigger] scene.tree_view().root_children_view()[j]).bounds == all[j].bounds
                    &&& scene.widget(scene.tree_view().root_children_view()[j].key) is Some
                    &&& scene.tree_view().spec_is_shown(scene.tree_view().root_children_view()[j].key)
                } by {
                    if j < rc.len() {
                        let kj = rc[j].key;
                        assert(before.widget(kj) is Some);
                        assert(before.contains(kj));
                        assert(mid.widget(kj) == before.widget(kj));
                        if kj.spec_index() == k.spec_index() {
                            SlotKey::lemma_same_index(kj, k);
                        }
                        assert(mid.tree_view().spec_parent(kj) == before.tree_view().spec_parent(kj));
                    }
                }
                lemma_recorded_none(ctx@, mid, scene);
                lemma_recorded_trans(ctx0, ctx@, ctx@, dto::children_names(all.subrange(0, i + 1)), Set::empty(), s0, mid, scene);
                assert(dto::children_names(all.subrange(0, i + 1)) + Set::empty() =~= dto::children_names(all.subrange(0, i + 1)));
                assert forall|k0: SlotKey| #[trigger] s0.contains(k0) implies scene.contains(k0) && scene.widget(k0) == s0.widget(k0) by {
                    assert(before.contains(k0));
                    assert(mid.contains(k0));
                }
            }
        }
        proof {
            assert(all.subrange(0, n as int) =~= all);
        }
        scene
    }
}

/// Destroying a widget removes it: afterwards it holds no widget, has no parent, and
/// is neither pointed nor captured; nothing else is added or changed.
pub proof fn law_destroyed_widget_gone(old: Scene, new: Scene, key: SlotKey)
    requires
        old.wf(),
        old.widget(key) is Some,
        key != old.tree_view().spec_content(),
        new.destroyed(old, key, old.slot_count()),
    ensures
        new.widget(key) is None,
        new.tree_view().spec_parent(key) is None,
        new.tree_view().spec_pointed() != Some(key),
        new.tree_view().spec_captured() != Some(key),
        new.shrunk_from(old),
{
    old.lemma_index_bounded(key);
    let mid = choose|mid: Scene| #[trigger] mid.destroy_step(old, key)
        && new.children_destroyed(mid, old.children_of(key), (old.slot_count() - 1) as nat);
    mid.lemma_step_shrinks(old, key);
    new.lemma_children_destroyed_shrinks(mid, old.children_of(key), (old.slot_count() - 1) as nat);
    new.lemma_destroyed_shrinks(old, key, old.slot_count());
    if new.contains(key) {
        assert(mid.contains(key));
    }
}

/// Each child the destroyed widget had is destroyed with it (unless it is the root
/// panel): afterwards it holds no widget.
pub proof fn law_destroyed_children_gone(old: Scene, new: Scene, key: SlotKey)
    requires
        old.wf(),
        old.widget(key) is Some,
        key != old.tree_view().spec_content(),
        new.destroyed(old, key, old.slot_count()),
    ensures
        forall|i: int| 0 <= i < old.children_of(key).len() ==> {
            ||| (#[trigger] old.children_of(key)[i]).key == old.tree_view().spec_content()
            ||| new.widget(old.children_of(key)[i].key) is None
        },
{
    let content = old.tree_view().spec_content();
    old.lemma_index_bounded(key);
    old.lemma_index_bounded(content);
    if key.spec_index() == content.spec_index() {
        SlotKey::lemma_same_index(key, content);
    }
    assert(old.slot_count() >= 2);
    let mid = choose|mid: Scene| #[trigger] mid.destroy_step(old, key)
        && new.children_destroyed(mid, old.children_of(key), (old.slot_count() - 1) as nat);
    mid.lemma_step_shrinks(old, key);
    new.lemma_children_gone(mid, old.children_of(key), (old.slot_count() - 1) as nat);
}

/// Destroying a widget frees the widgets it reaches through the children lists, itself
/// first and then the subtree of each child in turn, when it reaches none of them twice
/// and no root panel: afterwards those hold no widget, and every other slot holds what
/// it held. Looking as many levels down as the scene has slots reaches the whole
/// subtree: looking further adds nothing.
pub proof fn law_destroy_frees_subtree(old: Scene, new: Scene, key: SlotKey)
    requires
        old.wf(),
        new.destroyed(old, key, old.slot_count()),
        old.destroys_tree(key, old.slot_count()),
    ensures
        forall|w: SlotKey| #[trigger] new.widget(w) == if old.destroy_order(key, old.slot_count()).contains(w) {
            None
        } else {
            old.widget(w)
        },
        forall|fuel: nat| old.slot_count() <= fuel ==> #[trigger] old.destroy_order(key, fuel) == old.destroy_order(key, old.slot_count()),
{
    new.lemma_destroyed_frees(old, key, old.slot_count());
    old.lemma_order_shorter(key, old.slot_count());
    assert forall|fuel: nat| old.slot_count() <= fuel implies #[trigger] old.destroy_order(key, fuel) == old.destroy_order(key, old.slot_count()) by {
        old.lemma_order_complete(key, old.slot_count(), fuel);
    }
}

/// The parts of a sequence without duplicates have none, and share no element.
proof fn lemma_no_dup_parts(a: Seq<SlotKey>, b: Seq<SlotKey>)
    requires
        (a + b).no_duplicates(),
    ensures
        a.no_duplicates(),
        b.no_duplicates(),
        forall|w: SlotKey| #[trigger] a.contains(w) ==> !b.contains(w),
{
    assert forall|i: int, j: int| 0 <= i < a.len() && 0 <= j < a.len() && i != j implies a[i] != a[j] by {
        assert((a + b)[i] == a[i] && (a + b)[j] == a[j]);
    }
    assert forall|i: int, j: int| 0 <= i < b.len() && 0 <= j < b.len() && i != j implies b[i] != b[j] by {
        assert((a + b)[a.len() + i] == b[i] && (a + b)[a.len() + j] == b[j]);
    }
    assert forall|w: SlotKey| #[trigger] a.contains(w) implies !b.contains(w) by {
        if b.contains(w) {
            let i = choose|i: int| 0 <= i < a.len() && a[i] == w;
            let j = choose|j: int| 0 <= j < b.len() && b[j] == w;
            assert((a + b)[i] == (a + b)[a.len() + j]);
        }
    }
}

impl Scene {
    /// The widgets that destroying `key` removes, in the order it removes them, looking
    /// at most `fuel` levels down (see [`destroyed`](Scene::destroyed)).
    pub open spec fn destroy_order(&self, key: SlotKey, fuel: nat) -> Seq<SlotKey>
        decreases fuel, 0int, 0int,
    {
        if fuel == 0 || self.widget(key) is None || key == self.tree_view().spec_content() {
            Seq::empty()
        } else {
            seq![key] + self.children_order(self.children_of(key), (fuel - 1) as nat)
        }
    }

    /// The widgets that destroying the subtrees of `children` removes, in order.
    pub open spec fn children_order(&self, children: Seq<ChildWidget>, fuel: nat) -> Seq<SlotKey>
        decreases fuel, 1int, children.len(),
    {
        if children.len() == 0 {
            Seq::empty()
        } else {
            self.children_order(children.drop_last(), fuel) + self.destroy_order(children.last().key, fuel)
        }
    }

    /// Destroying `key` looking `fuel` levels down reaches no widget twice, and no root
    /// panel.
    pub open spec fn destroys_tree(&self, key: SlotKey, fuel: nat) -> bool {
        &&& self.destroy_order(key, fuel).no_duplicates()
        &&& forall|w: SlotKey| #[trigger] self.destroy_order(key, fuel).contains(w) ==> !(self.widget(w) matches Some(Widget::Root(_)))
    }

    /// Every key that destroying `key` reaches holds a widget and is not the root panel.
    proof fn lemma_order_held(&self, key: SlotKey, fuel: nat)
        ensures
            forall|w: SlotKey| #[trigger] self.destroy_order(key, fuel).contains(w)
                ==> self.widget(w) is Some && w != self.tree_view().spec_content(),
        decreases fuel, 0int, 0int,
    {
        broadcast use vstd::seq_lib::lemma_seq_concat_contains_all_elements;
        if !(fuel == 0 || self.widget(key) is None || key == self.tree_view().spec_content()) {
            let rest = self.children_order(self.children_of(key), (fuel - 1) as nat);
            let whole = self.destroy_order(key, fuel);
            assert(whole == seq![key] + rest);
            self.lemma_children_order_held(self.children_of(key), (fuel - 1) as nat);
            assert forall|w: SlotKey| #[trigger] whole.contains(w) implies self.widget(w) is Some && w != self.tree_view().spec_content() by {
                if seq![key].contains(w) {
                    let i = choose|i: int| 0 <= i < 1 && seq![key][i] == w;
                    assert(w == key);
                }
            }
        }
    }

    /// Every key that destroying `children` reaches holds a widget and is not the root
    /// panel.
    proof fn lemma_children_order_held(&self, children: Seq<ChildWidget>, fuel: nat)
        ensures
            forall|w: SlotKey| #[trigger] self.children_order(children, fuel).contains(w)
                ==> self.widget(w) is Some && w != self.tree_view().spec_content(),
        decreases fuel, 1int, children.len(),
    {
        broadcast use vstd::seq_lib::lemma_seq_concat_contains_all_elements;
        if children.len() > 0 {
            let whole = self.children_order(children, fuel);
            assert(whole == self.children_order(children.drop_last(), fuel) + self.destroy_order(children.last().key, fuel));
            self.lemma_children_order_held(children.drop_last(), fuel);
            self.lemma_order_held(children.last().key, fuel);
        }
    }

    /// Destroying `key` reaches fewer widgets than the scene has slots when it reaches
    /// none twice: each holds a widget, none is the root panel, and no two share a slot.
    proof fn lemma_order_shorter(&self, key: SlotKey, fuel: nat)
        requires
            self.wf(),
            self.destroy_order(key, fuel).no_duplicates(),
        ensures
            self.destroy_order(key, fuel).len() < self.slot_count(),
    {
        let order = self.destroy_order(key, fuel);
        let content = self.tree_view().spec_content();
        let n = self.slot_count() as int;
        self.lemma_order_held(key, fuel);
        self.lemma_index_bounded(content);
        let idx = order.map_values(|w: SlotKey| w.spec_index() as int);
        assert forall|i: int, j: int| 0 <= i < idx.len() && 0 <= j < idx.len() && i != j implies idx[i] != idx[j] by {
            if idx[i] == idx[j] {
                SlotKey::lemma_same_index(order[i], order[j]);
            }
        }
        idx.unique_seq_to_set();
        let range = vstd::set_lib::set_int_range(0, n).remove(content.spec_index() as int);
        assert forall|x: int| #[trigger] idx.to_set().contains(x) implies range.contains(x) by {
            let i = choose|i: int| 0 <= i < idx.len() && idx[i] == x;
            let w = order[i];
            assert(order.contains(w));
            self.lemma_index_bounded(w);
            if w.spec_index() == content.spec_index() {
                SlotKey::lemma_same_index(w, content);
            }
        }
        vstd::set_lib::lemma_int_range(0, n);
        vstd::set_lib::lemma_len_subset(idx.to_set(), range);
    }

    /// Looking further down than the number of widgets destroying `key` reaches adds
    /// nothing.
    proof fn lemma_order_complete(&self, key: SlotKey, fuel: nat, more: nat)
        requires
            self.destroy_order(key, fuel).len() < fuel,
            fuel <= more,
        ensures
            self.destroy_order(key, more) == self.destroy_order(key, fuel),
        decreases fuel, 0int, 0int,
    {
        if !(self.widget(key) is None || key == self.tree_view().spec_content()) {
            self.lemma_children_order_complete(self.children_of(key), (fuel - 1) as nat, (more - 1) as nat);
        }
    }

    /// Looking further down than the number of widgets destroying `children` reaches
    /// adds nothing.
    proof fn lemma_children_order_complete(&self, children: Seq<ChildWidget>, fuel: nat, more: nat)
        requires
            self.children_order(children, fuel).len() < fuel,
            fuel <= more,
        ensures
            self.children_order(children, more) == self.children_order(children, fuel),
        decreases fuel, 1int, children.len(),
    {
        if children.len() > 0 {
            self.lemma_children_order_complete(children.drop_last(), fuel, more);
            self.lemma_order_complete(children.last().key, fuel, more);
        }
    }

    /// Removing widgets that destroying `key` does not reach leaves its order as it was.
    proof fn lemma_order_frame(&self, old: Scene, key: SlotKey, fuel: nat)
        requires
            self.shrunk_from(old),
            forall|w: SlotKey| #[trigger] old.destroy_order(key, fuel).contains(w) ==> self.widget(w) == old.widget(w),
            forall|w: SlotKey| #[trigger] old.destroy_order(key, fuel).contains(w) ==> !(old.widget(w) matches Some(Widget::Root(_))),
        ensures
            self.destroy_order(key, fuel) == old.destroy_order(key, fuel),
        decreases fuel, 0int, 0int,
    {
        broadcast use vstd::seq_lib::lemma_seq_concat_contains_all_elements;
        if fuel == 0 || old.widget(key) is None || key == old.tree_view().spec_content() {
            if self.widget(key) is Some {
                assert(self.contains(key));
            }
        } else {
            let f = (fuel - 1) as nat;
            let cs = old.children_of(key);
            let whole = old.destroy_order(key, fuel);
            let rest = old.children_order(cs, f);
            assert(whole == seq![key] + rest);
            assert(seq![key].contains(key)) by {
                assert(seq![key][0] == key);
            }
            assert(whole.contains(key));
            assert(self.widget(key) == old.widget(key));
            assert(self.children_of(key) == cs);
            assert forall|w: SlotKey| #[trigger] rest.contains(w) implies self.widget(w) == old.widget(w) && !(old.widget(w) matches Some(Widget::Root(_))) by {
                assert(whole.contains(w));
            }
            self.lemma_children_order_frame(old, cs, f);
        }
    }

    /// Removing widgets that destroying `children` does not reach leaves its order as
    /// it was.
    proof fn lemma_children_order_frame(&self, old: Scene, children: Seq<ChildWidget>, fuel: nat)
        requires
            self.shrunk_from(old),
            forall|w: SlotKey| #[trigger] old.children_order(children, fuel).contains(w) ==> self.widget(w) == old.widget(w),
            forall|w: SlotKey| #[trigger] old.children_order(children, fuel).contains(w) ==> !(old.widget(w) matches Some(Widget::Root(_))),
        ensures
            self.children_order(children, fuel) == old.children_order(children, fuel),
        decreases fuel, 1int, children.len(),
    {
        broadcast use vstd::seq_lib::lemma_seq_concat_contains_all_elements;
        if children.len() > 0 {
            let o1 = old.children_order(children.drop_last(), fuel);
            let o2 = old.destroy_order(children.last().key, fuel);
            let whole = old.children_order(children, fuel);
            assert(whole == o1 + o2);
            assert forall|w: SlotKey| #[trigger] o1.contains(w) implies self.widget(w) == old.widget(w) && !(old.widget(w) matches Some(Widget::Root(_))) by {
                assert(whole.contains(w));
            }
            assert forall|w: SlotKey| #[trigger] o2.contains(w) implies self.widget(w) == old.widget(w) && !(old.widget(w) matches Some(Widget::Root(_))) by {
                assert(whole.contains(w));
            }
            self.lemma_children_order_frame(old, children.drop_last(), fuel);
            self.lemma_order_frame(old, children.last().key, fuel);
        }
    }

    /// Destroying `key`, when it reaches no widget twice, frees exactly the widgets of
    /// its order.
    proof fn lemma_destroyed_frees(&self, old: Scene, key: SlotKey, fuel: nat)
        requires
            self.destroyed(old, key, fuel),
            old.destroys_tree(key, fuel),
        ensures
            forall|w: SlotKey| #[trigger] self.widget(w) == if old.destroy_order(key, fuel).contains(w) { None } else { old.widget(w) },
        decreases fuel, 0int, 0int,
    {
        broadcast use vstd::seq_lib::lemma_seq_concat_contains_all_elements;
        if !(fuel == 0 || old.widget(key) is None || key == old.tree_view().spec_content()) {
            let f = (fuel - 1) as nat;
            let cs = old.children_of(key);
            let mid = choose|mid: Scene| #[trigger] mid.destroy_step(old, key) && self.children_destroyed(mid, cs, f);
            mid.lemma_step_shrinks(old, key);
            let rest = old.children_order(cs, f);
            let whole = old.destroy_order(key, fuel);
            assert(whole == seq![key] + rest);
            lemma_no_dup_parts(seq![key], rest);
            assert(seq![key].contains(key)) by {
                assert(seq![key][0] == key);
            }
            assert forall|w: SlotKey| #[trigger] rest.contains(w) implies w != key && !(old.widget(w) matches Some(Widget::Root(_))) by {
                assert(whole.contains(w));
            }
            assert forall|w: SlotKey| #[trigger] mid.widget(w) == if w == key { None } else { old.widget(w) } by {
                if w.spec_index() == key.spec_index() {
                    SlotKey::lemma_same_index(w, key);
                }
            }
            mid.lemma_children_order_frame(old, cs, f);
            self.lemma_children_destroyed_frees(mid, cs, f);
        }
    }

    /// Destroying the subtrees of `children`, when that reaches no widget twice, frees
    /// exactly the widgets of their order.
    proof fn lemma_children_destroyed_frees(&self, old: Scene, children: Seq<ChildWidget>, fuel: nat)
        requires
            self.children_destroyed(old, children, fuel),
            old.children_order(children, fuel).no_duplicates(),
            forall|w: SlotKey| #[trigger] old.children_order(children, fuel).contains(w) ==> !(old.widget(w) matches Some(Widget::Root(_))),
        ensures
            forall|w: SlotKey| #[trigger] self.widget(w) == if old.children_order(children, fuel).contains(w) { None } else { old.widget(w) },
        decreases fuel, 1int, children.len(),
    {
        broadcast use vstd::seq_lib::lemma_seq_concat_contains_all_elements;
        if children.len() > 0 {
            let last = children.last().key;
            let m = choose|m: Scene| #[trigger] m.slot_count() == old.slot_count()
                && m.children_destroyed(old, children.drop_last(), fuel)
                && self.destroyed(m, last, fuel);
            let o1 = old.children_order(children.drop_last(), fuel);
            let o2 = old.destroy_order(last, fuel);
            let whole = old.children_order(children, fuel);
            assert(whole == o1 + o2);
            lemma_no_dup_parts(o1, o2);
            assert forall|w: SlotKey| #[trigger] o1.contains(w) implies !(old.widget(w) matches Some(Widget::Root(_))) by {
                assert(whole.contains(w));
            }
            assert forall|w: SlotKey| #[trigger] o2.contains(w) implies !(old.widget(w) matches Some(Widget::Root(_))) by {
                assert(whole.contains(w));
            }
            m.lemma_children_destroyed_frees(old, children.drop_last(), fuel);
            m.lemma_children_destroyed_shrinks(old, children.drop_last(), fuel);
            m.lemma_order_frame(old, last, fuel);
            self.lemma_destroyed_frees(m, last, fuel);
        }
    }
}

impl Scene {
    /// After destroying the subtrees of `children` with some fuel left, none of them
    /// but the root panel holds a widget.
    proof fn lemma_children_gone(&self, old: Scene, children: Seq<ChildWidget>, fuel: nat)
        requires
            fuel > 0,
            self.children_destroyed(old, children, fuel),
        ensures
            forall|i: int| 0 <= i < children.len() ==> {
                ||| (#[trigger] children[i]).key == old.tree_view().spec_content()
                ||| self.widget(children[i].key) is None
            },
        decreases children.len(),
    {
        if children.len() > 0 {
            let m = choose|m: Scene| #[trigger] m.slot_count() == old.slot_count()
                && m.children_destroyed(old, children.drop_last(), fuel)
                && self.destroyed(m, children.last().key, fuel);
            m.lemma_children_gone(old, children.drop_last(), fuel);
            m.lemma_children_destroyed_shrinks(old, children.drop_last(), fuel);
            self.lemma_destroyed_shrinks(m, children.last().key, fuel);
            let c = children.last().key;
            if !(m.widget(c) is None || c == m.tree_view().spec_content()) {
                let m2 = choose|m2: Scene| #[trigger] m2.destroy_step(m, c)
                    && self.children_destroyed(m2, m.children_of(c), (fuel - 1) as nat);
                m2.lemma_step_shrinks(m, c);
                self.lemma_children_destroyed_shrinks(m2, m.children_of(c), (fuel - 1) as nat);
                if self.contains(c) {
                    assert(m2.contains(c));
                }
            }
            assert forall|i: int| 0 <= i < children.len() implies {
                ||| (#[trigger] children[i]).key == old.tree_view().spec_content()
                ||| self.widget(children[i].key) is None
            } by {
                if i < children.len() - 1 {
                    assert(children.drop_last()[i] == children[i]);
                    if self.contains(children[i].key) {
                        assert(m.contains(children[i].key));
                    }
                }
            }
        }
    }
}

} // verus!
