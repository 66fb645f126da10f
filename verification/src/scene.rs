//! Retained GUI scene structure: the parent links of all widgets, the widgets shown
//! on the root panel, pointer capture and the chain of open popup menus.
//!
//! The widgets themselves live in a [`SlotMap`](crate::slotmap::SlotMap) owned by the
//! caller; this module keeps the structural state that the scene's rules act on.
use vstd::prelude::*;

use crate::geom::{fits_i32, rect, spec_clamp, spec_max, clamp_i32, max_i32, Bounds2i, Vec2i};
use crate::event::MouseEventKind;
use crate::slotmap::SlotKey;
use crate::widgets::{check_contain_fits, contain_bounds, contain_fits, contained, hit_child, last_hit};

verus! {

/// Fixed width used by menus until widgets gain preferred sizes.
pub const MENU_WIDTH: i32 = 240;

/// Most widgets an event route can pass through, target and root included.
pub const ROUTE_CAPACITY: usize = 120;

/// A widget child positioned by its parent.
#[derive(Copy, Clone, Debug, PartialEq, Eq, Structural)]
pub struct ChildWidget {
    /// Bounds relative to the parent widget.
    pub bounds: Bounds2i,
    /// Key of the child widget.
    pub key: SlotKey,
}

impl ChildWidget {
    /// Creates a positioned child widget.
    pub fn new(bounds: Bounds2i, key: SlotKey) -> (r: ChildWidget)
        ensures
            r == (ChildWidget { bounds, key }),
    {
        ChildWidget { bounds, key }
    }
}

/// A popup change queued during event routing.
#[derive(Copy, Clone, Debug, PartialEq, Eq, Structural)]
pub enum PopupRequest {
    /// Open `menu` from `anchor_widget`, whose scene bounds are `anchor_bounds`.
    Open { anchor_widget: SlotKey, menu: SlotKey, anchor_bounds: Bounds2i },
    /// Keep the chain through `after` (or nothing when `None`) and close the rest.
    Truncate { after: Option<SlotKey> },
}

/// `b` moved so that its corner is at `point - offset`, keeping its size.
pub open spec fn dragged_bounds(b: Bounds2i, point: Vec2i, offset: Vec2i) -> Bounds2i {
    let x = point.x - offset.x;
    let y = point.y - offset.y;
    rect(x, y, x + (b.maxs.x - b.mins.x), y + (b.maxs.y - b.mins.y))
}

/// Moving `b` by the pointer at `point` held at `offset` computes within `i32`.
pub open spec fn drag_fits(b: Bounds2i, point: Vec2i, offset: Vec2i) -> bool {
    &&& point.can_sub(offset)
    &&& b.size_fits()
    &&& fits_i32(point.x - offset.x + (b.maxs.x - b.mins.x))
    &&& fits_i32(point.y - offset.y + (b.maxs.y - b.mins.y))
}

/// Position of the first occurrence of `x` in `s`, if any.
pub open spec fn first_index_of(s: Seq<SlotKey>, x: SlotKey) -> Option<int> {
    if s.contains(x) {
        Some(choose|i: int| 0 <= i < s.len() && s[i] == x && forall|j: int| 0 <= j < i ==> s[j] != x)
    } else {
        None
    }
}

/// Position of the first child with key `k`, if any.
pub open spec fn child_position(children: Seq<ChildWidget>, k: SlotKey) -> Option<int> {
    if exists|i: int| 0 <= i < children.len() && children[i].key == k {
        Some(choose|i: int| 0 <= i < children.len() && children[i].key == k && forall|j: int| 0 <= j < i ==> children[j].key != k)
    } else {
        None
    }
}

/// Bounds of a submenu opened beside the item `anchor` (scene coordinates): to the
/// right of the anchor, or to its left when it would leave the scene, kept inside.
pub open spec fn submenu_bounds(anchor: Bounds2i, size: Vec2i, height: int) -> Bounds2i {
    let left0 = anchor.maxs.x - 1;
    let left1 = if left0 + MENU_WIDTH > size.x { anchor.mins.x - MENU_WIDTH + 1 } else { left0 };
    let left = spec_clamp(left1, 0, spec_max(size.x - MENU_WIDTH, 0));
    let top = spec_clamp(anchor.mins.y as int, 0, spec_max(size.y - height, 0));
    rect(left, top, left + MENU_WIDTH, top + height)
}

/// Bounds of a menu dropped down below `anchor` (scene coordinates): below the
/// anchor, or above it when it would leave the scene, kept inside.
pub open spec fn dropdown_bounds(anchor: Bounds2i, size: Vec2i, height: int) -> Bounds2i {
    let left = spec_clamp(anchor.mins.x as int, 0, spec_max(size.x - MENU_WIDTH, 0));
    let top0 = anchor.maxs.y - 1;
    let top1 = if top0 + height > size.y { anchor.mins.y - height + 1 } else { top0 };
    let top = spec_clamp(top1, 0, spec_max(size.y - height, 0));
    rect(left, top, left + MENU_WIDTH, top + height)
}

/// The submenu placement computes without overflowing `i32`.
pub open spec fn submenu_fits(anchor: Bounds2i, size: Vec2i, height: int) -> bool {
    &&& fits_i32(anchor.maxs.x - 1)
    &&& fits_i32(anchor.maxs.x - 1 + MENU_WIDTH)
    &&& (anchor.maxs.x - 1 + MENU_WIDTH > size.x ==> fits_i32(anchor.mins.x - MENU_WIDTH))
    &&& fits_i32(size.x - MENU_WIDTH)
    &&& fits_i32(size.y - height)
}

/// The dropdown placement computes without overflowing `i32`.
pub open spec fn dropdown_fits(anchor: Bounds2i, size: Vec2i, height: int) -> bool {
    &&& fits_i32(size.x - MENU_WIDTH)
    &&& fits_i32(anchor.maxs.y - 1)
    &&& fits_i32(anchor.maxs.y - 1 + height)
    &&& (anchor.maxs.y - 1 + height > size.y ==> fits_i32(anchor.mins.y - height) && fits_i32(anchor.mins.y - height + 1))
    &&& fits_i32(size.y - height)
}

/// Places a submenu of `height` beside the menu item `anchor` in a scene of `size`.
pub fn submenu_placement(anchor: Bounds2i, size: Vec2i, height: i32) -> (r: Bounds2i)
    requires
        submenu_fits(anchor, size, height as int),
    ensures
        r == submenu_bounds(anchor, size, height as int),
{
    let mut left = anchor.maxs.x - 1;
    if left + MENU_WIDTH > size.x {
        left = anchor.mins.x - MENU_WIDTH + 1;
    }
    left = clamp_i32(left, 0, max_i32(size.x - MENU_WIDTH, 0));
    let top = clamp_i32(anchor.mins.y, 0, max_i32(size.y - height, 0));
    Bounds2i::from_coords(left, top, left + MENU_WIDTH, top + height)
}

/// Places a menu of `height` dropped down from `anchor` in a scene of `size`.
pub fn dropdown_placement(anchor: Bounds2i, size: Vec2i, height: i32) -> (r: Bounds2i)
    requires
        dropdown_fits(anchor, size, height as int),
    ensures
        r == dropdown_bounds(anchor, size, height as int),
{
    let left = clamp_i32(anchor.mins.x, 0, max_i32(size.x - MENU_WIDTH, 0));
    let mut top = anchor.maxs.y - 1;
    if top + height > size.y {
        top = anchor.mins.y - height + 1;
    }
    top = clamp_i32(top, 0, max_i32(size.y - height, 0));
    Bounds2i::from_coords(left, top, left + MENU_WIDTH, top + height)
}

/// Returns the position of the first child in `children` with key `key`, if any.
pub fn position_of(children: &Vec<ChildWidget>, key: SlotKey) -> (r: Option<usize>)
    ensures
        r matches Some(i) ==> child_position(children@, key) == Some(i as int) && i < children@.len() && children@[i as int].key == key,
        r is None ==> child_position(children@, key) is None,
{
    let mut i: usize = 0;
    let n = children.len();
    while i < n
        invariant
            i <= n,
            n == children@.len(),
            forall|j: int| 0 <= j < i ==> (#[trigger] children@[j]).key != key,
        decreases n - i,
    {
        if children[i].key == key {
            proof {
                lemma_child_position(children@, key);
                let cv = child_position(children@, key)->Some_0;
                if cv < i {
                    assert(children@[cv].key != key);
                }
                if i < cv {
                    assert(children@[i as int].key != key);
                }
            }
            return Some(i);
        }
        i = i + 1;
    }
    proof {
        lemma_child_position(children@, key);
    }
    None
}

/// Returns whether placing a submenu of `height` beside `anchor` in a scene of `size`
/// computes within `i32`.
pub fn check_submenu_fits(anchor: Bounds2i, size: Vec2i, height: i32) -> (r: bool)
    ensures
        r == submenu_fits(anchor, size, height as int),
{
    let min = i32::MIN as i64;
    let max = i32::MAX as i64;
    let w = MENU_WIDTH as i64;
    let left = anchor.maxs.x as i64 - 1;
    let flips = left + w > size.x as i64;
    let a = min <= left && left <= max;
    let b = min <= left + w && left + w <= max;
    let c = !flips || (min <= anchor.mins.x as i64 - w && anchor.mins.x as i64 - w <= max);
    let d = min <= size.x as i64 - w && size.x as i64 - w <= max;
    let e = min <= size.y as i64 - height as i64 && size.y as i64 - height as i64 <= max;
    a && b && c && d && e
}

/// Returns whether dropping a menu of `height` down from `anchor` in a scene of `size`
/// computes within `i32`.
pub fn check_dropdown_fits(anchor: Bounds2i, size: Vec2i, height: i32) -> (r: bool)
    ensures
        r == dropdown_fits(anchor, size, height as int),
{
    let min = i32::MIN as i64;
    let max = i32::MAX as i64;
    let w = MENU_WIDTH as i64;
    let h = height as i64;
    let top = anchor.maxs.y as i64 - 1;
    let flips = top + h > size.y as i64;
    let a = min <= size.x as i64 - w && size.x as i64 - w <= max;
    let b = min <= top && top <= max;
    let c = min <= top + h && top + h <= max;
    let up = anchor.mins.y as i64 - h;
    let d = !flips || (min <= up && up <= max && min <= up + 1 && up + 1 <= max);
    let e = min <= size.y as i64 - h && size.y as i64 - h <= max;
    a && b && c && d && e
}

/// `child_position` names the first child with the key, and exists exactly when one does.
pub proof fn lemma_child_position(s: Seq<ChildWidget>, k: SlotKey)
    ensures
        child_position(s, k) matches Some(i) ==> 0 <= i < s.len() && s[i].key == k && forall|j: int| 0 <= j < i ==> s[j].key != k,
        (exists|i: int| 0 <= i < s.len() && s[i].key == k) <==> child_position(s, k) is Some,
{
    if exists|i: int| 0 <= i < s.len() && s[i].key == k {
        let w = choose|i: int| 0 <= i < s.len() && s[i].key == k;
        lemma_first_child(s, k, w);
    }
}

proof fn lemma_first_child(s: Seq<ChildWidget>, k: SlotKey, w: int)
    requires
        0 <= w < s.len(),
        s[w].key == k,
    ensures
        exists|i: int| 0 <= i < s.len() && s[i].key == k && forall|j: int| 0 <= j < i ==> s[j].key != k,
    decreases w,
{
    if exists|j: int| 0 <= j < w && s[j].key == k {
        let j = choose|j: int| 0 <= j < w && s[j].key == k;
        lemma_first_child(s, k, j);
    } else {
        assert(forall|j: int| 0 <= j < w ==> s[j].key != k);
    }
}

/// `first_index_of` names the first occurrence, and exists exactly when `x` occurs.
pub proof fn lemma_first_index_of(s: Seq<SlotKey>, x: SlotKey)
    ensures
        first_index_of(s, x) matches Some(i) ==> 0 <= i < s.len() && s[i] == x && forall|j: int| 0 <= j < i ==> s[j] != x,
        s.contains(x) <==> first_index_of(s, x) is Some,
{
    if s.contains(x) {
        let w = choose|i: int| 0 <= i < s.len() && s[i] == x;
        lemma_first_occurrence(s, x, w);
    }
}

proof fn lemma_first_occurrence(s: Seq<SlotKey>, x: SlotKey, w: int)
    requires
        0 <= w < s.len(),
        s[w] == x,
    ensures
        exists|i: int| 0 <= i < s.len() && s[i] == x && forall|j: int| 0 <= j < i ==> s[j] != x,
    decreases w,
{
    if exists|j: int| 0 <= j < w && s[j] == x {
        let j = choose|j: int| 0 <= j < w && s[j] == x;
        lemma_first_occurrence(s, x, j);
    } else {
        assert(forall|j: int| 0 <= j < w ==> s[j] != x);
    }
}

/// The pointed widget of `old` once the menus in `gone` are hidden: it is no longer
/// pointed when it lies within one of them.
pub open spec fn pointed_after_closing(old: SceneTree, gone: Set<SlotKey>) -> Option<SlotKey> {
    match old.spec_pointed() {
        Some(p) => if exists|m: SlotKey| gone.contains(m) && old.spec_is_descendant_of(p, m) { None } else { Some(p) },
        None => None,
    }
}

/// `s` without the children whose key is in `gone`, in the same order.
pub open spec fn drop_keys(s: Seq<ChildWidget>, gone: Set<SlotKey>) -> Seq<ChildWidget>
    decreases s.len(),
{
    if s.len() == 0 {
        s
    } else {
        let rest = drop_keys(s.drop_last(), gone);
        if gone.contains(s.last().key) {
            rest
        } else {
            rest.push(s.last())
        }
    }
}

/// No two children share a key.
pub open spec fn distinct_keys(s: Seq<ChildWidget>) -> bool {
    forall|a: int, b: int| 0 <= a < b < s.len() ==> (#[trigger] s[a]).key != (#[trigger] s[b]).key
}

/// Dropping keys that do not occur changes nothing.
pub proof fn lemma_drop_absent_keys(s: Seq<ChildWidget>, gone: Set<SlotKey>)
    requires
        forall|i: int| 0 <= i < s.len() ==> !gone.contains(#[trigger] s[i].key),
    ensures
        drop_keys(s, gone) == s,
    decreases s.len(),
{
    if s.len() > 0 {
        lemma_drop_absent_keys(s.drop_last(), gone);
        assert(s.drop_last().push(s.last()) =~= s);
    }
}

/// Dropping two sets of keys in turn drops their union.
pub proof fn lemma_drop_keys_twice(s: Seq<ChildWidget>, a: Set<SlotKey>, b: Set<SlotKey>)
    ensures
        drop_keys(drop_keys(s, a), b) == drop_keys(s, a.union(b)),
    decreases s.len(),
{
    if s.len() > 0 {
        lemma_drop_keys_twice(s.drop_last(), a, b);
        let r = drop_keys(s.drop_last(), a);
        if !a.contains(s.last().key) {
            assert(r.push(s.last()).drop_last() =~= r);
        }
    }
}

/// Removing the only child with a given key drops that key.
pub proof fn lemma_remove_is_drop(s: Seq<ChildWidget>, i: int)
    requires
        distinct_keys(s),
        0 <= i < s.len(),
    ensures
        s.remove(i) == drop_keys(s, set![s[i].key]),
    decreases s.len(),
{
    let m = s[i].key;
    if i == s.len() - 1 {
        assert forall|j: int| 0 <= j < s.drop_last().len() implies !set![m].contains(#[trigger] s.drop_last()[j].key) by {
            assert(s[j].key != s[i].key);
        }
        lemma_drop_absent_keys(s.drop_last(), set![m]);
        assert(s.remove(i) =~= s.drop_last());
    } else {
        let t = s.drop_last();
        assert(distinct_keys(t)) by {
            assert forall|a: int, b: int| 0 <= a < b < t.len() implies (#[trigger] t[a]).key != (#[trigger] t[b]).key by {
                assert(t[a] == s[a] && t[b] == s[b]);
            }
        }
        assert(t[i] == s[i]);
        lemma_remove_is_drop(t, i);
        assert(s.last().key != m);
        assert(s.remove(i) =~= t.remove(i).push(s.last()));
    }
}

/// Structural state of a retained GUI scene.
pub struct SceneTree {
    parents: Vec<Option<SlotKey>>,
    size: Vec2i,
    content: SlotKey,
    root_children: Vec<ChildWidget>,
    pointed: Option<SlotKey>,
    captured: Option<SlotKey>,
    popup_owner: Option<SlotKey>,
    popup_chain: Vec<SlotKey>,
    popup_request: Option<PopupRequest>,
    dragging: Option<SlotKey>,
    drag_offset: Vec2i,
}

impl SceneTree {
    /// The parent of `k`, if any.
    pub closed spec fn spec_parent(&self, k: SlotKey) -> Option<SlotKey> {
        if k.spec_index() < self.parents@.len() {
            self.parents@[k.spec_index() as int]
        } else {
            None
        }
    }

    /// Key of the root panel.
    pub closed spec fn spec_content(&self) -> SlotKey {
        self.content
    }

    /// Widgets attached to the root panel, back to front, with their bounds.
    pub closed spec fn root_children_view(&self) -> Seq<ChildWidget> {
        self.root_children@
    }

    /// Menus of the active popup chain, from the root menu outwards.
    pub closed spec fn popup_chain_view(&self) -> Seq<SlotKey> {
        self.popup_chain@
    }

    pub closed spec fn spec_popup_owner(&self) -> Option<SlotKey> {
        self.popup_owner
    }

    pub closed spec fn spec_popup_request(&self) -> Option<PopupRequest> {
        self.popup_request
    }

    pub closed spec fn spec_pointed(&self) -> Option<SlotKey> {
        self.pointed
    }

    pub closed spec fn spec_captured(&self) -> Option<SlotKey> {
        self.captured
    }

    pub closed spec fn spec_size(&self) -> Vec2i {
        self.size
    }

    /// The root child being dragged by the pointer, if any.
    pub closed spec fn spec_dragging(&self) -> Option<SlotKey> {
        self.dragging
    }

    /// Where the pointer holds the dragged child, relative to the child's corner.
    pub closed spec fn spec_drag_offset(&self) -> Vec2i {
        self.drag_offset
    }

    /// Number of parent entries (bounds the length of any acyclic parent chain).
    pub closed spec fn parent_slots(&self) -> nat {
        self.parents@.len()
    }

    /// Whether `k` is attached directly to the root panel.
    pub open spec fn spec_is_shown(&self, k: SlotKey) -> bool {
        self.spec_parent(k) == Some(self.spec_content())
    }

    /// Whether `w` reaches `a` by following at most `fuel` parent links.
    pub open spec fn descends(&self, w: SlotKey, a: SlotKey, fuel: nat) -> bool
        decreases fuel,
    {
        if w == a {
            true
        } else if fuel == 0 {
            false
        } else {
            match self.spec_parent(w) {
                Some(p) => self.descends(p, a, (fuel - 1) as nat),
                None => false,
            }
        }
    }

    /// Whether `w` is `a` or one of its descendants.
    pub open spec fn spec_is_descendant_of(&self, w: SlotKey, a: SlotKey) -> bool {
        self.descends(w, a, self.parent_slots())
    }

    /// Every widget whose parent is the root panel is among its children,
    /// and no widget is attached to it twice.
    pub open spec fn wf(&self) -> bool {
        &&& forall|k: SlotKey|
            #[trigger] self.spec_parent(k) == Some(self.spec_content()) ==> child_position(self.root_children_view(), k) is Some
        &&& forall|a: int, b: int|
            0 <= a < b < self.root_children_view().len() ==> (#[trigger] self.root_children_view()[a]).key != (#[trigger] self.root_children_view()[b]).key
    }

    /// Every child of the root panel has the root panel as its parent. This holds
    /// until a parent link is cleared directly with [`clear_parent`](SceneTree::clear_parent).
    pub open spec fn tracks_children(&self) -> bool {
        forall|i: int| 0 <= i < self.root_children_view().len() ==> #[trigger] self.spec_is_shown(self.root_children_view()[i].key)
    }

    /// Creates the scene state for a scene of `size` whose root panel has key `content`.
    pub fn new(size: Vec2i, content: SlotKey) -> (s: SceneTree)
        ensures
            s.wf(),
            s.spec_size() == size,
            s.spec_content() == content,
            s.root_children_view().len() == 0,
            s.popup_chain_view().len() == 0,
            s.spec_popup_owner() is None,
            s.spec_popup_request() is None,
            s.spec_pointed() is None,
            s.spec_captured() is None,
            s.spec_dragging() is None,
            forall|k: SlotKey| s.spec_parent(k) is None,
    {
        SceneTree {
            parents: Vec::new(),
            size,
            content,
            root_children: Vec::new(),
            pointed: None,
            captured: None,
            popup_owner: None,
            popup_chain: Vec::new(),
            popup_request: None,
            dragging: None,
            drag_offset: Vec2i { x: 0, y: 0 },
        }
    }

    /// Returns the key of the root panel.
    pub fn content(&self) -> (r: SlotKey)
        ensures
            r == self.spec_content(),
    {
        self.content
    }

    /// Returns the scene size.
    pub fn size(&self) -> (r: Vec2i)
        ensures
            r == self.spec_size(),
    {
        self.size
    }

    /// Resizes the scene to the given size.
    pub fn resize(&mut self, size: Vec2i)
        ensures
            final(self).spec_size() == size,
            old(self).wf() ==> final(self).wf(),
            forall|k: SlotKey| final(self).spec_parent(k) == old(self).spec_parent(k),
            final(self).spec_content() == old(self).spec_content(),
            final(self).root_children_view() == old(self).root_children_view(),
            final(self).popup_chain_view() == old(self).popup_chain_view(),
    {
        self.size = size;
        proof {
            assert forall|k: SlotKey| #[trigger] self.spec_parent(k) == Some(self.spec_content()) && old(self).wf() implies child_position(self.root_children_view(), k) is Some by {
                assert(old(self).spec_parent(k) == Some(old(self).spec_content()));
            }
        }
    }

    /// Returns the parent of the given widget, if any.
    pub fn parent(&self, key: SlotKey) -> (r: Option<SlotKey>)
        ensures
            r == self.spec_parent(key),
    {
        let index = key.index();
        if index < self.parents.len() {
            self.parents[index]
        } else {
            None
        }
    }

    /// `self` is `old` with the parent of `child` set to `parent`, and nothing else changed.
    pub open spec fn relinked(&self, old: SceneTree, child: SlotKey, parent: Option<SlotKey>) -> bool {
        &&& self.spec_parent(child) == parent
        &&& forall|k: SlotKey| k.spec_index() != child.spec_index() ==> #[trigger] self.spec_parent(k) == old.spec_parent(k)
        &&& self.parent_slots() >= old.parent_slots()
        &&& (old.wf() ==> self.wf())
        &&& self.spec_content() == old.spec_content()
        &&& self.root_children_view() == old.root_children_view()
        &&& self.popup_chain_view() == old.popup_chain_view()
        &&& self.spec_popup_owner() == old.spec_popup_owner()
        &&& self.spec_popup_request() == old.spec_popup_request()
        &&& self.spec_pointed() == old.spec_pointed()
        &&& self.spec_captured() == old.spec_captured()
        &&& self.spec_size() == old.spec_size()
        &&& self.spec_dragging() == old.spec_dragging()
        &&& self.spec_drag_offset() == old.spec_drag_offset()
    }

    /// Records `parent` as the parent of `child`, which must not have one yet.
    pub fn set_parent(&mut self, child: SlotKey, parent: SlotKey)
        requires
            old(self).spec_parent(child) is None,
            parent != old(self).spec_content(),
            child.spec_index() < usize::MAX,
        ensures
            final(self).spec_parent(child) == Some(parent),
            forall|k: SlotKey| k.spec_index() != child.spec_index() ==> #[trigger] final(self).spec_parent(k) == old(self).spec_parent(k),
            final(self).parent_slots() >= old(self).parent_slots(),
            old(self).wf() ==> final(self).wf(),
            final(self).spec_content() == old(self).spec_content(),
            final(self).root_children_view() == old(self).root_children_view(),
            final(self).popup_chain_view() == old(self).popup_chain_view(),
            final(self).spec_popup_owner() == old(self).spec_popup_owner(),
            final(self).spec_popup_request() == old(self).spec_popup_request(),
            final(self).spec_pointed() == old(self).spec_pointed(),
            final(self).spec_captured() == old(self).spec_captured(),
            final(self).spec_size() == old(self).spec_size(),
            final(self).spec_dragging() == old(self).spec_dragging(),
            final(self).spec_drag_offset() == old(self).spec_drag_offset(),
    {
        self.link_parent(child, parent);
        proof {
            assert forall|k: SlotKey| #[trigger] self.spec_parent(k) == Some(self.spec_content()) && old(self).wf() implies child_position(self.root_children_view(), k) is Some by {
                assert(old(self).spec_parent(k) == Some(old(self).spec_content()));
            }
        }
    }

    fn link_parent(&mut self, child: SlotKey, parent: SlotKey)
        requires
            child.spec_index() < usize::MAX,
        ensures
            final(self).spec_parent(child) == Some(parent),
            forall|k: SlotKey| k.spec_index() != child.spec_index() ==> #[trigger] final(self).spec_parent(k) == old(self).spec_parent(k),
            final(self).parent_slots() >= old(self).parent_slots(),
            final(self).spec_content() == old(self).spec_content(),
            final(self).root_children_view() == old(self).root_children_view(),
            final(self).popup_chain_view() == old(self).popup_chain_view(),
            final(self).spec_popup_owner() == old(self).spec_popup_owner(),
            final(self).spec_popup_request() == old(self).spec_popup_request(),
            final(self).spec_pointed() == old(self).spec_pointed(),
            final(self).spec_captured() == old(self).spec_captured(),
            final(self).spec_size() == old(self).spec_size(),
            final(self).spec_dragging() == old(self).spec_dragging(),
            final(self).spec_drag_offset() == old(self).spec_drag_offset(),
    {
        let index = child.index();
        let ghost old_parents = self.parents@;
        while self.parents.len() <= index
            invariant
                self.parents@.len() >= old_parents.len(),
                self.parents@.subrange(0, old_parents.len() as int) == old_parents,
                forall|i: int| old_parents.len() <= i < self.parents@.len() ==> #[trigger] self.parents@[i] is None,
                index < usize::MAX,
                self.content == old(self).content,
                self.root_children == old(self).root_children,
                self.popup_chain == old(self).popup_chain,
                self.popup_owner == old(self).popup_owner,
                self.popup_request == old(self).popup_request,
                self.pointed == old(self).pointed,
                self.captured == old(self).captured,
                self.size == old(self).size,
                self.dragging == old(self).dragging,
                self.drag_offset == old(self).drag_offset,
            decreases index + 1 - self.parents@.len(),
        {
            self.parents.push(None);
            proof {
                assert(self.parents@.subrange(0, old_parents.len() as int) =~= old_parents);
            }
        }
        proof {
            assert forall|k: SlotKey| #[trigger] self.spec_parent(k) == old(self).spec_parent(k) by {
                if k.spec_index() < old_parents.len() {
                    assert(self.parents@[k.spec_index() as int] == self.parents@.subrange(0, old_parents.len() as int)[k.spec_index() as int]);
                }
            }
        }
        self.parents.set(index, Some(parent));
    }

    /// Forgets the parent of `child`.
    pub fn clear_parent(&mut self, child: SlotKey)
        ensures
            final(self).spec_parent(child) is None,
            forall|k: SlotKey| k.spec_index() != child.spec_index() ==> #[trigger] final(self).spec_parent(k) == old(self).spec_parent(k),
            final(self).parent_slots() == old(self).parent_slots(),
            old(self).wf() ==> final(self).wf(),
            final(self).spec_content() == old(self).spec_content(),
            final(self).root_children_view() == old(self).root_children_view(),
            final(self).popup_chain_view() == old(self).popup_chain_view(),
            final(self).spec_popup_owner() == old(self).spec_popup_owner(),
            final(self).spec_popup_request() == old(self).spec_popup_request(),
            final(self).spec_pointed() == old(self).spec_pointed(),
            final(self).spec_captured() == old(self).spec_captured(),
            final(self).spec_size() == old(self).spec_size(),
            final(self).spec_dragging() == old(self).spec_dragging(),
            final(self).spec_drag_offset() == old(self).spec_drag_offset(),
    {
        let index = child.index();
        if index < self.parents.len() {
            self.parents.set(index, None);
        }
        proof {
            assert forall|k: SlotKey| #[trigger] self.spec_parent(k) == Some(self.spec_content()) && old(self).wf() implies child_position(self.root_children_view(), k) is Some by {
                assert(old(self).spec_parent(k) == Some(old(self).spec_content()));
            }
        }
    }

    /// Returns whether a widget is currently attached directly to the root panel.
    pub fn is_shown(&self, key: SlotKey) -> (r: bool)
        ensures
            r == self.spec_is_shown(key),
    {
        self.parent(key) == Some(self.content)
    }

    /// Returns the number of parent entries.
    pub fn parent_slot_count(&self) -> (r: usize)
        ensures
            r == self.parent_slots(),
    {
        self.parents.len()
    }

    /// Returns whether `widget` is `ancestor` or lies below it.
    pub fn is_descendant_of(&self, widget: SlotKey, ancestor: SlotKey) -> (r: bool)
        ensures
            r == self.spec_is_descendant_of(widget, ancestor),
    {
        let mut current = widget;
        let mut fuel = self.parents.len();
        loop
            invariant
                fuel <= self.parent_slots(),
                self.spec_is_descendant_of(widget, ancestor) == self.descends(current, ancestor, fuel as nat),
            decreases fuel,
        {
            if current == ancestor {
                return true;
            }
            if fuel == 0 {
                return false;
            }
            match self.parent(current) {
                Some(parent) => {
                    current = parent;
                    fuel = fuel - 1;
                },
                None => {
                    return false;
                },
            }
        }
    }

    /// Position of the first root child with key `key`.
    fn find_child(&self, key: SlotKey) -> (r: Option<usize>)
        ensures
            r matches Some(i) ==> child_position(self.root_children_view(), key) == Some(i as int),
            r is None ==> child_position(self.root_children_view(), key) is None,
    {
        let mut i: usize = 0;
        let n = self.root_children.len();
        while i < n
            invariant
                i <= n,
                n == self.root_children@.len(),
                forall|j: int| 0 <= j < i ==> (#[trigger] self.root_children@[j]).key != key,
            decreases n - i,
        {
            if self.root_children[i].key == key {
                proof {
                    let c = child_position(self.root_children_view(), key);
                    assert(exists|j: int| 0 <= j < self.root_children@.len() && self.root_children@[j].key == key);
                    let cv = c->Some_0;
                    assert(0 <= cv < self.root_children@.len() && self.root_children@[cv].key == key);
                    if cv < i {
                        assert(self.root_children@[cv].key != key);
                    }
                    if i < cv {
                        assert(self.root_children@[i as int].key != key);
                    }
                }
                return Some(i);
            }
            i = i + 1;
        }
        None
    }

    /// `self` is `old` after attaching `key` to the root panel at `bounds`: its bounds
    /// are updated where it already is a child, else it is appended and linked.
    pub open spec fn show_applied(&self, old: SceneTree, key: SlotKey, bounds: Bounds2i) -> bool {
        &&& match child_position(old.root_children_view(), key) {
            Some(i) => {
                &&& self.root_children_view() == old.root_children_view().update(i, ChildWidget { bounds, key })
                &&& forall|k: SlotKey| #[trigger] self.spec_parent(k) == old.spec_parent(k)
            },
            None => {
                &&& self.root_children_view() == old.root_children_view().push(ChildWidget { bounds, key })
                &&& self.spec_is_shown(key)
                &&& forall|k: SlotKey| k.spec_index() != key.spec_index() ==> #[trigger] self.spec_parent(k) == old.spec_parent(k)
            },
        }
        &&& self.parent_slots() >= old.parent_slots()
        &&& self.spec_content() == old.spec_content()
        &&& self.popup_chain_view() == old.popup_chain_view()
        &&& self.spec_popup_owner() == old.spec_popup_owner()
        &&& self.spec_popup_request() == old.spec_popup_request()
        &&& self.spec_pointed() == old.spec_pointed()
        &&& self.spec_captured() == old.spec_captured()
        &&& self.spec_size() == old.spec_size()
        &&& (old.tracks_children() ==> self.tracks_children())
    }

    /// `self` is `old` after detaching the shown widget `key` from the root panel;
    /// the pointed widget is forgotten when it lies inside `key`.
    pub open spec fn hide_applied(&self, old: SceneTree, key: SlotKey) -> bool {
        &&& child_position(old.root_children_view(), key) is Some
        &&& self.root_children_view() == old.root_children_view().remove(child_position(old.root_children_view(), key)->Some_0)
        &&& self.spec_parent(key) is None
        &&& forall|k: SlotKey| k != key ==> #[trigger] self.spec_parent(k) == old.spec_parent(k)
        &&& self.spec_pointed() == (match old.spec_pointed() {
            Some(p) => if old.spec_is_descendant_of(p, key) { None } else { Some(p) },
            None => None,
        })
        &&& (old.tracks_children() ==> self.tracks_children())
        &&& self.parent_slots() == old.parent_slots()
        &&& self.spec_content() == old.spec_content()
        &&& self.popup_chain_view() == old.popup_chain_view()
        &&& self.spec_popup_owner() == old.spec_popup_owner()
        &&& self.spec_popup_request() == old.spec_popup_request()
        &&& self.spec_captured() == old.spec_captured()
        &&& self.spec_size() == old.spec_size()
    }

    /// Attaches `key` to the root panel with the given bounds, or updates its bounds
    /// when it already is among the root panel's children.
    pub fn show(&mut self, key: SlotKey, bounds: Bounds2i)
        requires
            old(self).wf(),
            old(self).spec_parent(key) is None || old(self).spec_parent(key) == Some(old(self).spec_content()),
            key.spec_index() < usize::MAX,
        ensures
            final(self).wf(),
            final(self).show_applied(*old(self), key, bounds),
    {
        match self.find_child(key) {
            Some(i) => {
                proof {
                    lemma_child_position(old(self).root_children_view(), key);
                }
                self.root_children.set(i, ChildWidget { bounds, key });
                proof {
                    assert forall|k: SlotKey| #[trigger] self.spec_parent(k) == Some(self.spec_content()) implies child_position(self.root_children_view(), k) is Some by {
                        assert(old(self).spec_parent(k) == Some(old(self).spec_content()));
                        lemma_child_position(old(self).root_children_view(), k);
                        let j = child_position(old(self).root_children_view(), k)->Some_0;
                        assert(self.root_children@[j].key == k);
                        lemma_child_position(self.root_children_view(), k);
                    }
                    if old(self).tracks_children() {
                        assert forall|n: int| 0 <= n < self.root_children_view().len() implies #[trigger] self.spec_is_shown(self.root_children_view()[n].key) by {
                            assert(self.root_children_view()[n].key == old(self).root_children_view()[n].key);
                            assert(old(self).spec_is_shown(old(self).root_children_view()[n].key));
                        }
                    }
                }
            },
            None => {
                let content = self.content;
                self.root_children.push(ChildWidget { bounds, key });
                self.link_parent(key, content);
                proof {
                    assert forall|k: SlotKey| #[trigger] self.spec_parent(k) == Some(self.spec_content()) implies child_position(self.root_children_view(), k) is Some by {
                        if k.spec_index() == key.spec_index() && k != key {
                            assert(self.spec_parent(k) == self.spec_parent(key));
                        }
                        lemma_child_position(self.root_children_view(), k);
                        lemma_child_position(old(self).root_children_view(), k);
                        if k.spec_index() == key.spec_index() {
                            SlotKey::lemma_same_index(k, key);
                        }
                        if k == key {
                            assert(self.root_children@[self.root_children@.len() - 1].key == k);
                        } else if k.spec_index() != key.spec_index() {
                            assert(old(self).spec_parent(k) == Some(old(self).spec_content()));
                            let j = child_position(old(self).root_children_view(), k)->Some_0;
                            assert(self.root_children@[j].key == k);
                        } else {
                            assert(old(self).spec_parent(key) is None);
                            assert(old(self).spec_parent(k) == old(self).spec_parent(key));
                            assert(self.spec_parent(k) == Some(self.spec_content()));
                            assert(self.root_children@[self.root_children@.len() - 1].key == key);
                        }
                    }
                    if old(self).tracks_children() {
                        assert forall|n: int| 0 <= n < self.root_children_view().len() implies #[trigger] self.spec_is_shown(self.root_children_view()[n].key) by {
                            if n < old(self).root_children_view().len() {
                                let k = old(self).root_children_view()[n].key;
                                assert(self.root_children_view()[n].key == k);
                                assert(old(self).spec_is_shown(k));
                                if k.spec_index() == key.spec_index() {
                                    SlotKey::lemma_same_index(k, key);
                                }
                            }
                        }
                    }
                }
            },
        }
    }

    /// Removes `key` from the root panel's children and forgets its parent.
    fn detach(&mut self, key: SlotKey)
        requires
            old(self).wf(),
            old(self).spec_is_shown(key),
        ensures
            final(self).wf(),
            child_position(old(self).root_children_view(), key) is Some,
            final(self).root_children_view() == old(self).root_children_view().remove(child_position(old(self).root_children_view(), key)->Some_0),
            final(self).spec_parent(key) is None,
            forall|k: SlotKey| k != key ==> #[trigger] final(self).spec_parent(k) == old(self).spec_parent(k),
            old(self).tracks_children() ==> final(self).tracks_children(),
            final(self).parent_slots() == old(self).parent_slots(),
            final(self).spec_content() == old(self).spec_content(),
            final(self).popup_chain_view() == old(self).popup_chain_view(),
            final(self).spec_popup_owner() == old(self).spec_popup_owner(),
            final(self).spec_popup_request() == old(self).spec_popup_request(),
            final(self).spec_pointed() == old(self).spec_pointed(),
            final(self).spec_captured() == old(self).spec_captured(),
            final(self).spec_size() == old(self).spec_size(),
            final(self).spec_dragging() == old(self).spec_dragging(),
            final(self).spec_drag_offset() == old(self).spec_drag_offset(),
    {
        proof {
            lemma_child_position(old(self).root_children_view(), key);
        }
        let i = match self.find_child(key) {
            Some(i) => i,
            None => vstd::pervasive::unreached(),
        };
        self.root_children.remove(i);
        self.clear_parent(key);
        proof {
            let old_children = old(self).root_children_view();
            assert forall|k: SlotKey| k != key implies #[trigger] self.spec_parent(k) == old(self).spec_parent(k) by {
                if k.spec_index() == key.spec_index() {
                    SlotKey::lemma_same_index(k, key);
                }
            }
            assert forall|k: SlotKey| #[trigger] self.spec_parent(k) == Some(self.spec_content()) implies child_position(self.root_children_view(), k) is Some by {
                if k.spec_index() == key.spec_index() {
                    SlotKey::lemma_same_index(k, key);
                }
                assert(old(self).spec_parent(k) == Some(old(self).spec_content()));
                lemma_child_position(old_children, k);
                let j = child_position(old_children, k)->Some_0;
                assert(j != i);
                if j < i {
                    assert(self.root_children@[j].key == k);
                } else {
                    assert(self.root_children@[j - 1].key == k);
                }
                lemma_child_position(self.root_children_view(), k);
            }
            if old(self).tracks_children() {
                assert forall|n: int| 0 <= n < self.root_children_view().len() implies #[trigger] self.spec_is_shown(self.root_children_view()[n].key) by {
                    let m = if n < i { n } else { n + 1 };
                    assert(self.root_children_view()[n] == old_children[m]);
                    assert(old(self).spec_is_shown(old_children[m].key));
                    if old_children[m].key == key {
                        lemma_child_position(old_children, key);
                        assert(m > i);
                        assert(false);
                    }
                }
            }
        }
    }

    /// Hides the widget from the root panel: it is detached, not destroyed.
    ///
    /// When the pointed widget lies inside it, nothing is pointed any more.
    pub fn hide_widget(&mut self, key: SlotKey)
        requires
            old(self).wf(),
            old(self).spec_is_shown(key),
        ensures
            final(self).wf(),
            final(self).hide_applied(*old(self), key),
            final(self).spec_dragging() == old(self).spec_dragging(),
            final(self).spec_drag_offset() == old(self).spec_drag_offset(),
    {
        let inside = match self.pointed {
            Some(pointed) => self.is_descendant_of(pointed, key),
            None => false,
        };
        if inside {
            self.pointed = None;
        }
        proof {
            assert forall|k: SlotKey| #[trigger] self.spec_parent(k) == Some(self.spec_content()) implies child_position(self.root_children_view(), k) is Some by {
                assert(old(self).spec_parent(k) == Some(old(self).spec_content()));
            }
            if old(self).tracks_children() {
                assert forall|n: int| 0 <= n < self.root_children_view().len() implies #[trigger] self.spec_is_shown(self.root_children_view()[n].key) by {
                    assert(old(self).spec_is_shown(old(self).root_children_view()[n].key));
                }
            }
        }
        self.detach(key);
    }

    /// Moves the root child `key` in front of all others; returns whether it was found.
    #[verifier::spinoff_prover]
    pub fn bring_to_front(&mut self, key: SlotKey) -> (found: bool)
        requires
            old(self).wf(),
        ensures
            final(self).wf(),
            found == child_position(old(self).root_children_view(), key) is Some,
            final(self).root_children_view() == match child_position(old(self).root_children_view(), key) {
                Some(i) => old(self).root_children_view().remove(i).push(old(self).root_children_view()[i]),
                None => old(self).root_children_view(),
            },
            forall|k: SlotKey| #[trigger] final(self).spec_parent(k) == old(self).spec_parent(k),
            old(self).tracks_children() ==> final(self).tracks_children(),
            final(self).parent_slots() == old(self).parent_slots(),
            final(self).spec_content() == old(self).spec_content(),
            final(self).popup_chain_view() == old(self).popup_chain_view(),
            final(self).spec_popup_owner() == old(self).spec_popup_owner(),
            final(self).spec_popup_request() == old(self).spec_popup_request(),
            final(self).spec_pointed() == old(self).spec_pointed(),
            final(self).spec_captured() == old(self).spec_captured(),
            final(self).spec_size() == old(self).spec_size(),
            final(self).spec_dragging() == old(self).spec_dragging(),
            final(self).spec_drag_offset() == old(self).spec_drag_offset(),
    {
        let i = match self.find_child(key) {
            Some(i) => i,
            None => {
                return false;
            },
        };
        proof {
            lemma_child_position(old(self).root_children_view(), key);
        }
        let child = self.root_children.remove(i);
        self.root_children.push(child);
        proof {
            let old_children = old(self).root_children_view();
            let n = old_children.len();
            assert forall|k: SlotKey| #[trigger] self.spec_parent(k) == Some(self.spec_content()) implies child_position(self.root_children_view(), k) is Some by {
                assert(old(self).spec_parent(k) == Some(old(self).spec_content()));
                lemma_child_position(old_children, k);
                let j = child_position(old_children, k)->Some_0;
                if j < i {
                    assert(self.root_children@[j].key == k);
                } else if j == i {
                    assert(self.root_children@[n - 1].key == k);
                } else {
                    assert(self.root_children@[j - 1].key == k);
                }
                lemma_child_position(self.root_children_view(), k);
            }
            if old(self).tracks_children() {
                assert forall|m: int| 0 <= m < self.root_children_view().len() implies #[trigger] self.spec_is_shown(self.root_children_view()[m].key) by {
                    if m < i {
                        assert(self.root_children_view()[m] == old_children[m]);
                        assert(old(self).spec_is_shown(old_children[m].key));
                    } else if m < n - 1 {
                        assert(self.root_children_view()[m] == old_children[m + 1]);
                        assert(old(self).spec_is_shown(old_children[m + 1].key));
                    } else {
                        assert(self.root_children_view()[m] == old_children[i as int]);
                        assert(old(self).spec_is_shown(old_children[i as int].key));
                    }
                }
            }
        }
        true
    }

    /// Position of the first occurrence of `key` in the popup chain.
    fn chain_position(&self, key: SlotKey) -> (r: Option<usize>)
        ensures
            r matches Some(i) ==> first_index_of(self.popup_chain_view(), key) == Some(i as int),
            r is None ==> first_index_of(self.popup_chain_view(), key) is None,
    {
        let mut i: usize = 0;
        let n = self.popup_chain.len();
        while i < n
            invariant
                i <= n,
                n == self.popup_chain@.len(),
                forall|j: int| 0 <= j < i ==> self.popup_chain@[j] != key,
            decreases n - i,
        {
            if self.popup_chain[i] == key {
                proof {
                    lemma_first_index_of(self.popup_chain_view(), key);
                    assert(self.popup_chain@.contains(key));
                    let c = first_index_of(self.popup_chain_view(), key)->Some_0;
                    if c < i {
                        assert(self.popup_chain@[c] != key);
                    }
                    if i < c {
                        assert(self.popup_chain@[i as int] != key);
                    }
                }
                return Some(i);
            }
            i = i + 1;
        }
        proof {
            lemma_first_index_of(self.popup_chain_view(), key);
        }
        None
    }

    /// Whether `target` lies inside one of the menus of the popup chain.
    pub open spec fn spec_over_popup(&self, target: SlotKey) -> bool {
        exists|i: int| 0 <= i < self.popup_chain_view().len() && self.spec_is_descendant_of(target, #[trigger] self.popup_chain_view()[i])
    }

    /// Returns whether `target` lies inside one of the menus of the popup chain.
    pub fn over_popup(&self, target: SlotKey) -> (r: bool)
        ensures
            r == self.spec_over_popup(target),
    {
        let n = self.popup_chain.len();
        let mut i: usize = 0;
        while i < n
            invariant
                i <= n,
                n == self.popup_chain@.len(),
                forall|j: int| 0 <= j < i ==> !self.spec_is_descendant_of(target, #[trigger] self.popup_chain_view()[j]),
            decreases n - i,
        {
            if self.is_descendant_of(target, self.popup_chain[i]) {
                assert(self.spec_is_descendant_of(target, self.popup_chain_view()[i as int]));
                return true;
            }
            i = i + 1;
        }
        false
    }

    /// The route from `k` up to the widget without parent: `k`, its parent, and so on,
    /// following at most `fuel` parent links.
    pub open spec fn path_up(&self, k: SlotKey, fuel: nat) -> Seq<SlotKey>
        decreases fuel,
    {
        if fuel == 0 {
            seq![k]
        } else {
            match self.spec_parent(k) {
                None => seq![k],
                Some(p) => seq![k] + self.path_up(p, (fuel - 1) as nat),
            }
        }
    }

    /// Returns whether the route from `target` holds at most [`ROUTE_CAPACITY`] widgets.
    pub fn check_route(&self, target: SlotKey) -> (r: bool)
        ensures
            r == (self.path_up(target, ROUTE_CAPACITY as nat).len() <= ROUTE_CAPACITY),
    {
        let mut current = target;
        let mut fuel: usize = ROUTE_CAPACITY;
        loop
            invariant
                fuel <= ROUTE_CAPACITY,
                (ROUTE_CAPACITY - fuel) + self.path_up(current, fuel as nat).len() == self.path_up(target, ROUTE_CAPACITY as nat).len(),
            decreases fuel,
        {
            if fuel == 0 {
                return false;
            }
            match self.parent(current) {
                Some(parent) => {
                    current = parent;
                    fuel = fuel - 1;
                },
                None => {
                    return true;
                },
            }
        }
    }

    /// Returns whether a root panel event at `point` computes within `i32` (see
    /// [`root_event_fits`](SceneTree::root_event_fits)).
    pub fn check_root_event_fits(&self, kind: MouseEventKind, point: Vec2i) -> (r: bool)
        ensures
            r == self.root_event_fits(kind, point),
    {
        let min = i32::MIN as i64;
        let max = i32::MAX as i64;
        if kind.left_down() {
            return match self.root_hit_test(point) {
                Some(c) => {
                    let dx = point.x as i64 - c.bounds.mins.x as i64;
                    let dy = point.y as i64 - c.bounds.mins.y as i64;
                    min <= dx && dx <= max && min <= dy && dy <= max
                },
                None => true,
            };
        }
        match kind {
            MouseEventKind::Move => {},
            _ => {
                return true;
            },
        }
        let d = match self.dragging {
            Some(d) => d,
            None => {
                return true;
            },
        };
        match self.find_child(d) {
            None => true,
            Some(j) => {
                proof {
                    lemma_child_position(self.root_children_view(), d);
                }
                let b = self.root_children[j].bounds;
                let x = point.x as i64 - self.drag_offset.x as i64;
                let y = point.y as i64 - self.drag_offset.y as i64;
                let w = b.maxs.x as i64 - b.mins.x as i64;
                let h = b.maxs.y as i64 - b.mins.y as i64;
                min <= x && x <= max && min <= y && y <= max && min <= w && w <= max && min <= h && h <= max
                    && min <= x + w && x + w <= max && min <= y + h && y + h <= max
            },
        }
    }

    /// Returns the route from `target` up to the widget without parent (the root
    /// panel for a shown widget): `target` first, then each parent in turn.
    pub fn route_to(&self, target: SlotKey) -> (r: Vec<SlotKey>)
        requires
            self.path_up(target, ROUTE_CAPACITY as nat).len() <= ROUTE_CAPACITY,
        ensures
            r@ == self.path_up(target, ROUTE_CAPACITY as nat),
    {
        let mut route: Vec<SlotKey> = Vec::new();
        let mut current = target;
        let mut fuel: usize = ROUTE_CAPACITY;
        loop
            invariant
                fuel <= ROUTE_CAPACITY,
                route@.len() + fuel == ROUTE_CAPACITY,
                route@ + self.path_up(current, fuel as nat) == self.path_up(target, ROUTE_CAPACITY as nat),
                self.path_up(target, ROUTE_CAPACITY as nat).len() <= ROUTE_CAPACITY,
            decreases fuel,
        {
            if fuel == 0 {
                proof {
                    assert(self.path_up(current, 0).len() == 1);
                }
                assert(false);
                return route;
            }
            match self.parent(current) {
                Some(parent) => {
                    let ghost before = route@;
                    route.push(current);
                    proof {
                        assert(self.path_up(current, fuel as nat) == seq![current] + self.path_up(parent, (fuel - 1) as nat));
                        assert(route@ + self.path_up(parent, (fuel - 1) as nat) =~= before + self.path_up(current, fuel as nat));
                    }
                    current = parent;
                    fuel = fuel - 1;
                },
                None => {
                    let ghost before = route@;
                    route.push(current);
                    proof {
                        assert(self.path_up(current, fuel as nat) == seq![current]);
                        assert(route@ =~= before + self.path_up(current, fuel as nat));
                    }
                    return route;
                },
            }
        }
    }

    /// Returns whether `widget` owns the active popup chain.
    pub fn popup_owned_by(&self, widget: SlotKey) -> (r: bool)
        ensures
            r == (self.spec_popup_owner() == Some(widget) && self.popup_chain_view().len() > 0),
    {
        self.popup_owner == Some(widget) && self.popup_chain.len() > 0
    }

    /// Returns whether the active popup was opened by a sibling of `widget` (a widget
    /// with the same parent).
    pub fn popup_owned_by_sibling(&self, widget: SlotKey) -> (r: bool)
        ensures
            r == (match self.spec_popup_owner() {
                Some(owner) => self.spec_parent(owner) is Some && self.spec_parent(owner) == self.spec_parent(widget),
                None => false,
            }),
    {
        match self.popup_owner {
            Some(owner) => {
                let parent = self.parent(owner);
                parent.is_some() && parent == self.parent(widget)
            },
            None => false,
        }
    }

    /// Queues `menu` to open from `anchor_widget` once event routing is done.
    ///
    /// If the anchor belongs to a menu in the active popup chain, `menu` opens beside
    /// it; otherwise `menu` replaces the chain and opens below the anchor.
    pub fn open_popup(&mut self, anchor_widget: SlotKey, menu: SlotKey, anchor_bounds: Bounds2i)
        ensures
            final(self).spec_popup_request() == Some(PopupRequest::Open { anchor_widget, menu, anchor_bounds }),
            final(self).unchanged_except_request(*old(self)),
    {
        self.popup_request = Some(PopupRequest::Open { anchor_widget, menu, anchor_bounds });
        proof { self.lemma_wf_frame(*old(self)); }
    }

    /// Queues the popup chain to be truncated once event routing is done.
    ///
    /// `Some(menu)` keeps the chain through that menu and closes everything opened
    /// from it; `None` closes the entire chain.
    pub fn close_popup(&mut self, after: Option<SlotKey>)
        ensures
            final(self).spec_popup_request() == Some(PopupRequest::Truncate { after }),
            final(self).unchanged_except_request(*old(self)),
    {
        self.popup_request = Some(PopupRequest::Truncate { after });
        proof { self.lemma_wf_frame(*old(self)); }
    }

    /// Everything but the queued popup request is as in `old`.
    pub open spec fn unchanged_except_request(&self, old: SceneTree) -> bool {
        &&& forall|k: SlotKey| #[trigger] self.spec_parent(k) == old.spec_parent(k)
        &&& self.parent_slots() == old.parent_slots()
        &&& self.spec_content() == old.spec_content()
        &&& self.root_children_view() == old.root_children_view()
        &&& self.popup_chain_view() == old.popup_chain_view()
        &&& self.spec_popup_owner() == old.spec_popup_owner()
        &&& self.spec_pointed() == old.spec_pointed()
        &&& self.spec_captured() == old.spec_captured()
        &&& self.spec_size() == old.spec_size()
        &&& (old.wf() ==> self.wf())
        &&& (old.tracks_children() ==> self.tracks_children())
    }

    /// Every state is unchanged except for its request with respect to itself.
    pub proof fn lemma_unchanged_refl(&self)
        ensures
            self.unchanged_except_request(*self),
    {
    }

    /// Returns the widgets attached to the root panel, back to front, with their bounds.
    pub fn root_children(&self) -> (r: &Vec<ChildWidget>)
        ensures
            r@ == self.root_children_view(),
    {
        &self.root_children
    }

    /// Returns the menus of the active popup chain, from the root menu outwards.
    pub fn popup_chain(&self) -> (r: &Vec<SlotKey>)
        ensures
            r@ == self.popup_chain_view(),
    {
        &self.popup_chain
    }

    /// Returns the widget that owns the active popup chain, if any.
    pub fn popup_owner(&self) -> (r: Option<SlotKey>)
        ensures
            r == self.spec_popup_owner(),
    {
        self.popup_owner
    }

    /// What applying the queued request needs, with `menu_height` the height of the
    /// menu an open request names.
    pub open spec fn apply_allowed(&self, menu_height: Option<i32>) -> bool {
        match self.spec_popup_request() {
            Some(PopupRequest::Open { anchor_widget, menu, anchor_bounds }) => menu_height matches Some(h)
                ==> (!self.open_is_noop(anchor_widget, menu) ==> self.can_open(anchor_widget, menu, anchor_bounds, h as int)),
            _ => true,
        }
    }

    /// Parents, popups, pointed widget and size are those of `old`.
    pub open spec fn same_structure(&self, old: SceneTree) -> bool {
        &&& forall|k: SlotKey| #[trigger] self.spec_parent(k) == old.spec_parent(k)
        &&& self.parent_slots() == old.parent_slots()
        &&& self.spec_content() == old.spec_content()
        &&& self.popup_chain_view() == old.popup_chain_view()
        &&& self.spec_popup_owner() == old.spec_popup_owner()
        &&& self.spec_popup_request() == old.spec_popup_request()
        &&& self.spec_pointed() == old.spec_pointed()
        &&& self.spec_size() == old.spec_size()
    }

    /// The arithmetic of a root panel event at `point` stays within `i32`.
    pub open spec fn root_event_fits(&self, kind: MouseEventKind, point: Vec2i) -> bool {
        &&& kind.is_left_down() ==> (last_hit(self.root_children_view(), point) matches Some(i)
            ==> point.can_sub(self.root_children_view()[i].bounds.mins))
        &&& kind == MouseEventKind::Move ==> (self.spec_dragging() matches Some(d)
            ==> (child_position(self.root_children_view(), d) matches Some(j)
            ==> drag_fits(self.root_children_view()[j].bounds, point, self.spec_drag_offset())))
    }

    /// `self` is `old` after the root panel handled a mouse event of `kind` at `point`
    /// (scene coordinates) aimed at `target`, `draggable` telling whether the root
    /// child under the point takes input.
    pub open spec fn root_event_applied(&self, old: SceneTree, kind: MouseEventKind, point: Vec2i, target: SlotKey, draggable: bool) -> bool {
        &&& self.same_structure(old)
        &&& if kind.is_left_down() {
            match last_hit(old.root_children_view(), point) {
                Some(i) => if draggable {
                    let c = old.root_children_view()[i];
                    &&& self.root_children_view() == old.root_children_view().remove(i).push(c)
                    &&& if c.key == target {
                        &&& self.spec_dragging() == Some(c.key)
                        &&& self.spec_drag_offset() == (Vec2i { x: (point.x - c.bounds.mins.x) as i32, y: (point.y - c.bounds.mins.y) as i32 })
                        &&& self.spec_captured() == Some(c.key)
                    } else {
                        &&& self.spec_dragging() == old.spec_dragging()
                        &&& self.spec_drag_offset() == old.spec_drag_offset()
                        &&& self.spec_captured() == old.spec_captured()
                    }
                } else {
                    *self == old
                },
                None => *self == old,
            }
        } else if kind == MouseEventKind::Move && old.spec_dragging() is Some {
            let d = old.spec_dragging()->Some_0;
            &&& self.spec_captured() == old.spec_captured()
            &&& self.spec_drag_offset() == old.spec_drag_offset()
            &&& match child_position(old.root_children_view(), d) {
                Some(j) => {
                    &&& self.root_children_view() == old.root_children_view().update(
                        j,
                        ChildWidget { bounds: dragged_bounds(old.root_children_view()[j].bounds, point, old.spec_drag_offset()), key: d },
                    )
                    &&& self.spec_dragging() == old.spec_dragging()
                },
                None => {
                    &&& self.root_children_view() == old.root_children_view()
                    &&& self.spec_dragging() is None
                },
            }
        } else if kind.is_left_up() {
            &&& self.root_children_view() == old.root_children_view()
            &&& self.spec_dragging() is None
            &&& self.spec_drag_offset() == old.spec_drag_offset()
            &&& self.spec_captured() is None
        } else {
            *self == old
        }
    }

    /// Returns the front-most root child whose bounds contain `point`.
    pub fn root_hit_test(&self, point: Vec2i) -> (r: Option<ChildWidget>)
        ensures
            r == match last_hit(self.root_children_view(), point) {
                Some(i) => Some(self.root_children_view()[i]),
                None => None,
            },
            last_hit(self.root_children_view(), point) matches Some(i)
                ==> 0 <= i < self.root_children_view().len() && self.root_children_view()[i].bounds.spec_contains(point),
    {
        hit_child(&self.root_children, point)
    }

    /// The root panel lets the pointer drag its children: pressing the left button over
    /// a child that takes input brings it to the front and, where the child is the
    /// event's target, starts dragging it and captures the pointer for it; moving drags
    /// it along (forgetting it where it is no longer a child); releasing the left button
    /// stops dragging and releases the pointer.
    pub fn root_event(&mut self, kind: MouseEventKind, point: Vec2i, target: SlotKey, draggable: bool)
        requires
            old(self).wf(),
            old(self).root_event_fits(kind, point),
        ensures
            final(self).wf(),
            old(self).tracks_children() ==> final(self).tracks_children(),
            final(self).root_event_applied(*old(self), kind, point, target, draggable),
    {
        if kind.left_down() {
            let child = match self.root_hit_test(point) {
                None => {
                    return;
                },
                Some(c) => c,
            };
            if !draggable {
                return;
            }
            proof {
                let rc = old(self).root_children_view();
                let i = last_hit(rc, point)->Some_0;
                lemma_child_position(rc, child.key);
                let f = child_position(rc, child.key)->Some_0;
                if f != i {
                    if f < i {
                        assert(rc[f].key != rc[i].key);
                    } else {
                        assert(rc[i].key != rc[f].key);
                    }
                }
            }
            if child.key == target {
                self.dragging = Some(child.key);
                self.drag_offset = point.sub(child.bounds.mins);
                self.captured = Some(child.key);
            }
            proof {
                self.lemma_wf_frame(*old(self));
            }
            self.bring_to_front(child.key);
            return;
        }
        match kind {
            MouseEventKind::Move => {
                if let Some(d) = self.dragging {
                    match self.find_child(d) {
                        None => {
                            self.dragging = None;
                            proof {
                                self.lemma_wf_frame(*old(self));
                            }
                        },
                        Some(j) => {
                            proof {
                                lemma_child_position(old(self).root_children_view(), d);
                            }
                            let c = self.root_children[j];
                            let mins = point.sub(self.drag_offset);
                            let size = c.bounds.size();
                            let moved = Bounds2i::new(mins, mins.add(size));
                            self.root_children.set(j, ChildWidget::new(moved, d));
                            proof {
                                self.lemma_same_keys(*old(self));
                            }
                        },
                    }
                } else {
                    proof {
                        self.lemma_wf_frame(*old(self));
                    }
                }
            },
            _ => {
                if kind.left_up() {
                    self.dragging = None;
                    self.captured = None;
                }
                proof {
                    self.lemma_wf_frame(*old(self));
                }
            },
        }
    }

    /// The invariants hold of a state whose root children carry the same keys, in the
    /// same order, as those of a state where they held.
    proof fn lemma_same_keys(&self, old: SceneTree)
        requires
            old.wf(),
            self.parents == old.parents,
            self.content == old.content,
            self.root_children@.len() == old.root_children@.len(),
            forall|m: int| 0 <= m < self.root_children@.len() ==> (#[trigger] self.root_children@[m]).key == old.root_children@[m].key,
        ensures
            self.wf(),
            old.tracks_children() ==> self.tracks_children(),
    {
        assert forall|k: SlotKey| #[trigger] self.spec_parent(k) == Some(self.spec_content()) implies child_position(self.root_children_view(), k) is Some by {
            assert(old.spec_parent(k) == Some(old.spec_content()));
            lemma_child_position(old.root_children_view(), k);
            let j = child_position(old.root_children_view(), k)->Some_0;
            assert(self.root_children@[j].key == k);
            lemma_child_position(self.root_children_view(), k);
        }
        assert forall|a: int, b: int| 0 <= a < b < self.root_children_view().len() implies (#[trigger] self.root_children_view()[a]).key != (#[trigger] self.root_children_view()[b]).key by {
            assert(old.root_children_view()[a].key != old.root_children_view()[b].key);
        }
        if old.tracks_children() {
            assert forall|n: int| 0 <= n < self.root_children_view().len() implies #[trigger] self.spec_is_shown(self.root_children_view()[n].key) by {
                assert(old.spec_is_shown(old.root_children_view()[n].key));
            }
        }
    }

    /// Whether every root child can be kept inside the scene without overflow.
    pub open spec fn layout_fits(&self) -> bool {
        forall|i: int| 0 <= i < self.root_children_view().len()
            ==> contain_fits(#[trigger] self.root_children_view()[i].bounds, Bounds2i { mins: Vec2i { x: 0, y: 0 }, maxs: self.spec_size() })
    }

    /// Returns whether every root child can be kept inside the scene without overflow.
    pub fn check_layout_fits(&self) -> (r: bool)
        ensures
            r == self.layout_fits(),
    {
        let container = Bounds2i::vec(self.size);
        let n = self.root_children.len();
        let mut i: usize = 0;
        while i < n
            invariant
                i <= n,
                n == self.root_children@.len(),
                container == (Bounds2i { mins: Vec2i { x: 0, y: 0 }, maxs: self.spec_size() }),
                forall|j: int| 0 <= j < i ==> contain_fits(#[trigger] self.root_children_view()[j].bounds, container),
            decreases n - i,
        {
            if !check_contain_fits(self.root_children[i].bounds, container) {
                assert(!contain_fits(self.root_children_view()[i as int].bounds, container));
                return false;
            }
            i = i + 1;
        }
        true
    }

    /// `self` is `old` with every child of the root panel kept within the scene: each
    /// is moved inside it, or to its top-left corner where it is larger than the
    /// scene; nothing else changes.
    pub open spec fn root_laid_out(&self, old: SceneTree) -> bool {
        &&& self.same_structure(old)
        &&& self.spec_captured() == old.spec_captured()
        &&& self.spec_dragging() == old.spec_dragging()
        &&& self.spec_drag_offset() == old.spec_drag_offset()
        &&& self.root_children_view().len() == old.root_children_view().len()
        &&& forall|i: int| 0 <= i < self.root_children_view().len() ==> #[trigger] self.root_children_view()[i] == (ChildWidget {
            bounds: contained(old.root_children_view()[i].bounds, Bounds2i { mins: Vec2i { x: 0, y: 0 }, maxs: old.spec_size() }),
            key: old.root_children_view()[i].key,
        })
    }

    /// Keeps every child of the root panel within the scene: each is moved inside it,
    /// or to its top-left corner where it is larger than the scene.
    pub fn layout_root(&mut self)
        requires
            old(self).wf(),
            old(self).layout_fits(),
        ensures
            final(self).wf(),
            old(self).tracks_children() ==> final(self).tracks_children(),
            final(self).root_laid_out(*old(self)),
    {
        let container = Bounds2i::vec(self.size);
        let n = self.root_children.len();
        let mut i: usize = 0;
        while i < n
            invariant
                i <= n,
                n == self.root_children@.len(),
                n == old(self).root_children@.len(),
                container == (Bounds2i { mins: Vec2i { x: 0, y: 0 }, maxs: old(self).spec_size() }),
                old(self).layout_fits(),
                self.parents == old(self).parents,
                self.content == old(self).content,
                self.size == old(self).size,
                self.pointed == old(self).pointed,
                self.captured == old(self).captured,
                self.popup_owner == old(self).popup_owner,
                self.popup_chain == old(self).popup_chain,
                self.popup_request == old(self).popup_request,
                self.dragging == old(self).dragging,
                self.drag_offset == old(self).drag_offset,
                forall|m: int| 0 <= m < i ==> #[trigger] self.root_children@[m] == (ChildWidget {
                    bounds: contained(old(self).root_children@[m].bounds, container),
                    key: old(self).root_children@[m].key,
                }),
                forall|m: int| i <= m < n ==> #[trigger] self.root_children@[m] == old(self).root_children@[m],
            decreases n - i,
        {
            let c = self.root_children[i];
            assert(contain_fits(old(self).root_children_view()[i as int].bounds, container));
            let b = contain_bounds(c.bounds, container);
            self.root_children.set(i, ChildWidget::new(b, c.key));
            i = i + 1;
        }
        proof {
            self.lemma_same_keys(*old(self));
        }
    }

    /// `self` is `old` with `captured` as the widget capturing the pointer.
    pub open spec fn with_captured(&self, old: SceneTree, captured: Option<SlotKey>) -> bool {
        &&& self.same_structure(old)
        &&& self.root_children_view() == old.root_children_view()
        &&& self.spec_dragging() == old.spec_dragging()
        &&& self.spec_drag_offset() == old.spec_drag_offset()
        &&& self.spec_captured() == captured
        &&& (old.wf() ==> self.wf())
        &&& (old.tracks_children() ==> self.tracks_children())
    }

    /// Captures mouse routing to `target` until it is released again.
    pub fn capture_pointer(&mut self, target: SlotKey)
        ensures
            final(self).with_captured(*old(self), Some(target)),
            final(self).spec_captured() == Some(target),
            final(self).spec_popup_request() == old(self).spec_popup_request(),
            forall|k: SlotKey| #[trigger] final(self).spec_parent(k) == old(self).spec_parent(k),
            final(self).parent_slots() == old(self).parent_slots(),
            final(self).spec_content() == old(self).spec_content(),
            final(self).root_children_view() == old(self).root_children_view(),
            final(self).popup_chain_view() == old(self).popup_chain_view(),
            final(self).spec_popup_owner() == old(self).spec_popup_owner(),
            final(self).spec_pointed() == old(self).spec_pointed(),
            final(self).spec_size() == old(self).spec_size(),
            old(self).wf() ==> final(self).wf(),
            old(self).tracks_children() ==> final(self).tracks_children(),
    {
        self.captured = Some(target);
        proof { self.lemma_wf_frame(*old(self)); }
    }

    /// Releases any current mouse capture.
    pub fn release_pointer(&mut self)
        ensures
            final(self).with_captured(*old(self), None),
            final(self).spec_captured() is None,
            final(self).spec_popup_request() == old(self).spec_popup_request(),
            forall|k: SlotKey| #[trigger] final(self).spec_parent(k) == old(self).spec_parent(k),
            final(self).parent_slots() == old(self).parent_slots(),
            final(self).spec_content() == old(self).spec_content(),
            final(self).root_children_view() == old(self).root_children_view(),
            final(self).popup_chain_view() == old(self).popup_chain_view(),
            final(self).spec_popup_owner() == old(self).spec_popup_owner(),
            final(self).spec_pointed() == old(self).spec_pointed(),
            final(self).spec_size() == old(self).spec_size(),
            old(self).wf() ==> final(self).wf(),
            old(self).tracks_children() ==> final(self).tracks_children(),
    {
        self.captured = None;
        proof { self.lemma_wf_frame(*old(self)); }
    }

    /// Returns the root child being dragged by the pointer, if any.
    pub fn dragging(&self) -> (r: Option<SlotKey>)
        ensures
            r == self.spec_dragging(),
    {
        self.dragging
    }

    /// Returns where the pointer holds the dragged child, relative to its corner.
    pub fn drag_offset(&self) -> (r: Vec2i)
        ensures
            r == self.spec_drag_offset(),
    {
        self.drag_offset
    }

    /// Returns the widget that currently captures the pointer, if any.
    pub fn captured(&self) -> (r: Option<SlotKey>)
        ensures
            r == self.spec_captured(),
    {
        self.captured
    }

    /// Returns the widget currently under the pointer, if any.
    pub fn pointed(&self) -> (r: Option<SlotKey>)
        ensures
            r == self.spec_pointed(),
    {
        self.pointed
    }

    /// `self` is `old` with `new` as the pointed widget and nothing else changed.
    pub open spec fn pointed_to(&self, old: SceneTree, new: Option<SlotKey>) -> bool {
        &&& self.spec_pointed() == new
        &&& self.spec_popup_request() == old.spec_popup_request()
        &&& forall|k: SlotKey| #[trigger] self.spec_parent(k) == old.spec_parent(k)
        &&& self.parent_slots() == old.parent_slots()
        &&& self.spec_content() == old.spec_content()
        &&& self.root_children_view() == old.root_children_view()
        &&& self.popup_chain_view() == old.popup_chain_view()
        &&& self.spec_popup_owner() == old.spec_popup_owner()
        &&& self.spec_captured() == old.spec_captured()
        &&& self.spec_size() == old.spec_size()
        &&& self.spec_dragging() == old.spec_dragging()
        &&& self.spec_drag_offset() == old.spec_drag_offset()
    }

    /// Makes `new` the pointed widget. Returns the widgets that must receive a
    /// `Leave` and an `Enter` event, in that order; both are `None` when nothing changed.
    pub fn update_pointed(&mut self, new: Option<SlotKey>) -> (r: (Option<SlotKey>, Option<SlotKey>))
        ensures
            final(self).pointed_to(*old(self), new),
            final(self).spec_pointed() == new,
            r == if old(self).spec_pointed() == new {
                (None::<SlotKey>, None::<SlotKey>)
            } else {
                (old(self).spec_pointed(), new)
            },
            final(self).spec_popup_request() == old(self).spec_popup_request(),
            forall|k: SlotKey| #[trigger] final(self).spec_parent(k) == old(self).spec_parent(k),
            final(self).parent_slots() == old(self).parent_slots(),
            final(self).spec_content() == old(self).spec_content(),
            final(self).root_children_view() == old(self).root_children_view(),
            final(self).popup_chain_view() == old(self).popup_chain_view(),
            final(self).spec_popup_owner() == old(self).spec_popup_owner(),
            final(self).spec_captured() == old(self).spec_captured(),
            final(self).spec_size() == old(self).spec_size(),
            old(self).wf() ==> final(self).wf(),
            old(self).tracks_children() ==> final(self).tracks_children(),
    {
        let old_pointed = self.pointed;
        if old_pointed == new {
            return (None, None);
        }
        self.pointed = new;
        proof { self.lemma_wf_frame(*old(self)); }
        (old_pointed, new)
    }

    /// Keys of the menus from position `from` of the popup chain on that are shown
    /// on the root panel.
    pub open spec fn shown_menus_from(&self, from: int) -> Set<SlotKey> {
        Set::new(|k: SlotKey| self.popup_chain_view().subrange(from, self.popup_chain_view().len() as int).contains(k) && self.spec_is_shown(k))
    }

    /// How many chain entries remain when the chain keeps at most `keep` of them.
    pub open spec fn kept_len(&self, keep: int) -> int {
        if keep < self.popup_chain_view().len() {
            keep
        } else {
            self.popup_chain_view().len() as int
        }
    }

    /// `self` is `old` after closing the popup menus past the first `keep` of the
    /// chain: those that were shown are detached from the root panel, innermost first.
    pub open spec fn popup_tail_closed(&self, old: SceneTree, keep: int) -> bool {
        let kept = old.kept_len(keep);
        let gone = old.shown_menus_from(kept);
        &&& self.popup_chain_view() == old.popup_chain_view().take(kept)
        &&& self.root_children_view() == drop_keys(old.root_children_view(), gone)
        &&& forall|k: SlotKey| #[trigger] self.spec_parent(k) == if gone.contains(k) { None } else { old.spec_parent(k) }
        &&& self.parent_slots() == old.parent_slots()
        &&& self.spec_content() == old.spec_content()
        &&& self.spec_captured() == old.spec_captured()
        &&& self.spec_size() == old.spec_size()
        &&& self.spec_pointed() == pointed_after_closing(old, gone)
        &&& (old.tracks_children() ==> self.tracks_children())
    }

    /// A descent of `w` from `a` that passes through none of the widgets in `cleared`
    /// survives when exactly their parent links are cleared.
    proof fn lemma_descends_kept_links(&self, old: SceneTree, cleared: Set<SlotKey>, w: SlotKey, a: SlotKey, fuel: nat)
        requires
            forall|k: SlotKey| #[trigger] self.spec_parent(k) == if cleared.contains(k) { None } else { old.spec_parent(k) },
            old.descends(w, a, fuel),
            forall|m: SlotKey| #[trigger] cleared.contains(m) ==> !old.descends(w, m, fuel),
        ensures
            self.descends(w, a, fuel),
        decreases fuel,
    {
        if w != a {
            assert(old.descends(w, w, fuel));
            let p = old.spec_parent(w)->Some_0;
            assert(self.spec_parent(w) == Some(p));
            assert forall|m: SlotKey| #[trigger] cleared.contains(m) implies !old.descends(p, m, (fuel - 1) as nat) by {
                assert(!old.descends(w, m, fuel));
            }
            self.lemma_descends_kept_links(old, cleared, p, a, (fuel - 1) as nat);
        }
    }

    /// Clearing parent links never makes a widget the descendant of another.
    proof fn lemma_descends_fewer_links(&self, old: SceneTree, w: SlotKey, a: SlotKey, fuel: nat)
        requires
            forall|k: SlotKey| #[trigger] self.spec_parent(k) is None || self.spec_parent(k) == old.spec_parent(k),
        ensures
            self.descends(w, a, fuel) ==> old.descends(w, a, fuel),
        decreases fuel,
    {
        if w != a && fuel > 0 {
            if let Some(p) = self.spec_parent(w) {
                assert(old.spec_parent(w) == Some(p));
                self.lemma_descends_fewer_links(old, p, a, (fuel - 1) as nat);
            }
        }
    }

    /// Closes the popup menus past the first `keep` entries of the chain, innermost first.
    fn hide_popup_tail(&mut self, keep: usize)
        requires
            old(self).wf(),
        ensures
            final(self).wf(),
            final(self).popup_tail_closed(*old(self), keep as int),
            final(self).spec_popup_owner() == old(self).spec_popup_owner(),
            final(self).spec_popup_request() == old(self).spec_popup_request(),
            final(self).spec_dragging() == old(self).spec_dragging(),
            final(self).spec_drag_offset() == old(self).spec_drag_offset(),
    {
        let ghost start = *self;
        let ghost chain0 = self.popup_chain@;
        let ghost n = chain0.len() as int;
        proof {
            assert(start.shown_menus_from(n) =~= Set::<SlotKey>::empty()) by {
                assert forall|k: SlotKey| !start.shown_menus_from(n).contains(k) by {
                    assert(chain0.subrange(n, n).len() == 0);
                }
            }
            lemma_drop_absent_keys(start.root_children_view(), Set::<SlotKey>::empty());
            assert(chain0.take(n) =~= chain0);
        }
        while self.popup_chain.len() > keep
            invariant
                self.wf(),
                self.popup_chain@.len() <= n,
                self.popup_chain@.len() < n ==> keep <= self.popup_chain@.len(),
                chain0 == start.popup_chain_view(),
                n == chain0.len(),
                self.popup_chain@ == chain0.take(self.popup_chain@.len() as int),
                self.root_children_view() == drop_keys(start.root_children_view(), start.shown_menus_from(self.popup_chain@.len() as int)),
                forall|k: SlotKey| #[trigger] self.spec_parent(k) == if start.shown_menus_from(self.popup_chain@.len() as int).contains(k) { None } else { start.spec_parent(k) },
                self.parent_slots() == start.parent_slots(),
                self.spec_content() == start.spec_content(),
                self.spec_captured() == start.spec_captured(),
                self.spec_size() == start.spec_size(),
                self.spec_popup_owner() == start.spec_popup_owner(),
                self.spec_popup_request() == start.spec_popup_request(),
                self.spec_dragging() == start.spec_dragging(),
                self.spec_drag_offset() == start.spec_drag_offset(),
                self.spec_pointed() == pointed_after_closing(start, start.shown_menus_from(self.popup_chain@.len() as int)),
                start.tracks_children() ==> self.tracks_children(),
            decreases self.popup_chain@.len(),
        {
            let ghost before = *self;
            let ghost len = self.popup_chain@.len() as int;
            let menu = match self.popup_chain.pop() {
                Some(m) => m,
                None => vstd::pervasive::unreached(),
            };
            proof {
                self.lemma_wf_frame(before);
                assert(self.popup_chain@ =~= chain0.take(len - 1));
                assert(menu == chain0[len - 1]);
                let g0 = start.shown_menus_from(len);
                let g1 = start.shown_menus_from(len - 1);
                assert forall|k: SlotKey| #[trigger] g1.contains(k) <==> (g0.contains(k) || (k == menu && start.spec_is_shown(menu))) by {
                    let s1 = chain0.subrange(len - 1, n);
                    let s0 = chain0.subrange(len, n);
                    if s0.contains(k) {
                        let j = choose|j: int| 0 <= j < s0.len() && s0[j] == k;
                        assert(s1[j + 1] == k);
                    }
                    if s1.contains(k) {
                        let j = choose|j: int| 0 <= j < s1.len() && s1[j] == k;
                        if j > 0 {
                            assert(s0[j - 1] == k);
                        }
                    }
                    if k == menu {
                        assert(s1[0] == menu);
                    }
                }
            }
            if self.is_shown(menu) {
                let ghost mid = *self;
                proof {
                    assert forall|k: SlotKey| #[trigger] mid.spec_parent(k) == before.spec_parent(k) by {}
                    let g0 = start.shown_menus_from(len);
                    let g1 = start.shown_menus_from(len - 1);
                    assert(before.spec_parent(menu) == self.spec_parent(menu));
                    assert(!g0.contains(menu));
                    assert(g1 =~= g0.union(set![menu]));
                    lemma_child_position(self.root_children_view(), menu);
                    let i = child_position(self.root_children_view(), menu)->Some_0;
                    lemma_remove_is_drop(self.root_children_view(), i);
                    assert(set![self.root_children_view()[i].key] =~= set![menu]);
                    lemma_drop_keys_twice(start.root_children_view(), g0, set![menu]);
                    if let Some(p) = start.spec_pointed() {
                        self.lemma_descends_fewer_links(start, p, menu, self.parent_slots());
                        if !(exists|m: SlotKey| g0.contains(m) && start.spec_is_descendant_of(p, m)) && start.spec_is_descendant_of(p, menu) {
                            self.lemma_descends_kept_links(start, g0, p, menu, self.parent_slots());
                        }
                        if exists|m: SlotKey| g0.contains(m) && start.spec_is_descendant_of(p, m) {
                            let m = choose|m: SlotKey| g0.contains(m) && start.spec_is_descendant_of(p, m);
                            assert(g1.contains(m));
                        }
                    }
                }
                self.hide_widget(menu);
                proof {
                    let g0 = start.shown_menus_from(len);
                    let g1 = start.shown_menus_from(len - 1);
                    assert forall|k: SlotKey| #[trigger] self.spec_parent(k) == if g1.contains(k) { None } else { start.spec_parent(k) } by {
                        if k != menu {
                            assert(self.spec_parent(k) == mid.spec_parent(k));
                        }
                    }
                }
            } else {
                proof {
                    let g0 = start.shown_menus_from(len);
                    let g1 = start.shown_menus_from(len - 1);
                    assert(before.spec_parent(menu) == self.spec_parent(menu));
                    assert(g1 =~= g0);
                    assert forall|k: SlotKey| #[trigger] self.spec_parent(k) == before.spec_parent(k) by {}
                }
            }
        }
    }

    /// `self` is `old` once the widget `key` is gone, `mid` being the state after the
    /// popups: a popup chain holding `key` is dropped (its menus stay shown), else a
    /// chain it opened is closed; then it is no longer pointed, captured or linked to a
    /// parent.
    pub open spec fn forgotten_via(&self, old: SceneTree, key: SlotKey, mid: SceneTree) -> bool {
        let in_chain = old.popup_chain_view().contains(key);
        let owns = !in_chain && old.spec_popup_owner() == Some(key);
        &&& mid.spec_dragging() == old.spec_dragging()
        &&& mid.spec_drag_offset() == old.spec_drag_offset()
        &&& if owns {
            &&& mid.popup_tail_closed(old, 0)
            &&& mid.popup_chain_view().len() == 0
            &&& mid.spec_popup_owner() is None
            &&& mid.spec_popup_request() is None
        } else {
            &&& mid.root_children_view() == old.root_children_view()
            &&& forall|k: SlotKey| #[trigger] mid.spec_parent(k) == old.spec_parent(k)
            &&& mid.parent_slots() == old.parent_slots()
            &&& mid.spec_content() == old.spec_content()
            &&& mid.spec_pointed() == old.spec_pointed()
            &&& mid.spec_captured() == old.spec_captured()
            &&& mid.spec_size() == old.spec_size()
            &&& if in_chain {
                &&& mid.popup_chain_view().len() == 0
                &&& mid.spec_popup_owner() is None
                &&& mid.spec_popup_request() is None
            } else {
                &&& mid.popup_chain_view() == old.popup_chain_view()
                &&& mid.spec_popup_owner() == old.spec_popup_owner()
                &&& mid.spec_popup_request() == old.spec_popup_request()
            }
        }
        &&& self.spec_pointed() == (if mid.spec_pointed() == Some(key) { None } else { mid.spec_pointed() })
        &&& self.spec_captured() == (if mid.spec_captured() == Some(key) { None } else { mid.spec_captured() })
        &&& self.spec_parent(key) is None
        &&& forall|k: SlotKey| k.spec_index() != key.spec_index() ==> #[trigger] self.spec_parent(k) == mid.spec_parent(k)
        &&& self.parent_slots() == mid.parent_slots()
        &&& self.spec_content() == mid.spec_content()
        &&& self.root_children_view() == mid.root_children_view()
        &&& self.popup_chain_view() == mid.popup_chain_view()
        &&& self.spec_popup_owner() == mid.spec_popup_owner()
        &&& self.spec_popup_request() == mid.spec_popup_request()
        &&& self.spec_size() == mid.spec_size()
        &&& self.spec_dragging() == mid.spec_dragging()
        &&& self.spec_drag_offset() == mid.spec_drag_offset()
    }

    /// `self` is `old` once the widget `key` is gone (see
    /// [`forgotten_via`](SceneTree::forgotten_via)).
    pub open spec fn forgotten(&self, old: SceneTree, key: SlotKey) -> bool {
        exists|mid: SceneTree| #[trigger] self.forgotten_via(old, key, mid)
    }

    /// Forgets the widget `key` as it is destroyed (see [`forgotten`](SceneTree::forgotten)).
    pub fn forget_widget(&mut self, key: SlotKey)
        requires
            old(self).wf(),
        ensures
            final(self).wf(),
            final(self).forgotten(*old(self), key),
    {
        proof {
            lemma_first_index_of(self.popup_chain_view(), key);
        }
        if self.chain_position(key).is_some() {
            self.popup_owner = None;
            self.popup_chain.clear();
            self.popup_request = None;
            proof {
                self.lemma_wf_frame(*old(self));
            }
        }
        if self.popup_owner == Some(key) {
            self.hide_popup();
        }
        let ghost mid = *self;
        if self.pointed == Some(key) {
            self.pointed = None;
        }
        if self.captured == Some(key) {
            self.captured = None;
        }
        proof {
            self.lemma_wf_frame(mid);
        }
        let ghost mid2 = *self;
        self.clear_parent(key);
        proof {
            assert(forall|k: SlotKey| k.spec_index() != key.spec_index() ==> #[trigger] self.spec_parent(k) == mid2.spec_parent(k));
            assert forall|k: SlotKey| k.spec_index() != key.spec_index() implies #[trigger] self.spec_parent(k) == mid.spec_parent(k) by {
                assert(mid2.spec_parent(k) == mid.spec_parent(k));
            }
            assert(self.forgotten_via(*old(self), key, mid));
        }
    }

    /// Hides the active popup chain without destroying its menus.
    pub fn hide_popup(&mut self)
        requires
            old(self).wf(),
        ensures
            final(self).wf(),
            final(self).popup_tail_closed(*old(self), 0),
            final(self).popup_chain_view().len() == 0,
            final(self).spec_popup_owner() is None,
            final(self).spec_popup_request() is None,
            final(self).spec_dragging() == old(self).spec_dragging(),
            final(self).spec_drag_offset() == old(self).spec_drag_offset(),
    {
        self.hide_popup_tail(0);
        let ghost mid = *self;
        self.popup_request = None;
        self.popup_owner = None;
        proof {
            self.lemma_wf_frame(mid);
            assert forall|k: SlotKey| #[trigger] self.spec_parent(k) == mid.spec_parent(k) by {}
        }
    }

    /// `self` is `mid` after `menu` was attached to the root panel at `bounds` in front
    /// of all other children and appended to the popup chain.
    pub open spec fn menu_opened(&self, mid: SceneTree, menu: SlotKey, bounds: Bounds2i) -> bool {
        &&& self.root_children_view() == drop_keys(mid.root_children_view(), set![menu]).push(ChildWidget { bounds, key: menu })
        &&& self.popup_chain_view() == mid.popup_chain_view().push(menu)
        &&& forall|k: SlotKey| k != menu ==> #[trigger] self.spec_parent(k) == mid.spec_parent(k)
        &&& self.spec_parent(menu) == if child_position(mid.root_children_view(), menu) is Some {
            mid.spec_parent(menu)
        } else {
            Some(mid.spec_content())
        }
        &&& self.parent_slots() >= mid.parent_slots()
        &&& self.spec_content() == mid.spec_content()
        &&& self.spec_size() == mid.spec_size()
        &&& self.spec_pointed() == mid.spec_pointed()
        &&& self.spec_captured() == mid.spec_captured()
        &&& (mid.tracks_children() ==> self.tracks_children() && self.spec_is_shown(menu))
    }

    /// Attaches `menu` in front of the root panel's children and appends it to the chain.
    fn open_menu(&mut self, menu: SlotKey, bounds: Bounds2i)
        requires
            old(self).wf(),
            old(self).spec_parent(menu) is None || old(self).spec_parent(menu) == Some(old(self).spec_content()),
            menu.spec_index() < usize::MAX,
        ensures
            final(self).wf(),
            final(self).menu_opened(*old(self), menu, bounds),
            final(self).spec_popup_owner() == old(self).spec_popup_owner(),
            final(self).spec_popup_request() == old(self).spec_popup_request(),
    {
        let ghost start = *self;
        self.show(menu, bounds);
        let ghost shown = *self;
        let found = self.bring_to_front(menu);
        proof {
            lemma_child_position(start.root_children_view(), menu);
            lemma_child_position(shown.root_children_view(), menu);
            let r0 = start.root_children_view();
            let w = ChildWidget { bounds, key: menu };
            match child_position(r0, menu) {
                Some(i) => {
                    assert(shown.root_children_view() == r0.update(i, w));
                    assert(shown.root_children_view()[i].key == menu);
                    assert(child_position(shown.root_children_view(), menu) == Some(i));
                    lemma_remove_is_drop(r0, i);
                    assert(r0.update(i, w).remove(i) =~= r0.remove(i));
                    if start.tracks_children() {
                        assert(start.spec_is_shown(r0[i].key));
                    }
                    assert(set![r0[i].key] =~= set![menu]);
                },
                None => {
                    assert forall|j: int| 0 <= j < r0.len() implies !set![menu].contains(#[trigger] r0[j].key) by {}
                    lemma_drop_absent_keys(r0, set![menu]);
                    assert(shown.root_children_view()[r0.len() as int].key == menu);
                    assert(r0.push(w).remove(r0.len() as int) =~= r0);
                },
            }
        }
        let ghost fronted = *self;
        self.popup_chain.push(menu);
        proof {
            self.lemma_wf_frame(fronted);
            assert forall|k: SlotKey| #[trigger] self.spec_parent(k) == shown.spec_parent(k) by {
                assert(fronted.spec_parent(k) == shown.spec_parent(k));
            }
            assert forall|k: SlotKey| k != menu implies #[trigger] self.spec_parent(k) == start.spec_parent(k) by {
                if k.spec_index() == menu.spec_index() {
                    SlotKey::lemma_same_index(k, menu);
                }
            }
            assert(self.spec_parent(menu) == shown.spec_parent(menu));
        }
    }

    /// Shows a menu as the root of a new popup chain, replacing any open chain.
    pub fn show_popup(&mut self, menu: SlotKey, bounds: Bounds2i)
        requires
            old(self).wf(),
            old(self).spec_parent(menu) is None || old(self).spec_parent(menu) == Some(old(self).spec_content()),
            menu.spec_index() < usize::MAX,
        ensures
            final(self).wf(),
            exists|mid: SceneTree| #[trigger] mid.popup_tail_closed(*old(self), 0) && final(self).menu_opened(mid, menu, bounds),
            final(self).popup_chain_view() == seq![menu],
            final(self).spec_popup_owner() is None,
            final(self).spec_popup_request() is None,
    {
        self.hide_popup();
        let ghost mid = *self;
        self.open_menu(menu, bounds);
        proof {
            assert(mid.popup_tail_closed(*old(self), 0));
            assert(self.popup_chain_view() =~= seq![menu]);
        }
    }

    /// Position in the popup chain of the menu that holds `anchor`, if any.
    pub open spec fn anchor_menu_index(&self, anchor: SlotKey) -> Option<int> {
        match self.spec_parent(anchor) {
            Some(p) => first_index_of(self.popup_chain_view(), p),
            None => None,
        }
    }

    /// Opening `menu` from `anchor` changes nothing: it already is the submenu of the
    /// anchor's menu, or the root of the chain that `anchor` owns.
    pub open spec fn open_is_noop(&self, anchor: SlotKey, menu: SlotKey) -> bool {
        match self.anchor_menu_index(anchor) {
            Some(i) => i + 1 < self.popup_chain_view().len() && self.popup_chain_view()[i + 1] == menu,
            None => self.spec_popup_owner() == Some(anchor) && self.popup_chain_view().len() > 0 && self.popup_chain_view()[0] == menu,
        }
    }

    /// What opening `menu` from `anchor` at `anchor_bounds` needs: the menu may only be
    /// attached to the root panel, and its placement must not overflow.
    pub open spec fn can_open(&self, anchor: SlotKey, menu: SlotKey, anchor_bounds: Bounds2i, height: int) -> bool {
        &&& (self.spec_parent(menu) is None || self.spec_parent(menu) == Some(self.spec_content()))
        &&& menu.spec_index() < usize::MAX
        &&& if self.anchor_menu_index(anchor) is Some {
            submenu_fits(anchor_bounds, self.spec_size(), height)
        } else {
            dropdown_fits(anchor_bounds, self.spec_size(), height)
        }
    }

    /// The menu that the queued request opens, if an open request is queued.
    pub fn requested_menu(&self) -> (r: Option<SlotKey>)
        ensures
            r == match self.spec_popup_request() {
                Some(PopupRequest::Open { menu, .. }) => Some(menu),
                _ => None,
            },
    {
        match self.popup_request {
            Some(PopupRequest::Open { menu, .. }) => Some(menu),
            _ => None,
        }
    }

    /// `self` is `old` after applying the popup request queued in `old`, with
    /// `menu_height` the height of the menu that an open request names.
    pub open spec fn popup_request_applied(&self, old: SceneTree, menu_height: Option<i32>) -> bool {
        match old.spec_popup_request() {
            None => self.unchanged_except_request(old),
            Some(PopupRequest::Truncate { after: None }) => {
                &&& self.popup_tail_closed(old, 0)
                &&& self.spec_popup_owner() is None
            },
            Some(PopupRequest::Truncate { after: Some(m) }) => match first_index_of(old.popup_chain_view(), m) {
                Some(i) => self.popup_tail_closed(old, i + 1) && self.spec_popup_owner() == old.spec_popup_owner(),
                None => self.unchanged_except_request(old),
            },
            Some(PopupRequest::Open { anchor_widget, menu, anchor_bounds }) => match menu_height {
                None => self.unchanged_except_request(old),
                Some(h) => if old.open_is_noop(anchor_widget, menu) {
                    self.unchanged_except_request(old)
                } else {
                    match old.anchor_menu_index(anchor_widget) {
                        Some(i) => {
                            &&& self.spec_popup_owner() == old.spec_popup_owner()
                            &&& exists|mid: SceneTree| #[trigger] mid.popup_tail_closed(old, i + 1)
                                && self.menu_opened(mid, menu, submenu_bounds(anchor_bounds, old.spec_size(), h as int))
                        },
                        None => {
                            &&& self.spec_popup_owner() == Some(anchor_widget)
                            &&& exists|mid: SceneTree| #[trigger] mid.popup_tail_closed(old, 0)
                                && self.menu_opened(mid, menu, dropdown_bounds(anchor_bounds, old.spec_size(), h as int))
                        },
                    }
                },
            },
        }
    }

    /// Returns whether applying the queued request is allowed, with `menu_height` the
    /// height of the menu an open request names (see [`apply_allowed`](SceneTree::apply_allowed)).
    pub fn check_apply_allowed(&self, menu_height: Option<i32>) -> (r: bool)
        ensures
            r == self.apply_allowed(menu_height),
    {
        let (anchor_widget, menu, anchor_bounds) = match self.popup_request {
            Some(PopupRequest::Open { anchor_widget, menu, anchor_bounds }) => (anchor_widget, menu, anchor_bounds),
            _ => {
                return true;
            },
        };
        let height = match menu_height {
            Some(h) => h,
            None => {
                return true;
            },
        };
        proof {
            if let Some(p) = self.spec_parent(anchor_widget) {
                lemma_first_index_of(self.popup_chain_view(), p);
            }
        }
        let parent_index = match self.parent(anchor_widget) {
            Some(parent) => self.chain_position(parent),
            None => None,
        };
        let chain_len = self.popup_chain.len();
        let noop = match parent_index {
            Some(pi) => pi + 1 < chain_len && self.popup_chain[pi + 1] == menu,
            None => self.popup_owner == Some(anchor_widget) && chain_len > 0 && self.popup_chain[0] == menu,
        };
        if noop {
            return true;
        }
        let parent = self.parent(menu);
        let attachable = parent.is_none() || parent == Some(self.content);
        let fits = match parent_index {
            Some(_) => check_submenu_fits(anchor_bounds, self.size, height),
            None => check_dropdown_fits(anchor_bounds, self.size, height),
        };
        attachable && menu.index() < usize::MAX && fits
    }

    /// Applies the popup request queued during event routing, if any.
    ///
    /// `menu_height` is the height of the menu that an open request names (`None`
    /// when that widget is not a menu, which drops the request).
    pub fn apply_popup_request(&mut self, menu_height: Option<i32>)
        requires
            old(self).wf(),
            old(self).apply_allowed(menu_height),
        ensures
            final(self).wf(),
            final(self).spec_popup_request() is None,
            final(self).popup_request_applied(*old(self), menu_height),
    {
        let request = match self.popup_request {
            Some(r) => r,
            None => {
                return;
            },
        };
        match request {
            PopupRequest::Open { anchor_widget, menu, anchor_bounds } => {
                let parent_index = match self.parent(anchor_widget) {
                    Some(parent) => self.chain_position(parent),
                    None => None,
                };
                let chain_len = self.popup_chain.len();
                proof {
                    if let Some(p) = self.spec_parent(anchor_widget) {
                        lemma_first_index_of(self.popup_chain_view(), p);
                    }
                }
                let height = match menu_height {
                    Some(h) => h,
                    None => {
                        self.drop_request();
                        return;
                    },
                };
                match parent_index {
                    Some(pi) => {
                        if pi + 1 < chain_len && self.popup_chain[pi + 1] == menu {
                            self.drop_request();
                            return;
                        }
                        let size = self.size;
                        self.hide_popup_tail(pi + 1);
                        let ghost mid = *self;
                        let bounds = submenu_placement(anchor_bounds, size, height);
                        self.open_menu(menu, bounds);
                        self.drop_request();
                        proof {
                            assert(mid.popup_tail_closed(*old(self), pi + 1));
                        }
                    },
                    None => {
                        if self.popup_owner == Some(anchor_widget) && chain_len > 0 && self.popup_chain[0] == menu {
                            self.drop_request();
                            return;
                        }
                        let size = self.size;
                        self.hide_popup_tail(0);
                        let ghost hidden = *self;
                        self.popup_owner = Some(anchor_widget);
                        proof {
                            self.lemma_wf_frame(hidden);
                            assert forall|k: SlotKey| #[trigger] self.spec_parent(k) == hidden.spec_parent(k) by {}
                        }
                        let ghost mid = *self;
                        let bounds = dropdown_placement(anchor_bounds, size, height);
                        self.open_menu(menu, bounds);
                        self.drop_request();
                        proof {
                            assert(mid.popup_tail_closed(*old(self), 0));
                        }
                    },
                }
            },
            PopupRequest::Truncate { after } => {
                match after {
                    Some(menu) => {
                        let position = self.chain_position(menu);
                        let chain_len = self.popup_chain.len();
                        proof {
                            lemma_first_index_of(self.popup_chain_view(), menu);
                        }
                        match position {
                            Some(index) => {
                                self.hide_popup_tail(index + 1);
                            },
                            None => {},
                        }
                        self.drop_request();
                    },
                    None => {
                        self.hide_popup();
                    },
                }
            },
        }
    }

    /// Forgets the queued popup request.
    fn drop_request(&mut self)
        ensures
            final(self).spec_popup_request() is None,
            final(self).unchanged_except_request(*old(self)),
    {
        self.popup_request = None;
        proof {
            self.lemma_wf_frame(*old(self));
        }
    }

    /// The invariants only read parents and root children.
    proof fn lemma_wf_frame(&self, old: SceneTree)
        requires
            self.parents == old.parents,
            self.content == old.content,
            self.root_children == old.root_children,
        ensures
            old.wf() ==> self.wf(),
            old.tracks_children() ==> self.tracks_children(),
    {
        if old.wf() {
            assert forall|k: SlotKey| #[trigger] self.spec_parent(k) == Some(self.spec_content()) implies child_position(self.root_children_view(), k) is Some by {
                assert(old.spec_parent(k) == Some(old.spec_content()));
            }
        }
        if old.tracks_children() {
            assert forall|n: int| 0 <= n < self.root_children_view().len() implies #[trigger] self.spec_is_shown(self.root_children_view()[n].key) by {
                assert(old.spec_is_shown(old.root_children_view()[n].key));
            }
        }
    }
}

/// Closing the popup chain past its first `keep` menus leaves none of the closed
/// menus attached to the root panel.
pub proof fn law_closed_menus_not_shown(new: SceneTree, old: SceneTree, keep: nat)
    requires
        new.popup_tail_closed(old, keep as int),
    ensures
        forall|i: int| old.kept_len(keep as int) <= i < old.popup_chain_view().len()
            ==> !new.spec_is_shown(#[trigger] old.popup_chain_view()[i]),
{
    let chain = old.popup_chain_view();
    let kept = old.kept_len(keep as int);
    assert forall|i: int| kept <= i < chain.len() implies !new.spec_is_shown(#[trigger] chain[i]) by {
        let tail = chain.subrange(kept, chain.len() as int);
        assert(tail[i - kept] == chain[i]);
        assert(tail.contains(chain[i]));
    }
}

/// Closing the chain after the menu that holds an anchor undoes opening a submenu from
/// that anchor: the chain is again what it was through that menu, and the submenu is
/// no longer shown.
pub proof fn law_close_undoes_submenu(
    s0: SceneTree,
    s1: SceneTree,
    s2: SceneTree,
    s3: SceneTree,
    anchor: SlotKey,
    menu: SlotKey,
    anchor_bounds: Bounds2i,
    height: i32,
)
    requires
        s0.tracks_children(),
        s0.spec_popup_request() == Some(PopupRequest::Open { anchor_widget: anchor, menu, anchor_bounds }),
        s0.anchor_menu_index(anchor) is Some,
        !s0.open_is_noop(anchor, menu),
        s1.popup_request_applied(s0, Some(height)),
        s2.unchanged_except_request(s1),
        s2.spec_popup_request() == Some(PopupRequest::Truncate { after: s0.spec_parent(anchor) }),
        s3.popup_request_applied(s2, None),
    ensures
        s3.popup_chain_view() == s0.popup_chain_view().take(s0.anchor_menu_index(anchor)->Some_0 + 1),
        !s3.spec_is_shown(menu),
{
    let i = s0.anchor_menu_index(anchor)->Some_0;
    let p = s0.spec_parent(anchor)->Some_0;
    let c0 = s0.popup_chain_view();
    lemma_first_index_of(c0, p);
    let mid = choose|mid: SceneTree| #[trigger] mid.popup_tail_closed(s0, i + 1)
        && s1.menu_opened(mid, menu, submenu_bounds(anchor_bounds, s0.spec_size(), height as int));
    assert(s0.kept_len(i + 1) == i + 1);
    let c2 = s2.popup_chain_view();
    assert(c2 == c0.take(i + 1).push(menu));
    assert(c2[i] == p);
    lemma_first_index_of(c2, p);
    let j = first_index_of(c2, p)->Some_0;
    if j < i {
        assert(c0[j] == c2[j]);
    }
    assert(first_index_of(c2, p) == Some(i));
    assert(s2.kept_len(i + 1) == i + 1);
    assert(s3.popup_chain_view() =~= c0.take(i + 1));
    assert(s1.spec_is_shown(menu));
    assert(s2.spec_parent(menu) == s1.spec_parent(menu));
    let tail = c2.subrange(i + 1, c2.len() as int);
    assert(tail[0] == menu);
    assert(s2.shown_menus_from(i + 1).contains(menu));
}

/// Dragging follows the pointer: after the left button goes down at `p` over a root
/// child that is the event's target and takes input, moving the pointer to `q` moves
/// that child, now in front of all others, by `q - p`, keeping its size.
pub proof fn law_drag_follows_pointer(s0: SceneTree, s1: SceneTree, s2: SceneTree, p: Vec2i, q: Vec2i, target: SlotKey)
    requires
        s0.wf(),
        s1.wf(),
        s0.root_event_fits(MouseEventKind::ButtonDown { button: crate::event::MouseButton(0) }, p),
        s1.root_event_fits(MouseEventKind::Move, q),
        last_hit(s0.root_children_view(), p) matches Some(i) && s0.root_children_view()[i].key == target,
        s1.root_event_applied(s0, MouseEventKind::ButtonDown { button: crate::event::MouseButton(0) }, p, target, true),
        s2.root_event_applied(s1, MouseEventKind::Move, q, target, true),
    ensures
        ({
            let c = s0.root_children_view()[last_hit(s0.root_children_view(), p)->Some_0];
            &&& s2.root_children_view().len() == s0.root_children_view().len()
            &&& s2.root_children_view().last() == (ChildWidget {
                bounds: rect(
                    c.bounds.mins.x + q.x - p.x,
                    c.bounds.mins.y + q.y - p.y,
                    c.bounds.maxs.x + q.x - p.x,
                    c.bounds.maxs.y + q.y - p.y,
                ),
                key: target,
            })
            &&& s2.spec_dragging() == Some(target)
            &&& s2.spec_captured() == Some(target)
        }),
{
    let rc0 = s0.root_children_view();
    let i = last_hit(rc0, p)->Some_0;
    crate::widgets::lemma_last_hit(rc0, p);
    let c = rc0[i];
    let rc1 = s1.root_children_view();
    assert(rc1 == rc0.remove(i).push(c));
    let n = rc1.len() - 1;
    assert(rc1[n] == c);
    lemma_child_position(rc1, target);
    let f = child_position(rc1, target)->Some_0;
    if f != n {
        assert(rc1[f].key != rc1[n].key);
    }
    assert(child_position(rc1, target) == Some(n));
}

} // verus!
