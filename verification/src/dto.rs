//! Declarative descriptions of widget trees, and the names collected while the
//! retained widgets are built from them.
use vstd::prelude::*;

use crate::geom::{Bounds2i, Vec2i};
use crate::paint::Rgba8;
use crate::slotmap::SlotKey;
use crate::widgets::row_top;

verus! {

/// Declarative property value: looked up by key, or given directly.
#[derive(Clone, Debug, PartialEq)]
pub enum Property<T> {
    Key(u32),
    Value(T),
}

/// Names of the widgets built from a declarative tree, with their keys.
#[derive(Clone, Debug)]
pub struct BuildContext {
    names: Vec<(String, SlotKey)>,
}

impl View for BuildContext {
    type V = Map<Seq<char>, SlotKey>;

    closed spec fn view(&self) -> Map<Seq<char>, SlotKey> {
        Map::new(
            |n: Seq<char>| exists|i: int| 0 <= i < self.names@.len() && #[trigger] self.names@[i].0@ == n,
            |n: Seq<char>| self.names@[choose|i: int| 0 <= i < self.names@.len() && #[trigger] self.names@[i].0@ == n].1,
        )
    }
}

impl BuildContext {
    /// No name is recorded twice.
    pub closed spec fn wf(&self) -> bool {
        forall|a: int, b: int| 0 <= a < b < self.names@.len() ==> #[trigger] self.names@[a].0@ != #[trigger] self.names@[b].0@
    }

    /// Creates an empty context.
    pub fn new() -> (r: BuildContext)
        ensures
            r.wf(),
            r@ == Map::<Seq<char>, SlotKey>::empty(),
    {
        let r = BuildContext { names: Vec::new() };
        assert(r@ =~= Map::<Seq<char>, SlotKey>::empty());
        r
    }

    fn position(&self, name: &String) -> (r: Option<usize>)
        requires
            self.wf(),
        ensures
            match r {
                Some(i) => i < self.names@.len() && self.names@[i as int].0@ == name@,
                None => forall|i: int| 0 <= i < self.names@.len() ==> #[trigger] self.names@[i].0@ != name@,
            },
    {
        let mut i: usize = 0;
        while i < self.names.len()
            invariant
                i <= self.names@.len(),
                forall|j: int| 0 <= j < i ==> #[trigger] self.names@[j].0@ != name@,
            decreases self.names@.len() - i,
        {
            if self.names[i].0 == *name {
                return Some(i);
            }
            i = i + 1;
        }
        None
    }

    proof fn lemma_lookup(&self, i: int)
        requires
            self.wf(),
            0 <= i < self.names@.len(),
        ensures
            self@.contains_key(self.names@[i].0@),
            self@[self.names@[i].0@] == self.names@[i].1,
    {
        let n = self.names@[i].0@;
        assert(exists|j: int| 0 <= j < self.names@.len() && #[trigger] self.names@[j].0@ == n);
        let c = choose|j: int| 0 <= j < self.names@.len() && #[trigger] self.names@[j].0@ == n;
        if c != i {
            if c < i {
                assert(self.names@[c].0@ != self.names@[i].0@);
            } else {
                assert(self.names@[i].0@ != self.names@[c].0@);
            }
        }
    }

    /// Looks up a named widget key collected during construction.
    pub fn key(&self, name: &str) -> (r: Option<SlotKey>)
        requires
            self.wf(),
        ensures
            r == if self@.contains_key(name@) { Some(self@[name@]) } else { None },
    {
        let owned = name.to_owned();
        match self.position(&owned) {
            Some(i) => {
                proof {
                    self.lemma_lookup(i as int);
                }
                Some(self.names[i].1)
            },
            None => None,
        }
    }

    /// Records `key` under `name`, if a name is given; a later key replaces an earlier
    /// one of the same name.
    pub fn insert(&mut self, name: Option<String>, key: SlotKey)
        requires
            old(self).wf(),
        ensures
            final(self).wf(),
            final(self)@ == match name {
                Some(n) => old(self)@.insert(n@, key),
                None => old(self)@,
            },
    {
        let n = match name {
            Some(n) => n,
            None => {
                return;
            },
        };
        let ghost nv = n@;
        match self.position(&n) {
            Some(i) => {
                self.names.set(i, (n, key));
                proof {
                    assert forall|a: int, b: int| 0 <= a < b < self.names@.len() implies #[trigger] self.names@[a].0@ != #[trigger] self.names@[b].0@ by {
                        assert(old(self).names@[a].0@ != old(self).names@[b].0@);
                    }
                    assert forall|m: Seq<char>| #[trigger] self@.contains_key(m) == old(self)@.insert(nv, key).contains_key(m) by {
                        if old(self)@.contains_key(m) {
                            let j = choose|j: int| 0 <= j < old(self).names@.len() && #[trigger] old(self).names@[j].0@ == m;
                            assert(self.names@[j].0@ == m);
                        }
                        if self@.contains_key(m) {
                            let j = choose|j: int| 0 <= j < self.names@.len() && #[trigger] self.names@[j].0@ == m;
                            if j != i {
                                assert(old(self).names@[j].0@ == m);
                            }
                        }
                    }
                    assert forall|m: Seq<char>| #[trigger] self@.contains_key(m) implies self@[m] == old(self)@.insert(nv, key)[m] by {
                        let j = choose|j: int| 0 <= j < self.names@.len() && #[trigger] self.names@[j].0@ == m;
                        self.lemma_lookup(j);
                        if j != i {
                            assert(old(self).names@[j] == self.names@[j]);
                            old(self).lemma_lookup(j);
                        }
                    }
                    assert(self@ =~= old(self)@.insert(nv, key));
                }
            },
            None => {
                self.names.push((n, key));
                proof {
                    let len = old(self).names@.len();
                    assert forall|a: int, b: int| 0 <= a < b < self.names@.len() implies #[trigger] self.names@[a].0@ != #[trigger] self.names@[b].0@ by {
                        if b < len {
                            assert(old(self).names@[a].0@ != old(self).names@[b].0@);
                        } else {
                            assert(old(self).names@[a] == self.names@[a]);
                        }
                    }
                    assert forall|m: Seq<char>| #[trigger] self@.contains_key(m) == old(self)@.insert(nv, key).contains_key(m) by {
                        if old(self)@.contains_key(m) {
                            let j = choose|j: int| 0 <= j < old(self).names@.len() && #[trigger] old(self).names@[j].0@ == m;
                            assert(self.names@[j].0@ == m);
                        }
                        if m == nv {
                            assert(self.names@[len as int].0@ == m);
                        }
                        if self@.contains_key(m) {
                            let j = choose|j: int| 0 <= j < self.names@.len() && #[trigger] self.names@[j].0@ == m;
                            if j < len {
                                assert(old(self).names@[j].0@ == m);
                            }
                        }
                    }
                    assert forall|m: Seq<char>| #[trigger] self@.contains_key(m) implies self@[m] == old(self)@.insert(nv, key)[m] by {
                        let j = choose|j: int| 0 <= j < self.names@.len() && #[trigger] self.names@[j].0@ == m;
                        self.lemma_lookup(j);
                        if j < len {
                            assert(old(self).names@[j] == self.names@[j]);
                            old(self).lemma_lookup(j);
                        }
                    }
                    assert(self@ =~= old(self)@.insert(nv, key));
                }
            },
        }
    }
}

/// A name looked up after it was recorded gives the key recorded last under it.
pub proof fn law_key_after_insert(c0: BuildContext, c1: BuildContext, name: Seq<char>, key: SlotKey, other: Seq<char>)
    requires
        c1@ == c0@.insert(name, key),
        other != name,
    ensures
        c1@.contains_key(name),
        c1@[name] == key,
        c1@.contains_key(other) == c0@.contains_key(other),
        c0@.contains_key(other) ==> c1@[other] == c0@[other],
{
}

/// Declarative checkbox.
#[derive(Clone, Debug, PartialEq)]
pub struct Checkbox {
    pub name: Option<String>,
    pub label: Property<String>,
    pub checked: Property<bool>,
    pub enabled: Option<Property<bool>>,
}

/// Declarative radio button.
#[derive(Clone, Debug, PartialEq)]
pub struct RadioButton {
    pub name: Option<String>,
    pub label: Property<String>,
    pub selected: Property<usize>,
    pub index: usize,
    pub enabled: Option<Property<bool>>,
}

/// Declarative menu separator.
#[derive(Clone, Debug, PartialEq)]
pub struct Separator {
    pub name: Option<String>,
}

/// Declarative menu item, optionally opening a submenu.
#[derive(Debug)]
pub struct MenuItem {
    pub name: Option<String>,
    pub label: Property<String>,
    pub enabled: Option<Property<bool>>,
    pub submenu: Option<Box<Menu>>,
}

/// Declarative vertical menu.
#[derive(Debug)]
pub struct Menu {
    pub name: Option<String>,
    pub children: Vec<Widget>,
}

/// Declarative item that opens a menu from a menu bar.
#[derive(Debug)]
pub struct MenuBarItem {
    pub name: Option<String>,
    pub label: Property<String>,
    pub enabled: Option<Property<bool>>,
    pub menu: Box<Menu>,
}

/// Declarative horizontal menu bar.
#[derive(Debug)]
pub struct MenuBar {
    pub name: Option<String>,
    pub children: Vec<MenuBarItem>,
}

/// Declarative scene description: its size and the widgets shown on its root panel.
#[derive(Debug)]
pub struct Scene {
    pub size: Vec2i,
    pub roots: Vec<ChildWidget>,
}

/// Declarative widget child with explicit parent-relative bounds.
#[derive(Debug)]
pub struct ChildWidget {
    pub bounds: Bounds2i,
    pub widget: Box<Widget>,
}

/// Declarative button around its content.
#[derive(Debug)]
pub struct Button {
    pub name: Option<String>,
    pub enabled: Option<Property<bool>>,
    pub content: Box<Widget>,
}

/// Declarative container of positioned children.
#[derive(Debug)]
pub struct Panel {
    pub name: Option<String>,
    pub children: Vec<ChildWidget>,
}

/// Declarative scroll panel around content of the given height.
#[derive(Debug)]
pub struct ScrollPanel {
    pub name: Option<String>,
    pub content_height: i32,
    pub content: Box<Widget>,
}

/// Declarative window with a title above its content.
#[derive(Debug)]
pub struct Window {
    pub name: Option<String>,
    pub title: Property<String>,
    pub content: Box<Widget>,
}

/// Declarative colour swatch; its border and inset default when not given.
#[derive(Debug)]
pub struct ColorSwatch {
    pub name: Option<String>,
    pub color: Property<Rgba8>,
    pub border: Option<Property<Rgba8>>,
    pub inset: Option<i32>,
}

/// Declarative background grid; its colours and spacing default when not given.
#[derive(Debug)]
pub struct DrawGrid {
    pub name: Option<String>,
    pub background: Option<Rgba8>,
    pub line_color: Option<Rgba8>,
    pub spacing: Option<i32>,
}

/// Declarative widget tree.
#[derive(Debug)]
pub enum Widget {
    Button(Button),
    Checkbox(Checkbox),
    Menu(Menu),
    MenuBar(MenuBar),
    MenuBarItem(MenuBarItem),
    MenuItem(MenuItem),
    Panel(Panel),
    RadioButton(RadioButton),
    ScrollPanel(ScrollPanel),
    Separator(Separator),
    Window(Window),
    ColorSwatch(ColorSwatch),
    DrawGrid(DrawGrid),
}

/// Whether a declarative widget is a separator.
pub open spec fn is_separator(w: Widget) -> bool {
    w is Separator
}

/// Which of the declarative widgets `s` are separators.
pub open spec fn separators(s: Seq<Widget>) -> Seq<bool> {
    Seq::new(s.len(), |i: int| is_separator(s[i]))
}

/// The height of the rows of a menu built from `m` fits in `i32`.
pub open spec fn rows_fit(m: Menu) -> bool {
    row_top(separators(m.children@), m.children@.len() as int) <= i32::MAX
}

/// The name a declarative widget is given, as a set of at most one name.
pub open spec fn own_name(name: Option<String>) -> Set<Seq<char>> {
    match name {
        Some(n) => set![n@],
        None => Set::empty(),
    }
}

/// The name a declarative widget itself is given, if any.
pub open spec fn name_of(w: Widget) -> Option<String> {
    match w {
        Widget::Button(b) => b.name,
        Widget::Checkbox(c) => c.name,
        Widget::Menu(m) => m.name,
        Widget::MenuBar(m) => m.name,
        Widget::MenuBarItem(i) => i.name,
        Widget::MenuItem(i) => i.name,
        Widget::Panel(p) => p.name,
        Widget::RadioButton(r) => r.name,
        Widget::ScrollPanel(p) => p.name,
        Widget::Separator(s) => s.name,
        Widget::Window(w) => w.name,
        Widget::ColorSwatch(c) => c.name,
        Widget::DrawGrid(g) => g.name,
    }
}

/// The names given anywhere in a declarative widget tree.
pub open spec fn widget_names(w: Widget) -> Set<Seq<char>>
    decreases w,
{
    match w {
        Widget::Menu(m) => own_name(m.name) + widgets_names(m.children@),
        Widget::MenuBar(m) => own_name(m.name) + items_names(m.children@),
        Widget::MenuBarItem(i) => own_name(i.name) + own_name(i.menu.name) + widgets_names(i.menu.children@),
        Widget::MenuItem(i) => own_name(i.name) + match i.submenu {
            Some(sub) => own_name(sub.name) + widgets_names(sub.children@),
            None => Set::empty(),
        },
        Widget::Button(b) => own_name(b.name) + widget_names(*b.content),
        Widget::Panel(p) => own_name(p.name) + children_names(p.children@),
        Widget::ScrollPanel(p) => own_name(p.name) + widget_names(*p.content),
        Widget::Window(w) => own_name(w.name) + widget_names(*w.content),
        Widget::Checkbox(c) => own_name(c.name),
        Widget::RadioButton(r) => own_name(r.name),
        Widget::Separator(s) => own_name(s.name),
        Widget::ColorSwatch(c) => own_name(c.name),
        Widget::DrawGrid(g) => own_name(g.name),
    }
}

/// The names given anywhere in a sequence of declarative children.
pub open spec fn children_names(s: Seq<ChildWidget>) -> Set<Seq<char>>
    decreases s,
{
    if s.len() == 0 {
        Set::empty()
    } else {
        children_names(s.subrange(0, s.len() - 1)) + widget_names(*s[s.len() - 1].widget)
    }
}

/// The names given anywhere in a sequence of declarative widgets.
pub open spec fn widgets_names(s: Seq<Widget>) -> Set<Seq<char>>
    decreases s,
{
    if s.len() == 0 {
        Set::empty()
    } else {
        widgets_names(s.subrange(0, s.len() - 1)) + widget_names(s[s.len() - 1])
    }
}

/// The names given anywhere in a sequence of declarative menu bar items.
pub open spec fn items_names(s: Seq<MenuBarItem>) -> Set<Seq<char>>
    decreases s,
{
    if s.len() == 0 {
        Set::empty()
    } else {
        items_names(s.subrange(0, s.len() - 1)) + own_name(s[s.len() - 1].name) + own_name(s[s.len() - 1].menu.name)
            + widgets_names(s[s.len() - 1].menu.children@)
    }
}

/// Number of retained widgets a declarative widget tree builds.
pub open spec fn widget_count(w: Widget) -> nat
    decreases w,
{
    match w {
        Widget::Menu(m) => 1 + widgets_count(m.children@),
        Widget::MenuBar(m) => 1 + items_count(m.children@),
        Widget::MenuBarItem(i) => 2 + widgets_count(i.menu.children@),
        Widget::MenuItem(i) => match i.submenu {
            Some(sub) => 2 + widgets_count(sub.children@),
            None => 1,
        },
        Widget::Button(b) => 1 + widget_count(*b.content),
        Widget::Panel(p) => 1 + children_count(p.children@),
        Widget::ScrollPanel(p) => 1 + widget_count(*p.content),
        Widget::Window(w) => 1 + widget_count(*w.content),
        _ => 1,
    }
}

/// Number of retained widgets a sequence of declarative children builds.
pub open spec fn children_count(s: Seq<ChildWidget>) -> nat
    decreases s,
{
    if s.len() == 0 {
        0
    } else {
        children_count(s.subrange(0, s.len() - 1)) + widget_count(*s[s.len() - 1].widget)
    }
}

/// Number of retained widgets a sequence of declarative widgets builds.
pub open spec fn widgets_count(s: Seq<Widget>) -> nat
    decreases s,
{
    if s.len() == 0 {
        0
    } else {
        widgets_count(s.subrange(0, s.len() - 1)) + widget_count(s[s.len() - 1])
    }
}

/// Number of retained widgets a sequence of declarative menu bar items builds.
pub open spec fn items_count(s: Seq<MenuBarItem>) -> nat
    decreases s,
{
    if s.len() == 0 {
        0
    } else {
        items_count(s.subrange(0, s.len() - 1)) + 2 + widgets_count(s[s.len() - 1].menu.children@)
    }
}

/// Every menu in a declarative widget tree has rows whose height fits in `i32`.
pub open spec fn widget_fits(w: Widget) -> bool
    decreases w,
{
    match w {
        Widget::Menu(m) => rows_fit(m) && widgets_fit(m.children@),
        Widget::MenuBar(m) => items_fit(m.children@),
        Widget::MenuBarItem(i) => rows_fit(*i.menu) && widgets_fit(i.menu.children@),
        Widget::MenuItem(i) => match i.submenu {
            Some(sub) => rows_fit(*sub) && widgets_fit(sub.children@),
            None => true,
        },
        Widget::Button(b) => widget_fits(*b.content),
        Widget::Panel(p) => children_fit(p.children@),
        Widget::ScrollPanel(p) => widget_fits(*p.content),
        Widget::Window(w) => widget_fits(*w.content),
        _ => true,
    }
}

/// Every menu in a sequence of declarative children fits.
pub open spec fn children_fit(s: Seq<ChildWidget>) -> bool
    decreases s,
{
    if s.len() == 0 {
        true
    } else {
        children_fit(s.subrange(0, s.len() - 1)) && widget_fits(*s[s.len() - 1].widget)
    }
}

/// Every menu in a sequence of declarative widgets fits.
pub open spec fn widgets_fit(s: Seq<Widget>) -> bool
    decreases s,
{
    if s.len() == 0 {
        true
    } else {
        widgets_fit(s.subrange(0, s.len() - 1)) && widget_fits(s[s.len() - 1])
    }
}

/// Every menu of a sequence of declarative menu bar items fits.
pub open spec fn items_fit(s: Seq<MenuBarItem>) -> bool
    decreases s,
{
    if s.len() == 0 {
        true
    } else {
        items_fit(s.subrange(0, s.len() - 1)) && rows_fit(*s[s.len() - 1].menu) && widgets_fit(s[s.len() - 1].menu.children@)
    }
}

/// Counting a prefix one widget longer adds that widget's count.
pub proof fn lemma_widgets_prefix(s: Seq<Widget>, i: int)
    requires
        0 <= i < s.len(),
    ensures
        widgets_count(s.subrange(0, i + 1)) == widgets_count(s.subrange(0, i)) + widget_count(s[i]),
        widgets_fit(s.subrange(0, i + 1)) == (widgets_fit(s.subrange(0, i)) && widget_fits(s[i])),
        widgets_names(s.subrange(0, i + 1)) == widgets_names(s.subrange(0, i)) + widget_names(s[i]),
{
    let t = s.subrange(0, i + 1);
    assert(t.subrange(0, i) =~= s.subrange(0, i));
}

/// A prefix counts no more widgets than the whole, and fits when the whole does.
pub proof fn lemma_widgets_whole(s: Seq<Widget>, i: int)
    requires
        0 <= i <= s.len(),
    ensures
        widgets_count(s.subrange(0, i)) <= widgets_count(s),
        widgets_fit(s) ==> widgets_fit(s.subrange(0, i)),
        widgets_fit(s) && i < s.len() ==> widget_fits(s[i]),
    decreases s.len() - i,
{
    if i < s.len() {
        lemma_widgets_prefix(s, i);
        lemma_widgets_whole(s, i + 1);
    } else {
        assert(s.subrange(0, i) =~= s);
    }
}

/// Counting a prefix one item longer adds that item's count.
pub proof fn lemma_items_prefix(s: Seq<MenuBarItem>, i: int)
    requires
        0 <= i < s.len(),
    ensures
        items_count(s.subrange(0, i + 1)) == items_count(s.subrange(0, i)) + 2 + widgets_count(s[i].menu.children@),
        items_fit(s.subrange(0, i + 1)) == (items_fit(s.subrange(0, i)) && rows_fit(*s[i].menu) && widgets_fit(s[i].menu.children@)),
        items_names(s.subrange(0, i + 1)) == items_names(s.subrange(0, i)) + own_name(s[i].name) + own_name(s[i].menu.name)
            + widgets_names(s[i].menu.children@),
{
    let t = s.subrange(0, i + 1);
    assert(t.subrange(0, i) =~= s.subrange(0, i));
}

/// A prefix of items counts no more widgets than the whole, and fits when the whole does.
pub proof fn lemma_items_whole(s: Seq<MenuBarItem>, i: int)
    requires
        0 <= i <= s.len(),
    ensures
        items_count(s.subrange(0, i)) <= items_count(s),
        items_fit(s) ==> items_fit(s.subrange(0, i)),
        items_fit(s) && i < s.len() ==> rows_fit(*s[i].menu) && widgets_fit(s[i].menu.children@),
    decreases s.len() - i,
{
    if i < s.len() {
        lemma_items_prefix(s, i);
        lemma_items_whole(s, i + 1);
    } else {
        assert(s.subrange(0, i) =~= s);
    }
}

/// Counting a prefix one child longer adds that child's count.
pub proof fn lemma_children_prefix(s: Seq<ChildWidget>, i: int)
    requires
        0 <= i < s.len(),
    ensures
        children_count(s.subrange(0, i + 1)) == children_count(s.subrange(0, i)) + widget_count(*s[i].widget),
        children_fit(s.subrange(0, i + 1)) == (children_fit(s.subrange(0, i)) && widget_fits(*s[i].widget)),
        children_names(s.subrange(0, i + 1)) == children_names(s.subrange(0, i)) + widget_names(*s[i].widget),
{
    let t = s.subrange(0, i + 1);
    assert(t.subrange(0, i) =~= s.subrange(0, i));
}

/// A prefix of children counts no more widgets than the whole, and fits when the whole does.
pub proof fn lemma_children_whole(s: Seq<ChildWidget>, i: int)
    requires
        0 <= i <= s.len(),
    ensures
        children_count(s.subrange(0, i)) <= children_count(s),
        children_fit(s) ==> children_fit(s.subrange(0, i)),
        children_fit(s) && i < s.len() ==> widget_fits(*s[i].widget),
    decreases s.len() - i,
{
    if i < s.len() {
        lemma_children_prefix(s, i);
        lemma_children_whole(s, i + 1);
    } else {
        assert(s.subrange(0, i) =~= s);
    }
}

/// No name is given twice in a declarative widget tree, so each name picks out one
/// widget of it.
pub open spec fn unique_names(w: Widget) -> bool
    decreases w,
{
    match w {
        Widget::Menu(m) => menu_unique(m),
        Widget::MenuBar(b) => {
            &&& forall|i: int| 0 <= i < b.children@.len() ==> item_unique(#[trigger] b.children@[i])
            &&& forall|i: int, j: int| 0 <= i < b.children@.len() && 0 <= j < b.children@.len() && i != j
                ==> (#[trigger] widget_names(Widget::MenuBarItem(b.children@[i]))).disjoint(#[trigger] widget_names(Widget::MenuBarItem(b.children@[j])))
            &&& forall|i: int| 0 <= i < b.children@.len() ==> own_name(b.name).disjoint(#[trigger] widget_names(Widget::MenuBarItem(b.children@[i])))
        },
        Widget::MenuBarItem(i) => item_unique(i),
        Widget::MenuItem(i) => match i.submenu {
            Some(sub) => menu_unique(*sub) && own_name(i.name).disjoint(widget_names(Widget::Menu(*sub))),
            None => true,
        },
        Widget::Button(b) => unique_names(*b.content) && own_name(b.name).disjoint(widget_names(*b.content)),
        Widget::ScrollPanel(p) => unique_names(*p.content) && own_name(p.name).disjoint(widget_names(*p.content)),
        Widget::Window(w) => unique_names(*w.content) && own_name(w.name).disjoint(widget_names(*w.content)),
        Widget::Panel(p) => {
            &&& forall|i: int| 0 <= i < p.children@.len() ==> unique_names(*(#[trigger] p.children@[i]).widget)
            &&& forall|i: int, j: int| 0 <= i < p.children@.len() && 0 <= j < p.children@.len() && i != j
                ==> (#[trigger] widget_names(*p.children@[i].widget)).disjoint(#[trigger] widget_names(*p.children@[j].widget))
            &&& forall|i: int| 0 <= i < p.children@.len() ==> own_name(p.name).disjoint(#[trigger] widget_names(*p.children@[i].widget))
        },
        _ => true,
    }
}

/// No name is given twice in a declarative menu and its rows.
pub open spec fn menu_unique(m: Menu) -> bool
    decreases m,
{
    &&& forall|i: int| 0 <= i < m.children@.len() ==> unique_names(#[trigger] m.children@[i])
    &&& forall|i: int, j: int| 0 <= i < m.children@.len() && 0 <= j < m.children@.len() && i != j
        ==> (#[trigger] widget_names(m.children@[i])).disjoint(#[trigger] widget_names(m.children@[j]))
    &&& forall|i: int| 0 <= i < m.children@.len() ==> own_name(m.name).disjoint(#[trigger] widget_names(m.children@[i]))
}

/// No name is given twice in a declarative menu bar item and its menu.
pub open spec fn item_unique(i: MenuBarItem) -> bool
    decreases i,
{
    menu_unique(*i.menu) && own_name(i.name).disjoint(widget_names(Widget::Menu(*i.menu)))
}

/// The names of each widget of a sequence are among the sequence's names.
pub proof fn lemma_widgets_names_has(s: Seq<Widget>, i: int)
    requires
        0 <= i < s.len(),
    ensures
        widget_names(s[i]).subset_of(widgets_names(s)),
    decreases s.len(),
{
    if i < s.len() - 1 {
        let t = s.subrange(0, s.len() - 1);
        lemma_widgets_names_has(t, i);
        assert(t[i] == s[i]);
    }
}

/// The names of each child of a sequence are among the sequence's names.
pub proof fn lemma_children_names_has(s: Seq<ChildWidget>, i: int)
    requires
        0 <= i < s.len(),
    ensures
        widget_names(*s[i].widget).subset_of(children_names(s)),
    decreases s.len(),
{
    if i < s.len() - 1 {
        let t = s.subrange(0, s.len() - 1);
        lemma_children_names_has(t, i);
        assert(t[i] == s[i]);
    }
}

/// The names of each item of a sequence are among the sequence's names.
pub proof fn lemma_items_names_has(s: Seq<MenuBarItem>, i: int)
    requires
        0 <= i < s.len(),
    ensures
        widget_names(Widget::MenuBarItem(s[i])).subset_of(items_names(s)),
    decreases s.len(),
{
    if i < s.len() - 1 {
        let t = s.subrange(0, s.len() - 1);
        lemma_items_names_has(t, i);
        assert(t[i] == s[i]);
    }
}

} // verus!
