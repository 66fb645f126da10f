//! What building a declarative widget tree leaves in a scene: each declared widget
//! becomes a retained widget of the same kind, linked to the widgets built from its
//! children as the declaration nests them, with its name recorded under its key.
use vstd::prelude::*;

use crate::dto;
use crate::geom::{rect, Bounds2i};
use crate::gui::{Scene, Widget};
use crate::slotmap::SlotKey;
use crate::widgets::{row_top, MIN_HEADER_HEIGHT};

verus! {

/// Whether `k` is `r` or one of the widgets built below it from `w` in `s`: the
/// widgets built from its children, theirs, and the menus its items open.
pub open spec fn in_built(s: Scene, w: dto::Widget, r: SlotKey, k: SlotKey) -> bool
    decreases w,
{
    k == r || match w {
        dto::Widget::Menu(m) => in_menu(s, m, r, k),
        dto::Widget::MenuBarItem(i) => in_item(s, i, r, k),
        dto::Widget::MenuBar(b) => exists|i: int|
            0 <= i < b.children@.len() && i < s.children_of(r).len() && in_item(s, b.children@[i], #[trigger] s.children_of(r)[i].key, k),
        dto::Widget::MenuItem(i) => match i.submenu {
            Some(sub) => s.widget(r) matches Some(Widget::MenuItem(x)) && x.spec_submenu() matches Some(sk) && in_menu(s, *sub, sk, k),
            None => false,
        },
        dto::Widget::Button(b) => s.children_of(r).len() > 0 && in_built(s, *b.content, s.children_of(r)[0].key, k),
        dto::Widget::ScrollPanel(p) => s.children_of(r).len() > 0 && in_built(s, *p.content, s.children_of(r)[0].key, k),
        dto::Widget::Window(w) => s.children_of(r).len() > 0 && in_built(s, *w.content, s.children_of(r)[0].key, k),
        dto::Widget::Panel(p) => exists|i: int|
            0 <= i < p.children@.len() && i < s.children_of(r).len() && in_built(s, *p.children@[i].widget, #[trigger] s.children_of(r)[i].key, k),
        _ => false,
    }
}

/// Whether `k` is `r` or one of the widgets built below it from the menu `m`.
pub open spec fn in_menu(s: Scene, m: dto::Menu, r: SlotKey, k: SlotKey) -> bool
    decreases m,
{
    k == r || exists|i: int|
        0 <= i < m.children@.len() && i < s.children_of(r).len() && in_built(s, m.children@[i], #[trigger] s.children_of(r)[i].key, k)
}

/// Whether `k` is `r` or one of the widgets built from the menu that the menu bar
/// item `i` opens.
pub open spec fn in_item(s: Scene, i: dto::MenuBarItem, r: SlotKey, k: SlotKey) -> bool
    decreases i,
{
    k == r || (s.widget(r) matches Some(Widget::MenuBarItem(x)) && in_menu(s, *i.menu, x.spec_menu(), k))
}

/// When `named`, the name a declared widget carries is recorded under `r`.
pub open spec fn named_at(ctx: Map<Seq<char>, SlotKey>, name: Option<String>, r: SlotKey, named: bool) -> bool {
    named ==> (name matches Some(n) ==> ctx.contains_key(n@) && ctx[n@] == r)
}

/// The `i`-th child of `r` was built from `w` at the declared `bounds`: its parent
/// is `r`, `r` is not among the widgets built from `w`, and those are as `w` declares.
pub open spec fn child_built(s: Scene, ctx: Map<Seq<char>, SlotKey>, w: dto::Widget, r: SlotKey, i: int, bounds: Bounds2i, named: bool) -> bool
    decreases w, 2int,
{
    let c = s.children_of(r)[i];
    &&& c.bounds == bounds
    &&& s.tree_view().spec_parent(c.key) == Some(r)
    &&& !in_built(s, w, c.key, r)
    &&& built_as(s, ctx, w, c.key, named)
}

/// The retained widget under `r` in `s` was built from the declared `w`: it has
/// `w`'s kind and the key `r`, its children (or the menu it opens) were built from
/// `w`'s in order, at the declared bounds, with `r` as parent (an opened menu has
/// none), no widget is built twice, and, when `named`, each name is recorded in `ctx`
/// under the key of the widget that carries it.
pub open spec fn built_as(s: Scene, ctx: Map<Seq<char>, SlotKey>, w: dto::Widget, r: SlotKey, named: bool) -> bool
    decreases w, 1int,
{
    match w {
        dto::Widget::Menu(m) => menu_built(s, ctx, m, r, named),
        dto::Widget::MenuBarItem(i) => item_built(s, ctx, i, r, named),
        dto::Widget::MenuBar(b) => {
            &&& s.widget(r) matches Some(x) && x.spec_key() == r && x is MenuBar
            &&& named_at(ctx, b.name, r, named)
            &&& s.children_of(r).len() == b.children@.len()
            &&& forall|i: int| 0 <= i < b.children@.len() ==> {
                let c = #[trigger] s.children_of(r)[i];
                &&& c.bounds == rect(0, 0, 0, 0)
                &&& s.tree_view().spec_parent(c.key) == Some(r)
                &&& !in_item(s, b.children@[i], c.key, r)
                &&& item_built(s, ctx, b.children@[i], c.key, named)
            }
            &&& forall|i: int, j: int, k: SlotKey| 0 <= i < b.children@.len() && 0 <= j < b.children@.len() && i != j
                && #[trigger] in_item(s, b.children@[i], s.children_of(r)[i].key, k)
                ==> !#[trigger] in_item(s, b.children@[j], s.children_of(r)[j].key, k)
        },
        dto::Widget::MenuItem(i) => {
            &&& s.widget(r) matches Some(x) && x.spec_key() == r && x is MenuItem
            &&& named_at(ctx, i.name, r, named)
            &&& s.children_of(r).len() == 0
            &&& s.widget(r) matches Some(Widget::MenuItem(x)) && match i.submenu {
                Some(sub) => x.spec_submenu() matches Some(sk) && {
                    &&& s.tree_view().spec_parent(sk) is None
                    &&& !in_menu(s, *sub, sk, r)
                    &&& menu_built(s, ctx, *sub, sk, named)
                },
                None => x.spec_submenu() is None,
            }
        },
        dto::Widget::Button(b) => {
            &&& s.widget(r) matches Some(x) && x.spec_key() == r && x is Button
            &&& named_at(ctx, b.name, r, named)
            &&& s.children_of(r).len() == 1
            &&& child_built(s, ctx, *b.content, r, 0, rect(0, 0, 0, 0), named)
        },
        dto::Widget::ScrollPanel(p) => {
            &&& s.widget(r) matches Some(x) && x.spec_key() == r && x is ScrollPanel
            &&& named_at(ctx, p.name, r, named)
            &&& s.children_of(r).len() == 1
            &&& child_built(s, ctx, *p.content, r, 0, rect(0, 0, 0, 0), named)
        },
        dto::Widget::Window(w) => {
            &&& s.widget(r) matches Some(x) && x.spec_key() == r && x is Window
            &&& named_at(ctx, w.name, r, named)
            &&& s.children_of(r).len() == 1
            &&& child_built(s, ctx, *w.content, r, 0, rect(0, MIN_HEADER_HEIGHT as int, 0, 0), named)
        },
        dto::Widget::Panel(p) => {
            &&& s.widget(r) matches Some(x) && x.spec_key() == r && x is Panel
            &&& named_at(ctx, p.name, r, named)
            &&& s.children_of(r).len() == p.children@.len()
            &&& forall|i: int| 0 <= i < p.children@.len() ==> child_built(s, ctx, *p.children@[i].widget, r, i, #[trigger] p.children@[i].bounds, named)
            &&& forall|i: int, j: int, k: SlotKey| 0 <= i < p.children@.len() && 0 <= j < p.children@.len() && i != j
                && #[trigger] in_built(s, *p.children@[i].widget, s.children_of(r)[i].key, k)
                ==> !#[trigger] in_built(s, *p.children@[j].widget, s.children_of(r)[j].key, k)
        },
        dto::Widget::Checkbox(c) => {
            &&& s.widget(r) matches Some(x) && x.spec_key() == r && x is Checkbox
            &&& named_at(ctx, c.name, r, named)
            &&& s.children_of(r).len() == 0
        },
        dto::Widget::RadioButton(b) => {
            &&& s.widget(r) matches Some(x) && x.spec_key() == r && x is RadioButton
            &&& named_at(ctx, b.name, r, named)
            &&& s.children_of(r).len() == 0
        },
        dto::Widget::Separator(p) => {
            &&& s.widget(r) matches Some(x) && x.spec_key() == r && x is Separator
            &&& named_at(ctx, p.name, r, named)
            &&& s.children_of(r).len() == 0
        },
        dto::Widget::ColorSwatch(c) => {
            &&& s.widget(r) matches Some(x) && x.spec_key() == r && x is ColorSwatch
            &&& named_at(ctx, c.name, r, named)
            &&& s.children_of(r).len() == 0
        },
        dto::Widget::DrawGrid(g) => {
            &&& s.widget(r) matches Some(x) && x.spec_key() == r && x is DrawGrid
            &&& named_at(ctx, g.name, r, named)
            &&& s.children_of(r).len() == 0
        },
    }
}

/// The menu under `r` was built from the declared `m`: a menu with key `r`, as tall
/// as its rows, whose rows were built from `m`'s in order (see [`built_as`]).
pub open spec fn menu_built(s: Scene, ctx: Map<Seq<char>, SlotKey>, m: dto::Menu, r: SlotKey, named: bool) -> bool
    decreases m, 0int,
{
    &&& s.widget(r) matches Some(Widget::Menu(x)) && x.spec_key() == r
        && x.spec_height() == row_top(dto::separators(m.children@), m.children@.len() as int)
    &&& named_at(ctx, m.name, r, named)
    &&& s.children_of(r).len() == m.children@.len()
    &&& forall|i: int| 0 <= i < m.children@.len() ==> child_built(s, ctx, #[trigger] m.children@[i], r, i, rect(0, 0, 0, 0), named)
    &&& forall|i: int, j: int, k: SlotKey| 0 <= i < m.children@.len() && 0 <= j < m.children@.len() && i != j
        && #[trigger] in_built(s, m.children@[i], s.children_of(r)[i].key, k)
        ==> !#[trigger] in_built(s, m.children@[j], s.children_of(r)[j].key, k)
}

/// The menu bar item under `r` was built from the declared `i`: it has the key `r`
/// and opens a menu without a parent built from `i`'s (see [`menu_built`]).
pub open spec fn item_built(s: Scene, ctx: Map<Seq<char>, SlotKey>, i: dto::MenuBarItem, r: SlotKey, named: bool) -> bool
    decreases i, 0int,
{
    &&& s.widget(r) matches Some(Widget::MenuBarItem(x)) && x.spec_key() == r && {
        &&& s.tree_view().spec_parent(x.spec_menu()) is None
        &&& !in_menu(s, *i.menu, x.spec_menu(), r)
        &&& menu_built(s, ctx, *i.menu, x.spec_menu(), named)
    }
    &&& named_at(ctx, i.name, r, named)
    &&& s.children_of(r).len() == 0
}

/// `c2` keeps each of `names` that `c1` records, under the same key.
pub open spec fn names_agree(c1: Map<Seq<char>, SlotKey>, c2: Map<Seq<char>, SlotKey>, names: Set<Seq<char>>) -> bool {
    forall|n: Seq<char>| #[trigger] names.contains(n) && c1.contains_key(n) ==> c2.contains_key(n) && c2[n] == c1[n]
}

/// Agreeing on a set of names agrees on each part of it.
pub proof fn lemma_names_agree_sub(c1: Map<Seq<char>, SlotKey>, c2: Map<Seq<char>, SlotKey>, big: Set<Seq<char>>, small: Set<Seq<char>>)
    requires
        names_agree(c1, c2, big),
        small.subset_of(big),
    ensures
        names_agree(c1, c2, small),
{
    assert forall|n: Seq<char>| #[trigger] small.contains(n) && c1.contains_key(n) implies c2.contains_key(n) && c2[n] == c1[n] by {
        assert(big.contains(n));
    }
}

/// A name recorded under `r` stays so where the names agree.
proof fn lemma_named_kept(c1: Map<Seq<char>, SlotKey>, c2: Map<Seq<char>, SlotKey>, name: Option<String>, names: Set<Seq<char>>, r: SlotKey, n1: bool, n2: bool)
    requires
        named_at(c1, name, r, n1),
        n2 ==> n1,
        n2 ==> names_agree(c1, c2, names),
        dto::own_name(name).subset_of(names),
    ensures
        named_at(c2, name, r, n2),
{
    if n2 {
        if let Some(n) = name {
            assert(dto::own_name(name).contains(n@));
            assert(names.contains(n@));
        }
    }
}

/// A widget built as the `i`-th child of `r` stays so in a scene that keeps the
/// widgets built from it, their parents, and (when `n2`) the names they carry.
pub proof fn lemma_child_kept(s1: Scene, s2: Scene, c1: Map<Seq<char>, SlotKey>, c2: Map<Seq<char>, SlotKey>, w: dto::Widget, r: SlotKey, i: int, b: Bounds2i, n1: bool, n2: bool)
    requires
        0 <= i < s1.children_of(r).len(),
        child_built(s1, c1, w, r, i, b, n1),
        s2.children_of(r) == s1.children_of(r),
        forall|k: SlotKey| #[trigger] in_built(s1, w, s1.children_of(r)[i].key, k) ==> s2.widget(k) == s1.widget(k),
        forall|k: SlotKey| #[trigger] in_built(s1, w, s1.children_of(r)[i].key, k) ==> s2.tree_view().spec_parent(k) == s1.tree_view().spec_parent(k),
        n2 ==> n1,
        n2 ==> names_agree(c1, c2, dto::widget_names(w)),
    ensures
        child_built(s2, c2, w, r, i, b, n2),
        forall|k: SlotKey| #[trigger] in_built(s2, w, s1.children_of(r)[i].key, k) == in_built(s1, w, s1.children_of(r)[i].key, k),
    decreases w, 2int,
{
    let c = s1.children_of(r)[i];
    assert(in_built(s1, w, c.key, c.key));
    lemma_built_kept(s1, s2, c1, c2, w, c.key, n1, n2);
}

/// The widgets built from `w` under `r` stay so in a scene that keeps them, the
/// parents of those below `r`, and (when `n2`) the names they carry.
pub proof fn lemma_built_kept(s1: Scene, s2: Scene, c1: Map<Seq<char>, SlotKey>, c2: Map<Seq<char>, SlotKey>, w: dto::Widget, r: SlotKey, n1: bool, n2: bool)
    requires
        built_as(s1, c1, w, r, n1),
        forall|k: SlotKey| #[trigger] in_built(s1, w, r, k) ==> s2.widget(k) == s1.widget(k),
        forall|k: SlotKey| #[trigger] in_built(s1, w, r, k) && k != r ==> s2.tree_view().spec_parent(k) == s1.tree_view().spec_parent(k),
        n2 ==> n1,
        n2 ==> names_agree(c1, c2, dto::widget_names(w)),
    ensures
        built_as(s2, c2, w, r, n2),
        forall|k: SlotKey| #[trigger] in_built(s2, w, r, k) == in_built(s1, w, r, k),
    decreases w, 1int,
{
    assert(in_built(s1, w, r, r));
    assert(s2.widget(r) == s1.widget(r));
    assert(s2.children_of(r) == s1.children_of(r));
    if !(w is Menu || w is MenuBarItem) {
        lemma_named_kept(c1, c2, dto::name_of(w), dto::widget_names(w), r, n1, n2);
    }
    match w {
        dto::Widget::Menu(m) => {
            assert forall|k: SlotKey| #[trigger] in_menu(s1, m, r, k) implies in_built(s1, w, r, k) by {}
            lemma_menu_kept(s1, s2, c1, c2, m, r, n1, n2);
            assert forall|k: SlotKey| #[trigger] in_built(s2, w, r, k) == in_built(s1, w, r, k) by {
                assert(in_menu(s2, m, r, k) == in_menu(s1, m, r, k));
            }
        },
        dto::Widget::MenuBarItem(it) => {
            assert forall|k: SlotKey| #[trigger] in_item(s1, it, r, k) implies in_built(s1, w, r, k) by {}
            lemma_item_kept(s1, s2, c1, c2, it, r, n1, n2);
            assert forall|k: SlotKey| #[trigger] in_built(s2, w, r, k) == in_built(s1, w, r, k) by {
                assert(in_item(s2, it, r, k) == in_item(s1, it, r, k));
            }
        },
        dto::Widget::MenuBar(bar) => {
            let kids = s1.children_of(r);
            let all = bar.children@;
            assert forall|i: int| 0 <= i < all.len() implies {
                &&& item_built(s2, c2, all[i], kids[i].key, n2)
                &&& forall|k: SlotKey| #[trigger] in_item(s2, all[i], kids[i].key, k) == in_item(s1, all[i], kids[i].key, k)
            } by {
                let c = kids[i];
                assert(c == #[trigger] s1.children_of(r)[i]);
                assert forall|k: SlotKey| #[trigger] in_item(s1, all[i], c.key, k) implies in_built(s1, w, r, k) by {
                    assert(in_item(s1, bar.children@[i], s1.children_of(r)[i].key, k));
                }
                assert forall|k: SlotKey| #[trigger] in_item(s1, all[i], c.key, k) && k != c.key implies s2.tree_view().spec_parent(k) == s1.tree_view().spec_parent(k) by {
                    assert(in_built(s1, w, r, k));
                    if k == r {
                        assert(in_item(s1, bar.children@[i], s1.children_of(r)[i].key, r));
                    }
                }
                if n2 {
                    dto::lemma_items_names_has(all, i);
                    lemma_names_agree_sub(c1, c2, dto::widget_names(w), dto::widget_names(dto::Widget::MenuBarItem(all[i])));
                }
                lemma_item_kept(s1, s2, c1, c2, all[i], c.key, n1, n2);
            }
            assert forall|i: int| 0 <= i < all.len() implies {
                let c = #[trigger] s2.children_of(r)[i];
                &&& c.bounds == rect(0, 0, 0, 0)
                &&& s2.tree_view().spec_parent(c.key) == Some(r)
                &&& !in_item(s2, bar.children@[i], c.key, r)
                &&& item_built(s2, c2, bar.children@[i], c.key, n2)
            } by {
                let c = kids[i];
                assert(c == s1.children_of(r)[i]);
                assert(in_item(s1, all[i], c.key, c.key));
                assert(in_built(s1, w, r, c.key));
                assert(c.key != r);
            }
            assert forall|i: int, j: int, k: SlotKey| 0 <= i < bar.children@.len() && 0 <= j < bar.children@.len() && i != j
                && #[trigger] in_item(s2, bar.children@[i], s2.children_of(r)[i].key, k)
                implies !#[trigger] in_item(s2, bar.children@[j], s2.children_of(r)[j].key, k) by {
                assert(item_built(s2, c2, all[i], kids[i].key, n2));
                assert(item_built(s2, c2, all[j], kids[j].key, n2));
                assert(in_item(s1, all[i], kids[i].key, k));
                if in_item(s2, all[j], kids[j].key, k) {
                    assert(in_item(s1, all[j], kids[j].key, k));
                }
            }
            assert forall|k: SlotKey| #[trigger] in_built(s2, w, r, k) == in_built(s1, w, r, k) by {
                if k != r {
                    if in_built(s1, w, r, k) {
                        let i = choose|i: int| 0 <= i < bar.children@.len() && i < s1.children_of(r).len() && in_item(s1, bar.children@[i], #[trigger] s1.children_of(r)[i].key, k);
                        assert(item_built(s2, c2, all[i], kids[i].key, n2));
                        assert(in_item(s2, all[i], kids[i].key, k));
                        assert(in_item(s2, bar.children@[i], s2.children_of(r)[i].key, k));
                    }
                    if in_built(s2, w, r, k) {
                        let i = choose|i: int| 0 <= i < bar.children@.len() && i < s2.children_of(r).len() && in_item(s2, bar.children@[i], #[trigger] s2.children_of(r)[i].key, k);
                        assert(item_built(s2, c2, all[i], kids[i].key, n2));
                        assert(in_item(s1, all[i], kids[i].key, k));
                        assert(in_item(s1, bar.children@[i], s1.children_of(r)[i].key, k));
                    }
                }
            }
        },
        dto::Widget::MenuItem(it) => {
            match it.submenu {
                Some(sub) => {
                    let x = s1.widget(r)->Some_0->MenuItem_0;
                    let sk = x.spec_submenu()->Some_0;
                    assert forall|k: SlotKey| #[trigger] in_menu(s1, *sub, sk, k) implies in_built(s1, w, r, k) by {}
                    assert(in_menu(s1, *sub, sk, sk));
                    assert(sk != r);
                    if n2 {
                        lemma_names_agree_sub(c1, c2, dto::widget_names(w), dto::widget_names(dto::Widget::Menu(*sub)));
                    }
                    lemma_menu_kept(s1, s2, c1, c2, *sub, sk, n1, n2);
                    assert forall|k: SlotKey| #[trigger] in_built(s2, w, r, k) == in_built(s1, w, r, k) by {
                        if k != r {
                            assert(in_menu(s2, *sub, sk, k) == in_menu(s1, *sub, sk, k));
                        }
                    }
                },
                None => {},
            }
        },
        dto::Widget::Button(bt) => {
            lemma_one_child_kept(s1, s2, c1, c2, w, *bt.content, r, rect(0, 0, 0, 0), n1, n2);
        },
        dto::Widget::ScrollPanel(p) => {
            lemma_one_child_kept(s1, s2, c1, c2, w, *p.content, r, rect(0, 0, 0, 0), n1, n2);
        },
        dto::Widget::Window(win) => {
            lemma_one_child_kept(s1, s2, c1, c2, w, *win.content, r, rect(0, MIN_HEADER_HEIGHT as int, 0, 0), n1, n2);
        },
        dto::Widget::Panel(p) => {
            assert(s1.children_of(r).len() == p.children@.len());
            assert(named_at(c1, p.name, r, n1));
            let kids = s1.children_of(r);
            let all = p.children@;
            assert forall|i: int| 0 <= i < all.len() implies {
                &&& #[trigger] child_built(s2, c2, *all[i].widget, r, i, all[i].bounds, n2)
                &&& forall|k: SlotKey| #[trigger] in_built(s2, *all[i].widget, kids[i].key, k) == in_built(s1, *all[i].widget, kids[i].key, k)
            } by {
                assert(child_built(s1, c1, *p.children@[i].widget, r, i, p.children@[i].bounds, n1));
                let c = kids[i];
                assert forall|k: SlotKey| #[trigger] in_built(s1, *all[i].widget, c.key, k) implies in_built(s1, w, r, k) by {
                    assert(in_built(s1, *p.children@[i].widget, s1.children_of(r)[i].key, k));
                }
                assert forall|k: SlotKey| #[trigger] in_built(s1, *all[i].widget, c.key, k) implies s2.tree_view().spec_parent(k) == s1.tree_view().spec_parent(k) by {
                    assert(in_built(s1, w, r, k));
                }
                if n2 {
                    dto::lemma_children_names_has(all, i);
                    lemma_names_agree_sub(c1, c2, dto::widget_names(w), dto::widget_names(*all[i].widget));
                }
                lemma_child_kept(s1, s2, c1, c2, *all[i].widget, r, i, all[i].bounds, n1, n2);
            }
            assert forall|i: int| 0 <= i < p.children@.len() implies child_built(s2, c2, *p.children@[i].widget, r, i, #[trigger] p.children@[i].bounds, n2) by {
                assert(child_built(s2, c2, *all[i].widget, r, i, all[i].bounds, n2));
            }
            assert forall|i: int, j: int, k: SlotKey| 0 <= i < p.children@.len() && 0 <= j < p.children@.len() && i != j
                && #[trigger] in_built(s2, *p.children@[i].widget, s2.children_of(r)[i].key, k)
                implies !#[trigger] in_built(s2, *p.children@[j].widget, s2.children_of(r)[j].key, k) by {
                assert(child_built(s2, c2, *all[i].widget, r, i, all[i].bounds, n2));
                assert(child_built(s2, c2, *all[j].widget, r, j, all[j].bounds, n2));
                assert(in_built(s1, *all[i].widget, kids[i].key, k));
                if in_built(s2, *all[j].widget, kids[j].key, k) {
                    assert(in_built(s1, *all[j].widget, kids[j].key, k));
                }
            }
            assert forall|k: SlotKey| #[trigger] in_built(s2, w, r, k) == in_built(s1, w, r, k) by {
                if k != r {
                    if in_built(s1, w, r, k) {
                        let i = choose|i: int| 0 <= i < p.children@.len() && i < s1.children_of(r).len() && in_built(s1, *p.children@[i].widget, #[trigger] s1.children_of(r)[i].key, k);
                        assert(child_built(s2, c2, *all[i].widget, r, i, all[i].bounds, n2));
                        assert(in_built(s2, *all[i].widget, kids[i].key, k));
                        assert(in_built(s2, *p.children@[i].widget, s2.children_of(r)[i].key, k));
                    }
                    if in_built(s2, w, r, k) {
                        let i = choose|i: int| 0 <= i < p.children@.len() && i < s2.children_of(r).len() && in_built(s2, *p.children@[i].widget, #[trigger] s2.children_of(r)[i].key, k);
                        assert(child_built(s2, c2, *all[i].widget, r, i, all[i].bounds, n2));
                        assert(in_built(s1, *all[i].widget, kids[i].key, k));
                        assert(in_built(s1, *p.children@[i].widget, s1.children_of(r)[i].key, k));
                    }
                }
            }
        },
        _ => {},
    }
}

/// [`lemma_built_kept`] for a widget with one child built from `content`.
proof fn lemma_one_child_kept(s1: Scene, s2: Scene, c1: Map<Seq<char>, SlotKey>, c2: Map<Seq<char>, SlotKey>, w: dto::Widget, content: dto::Widget, r: SlotKey, b: Bounds2i, n1: bool, n2: bool)
    requires
        w is Button || w is ScrollPanel || w is Window,
        content == match w {
            dto::Widget::Button(x) => *x.content,
            dto::Widget::ScrollPanel(x) => *x.content,
            dto::Widget::Window(x) => *x.content,
            _ => content,
        },
        s1.children_of(r).len() == 1,
        child_built(s1, c1, content, r, 0, b, n1),
        s2.children_of(r) == s1.children_of(r),
        forall|k: SlotKey| #[trigger] in_built(s1, w, r, k) ==> s2.widget(k) == s1.widget(k),
        forall|k: SlotKey| #[trigger] in_built(s1, w, r, k) && k != r ==> s2.tree_view().spec_parent(k) == s1.tree_view().spec_parent(k),
        n2 ==> n1,
        n2 ==> names_agree(c1, c2, dto::widget_names(w)),
    ensures
        child_built(s2, c2, content, r, 0, b, n2),
        forall|k: SlotKey| #[trigger] in_built(s2, w, r, k) == in_built(s1, w, r, k),
    decreases w, 0int,
{
    let c = s1.children_of(r)[0];
    assert forall|k: SlotKey| #[trigger] in_built(s1, content, c.key, k) implies in_built(s1, w, r, k) by {}
    assert forall|k: SlotKey| #[trigger] in_built(s1, content, c.key, k) implies s2.tree_view().spec_parent(k) == s1.tree_view().spec_parent(k) by {
        assert(in_built(s1, w, r, k));
    }
    if n2 {
        lemma_names_agree_sub(c1, c2, dto::widget_names(w), dto::widget_names(content));
    }
    lemma_child_kept(s1, s2, c1, c2, content, r, 0, b, n1, n2);
    assert forall|k: SlotKey| #[trigger] in_built(s2, w, r, k) == in_built(s1, w, r, k) by {
        if k != r {
            assert(in_built(s2, content, c.key, k) == in_built(s1, content, c.key, k));
        }
    }
}

/// [`lemma_built_kept`] for a menu.
pub proof fn lemma_menu_kept(s1: Scene, s2: Scene, c1: Map<Seq<char>, SlotKey>, c2: Map<Seq<char>, SlotKey>, m: dto::Menu, r: SlotKey, n1: bool, n2: bool)
    requires
        menu_built(s1, c1, m, r, n1),
        forall|k: SlotKey| #[trigger] in_menu(s1, m, r, k) ==> s2.widget(k) == s1.widget(k),
        forall|k: SlotKey| #[trigger] in_menu(s1, m, r, k) && k != r ==> s2.tree_view().spec_parent(k) == s1.tree_view().spec_parent(k),
        n2 ==> n1,
        n2 ==> names_agree(c1, c2, dto::widget_names(dto::Widget::Menu(m))),
    ensures
        menu_built(s2, c2, m, r, n2),
        forall|k: SlotKey| #[trigger] in_menu(s2, m, r, k) == in_menu(s1, m, r, k),
    decreases m, 0int,
{
    assert(in_menu(s1, m, r, r));
    assert(s2.widget(r) == s1.widget(r));
    assert(s2.children_of(r) == s1.children_of(r));
    lemma_named_kept(c1, c2, m.name, dto::widget_names(dto::Widget::Menu(m)), r, n1, n2);
    let kids = s1.children_of(r);
    let all = m.children@;
    assert forall|i: int| 0 <= i < all.len() implies {
        &&& #[trigger] child_built(s2, c2, all[i], r, i, rect(0, 0, 0, 0), n2)
        &&& forall|k: SlotKey| #[trigger] in_built(s2, all[i], kids[i].key, k) == in_built(s1, all[i], kids[i].key, k)
    } by {
        assert(child_built(s1, c1, m.children@[i], r, i, rect(0, 0, 0, 0), n1));
        let c = kids[i];
        assert forall|k: SlotKey| #[trigger] in_built(s1, all[i], c.key, k) implies in_menu(s1, m, r, k) by {
            assert(in_built(s1, m.children@[i], s1.children_of(r)[i].key, k));
        }
        assert forall|k: SlotKey| #[trigger] in_built(s1, all[i], c.key, k) implies s2.tree_view().spec_parent(k) == s1.tree_view().spec_parent(k) by {
            assert(in_menu(s1, m, r, k));
        }
        if n2 {
            dto::lemma_widgets_names_has(all, i);
            lemma_names_agree_sub(c1, c2, dto::widget_names(dto::Widget::Menu(m)), dto::widget_names(all[i]));
        }
        lemma_child_kept(s1, s2, c1, c2, all[i], r, i, rect(0, 0, 0, 0), n1, n2);
    }
    assert forall|i: int| 0 <= i < m.children@.len() implies child_built(s2, c2, #[trigger] m.children@[i], r, i, rect(0, 0, 0, 0), n2) by {
        assert(child_built(s2, c2, all[i], r, i, rect(0, 0, 0, 0), n2));
    }
    assert forall|i: int, j: int, k: SlotKey| 0 <= i < m.children@.len() && 0 <= j < m.children@.len() && i != j
        && #[trigger] in_built(s2, m.children@[i], s2.children_of(r)[i].key, k)
        implies !#[trigger] in_built(s2, m.children@[j], s2.children_of(r)[j].key, k) by {
        assert(child_built(s2, c2, all[i], r, i, rect(0, 0, 0, 0), n2));
        assert(child_built(s2, c2, all[j], r, j, rect(0, 0, 0, 0), n2));
        assert(in_built(s1, all[i], kids[i].key, k));
        if in_built(s2, all[j], kids[j].key, k) {
            assert(in_built(s1, all[j], kids[j].key, k));
        }
    }
    assert forall|k: SlotKey| #[trigger] in_menu(s2, m, r, k) == in_menu(s1, m, r, k) by {
        if k != r {
            if in_menu(s1, m, r, k) {
                let i = choose|i: int| 0 <= i < m.children@.len() && i < s1.children_of(r).len() && in_built(s1, m.children@[i], #[trigger] s1.children_of(r)[i].key, k);
                assert(child_built(s2, c2, all[i], r, i, rect(0, 0, 0, 0), n2));
                assert(in_built(s2, all[i], kids[i].key, k));
                assert(in_built(s2, m.children@[i], s2.children_of(r)[i].key, k));
            }
            if in_menu(s2, m, r, k) {
                let i = choose|i: int| 0 <= i < m.children@.len() && i < s2.children_of(r).len() && in_built(s2, m.children@[i], #[trigger] s2.children_of(r)[i].key, k);
                assert(child_built(s2, c2, all[i], r, i, rect(0, 0, 0, 0), n2));
                assert(in_built(s1, all[i], kids[i].key, k));
                assert(in_built(s1, m.children@[i], s1.children_of(r)[i].key, k));
            }
        }
    }
}

/// [`lemma_built_kept`] for a menu bar item.
pub proof fn lemma_item_kept(s1: Scene, s2: Scene, c1: Map<Seq<char>, SlotKey>, c2: Map<Seq<char>, SlotKey>, it: dto::MenuBarItem, r: SlotKey, n1: bool, n2: bool)
    requires
        item_built(s1, c1, it, r, n1),
        forall|k: SlotKey| #[trigger] in_item(s1, it, r, k) ==> s2.widget(k) == s1.widget(k),
        forall|k: SlotKey| #[trigger] in_item(s1, it, r, k) && k != r ==> s2.tree_view().spec_parent(k) == s1.tree_view().spec_parent(k),
        n2 ==> n1,
        n2 ==> names_agree(c1, c2, dto::widget_names(dto::Widget::MenuBarItem(it))),
    ensures
        item_built(s2, c2, it, r, n2),
        forall|k: SlotKey| #[trigger] in_item(s2, it, r, k) == in_item(s1, it, r, k),
    decreases it, 0int,
{
    assert(in_item(s1, it, r, r));
    assert(s2.widget(r) == s1.widget(r));
    lemma_named_kept(c1, c2, it.name, dto::widget_names(dto::Widget::MenuBarItem(it)), r, n1, n2);
    let x = s1.widget(r)->Some_0->MenuBarItem_0;
    let mk = x.spec_menu();
    assert forall|k: SlotKey| #[trigger] in_menu(s1, *it.menu, mk, k) implies in_item(s1, it, r, k) by {}
    assert(in_menu(s1, *it.menu, mk, mk));
    assert(in_item(s1, it, r, mk));
    assert(mk != r);
    if n2 {
        assert(dto::widget_names(dto::Widget::Menu(*it.menu)).subset_of(dto::widget_names(dto::Widget::MenuBarItem(it))));
        lemma_names_agree_sub(c1, c2, dto::widget_names(dto::Widget::MenuBarItem(it)), dto::widget_names(dto::Widget::Menu(*it.menu)));
    }
    lemma_menu_kept(s1, s2, c1, c2, *it.menu, mk, n1, n2);
    assert forall|k: SlotKey| #[trigger] in_item(s2, it, r, k) == in_item(s1, it, r, k) by {
        if k != r {
            assert(in_menu(s2, *it.menu, mk, k) == in_menu(s1, *it.menu, mk, k));
        }
    }
}

/// `s` holds under `r` the widgets built from `w` (see [`built_as`]), each of them
/// new since `old`; the names are recorded in `ctx` as [`built_as`] says whenever no
/// name is given twice in `w`.
pub open spec fn built_from(s: Scene, old: Scene, ctx: Map<Seq<char>, SlotKey>, w: dto::Widget, r: SlotKey) -> bool {
    &&& built_as(s, ctx, w, r, dto::unique_names(w))
    &&& forall|k: SlotKey| #[trigger] in_built(s, w, r, k) ==> !old.contains(k) && s.contains(k)
}

/// Recording `name` under some key keeps every other name.
pub proof fn lemma_insert_agrees(ctx: Map<Seq<char>, SlotKey>, name: Option<String>, key: SlotKey, names: Set<Seq<char>>)
    requires
        dto::own_name(name).disjoint(names),
    ensures
        names_agree(ctx, match name {
            Some(n) => ctx.insert(n@, key),
            None => ctx,
        }, names),
{
    if let Some(n) = name {
        assert(dto::own_name(name).contains(n@));
    }
}

/// The widgets that the children of a declared panel hold, in order.
pub open spec fn child_widgets(s: Seq<dto::ChildWidget>) -> Seq<dto::Widget> {
    Seq::new(s.len(), |j: int| *s[j].widget)
}

/// The declared items of a menu bar, each as a declared widget.
pub open spec fn item_widgets(s: Seq<dto::MenuBarItem>) -> Seq<dto::Widget> {
    Seq::new(s.len(), |j: int| dto::Widget::MenuBarItem(s[j]))
}

} // verus!
