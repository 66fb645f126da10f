//! What the widgets draw: each widget turns its state into a list of shapes in its
//! own coordinates (the origin at its top-left corner), which a renderer turns into
//! draw calls.
use vstd::prelude::*;

use crate::geom::{fits_i32, rect, Bounds2i, Vec2i};
use crate::props::OwnedProp;
use crate::slider::half_toward_zero;
use crate::widgets::{resolved_or, Button, ButtonState, Checkbox, Menu, MenuBar, MenuBarItem, MenuItem, RadioButton, Separator, Window};

verus! {

/// A colour with 8-bit red, green, blue and alpha channels.
#[derive(Copy, Clone, Debug, PartialEq, Eq, Structural)]
pub struct Rgba8 {
    pub r: u8,
    pub g: u8,
    pub b: u8,
    pub a: u8,
}

/// The opaque colour with the given channels.
pub open spec fn spec_rgb(r: u8, g: u8, b: u8) -> Rgba8 {
    Rgba8 { r, g, b, a: 255 }
}

/// Returns the opaque colour with the given channels.
pub fn rgb(r: u8, g: u8, b: u8) -> (c: Rgba8)
    ensures
        c == spec_rgb(r, g, b),
{
    Rgba8 { r, g, b, a: 255 }
}

/// Where a text box places its text.
#[derive(Copy, Clone, Debug, PartialEq, Eq, Structural)]
pub enum TextAlign {
    /// Vertically centred, against the left side.
    MiddleLeft,
    /// Centred both ways.
    MiddleCenter,
}

/// The font size and line height of a text box.
#[derive(Copy, Clone, Debug, PartialEq, Eq, Structural)]
pub enum TextStyle {
    /// Widget text: 15 pixels high on lines of 18.75.
    Body,
    /// A window title: 18 pixels high on lines of 22.
    Title,
}

/// A shape a widget draws.
#[derive(Clone, Debug, PartialEq, Eq)]
pub enum Shape {
    /// A filled rectangle.
    Fill { bounds: Bounds2i, color: Rgba8 },
    /// The one-pixel outline of a rectangle.
    Edge { bounds: Bounds2i, color: Rgba8 },
    /// Text laid out in a box, drawn in `color` with an `outline` around the glyphs.
    Text { bounds: Bounds2i, align: TextAlign, style: TextStyle, color: Rgba8, outline: Rgba8, text: String },
}

/// A shape with its text as characters.
pub enum ShapeView {
    Fill { bounds: Bounds2i, color: Rgba8 },
    Edge { bounds: Bounds2i, color: Rgba8 },
    Text { bounds: Bounds2i, align: TextAlign, style: TextStyle, color: Rgba8, outline: Rgba8, text: Seq<char> },
}

impl View for Shape {
    type V = ShapeView;

    open spec fn view(&self) -> ShapeView {
        match self {
            Shape::Fill { bounds, color } => ShapeView::Fill { bounds: *bounds, color: *color },
            Shape::Edge { bounds, color } => ShapeView::Edge { bounds: *bounds, color: *color },
            Shape::Text { bounds, align, style, color, outline, text } => ShapeView::Text {
                bounds: *bounds,
                align: *align,
                style: *style,
                color: *color,
                outline: *outline,
                text: text@,
            },
        }
    }
}

/// The shapes `s` with their texts as characters.
pub open spec fn shapes_view(s: Seq<Shape>) -> Seq<ShapeView> {
    s.map_values(|x: Shape| x@)
}

/// The rectangle a widget of `size` covers in its own coordinates.
pub open spec fn local_bounds(size: Vec2i) -> Bounds2i {
    Bounds2i { mins: Vec2i { x: 0, y: 0 }, maxs: size }
}

/// The text a label shows: the text it holds, or else what the application state
/// holds under its key (`looked_up`), or `placeholder` when that holds nothing.
pub open spec fn shown_text(label: OwnedProp, looked_up: Option<&str>, placeholder: Seq<char>) -> Seq<char> {
    match label {
        OwnedProp::Key(_) => match looked_up {
            Some(t) => t@,
            None => placeholder,
        },
        OwnedProp::Static(s) => s@,
        OwnedProp::Owned(s) => s@,
    }
}

/// Returns the text a label shows (see [`shown_text`]).
pub fn label_text(label: &OwnedProp, looked_up: Option<&str>, placeholder: &str) -> (r: String)
    ensures
        r@ == shown_text(*label, looked_up, placeholder@),
{
    match label.text() {
        Some(t) => t.to_owned(),
        None => match looked_up {
            Some(t) => t.to_owned(),
            None => placeholder.to_owned(),
        },
    }
}

/// The colour of widget text, by whether the widget is enabled.
pub open spec fn text_color(enabled: bool) -> Rgba8 {
    if enabled { spec_rgb(230, 232, 236) } else { spec_rgb(153, 158, 170) }
}

fn text_color_of(enabled: bool) -> (c: Rgba8)
    ensures
        c == text_color(enabled),
{
    if enabled { rgb(230, 232, 236) } else { rgb(153, 158, 170) }
}

/// The translucent outline around menu and radio button text.
pub open spec fn soft_outline() -> Rgba8 {
    Rgba8 { r: 18, g: 20, b: 24, a: 219 }
}

fn soft_outline_color() -> (c: Rgba8)
    ensures
        c == soft_outline(),
{
    Rgba8 { r: 18, g: 20, b: 24, a: 219 }
}

/// The fill behind a hovered menu entry.
pub open spec fn hover_fill() -> Rgba8 {
    spec_rgb(70, 76, 88)
}

/// The colour of menu edges and separator lines.
pub open spec fn line_color() -> Rgba8 {
    spec_rgb(83, 88, 101)
}

/// The fill of a button, by whether it is enabled and its state.
pub open spec fn button_fill(enabled: bool, state: ButtonState) -> Rgba8 {
    if !enabled {
        spec_rgb(44, 47, 56)
    } else if state == ButtonState::Pressed {
        spec_rgb(64, 91, 124)
    } else if state == ButtonState::Hover {
        spec_rgb(70, 76, 88)
    } else {
        spec_rgb(54, 58, 68)
    }
}

/// The edge of a button, by whether it is enabled and its state.
pub open spec fn button_edge(enabled: bool, state: ButtonState) -> Rgba8 {
    if !enabled {
        spec_rgb(74, 79, 92)
    } else if state == ButtonState::Hover || state == ButtonState::Pressed {
        spec_rgb(128, 159, 198)
    } else {
        spec_rgb(88, 94, 108)
    }
}

/// What a button of `size` draws: its fill, then its edge.
pub open spec fn button_shapes(enabled: bool, state: ButtonState, size: Vec2i) -> Seq<ShapeView> {
    seq![
        ShapeView::Fill { bounds: local_bounds(size), color: button_fill(enabled, state) },
        ShapeView::Edge { bounds: local_bounds(size), color: button_edge(enabled, state) },
    ]
}

impl Button {
    /// Returns what the button draws at `size`, `enabled` being what the application
    /// state holds for its `enabled` property.
    pub fn draw(&self, size: Vec2i, enabled: Option<bool>) -> (r: Vec<Shape>)
        ensures
            shapes_view(r@) == button_shapes(resolved_or(self.spec_enabled(), enabled, true), self.spec_state(), size),
    {
        let enabled = self.is_enabled(enabled);
        let state = self.state();
        let fill = if !enabled {
            rgb(44, 47, 56)
        } else if state == ButtonState::Pressed {
            rgb(64, 91, 124)
        } else if state == ButtonState::Hover {
            rgb(70, 76, 88)
        } else {
            rgb(54, 58, 68)
        };
        let edge = if !enabled {
            rgb(74, 79, 92)
        } else if state == ButtonState::Hover || state == ButtonState::Pressed {
            rgb(128, 159, 198)
        } else {
            rgb(88, 94, 108)
        };
        let bounds = Bounds2i::vec(size);
        let mut r: Vec<Shape> = Vec::new();
        r.push(Shape::Fill { bounds, color: fill });
        r.push(Shape::Edge { bounds, color: edge });
        proof {
            assert(shapes_view(r@) =~= button_shapes(enabled, state, size));
        }
        r
    }
}

/// What a separator of `size` draws: a line one pixel high across its middle, inset
/// from both sides.
pub open spec fn separator_shapes(size: Vec2i) -> Seq<ShapeView> {
    let y = half_toward_zero(size.y as int);
    seq![ShapeView::Fill { bounds: rect(8, y, size.x - 8, y + 1), color: line_color() }]
}

impl Separator {
    /// Returns what the separator draws at `size`.
    pub fn draw(&self, size: Vec2i) -> (r: Vec<Shape>)
        requires
            fits_i32(size.x - 8),
        ensures
            shapes_view(r@) == separator_shapes(size),
    {
        let y = size.y / 2;
        let mut r: Vec<Shape> = Vec::new();
        r.push(Shape::Fill { bounds: Bounds2i::from_coords(8, y, size.x - 8, y + 1), color: rgb(83, 88, 101) });
        proof {
            assert(shapes_view(r@) =~= separator_shapes(size));
        }
        r
    }
}

/// What a menu of `size` draws: its background, then its edge.
pub open spec fn menu_shapes(size: Vec2i) -> Seq<ShapeView> {
    seq![
        ShapeView::Fill { bounds: local_bounds(size), color: spec_rgb(37, 40, 48) },
        ShapeView::Edge { bounds: local_bounds(size), color: line_color() },
    ]
}

impl Menu {
    /// Returns what the menu draws at `size`.
    pub fn draw(&self, size: Vec2i) -> (r: Vec<Shape>)
        ensures
            shapes_view(r@) == menu_shapes(size),
    {
        let bounds = Bounds2i::vec(size);
        let mut r: Vec<Shape> = Vec::new();
        r.push(Shape::Fill { bounds, color: rgb(37, 40, 48) });
        r.push(Shape::Edge { bounds, color: rgb(83, 88, 101) });
        proof {
            assert(shapes_view(r@) =~= menu_shapes(size));
        }
        r
    }
}

/// What a menu bar of `size` draws: its background, then a line along its bottom.
pub open spec fn menu_bar_shapes(size: Vec2i) -> Seq<ShapeView> {
    seq![
        ShapeView::Fill { bounds: local_bounds(size), color: spec_rgb(43, 46, 55) },
        ShapeView::Fill { bounds: rect(0, size.y - 1, size.x as int, size.y as int), color: line_color() },
    ]
}

impl MenuBar {
    /// Returns what the menu bar draws at `size`.
    pub fn draw(&self, size: Vec2i) -> (r: Vec<Shape>)
        requires
            fits_i32(size.y - 1),
        ensures
            shapes_view(r@) == menu_bar_shapes(size),
    {
        let mut r: Vec<Shape> = Vec::new();
        r.push(Shape::Fill { bounds: Bounds2i::vec(size), color: rgb(43, 46, 55) });
        r.push(Shape::Fill { bounds: Bounds2i::from_coords(0, size.y - 1, size.x, size.y), color: rgb(83, 88, 101) });
        proof {
            assert(shapes_view(r@) =~= menu_bar_shapes(size));
        }
        r
    }
}

/// The fill behind a hovered menu entry of `size`, when it is enabled.
pub open spec fn hover_shapes(enabled: bool, hover: bool, size: Vec2i) -> Seq<ShapeView> {
    if enabled && hover { seq![ShapeView::Fill { bounds: local_bounds(size), color: hover_fill() }] } else { seq![] }
}

/// What a menu bar item of `size` draws: the hover fill, then its label inset from
/// both sides.
pub open spec fn menu_bar_item_shapes(enabled: bool, hover: bool, size: Vec2i, text: Seq<char>) -> Seq<ShapeView> {
    hover_shapes(enabled, hover, size).push(ShapeView::Text {
        bounds: rect(12, 0, size.x - 12, size.y as int),
        align: TextAlign::MiddleLeft,
        style: TextStyle::Body,
        color: text_color(enabled),
        outline: soft_outline(),
        text,
    })
}

impl MenuBarItem {
    /// Returns what the item draws at `size`, `enabled` and `label` being what the
    /// application state holds for its properties.
    pub fn draw(&self, size: Vec2i, enabled: Option<bool>, label: Option<&str>) -> (r: Vec<Shape>)
        requires
            fits_i32(size.x - 12),
        ensures
            shapes_view(r@) == menu_bar_item_shapes(
                resolved_or(self.spec_enabled(), enabled, true),
                self.spec_hover(),
                size,
                shown_text(self.spec_label(), label, "<menu>"@),
            ),
    {
        let enabled = self.is_enabled(enabled);
        let mut r: Vec<Shape> = Vec::new();
        if enabled && self.hover() {
            r.push(Shape::Fill { bounds: Bounds2i::vec(size), color: rgb(70, 76, 88) });
        }
        let text = label_text(self.label(), label, "<menu>");
        r.push(Shape::Text {
            bounds: Bounds2i::from_coords(12, 0, size.x - 12, size.y),
            align: TextAlign::MiddleLeft,
            style: TextStyle::Body,
            color: text_color_of(enabled),
            outline: soft_outline_color(),
            text,
        });
        proof {
            assert(shapes_view(r@) =~= menu_bar_item_shapes(enabled, self.spec_hover(), size, shown_text(self.spec_label(), label, "<menu>"@)));
        }
        r
    }
}

/// What a menu item of `size` draws: the hover fill, its label inset from both sides
/// (and from the submenu arrow), then the arrow when it opens a submenu.
pub open spec fn menu_item_shapes(enabled: bool, hover: bool, submenu: bool, size: Vec2i, text: Seq<char>) -> Seq<ShapeView> {
    let label = ShapeView::Text {
        bounds: rect(12, 0, size.x - 12 - (if submenu { 24int } else { 0int }), size.y as int),
        align: TextAlign::MiddleLeft,
        style: TextStyle::Body,
        color: text_color(enabled),
        outline: soft_outline(),
        text,
    };
    let shapes = hover_shapes(enabled, hover, size).push(label);
    if submenu {
        shapes.push(ShapeView::Text {
            bounds: rect(size.x - 24, 0, size.x - 12, size.y as int),
            align: TextAlign::MiddleCenter,
            style: TextStyle::Body,
            color: text_color(enabled),
            outline: soft_outline(),
            text: seq!['>'],
        })
    } else {
        shapes
    }
}

impl MenuItem {
    /// Returns what the item draws at `size`, `enabled` and `label` being what the
    /// application state holds for its properties.
    pub fn draw(&self, size: Vec2i, enabled: Option<bool>, label: Option<&str>) -> (r: Vec<Shape>)
        requires
            fits_i32(size.x - 36),
        ensures
            shapes_view(r@) == menu_item_shapes(
                resolved_or(self.spec_enabled(), enabled, true),
                self.spec_hover(),
                self.spec_submenu() is Some,
                size,
                shown_text(self.spec_label(), label, "<menu item>"@),
            ),
    {
        let enabled = self.is_enabled(enabled);
        let submenu = self.submenu().is_some();
        let mut r: Vec<Shape> = Vec::new();
        if enabled && self.hover() {
            r.push(Shape::Fill { bounds: Bounds2i::vec(size), color: rgb(70, 76, 88) });
        }
        let right = size.x - 12 - if submenu { 24 } else { 0 };
        let text = label_text(self.label(), label, "<menu item>");
        r.push(Shape::Text {
            bounds: Bounds2i::from_coords(12, 0, right, size.y),
            align: TextAlign::MiddleLeft,
            style: TextStyle::Body,
            color: text_color_of(enabled),
            outline: soft_outline_color(),
            text,
        });
        if submenu {
            let arrow = ">".to_owned();
            proof {
                reveal_strlit(">");
                assert(arrow@ =~= seq!['>']);
            }
            r.push(Shape::Text {
                bounds: Bounds2i::from_coords(size.x - 24, 0, size.x - 12, size.y),
                align: TextAlign::MiddleCenter,
                style: TextStyle::Body,
                color: text_color_of(enabled),
                outline: soft_outline_color(),
                text: arrow,
            });
        }
        proof {
            assert(shapes_view(r@) =~= menu_item_shapes(enabled, self.spec_hover(), submenu, size, shown_text(self.spec_label(), label, "<menu item>"@)));
        }
        r
    }
}

/// The ring around a checkbox or radio button, by whether it is enabled, checked
/// and hovered.
pub open spec fn ring_color(enabled: bool, checked: bool, hover: bool) -> Rgba8 {
    if !enabled {
        spec_rgb(74, 79, 92)
    } else if checked {
        spec_rgb(92, 150, 218)
    } else if hover {
        spec_rgb(128, 159, 198)
    } else {
        spec_rgb(93, 99, 113)
    }
}

fn ring_color_of(enabled: bool, checked: bool, hover: bool) -> (c: Rgba8)
    ensures
        c == ring_color(enabled, checked, hover),
{
    if !enabled {
        rgb(74, 79, 92)
    } else if checked {
        rgb(92, 150, 218)
    } else if hover {
        rgb(128, 159, 198)
    } else {
        rgb(93, 99, 113)
    }
}

/// The mark inside a checked checkbox or radio button, by whether it is enabled.
pub open spec fn mark_color(enabled: bool) -> Rgba8 {
    if enabled { spec_rgb(92, 150, 218) } else { spec_rgb(90, 103, 121) }
}

fn mark_color_of(enabled: bool) -> (c: Rgba8)
    ensures
        c == mark_color(enabled),
{
    if enabled { rgb(92, 150, 218) } else { rgb(90, 103, 121) }
}

/// What a checkable widget of `size` draws: a square of side `side` at its left,
/// centred vertically, with its ring; when checked, the mark inset by `inset`; then
/// its label from `label_x` to the right side.
pub open spec fn checkable_shapes(side: int, inset: int, label_x: int, ring: Rgba8, outline: Rgba8, enabled: bool, checked: bool, size: Vec2i, text: Seq<char>) -> Seq<ShapeView> {
    let top = half_toward_zero(size.y - side);
    let ring_shape = ShapeView::Edge { bounds: rect(0, top, side, top + side), color: ring };
    let mark = if checked {
        seq![ShapeView::Fill { bounds: rect(inset, top + inset, side - inset, top + side - inset), color: mark_color(enabled) }]
    } else {
        seq![]
    };
    (seq![ring_shape] + mark).push(ShapeView::Text {
        bounds: rect(label_x, 0, size.x as int, size.y as int),
        align: TextAlign::MiddleLeft,
        style: TextStyle::Body,
        color: text_color(enabled),
        outline,
        text,
    })
}

fn checkable_draw(side: i32, inset: i32, label_x: i32, ring: Rgba8, outline: Rgba8, enabled: bool, checked: bool, size: Vec2i, text: String) -> (r: Vec<Shape>)
    requires
        0 < inset < side <= 24,
        fits_i32(size.y - side),
    ensures
        shapes_view(r@) == checkable_shapes(side as int, inset as int, label_x as int, ring, outline, enabled, checked, size, text@),
{
    let top = (size.y - side) / 2;
    let mut r: Vec<Shape> = Vec::new();
    r.push(Shape::Edge { bounds: Bounds2i::from_coords(0, top, side, top + side), color: ring });
    if checked {
        r.push(Shape::Fill { bounds: Bounds2i::from_coords(inset, top + inset, side - inset, top + side - inset), color: mark_color_of(enabled) });
    }
    let ghost t = text@;
    r.push(Shape::Text {
        bounds: Bounds2i::from_coords(label_x, 0, size.x, size.y),
        align: TextAlign::MiddleLeft,
        style: TextStyle::Body,
        color: text_color_of(enabled),
        outline,
        text,
    });
    proof {
        assert(shapes_view(r@) =~= checkable_shapes(side as int, inset as int, label_x as int, ring, outline, enabled, checked, size, t));
    }
    r
}

impl Checkbox {
    /// Returns what the checkbox draws at `size`, `enabled`, `checked` and `label`
    /// being what the application state holds for its properties.
    pub fn draw(&self, size: Vec2i, enabled: Option<bool>, checked: Option<bool>, label: Option<&str>) -> (r: Vec<Shape>)
        requires
            fits_i32(size.y - 24),
        ensures
            ({
                let on = resolved_or(self.spec_enabled(), enabled, true);
                shapes_view(r@) == checkable_shapes(
                    24,
                    5,
                    34,
                    ring_color(on, false, self.spec_hover()),
                    spec_rgb(18, 20, 24),
                    on,
                    resolved_or(self.spec_checked(), checked, false),
                    size,
                    shown_text(self.spec_label(), label, "<checkbox>"@),
                )
            }),
    {
        let on = self.is_enabled(enabled);
        let ticked = self.checked_property().copied_or(checked, false);
        let text = label_text(self.label(), label, "<checkbox>");
        checkable_draw(24, 5, 34, ring_color_of(on, false, self.hover()), rgb(18, 20, 24), on, ticked, size, text)
    }
}

impl RadioButton {
    /// Returns what the radio button draws at `size`, `enabled`, `selected` and
    /// `label` being what the application state holds for its properties.
    pub fn draw(&self, size: Vec2i, enabled: Option<bool>, selected: Option<usize>, label: Option<&str>) -> (r: Vec<Shape>)
        requires
            fits_i32(size.y - 22),
        ensures
            ({
                let on = resolved_or(self.spec_enabled(), enabled, true);
                let checked = self.spec_property().resolved(selected) == Some(self.spec_index());
                shapes_view(r@) == checkable_shapes(
                    22,
                    6,
                    32,
                    ring_color(on, checked, self.spec_hover()),
                    soft_outline(),
                    on,
                    checked,
                    size,
                    shown_text(self.spec_label(), label, "<radio>"@),
                )
            }),
    {
        let on = self.is_enabled(enabled);
        let checked = self.checked(selected);
        let text = label_text(self.label(), label, "<radio>");
        checkable_draw(22, 6, 32, ring_color_of(on, checked, self.hover()), soft_outline_color(), on, checked, size, text)
    }
}

/// What a window of `size` with a header `header_height` high draws: its
/// background, the header, its edge, then the title inside the header's padding.
pub open spec fn window_shapes(header_height: int, size: Vec2i, title: Seq<char>) -> Seq<ShapeView> {
    seq![
        ShapeView::Fill { bounds: local_bounds(size), color: spec_rgb(37, 40, 48) },
        ShapeView::Fill { bounds: rect(0, 0, size.x as int, header_height), color: spec_rgb(48, 52, 62) },
        ShapeView::Edge { bounds: local_bounds(size), color: line_color() },
        ShapeView::Text {
            bounds: rect(16, 10, size.x - 16, header_height - 10),
            align: TextAlign::MiddleLeft,
            style: TextStyle::Title,
            color: spec_rgb(244, 245, 247),
            outline: soft_outline(),
            text: title,
        },
    ]
}

impl Window {
    /// Returns what the window draws at `size` around its content, `title` being what
    /// the application state holds for its title.
    pub fn draw(&self, size: Vec2i, title: Option<&str>) -> (r: Vec<Shape>)
        requires
            fits_i32(size.x - 16),
            fits_i32(self.spec_header_height() - 10),
        ensures
            shapes_view(r@) == window_shapes(self.spec_header_height() as int, size, shown_text(self.spec_title(), title, "<window>"@)),
    {
        let hh = self.header_height();
        let text = label_text(self.title(), title, "<window>");
        let ghost t = text@;
        let mut r: Vec<Shape> = Vec::new();
        r.push(Shape::Fill { bounds: Bounds2i::vec(size), color: rgb(37, 40, 48) });
        r.push(Shape::Fill { bounds: Bounds2i::from_coords(0, 0, size.x, hh), color: rgb(48, 52, 62) });
        r.push(Shape::Edge { bounds: Bounds2i::vec(size), color: rgb(83, 88, 101) });
        r.push(Shape::Text {
            bounds: Bounds2i::from_coords(16, 10, size.x - 16, hh - 10),
            align: TextAlign::MiddleLeft,
            style: TextStyle::Title,
            color: rgb(244, 245, 247),
            outline: soft_outline_color(),
            text,
        });
        proof {
            assert(shapes_view(r@) =~= window_shapes(hh as int, size, t));
        }
        r
    }
}

/// A checkbox or radio button draws its mark exactly when it is checked: always its
/// ring first and its label last, with one filled mark between them when checked and
/// nothing else when not.
pub proof fn law_mark_only_when_checked(side: int, inset: int, label_x: int, ring: Rgba8, outline: Rgba8, enabled: bool, checked: bool, size: Vec2i, text: Seq<char>)
    ensures
        ({
            let s = checkable_shapes(side, inset, label_x, ring, outline, enabled, checked, size, text);
            &&& s.len() == if checked { 3int } else { 2int }
            &&& s[0] is Edge
            &&& s[s.len() - 1] is Text
            &&& (exists|i: int| 0 <= i < s.len() && #[trigger] s[i] is Fill) == checked
            &&& checked ==> (s[1] matches ShapeView::Fill { color, .. } && color == mark_color(enabled))
        }),
{
    let s = checkable_shapes(side, inset, label_x, ring, outline, enabled, checked, size, text);
    if checked {
        assert(s[1] is Fill);
    } else {
        assert forall|i: int| 0 <= i < s.len() implies !(#[trigger] s[i] is Fill) by {
            if i == 0 {
                assert(s[0] is Edge);
            } else {
                assert(s[1] is Text);
            }
        }
    }
}

} // verus!
