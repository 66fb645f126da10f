//! Decorative widgets: a colour swatch and a background grid.
use vstd::prelude::*;

use crate::geom::{fits_i32, rect, Bounds2i, Vec2i};
use crate::paint::{local_bounds, shapes_view, Rgba8, Shape, ShapeView};
use crate::props::Property;
use crate::slotmap::SlotKey;

verus! {

/// Inset of a swatch's colour from its bounds, unless given.
pub const DEFAULT_SWATCH_INSET: i32 = 5;

/// Spacing between grid lines, unless given.
pub const DEFAULT_GRID_SPACING: i32 = 48;

/// The border of a swatch, unless given: a faint white.
pub open spec fn default_swatch_border() -> Rgba8 {
    Rgba8 { r: 250, g: 250, b: 252, a: 89 }
}

/// Returns the border of a swatch, unless given.
pub fn swatch_border() -> (c: Rgba8)
    ensures
        c == default_swatch_border(),
{
    Rgba8 { r: 250, g: 250, b: 252, a: 89 }
}

/// The fully transparent colour, which draws nothing.
pub open spec fn transparent() -> Rgba8 {
    Rgba8 { r: 0, g: 0, b: 0, a: 0 }
}

/// The background of a grid, unless given.
pub open spec fn default_grid_background() -> Rgba8 {
    Rgba8 { r: 27, g: 29, b: 34, a: 255 }
}

/// Returns the background of a grid, unless given.
pub fn grid_background() -> (c: Rgba8)
    ensures
        c == default_grid_background(),
{
    Rgba8 { r: 27, g: 29, b: 34, a: 255 }
}

/// The lines of a grid, unless given: a barely visible white.
pub open spec fn default_grid_line() -> Rgba8 {
    Rgba8 { r: 255, g: 255, b: 255, a: 15 }
}

/// Returns the lines of a grid, unless given.
pub fn grid_line() -> (c: Rgba8)
    ensures
        c == default_grid_line(),
{
    Rgba8 { r: 255, g: 255, b: 255, a: 15 }
}

/// A rectangle of colour with a border.
pub struct ColorSwatch {
    key: SlotKey,
    color: Property<Rgba8>,
    border: Property<Rgba8>,
    inset: i32,
}

impl ColorSwatch {
    pub closed spec fn spec_key(&self) -> SlotKey {
        self.key
    }

    pub closed spec fn spec_color(&self) -> Property<Rgba8> {
        self.color
    }

    pub closed spec fn spec_border(&self) -> Property<Rgba8> {
        self.border
    }

    pub closed spec fn spec_inset(&self) -> i32 {
        self.inset
    }

    /// Creates a swatch of `color` with `border`, both drawn `inset` pixels inside its
    /// bounds.
    pub fn new(key: SlotKey, color: Property<Rgba8>, border: Property<Rgba8>, inset: i32) -> (r: ColorSwatch)
        ensures
            r.spec_key() == key,
            r.spec_color() == color,
            r.spec_border() == border,
            r.spec_inset() == inset,
    {
        ColorSwatch { key, color, border, inset }
    }

    /// Returns the key of the swatch.
    pub fn key(&self) -> (r: SlotKey)
        ensures
            r == self.spec_key(),
    {
        self.key
    }

    /// Returns the swatch's `color` property.
    pub fn color_property(&self) -> (r: Property<Rgba8>)
        ensures
            r == self.spec_color(),
    {
        self.color
    }

    /// Returns the swatch's `border` property.
    pub fn border_property(&self) -> (r: Property<Rgba8>)
        ensures
            r == self.spec_border(),
    {
        self.border
    }

    /// Returns how far inside its bounds the swatch draws.
    pub fn inset(&self) -> (r: i32)
        ensures
            r == self.spec_inset(),
    {
        self.inset
    }

    /// Returns what the swatch draws at `size`, `color` and `border` being what the
    /// application state holds for its properties.
    pub fn draw(&self, size: Vec2i, color: Option<Rgba8>, border: Option<Rgba8>) -> (r: Vec<Shape>)
        requires
            fits_i32(size.x - self.spec_inset()),
            fits_i32(size.y - self.spec_inset()),
        ensures
            shapes_view(r@) == swatch_shapes(
                self.spec_inset() as int,
                resolved_color(self.spec_color(), color),
                resolved_color(self.spec_border(), border),
                size,
            ),
    {
        let inset = self.inset;
        let bounds = Bounds2i::from_coords(inset, inset, size.x - inset, size.y - inset);
        let fill = match self.color.copied(color) {
            Some(c) => c,
            None => Rgba8 { r: 0, g: 0, b: 0, a: 0 },
        };
        let edge = match self.border.copied(border) {
            Some(c) => c,
            None => Rgba8 { r: 0, g: 0, b: 0, a: 0 },
        };
        let mut r: Vec<Shape> = Vec::new();
        if fill.a != 0 {
            r.push(Shape::Fill { bounds, color: fill });
        }
        if edge.a != 0 {
            r.push(Shape::Edge { bounds, color: edge });
        }
        proof {
            assert(shapes_view(r@) =~= swatch_shapes(inset as int, fill, edge, size));
        }
        r
    }
}

/// A colour property's value, or [`transparent`] when the application state holds
/// none under its key.
pub open spec fn resolved_color(p: Property<Rgba8>, looked_up: Option<Rgba8>) -> Rgba8 {
    match p.resolved(looked_up) {
        Some(c) => c,
        None => transparent(),
    }
}

/// What a swatch of `size` draws `inset` pixels inside its bounds: its colour filled,
/// then its border, each only when not fully transparent.
pub open spec fn swatch_shapes(inset: int, color: Rgba8, border: Rgba8, size: Vec2i) -> Seq<ShapeView> {
    let bounds = rect(inset, inset, size.x - inset, size.y - inset);
    let fill = if color.a != 0 { seq![ShapeView::Fill { bounds, color }] } else { seq![] };
    let edge = if border.a != 0 { seq![ShapeView::Edge { bounds, color: border }] } else { seq![] };
    fill + edge
}

/// A background filled with colour and crossed by evenly spaced lines.
pub struct DrawGrid {
    key: SlotKey,
    background: Rgba8,
    line_color: Rgba8,
    spacing: i32,
}

/// The positions from `from` up to (and not including) `end`, `spacing` apart.
pub open spec fn grid_positions(from: int, spacing: int, end: int) -> Seq<int>
    decreases (if from < end { end - from } else { 0 }),
{
    if from >= end || spacing <= 0 {
        Seq::empty()
    } else {
        seq![from] + grid_positions(from + spacing, spacing, end)
    }
}

/// Vertical lines one pixel wide at `xs`, `height` high.
pub open spec fn vertical_lines(xs: Seq<int>, height: int, color: Rgba8) -> Seq<ShapeView> {
    xs.map_values(|x: int| ShapeView::Edge { bounds: rect(x, 0, x + 1, height), color })
}

/// Horizontal lines one pixel high at `ys`, `width` wide.
pub open spec fn horizontal_lines(ys: Seq<int>, width: int, color: Rgba8) -> Seq<ShapeView> {
    ys.map_values(|y: int| ShapeView::Edge { bounds: rect(0, y, width, y + 1), color })
}

/// Lines at `ps`: vertical ones `cross` high, or horizontal ones `cross` wide.
pub open spec fn grid_lines(vertical: bool, ps: Seq<int>, cross: int, color: Rgba8) -> Seq<ShapeView> {
    if vertical { vertical_lines(ps, cross, color) } else { horizontal_lines(ps, cross, color) }
}

/// What a grid of `size` draws: its background, then vertical lines from the left
/// side and horizontal lines from the top, `spacing` apart (at least one pixel).
pub open spec fn grid_shapes(background: Rgba8, line: Rgba8, spacing: int, size: Vec2i) -> Seq<ShapeView> {
    let s = if spacing >= 1 { spacing } else { 1 };
    seq![ShapeView::Fill { bounds: local_bounds(size), color: background }]
        + vertical_lines(grid_positions(0, s, size.x as int), size.y as int, line)
        + horizontal_lines(grid_positions(0, s, size.y as int), size.x as int, line)
}

/// Pushes a line at each of the positions from `0` below `end`, `spacing` apart: a
/// vertical one `cross` high, or a horizontal one `cross` wide.
fn push_grid_lines(r: &mut Vec<Shape>, vertical: bool, spacing: i32, end: i32, cross: i32, color: Rgba8)
    requires
        spacing >= 1,
    ensures
        shapes_view(final(r)@) == shapes_view(old(r)@) + grid_lines(vertical, grid_positions(0, spacing as int, end as int), cross as int, color),
{
    let ghost start = shapes_view(r@);
    let mut p: i64 = 0;
    while p < end as i64
        invariant
            spacing >= 1,
            0 <= p,
            p < end ==> p <= i32::MAX,
            start + grid_lines(vertical, grid_positions(0, spacing as int, end as int), cross as int, color)
                == shapes_view(r@) + grid_lines(vertical, grid_positions(p as int, spacing as int, end as int), cross as int, color),
        decreases (if p < end { end - p } else { 0 }),
    {
        let q = p as i32;
        let ghost old_r = r@;
        let ghost rest = grid_positions(p as int + spacing, spacing as int, end as int);
        assert(grid_positions(p as int, spacing as int, end as int) == seq![p as int] + rest);
        let line = if vertical {
            Shape::Edge { bounds: Bounds2i::from_coords(q, 0, q + 1, cross), color }
        } else {
            Shape::Edge { bounds: Bounds2i::from_coords(0, q, cross, q + 1), color }
        };
        r.push(line);
        proof {
            let here = grid_lines(vertical, seq![p as int], cross as int, color);
            assert(here =~= seq![line@]);
            assert(grid_lines(vertical, seq![p as int] + rest, cross as int, color) =~= here + grid_lines(vertical, rest, cross as int, color));
            assert(shapes_view(r@) =~= shapes_view(old_r) + here);
        }
        p = p + spacing as i64;
    }
    proof {
        assert(grid_lines(vertical, grid_positions(p as int, spacing as int, end as int), cross as int, color) =~= Seq::<ShapeView>::empty());
    }
}

impl DrawGrid {
    pub closed spec fn spec_key(&self) -> SlotKey {
        self.key
    }

    pub closed spec fn spec_background(&self) -> Rgba8 {
        self.background
    }

    pub closed spec fn spec_line_color(&self) -> Rgba8 {
        self.line_color
    }

    pub closed spec fn spec_spacing(&self) -> i32 {
        self.spacing
    }

    /// Creates a grid of `line_color` lines `spacing` apart over `background`.
    pub fn new(key: SlotKey, background: Rgba8, line_color: Rgba8, spacing: i32) -> (r: DrawGrid)
        ensures
            r.spec_key() == key,
            r.spec_background() == background,
            r.spec_line_color() == line_color,
            r.spec_spacing() == spacing,
    {
        DrawGrid { key, background, line_color, spacing }
    }

    /// Returns the key of the grid.
    pub fn key(&self) -> (r: SlotKey)
        ensures
            r == self.spec_key(),
    {
        self.key
    }

    /// Returns the spacing of the grid's lines.
    pub fn spacing(&self) -> (r: i32)
        ensures
            r == self.spec_spacing(),
    {
        self.spacing
    }

    /// Returns what the grid draws at `size`.
    pub fn draw(&self, size: Vec2i) -> (r: Vec<Shape>)
        ensures
            shapes_view(r@) == grid_shapes(self.spec_background(), self.spec_line_color(), self.spec_spacing() as int, size),
    {
        let s = if self.spacing >= 1 { self.spacing } else { 1 };
        let mut r: Vec<Shape> = Vec::new();
        r.push(Shape::Fill { bounds: Bounds2i::vec(size), color: self.background });
        push_grid_lines(&mut r, true, s, size.x, size.y, self.line_color);
        push_grid_lines(&mut r, false, s, size.y, size.x, self.line_color);
        proof {
            assert(shapes_view(r@) =~= grid_shapes(self.background, self.line_color, self.spacing as int, size));
        }
        r
    }
}

} // verus!
