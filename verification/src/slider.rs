//! Rules of the horizontal slider and of the progress bar that do not involve their
//! fractional values: where their tracks lie, where the pointer puts the knob, and how
//! the slider reacts to the mouse.
use vstd::prelude::*;

use crate::event::MouseEventKind;
use crate::geom::{fits_i32, rect, spec_clamp, spec_max, Bounds2i, Vec2i};
use crate::props::Property;
use crate::scene::SceneTree;
use crate::slotmap::SlotKey;
use crate::widgets::{next_hover, resolved_or};
use crate::paint::{local_bounds, rgb, shapes_view, spec_rgb, Rgba8, Shape, ShapeView};

verus! {

/// Height of a slider's track.
pub const SLIDER_TRACK_HEIGHT: i32 = 6;

/// Width of a slider's knob.
pub const KNOB_WIDTH: i32 = 10;

/// Height of a slider's knob.
pub const KNOB_HEIGHT: i32 = 20;

/// Height of a progress bar's track.
pub const PROGRESS_TRACK_HEIGHT: i32 = 10;

/// Half of `x`, rounded toward zero as integer division does.
pub open spec fn half_toward_zero(x: int) -> int {
    if x >= 0 { x / 2 } else { -((-x) / 2) }
}

/// A track of `height` across `bounds`: as wide as the bounds (at least one pixel),
/// centred vertically.
pub open spec fn spec_track_rect(bounds: Bounds2i, height: int) -> Bounds2i {
    let left = bounds.mins.x as int;
    let top = bounds.mins.y + half_toward_zero(bounds.spec_height() - height);
    let width = spec_max(bounds.spec_width(), 1);
    rect(left, top, left + width, top + height)
}

/// The track computes within `i32`.
pub open spec fn track_fits(bounds: Bounds2i, height: int) -> bool {
    &&& bounds.size_fits()
    &&& fits_i32(bounds.spec_height() - height)
    &&& fits_i32(bounds.mins.y + half_toward_zero(bounds.spec_height() - height))
    &&& fits_i32(bounds.mins.y + half_toward_zero(bounds.spec_height() - height) + height)
    &&& fits_i32(bounds.mins.x + spec_max(bounds.spec_width(), 1))
}

fn track_rect(bounds: Bounds2i, height: i32) -> (r: Bounds2i)
    requires
        0 < height <= 20,
        track_fits(bounds, height as int),
    ensures
        r == spec_track_rect(bounds, height as int),
{
    let left = bounds.mins.x;
    let top = bounds.mins.y + (bounds.height() - height) / 2;
    let w = bounds.width();
    let width = if w >= 1 { w } else { 1 };
    Bounds2i::from_coords(left, top, left + width, top + height)
}

/// Returns the track of a slider lying at `bounds`.
pub fn slider_track_rect(bounds: Bounds2i) -> (r: Bounds2i)
    requires
        track_fits(bounds, SLIDER_TRACK_HEIGHT as int),
    ensures
        r == spec_track_rect(bounds, SLIDER_TRACK_HEIGHT as int),
{
    track_rect(bounds, SLIDER_TRACK_HEIGHT)
}

/// Returns the track of a progress bar lying at `bounds`.
pub fn progress_track_rect(bounds: Bounds2i) -> (r: Bounds2i)
    requires
        track_fits(bounds, PROGRESS_TRACK_HEIGHT as int),
    ensures
        r == spec_track_rect(bounds, PROGRESS_TRACK_HEIGHT as int),
{
    track_rect(bounds, PROGRESS_TRACK_HEIGHT)
}

/// Where the pointer puts a slider's knob: `offset` pixels along a `travel` pixels
/// long way; the slider's value is `offset / travel`, or zero where `travel` is not
/// positive (the track leaves the knob no room).
#[derive(Copy, Clone, Debug, PartialEq, Eq, Structural)]
pub struct KnobPosition {
    pub offset: i32,
    pub travel: i32,
}

/// The knob position for the pointer at `point` over a slider lying at `bounds`: the
/// knob is centred on the pointer and kept on the track.
pub open spec fn spec_knob_position(point: Vec2i, bounds: Bounds2i) -> KnobPosition {
    let travel = spec_max(bounds.spec_width(), 1) - KNOB_WIDTH;
    if travel <= 0 {
        KnobPosition { offset: 0, travel: travel as i32 }
    } else {
        KnobPosition {
            offset: spec_clamp(point.x - bounds.mins.x - KNOB_WIDTH / 2, 0, travel) as i32,
            travel: travel as i32,
        }
    }
}

/// The knob position computes within `i32`.
pub open spec fn knob_fits(point: Vec2i, bounds: Bounds2i) -> bool {
    &&& bounds.size_fits()
    &&& fits_i32(point.x - bounds.mins.x)
    &&& fits_i32(point.x - bounds.mins.x - KNOB_WIDTH / 2)
}

/// Returns where the pointer at `point` puts the knob of a slider lying at `bounds`.
pub fn knob_position(point: Vec2i, bounds: Bounds2i) -> (r: KnobPosition)
    requires
        knob_fits(point, bounds),
    ensures
        r == spec_knob_position(point, bounds),
        r.travel > 0 ==> 0 <= r.offset <= r.travel,
{
    let w = bounds.width();
    let width = if w >= 1 { w } else { 1 };
    let travel = width - KNOB_WIDTH;
    if travel <= 0 {
        return KnobPosition { offset: 0, travel };
    }
    let x = point.x - bounds.mins.x - KNOB_WIDTH / 2;
    let offset = if x < 0 { 0 } else if x > travel { travel } else { x };
    KnobPosition { offset, travel }
}

/// Event emitted when the pointer moves a slider's knob.
#[derive(Copy, Clone, Debug, PartialEq, Eq, Structural)]
pub struct SliderMoved {
    /// Key of the slider.
    pub key: SlotKey,
    /// Where the pointer puts the knob.
    pub knob: KnobPosition,
}

/// The pointer interaction of a horizontal slider.
pub struct SliderControl {
    key: SlotKey,
    enabled: Property<bool>,
    dragging: bool,
    hover: bool,
}

impl SliderControl {
    pub closed spec fn spec_key(&self) -> SlotKey {
        self.key
    }

    pub closed spec fn spec_enabled(&self) -> Property<bool> {
        self.enabled
    }

    pub closed spec fn spec_dragging(&self) -> bool {
        self.dragging
    }

    pub closed spec fn spec_hover(&self) -> bool {
        self.hover
    }

    /// Creates the control of a slider that is neither hovered nor dragged.
    pub fn new(key: SlotKey, enabled: Property<bool>) -> (r: SliderControl)
        ensures
            r.spec_key() == key,
            r.spec_enabled() == enabled,
            !r.spec_dragging(),
            !r.spec_hover(),
    {
        SliderControl { key, enabled, dragging: false, hover: false }
    }

    /// Returns the key of the slider.
    pub fn key(&self) -> (r: SlotKey)
        ensures
            r == self.spec_key(),
    {
        self.key
    }

    /// Returns whether the knob is being dragged.
    pub fn dragging(&self) -> (r: bool)
        ensures
            r == self.spec_dragging(),
    {
        self.dragging
    }

    /// Returns whether the pointer is over the slider.
    pub fn hover(&self) -> (r: bool)
        ensures
            r == self.spec_hover(),
    {
        self.hover
    }

    /// Returns the slider's `enabled` property.
    pub fn enabled_property(&self) -> (r: Property<bool>)
        ensures
            r == self.spec_enabled(),
    {
        self.enabled
    }

    /// The cursor over an enabled slider points; a disabled one asks for none.
    pub fn cursor(&self, looked_up: Option<bool>) -> (r: Option<crate::event::Cursor>)
        ensures
            r == if resolved_or(self.spec_enabled(), looked_up, true) { Some(crate::event::Cursor::Pointer) } else { None },
    {
        if self.enabled.copied_or(looked_up, true) {
            Some(crate::event::Cursor::Pointer)
        } else {
            None
        }
    }

    /// Whether the event reports where the pointer puts the knob: an enabled slider
    /// under the pointer is pressed, released, or moved while dragged.
    pub open spec fn reports_knob(&self, kind: MouseEventKind, target: SlotKey, looked_up: Option<bool>) -> bool {
        &&& resolved_or(self.spec_enabled(), looked_up, true)
        &&& next_hover(kind, target, self.spec_key())
        &&& (kind.is_left_down() || kind.is_left_up() || (kind == MouseEventKind::Move && self.spec_dragging()))
    }

    /// What handling the event needs: where it reports the knob, the knob position
    /// computes within `i32`.
    pub open spec fn event_fits(&self, kind: MouseEventKind, pointer: Vec2i, target: SlotKey, bounds: Bounds2i, looked_up: Option<bool>) -> bool {
        self.reports_knob(kind, target, looked_up) ==> knob_fits(pointer, bounds)
    }

    /// Returns whether the slider may handle the event (see
    /// [`event_fits`](SliderControl::event_fits)).
    pub fn check_event_fits(&self, kind: MouseEventKind, pointer: Vec2i, target: SlotKey, bounds: Bounds2i, looked_up: Option<bool>) -> (r: bool)
        ensures
            r == self.event_fits(kind, pointer, target, bounds, looked_up),
    {
        let hover = match kind {
            MouseEventKind::Enter => true,
            MouseEventKind::Leave => false,
            _ => target == self.key,
        };
        let move_dragging = match kind {
            MouseEventKind::Move => self.dragging,
            _ => false,
        };
        let reports = self.enabled.copied_or(looked_up, true) && hover && (kind.left_down() || kind.left_up() || move_dragging);
        if !reports {
            return true;
        }
        let w = bounds.maxs.x as i64 - bounds.mins.x as i64;
        let h = bounds.maxs.y as i64 - bounds.mins.y as i64;
        let dx = pointer.x as i64 - bounds.mins.x as i64;
        i32::MIN as i64 <= w && w <= i32::MAX as i64 && i32::MIN as i64 <= h && h <= i32::MAX as i64
            && i32::MIN as i64 <= dx && dx <= i32::MAX as i64
            && i32::MIN as i64 <= dx - (KNOB_WIDTH / 2) as i64 && dx - (KNOB_WIDTH / 2) as i64 <= i32::MAX as i64
    }

    /// Reacts to a mouse event of `kind` at `pointer` aimed at `target`, the slider
    /// lying at `bounds`. A disabled slider stops any drag and releases the pointer.
    /// Over an enabled slider, pressing the left button starts dragging and captures
    /// the pointer, moving while dragging follows the pointer, and releasing ends the
    /// drag and releases the pointer; each of these reports where the pointer puts the
    /// knob. Releasing the left button away from the slider also ends the drag.
    pub fn event(&mut self, kind: MouseEventKind, pointer: Vec2i, target: SlotKey, bounds: Bounds2i, looked_up: Option<bool>, scene: &mut SceneTree) -> (r: Option<SliderMoved>)
        requires
            old(self).event_fits(kind, pointer, target, bounds, looked_up),
        ensures
            ({
                let enabled = resolved_or(old(self).spec_enabled(), looked_up, true);
                let hover = next_hover(kind, target, old(self).spec_key());
                let moved = Some(SliderMoved { key: old(self).spec_key(), knob: spec_knob_position(pointer, bounds) });
                if !enabled {
                    &&& !final(self).spec_dragging()
                    &&& !final(self).spec_hover()
                    &&& r is None
                    &&& final(scene).with_captured(*old(scene), None)
                } else if hover && kind.is_left_down() {
                    &&& final(self).spec_dragging()
                    &&& final(self).spec_hover()
                    &&& r == moved
                    &&& final(scene).with_captured(*old(scene), Some(old(self).spec_key()))
                } else if hover && kind.is_left_up() {
                    &&& !final(self).spec_dragging()
                    &&& final(self).spec_hover()
                    &&& r == moved
                    &&& final(scene).with_captured(*old(scene), None)
                } else if hover && kind == MouseEventKind::Move && old(self).spec_dragging() {
                    &&& final(self).spec_dragging()
                    &&& final(self).spec_hover()
                    &&& r == moved
                    &&& *final(scene) == *old(scene)
                } else if !hover && kind.is_left_up() {
                    &&& !final(self).spec_dragging()
                    &&& !final(self).spec_hover()
                    &&& r is None
                    &&& final(scene).with_captured(*old(scene), None)
                } else {
                    &&& final(self).spec_dragging() == old(self).spec_dragging()
                    &&& final(self).spec_hover() == hover
                    &&& r is None
                    &&& *final(scene) == *old(scene)
                }
            }),
            final(self).spec_key() == old(self).spec_key(),
            final(self).spec_enabled() == old(self).spec_enabled(),
    {
        if !self.enabled.copied_or(looked_up, true) {
            self.dragging = false;
            self.hover = false;
            scene.release_pointer();
            return None;
        }
        match kind {
            MouseEventKind::Enter => self.hover = true,
            MouseEventKind::Leave => self.hover = false,
            _ => self.hover = target == self.key,
        }
        if self.hover {
            if kind.left_down() {
                self.dragging = true;
                scene.capture_pointer(self.key);
                return Some(SliderMoved { key: self.key, knob: knob_position(pointer, bounds) });
            }
            if kind.left_up() {
                let moved = SliderMoved { key: self.key, knob: knob_position(pointer, bounds) };
                self.dragging = false;
                scene.release_pointer();
                return Some(moved);
            }
            match kind {
                MouseEventKind::Move => {
                    if self.dragging {
                        return Some(SliderMoved { key: self.key, knob: knob_position(pointer, bounds) });
                    }
                },
                _ => {},
            }
        } else if kind.left_up() {
            self.dragging = false;
            scene.release_pointer();
        }
        None
    }
}

/// The colour of a slider's knob, by whether the slider is enabled, dragged or
/// hovered.
pub open spec fn knob_color(enabled: bool, dragging: bool, hover: bool) -> Rgba8 {
    if !enabled {
        spec_rgb(123, 130, 143)
    } else if dragging {
        spec_rgb(230, 232, 236)
    } else if hover {
        spec_rgb(202, 221, 242)
    } else {
        spec_rgb(177, 203, 232)
    }
}

/// What a slider of `size` draws: its track, the part of the track filled up to
/// `fill_right`, then its knob with its left side at `knob_left`, centred
/// vertically.
pub open spec fn slider_shapes(enabled: bool, dragging: bool, hover: bool, size: Vec2i, fill_right: int, knob_left: int) -> Seq<ShapeView> {
    let track = spec_track_rect(local_bounds(size), SLIDER_TRACK_HEIGHT as int);
    let knob_top = half_toward_zero(size.y - KNOB_HEIGHT);
    seq![
        ShapeView::Fill { bounds: track, color: if enabled { spec_rgb(26, 28, 34) } else { spec_rgb(32, 34, 40) } },
        ShapeView::Fill {
            bounds: rect(track.mins.x as int, track.mins.y as int, fill_right, track.maxs.y as int),
            color: if enabled { spec_rgb(92, 150, 218) } else { spec_rgb(90, 103, 121) },
        },
        ShapeView::Fill {
            bounds: rect(knob_left, knob_top, knob_left + KNOB_WIDTH, knob_top + KNOB_HEIGHT),
            color: knob_color(enabled, dragging, hover),
        },
    ]
}

impl SliderControl {
    /// Returns what the slider draws at `size`, `enabled` being what the application
    /// state holds for its `enabled` property; the slider's value puts the end of the
    /// filled part of the track at `fill_right` and the knob's left side at
    /// `knob_left`.
    pub fn draw(&self, size: Vec2i, enabled: Option<bool>, fill_right: i32, knob_left: i32) -> (r: Vec<Shape>)
        requires
            track_fits(local_bounds(size), SLIDER_TRACK_HEIGHT as int),
            fits_i32(size.y - KNOB_HEIGHT),
            fits_i32(knob_left + KNOB_WIDTH),
        ensures
            shapes_view(r@) == slider_shapes(
                resolved_or(self.spec_enabled(), enabled, true),
                self.spec_dragging(),
                self.spec_hover(),
                size,
                fill_right as int,
                knob_left as int,
            ),
    {
        let on = self.enabled.copied_or(enabled, true);
        let track = slider_track_rect(Bounds2i::vec(size));
        let knob_top = (size.y - KNOB_HEIGHT) / 2;
        let knob = if !on {
            rgb(123, 130, 143)
        } else if self.dragging {
            rgb(230, 232, 236)
        } else if self.hover {
            rgb(202, 221, 242)
        } else {
            rgb(177, 203, 232)
        };
        let mut r: Vec<Shape> = Vec::new();
        r.push(Shape::Fill { bounds: track, color: if on { rgb(26, 28, 34) } else { rgb(32, 34, 40) } });
        r.push(Shape::Fill {
            bounds: Bounds2i::from_coords(track.mins.x, track.mins.y, fill_right, track.maxs.y),
            color: if on { rgb(92, 150, 218) } else { rgb(90, 103, 121) },
        });
        r.push(Shape::Fill { bounds: Bounds2i::from_coords(knob_left, knob_top, knob_left + KNOB_WIDTH, knob_top + KNOB_HEIGHT), color: knob });
        proof {
            assert(shapes_view(r@) =~= slider_shapes(on, self.dragging, self.hover, size, fill_right as int, knob_left as int));
        }
        r
    }
}

} // verus!
