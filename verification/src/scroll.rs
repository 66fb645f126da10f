//! Vertical scrollbar: its geometry, and how it reacts to the pointer and the wheel.
use vstd::prelude::*;

use crate::event::{Cursor, MouseEvent, MouseEventKind};
use crate::geom::{clamp_i32, fits_i32, max_i32, min_i32, rect, spec_clamp, spec_max, spec_min, Bounds2i, Vec2i};
use crate::scene::{ChildWidget, SceneTree};
use crate::slotmap::SlotKey;
use crate::paint::{rgb, shapes_view, spec_rgb, Rgba8, Shape, ShapeView};

verus! {

/// Width of the scrollbar beside the content.
pub const SCROLLBAR_WIDTH: i32 = 12;

/// Padding between the scrollbar's track and its edges.
pub const SCROLLBAR_PADDING: i32 = 2;

/// Smallest thumb height, where the track allows it.
pub const MIN_THUMB_HEIGHT: i32 = 24;

/// Pixels scrolled per wheel step.
pub const SCROLL_STEP: i32 = 2;

/// How far content of `content_height` scrolls in a viewport of `viewport_height`.
pub open spec fn spec_max_scroll(content_height: int, viewport_height: int) -> int {
    spec_max(content_height - viewport_height, 0)
}

/// The track of a scrollbar beside a viewport of `size` over content of
/// `content_height`, in viewport coordinates; none when no scrolling is needed or the
/// viewport is too small.
pub open spec fn spec_track(size: Vec2i, content_height: int) -> Option<Bounds2i> {
    if !(spec_max_scroll(content_height, size.y as int) > 0 && size.x > SCROLLBAR_WIDTH) || size.y <= 2 * SCROLLBAR_PADDING {
        None
    } else {
        Some(rect(size.x - SCROLLBAR_WIDTH + SCROLLBAR_PADDING, SCROLLBAR_PADDING as int, size.x - SCROLLBAR_PADDING, size.y - SCROLLBAR_PADDING))
    }
}

/// Height of the thumb on a track of `track_height`: the viewport's share of the
/// content, rounded to the nearest pixel, kept between the minimum and the track.
pub open spec fn spec_thumb_height(viewport_height: int, content_height: int, track_height: int) -> int {
    let share = (2 * viewport_height * track_height + spec_max(content_height, 1)) / (2 * spec_max(content_height, 1));
    spec_clamp(share, spec_min(MIN_THUMB_HEIGHT as int, track_height), track_height)
}

/// The thumb of the scrollbar when the content is scrolled by `scroll_y`.
pub open spec fn spec_thumb(size: Vec2i, content_height: int, scroll_y: int) -> Option<Bounds2i> {
    match spec_track(size, content_height) {
        None => None,
        Some(track) => {
            let max_scroll = spec_max_scroll(content_height, size.y as int);
            let track_height = track.maxs.y - track.mins.y;
            let thumb_height = spec_thumb_height(size.y as int, content_height, track_height);
            let range = track_height - thumb_height;
            let top = if range == 0 { track.mins.y as int } else { track.mins.y + (scroll_y * range + max_scroll / 2) / max_scroll };
            Some(rect(track.mins.x as int, top, track.maxs.x as int, top + thumb_height))
        },
    }
}

/// The scroll offset that puts the top of the thumb at `thumb_top`, or zero when the
/// thumb cannot move.
pub open spec fn spec_scroll_for_thumb_top(size: Vec2i, content_height: int, scroll_y: int, thumb_top: int) -> int {
    match (spec_track(size, content_height), spec_thumb(size, content_height, scroll_y)) {
        (Some(track), Some(thumb)) => {
            let max_scroll = spec_max_scroll(content_height, size.y as int);
            let thumb_height = thumb.maxs.y - thumb.mins.y;
            let range = (track.maxs.y - track.mins.y) - thumb_height;
            if range <= 0 {
                0
            } else {
                let top = spec_clamp(thumb_top, track.mins.y as int, track.maxs.y - thumb_height) - track.mins.y;
                (top * max_scroll + range / 2) / range
            }
        },
        _ => 0,
    }
}

/// The arithmetic of the scrollbar for a viewport of `size` over content of
/// `content_height` stays within `i32`, for every scroll offset in range.
pub open spec fn metrics_fit(size: Vec2i, content_height: int) -> bool {
    let max_scroll = spec_max_scroll(content_height, size.y as int);
    &&& fits_i32(content_height - size.y)
    &&& 2 * size.y * size.y + spec_max(content_height, 1) <= i64::MAX
    &&& max_scroll * size.y + max_scroll + size.y <= i32::MAX
}

/// Returns whether the scrollbar arithmetic for a viewport of `size` over content of
/// `content_height` stays within `i32` (see [`metrics_fit`]).
pub fn check_metrics_fit(size: Vec2i, content_height: i32) -> (r: bool)
    ensures
        r == metrics_fit(size, content_height as int),
{
    let h = size.y as i128;
    let c = content_height as i128;
    let ms: i128 = if c - h > 0 { c - h } else { 0 };
    let c1: i128 = if c > 1 { c } else { 1 };
    let a = i32::MIN as i128 <= c - h && c - h <= i32::MAX as i128;
    assert(-0x8000_0000 <= h <= 0x7fff_ffff);
    assert(0 <= h * h <= 0x4000_0000_0000_0000) by (nonlinear_arith)
        requires
            -0x8000_0000 <= h <= 0x7fff_ffff,
    ;
    assert(0 <= ms <= 0x1_0000_0000);
    assert(-0x8000_0000_0000_0000 <= ms * h <= 0x8000_0000_0000_0000) by (nonlinear_arith)
        requires
            -0x8000_0000 <= h <= 0x7fff_ffff,
            0 <= ms <= 0x1_0000_0000,
    ;
    let hh = h * h;
    assert(2 * h * h == 2 * hh) by (nonlinear_arith)
        requires
            hh == h * h,
    ;
    let b = 2 * hh + c1 <= i64::MAX as i128;
    let d = ms * h + ms + h <= i32::MAX as i128;
    a && b && d
}

/// What a pointer event does to a scrollbar: its drag offset and thumb hover
/// afterwards, the scroll offset it asks for, and whether it captures (`Some(true)`)
/// or releases (`Some(false)`) the pointer.
#[derive(Copy, Clone, Debug, PartialEq, Eq, Structural)]
pub struct PointerOutcome {
    pub drag_offset: Option<i32>,
    pub hover_thumb: bool,
    pub scroll_to: Option<i32>,
    pub capture: Option<bool>,
}

/// Whether the thumb for `scroll_y` contains `local`.
pub open spec fn thumb_contains(size: Vec2i, content_height: int, scroll_y: int, local: Vec2i) -> bool {
    match spec_thumb(size, content_height, scroll_y) {
        Some(thumb) => thumb.spec_contains(local),
        None => false,
    }
}

/// The outcome of a pointer event at `local` on a scrollbar scrolled by `scroll`,
/// dragging from `drag_offset` and hovering the thumb when `hover_thumb`.
pub open spec fn spec_pointer_event(scroll: i32, drag_offset: Option<i32>, hover_thumb: bool, kind: MouseEventKind, local: Vec2i, size: Vec2i, content_height: int) -> PointerOutcome {
    let sy = spec_clamp(scroll as int, 0, spec_max_scroll(content_height, size.y as int));
    let unchanged = PointerOutcome { drag_offset, hover_thumb, scroll_to: None, capture: None };
    if kind.is_left_down() {
        match spec_track(size, content_height) {
            None => unchanged,
            Some(track) => if !track.spec_contains(local) {
                PointerOutcome { hover_thumb: false, ..unchanged }
            } else {
                match spec_thumb(size, content_height, sy) {
                    None => unchanged,
                    Some(thumb) => if thumb.spec_contains(local) {
                        PointerOutcome { drag_offset: Some((local.y - thumb.mins.y) as i32), hover_thumb: true, scroll_to: None, capture: Some(true) }
                    } else {
                        PointerOutcome {
                            hover_thumb: false,
                            scroll_to: Some(spec_scroll_for_thumb_top(size, content_height, sy, local.y - (thumb.maxs.y - thumb.mins.y) / 2) as i32),
                            ..unchanged
                        }
                    },
                }
            },
        }
    } else if kind == MouseEventKind::Move {
        match drag_offset {
            Some(off) => PointerOutcome { scroll_to: Some(spec_scroll_for_thumb_top(size, content_height, sy, local.y - off) as i32), ..unchanged },
            None => PointerOutcome { hover_thumb: thumb_contains(size, content_height, sy, local), ..unchanged },
        }
    } else if kind.is_left_up() {
        PointerOutcome { drag_offset: None, hover_thumb: thumb_contains(size, content_height, sy, local), scroll_to: None, capture: Some(false) }
    } else {
        unchanged
    }
}

/// Lightweight vertical scrollbar: scroll offset plus pointer interaction state.
#[derive(Copy, Clone, Debug, PartialEq, Eq, Structural)]
pub struct ScrollVBar {
    scroll_y: i32,
    drag_offset: Option<i32>,
    hover_thumb: bool,
}

/// Returns how far content of `content_height` scrolls in a viewport of `viewport_height`.
pub fn max_scroll(content_height: i32, viewport_height: i32) -> (r: i32)
    requires
        fits_i32(content_height - viewport_height),
    ensures
        r == spec_max_scroll(content_height as int, viewport_height as int),
{
    max_i32(content_height - viewport_height, 0)
}

impl ScrollVBar {
    pub closed spec fn spec_scroll(&self) -> i32 {
        self.scroll_y
    }

    pub closed spec fn spec_drag_offset(&self) -> Option<i32> {
        self.drag_offset
    }

    pub closed spec fn spec_hover_thumb(&self) -> bool {
        self.hover_thumb
    }

    /// Creates a scrollbar at the top, not dragged or hovered.
    pub fn new() -> (r: ScrollVBar)
        ensures
            r.spec_scroll() == 0,
            r.spec_drag_offset() is None,
            !r.spec_hover_thumb(),
    {
        ScrollVBar { scroll_y: 0, drag_offset: None, hover_thumb: false }
    }

    /// Keeps the scroll offset within the content's scroll range.
    pub fn clamp_scroll(&mut self, viewport_height: i32, content_height: i32)
        requires
            fits_i32(content_height - viewport_height),
        ensures
            final(self).spec_scroll() == spec_clamp(old(self).spec_scroll() as int, 0, spec_max_scroll(content_height as int, viewport_height as int)),
            final(self).spec_drag_offset() == old(self).spec_drag_offset(),
            final(self).spec_hover_thumb() == old(self).spec_hover_thumb(),
    {
        let max = max_scroll(content_height, viewport_height);
        self.scroll_y = clamp_i32(self.scroll_y, 0, max);
    }

    /// Returns the current scroll offset, kept within the content's scroll range.
    pub fn scroll_y(&self, viewport_height: i32, content_height: i32) -> (r: i32)
        requires
            fits_i32(content_height - viewport_height),
        ensures
            r == spec_clamp(self.spec_scroll() as int, 0, spec_max_scroll(content_height as int, viewport_height as int)),
    {
        clamp_i32(self.scroll_y, 0, max_scroll(content_height, viewport_height))
    }

    /// Returns whether the scrollbar shows: the content scrolls and the viewport is
    /// wider than the scrollbar.
    pub fn visible(&self, viewport_size: Vec2i, content_height: i32) -> (r: bool)
        requires
            fits_i32(content_height - viewport_size.y),
        ensures
            r == (spec_max_scroll(content_height as int, viewport_size.y as int) > 0 && viewport_size.x > SCROLLBAR_WIDTH),
    {
        max_scroll(content_height, viewport_size.y) > 0 && viewport_size.x > SCROLLBAR_WIDTH
    }

    /// Returns the width the scrollbar reserves beside the content.
    pub fn reserved_width(&self, viewport_size: Vec2i, content_height: i32) -> (r: i32)
        requires
            fits_i32(content_height - viewport_size.y),
        ensures
            r == if spec_max_scroll(content_height as int, viewport_size.y as int) > 0 && viewport_size.x > SCROLLBAR_WIDTH {
                SCROLLBAR_WIDTH
            } else {
                0
            },
    {
        if self.visible(viewport_size, content_height) {
            SCROLLBAR_WIDTH
        } else {
            0
        }
    }

    /// Returns the track rectangle in viewport coordinates.
    pub fn track(&self, viewport_size: Vec2i, content_height: i32) -> (r: Option<Bounds2i>)
        requires
            fits_i32(content_height - viewport_size.y),
        ensures
            r == spec_track(viewport_size, content_height as int),
    {
        if !self.visible(viewport_size, content_height) || viewport_size.y <= SCROLLBAR_PADDING * 2 {
            return None;
        }
        Some(Bounds2i::from_coords(
            viewport_size.x - SCROLLBAR_WIDTH + SCROLLBAR_PADDING,
            SCROLLBAR_PADDING,
            viewport_size.x - SCROLLBAR_PADDING,
            viewport_size.y - SCROLLBAR_PADDING,
        ))
    }

    /// Returns the thumb rectangle for the scroll offset `scroll_y`, in range.
    pub fn thumb(&self, viewport_size: Vec2i, content_height: i32, scroll_y: i32) -> (r: Option<Bounds2i>)
        requires
            metrics_fit(viewport_size, content_height as int),
            0 <= scroll_y <= spec_max_scroll(content_height as int, viewport_size.y as int),
        ensures
            r == spec_thumb(viewport_size, content_height as int, scroll_y as int),
            r matches Some(t) ==> spec_track(viewport_size, content_height as int) matches Some(track) && {
                &&& track.mins.y <= t.mins.y <= t.maxs.y <= track.maxs.y
                &&& t.mins.x == track.mins.x
                &&& t.maxs.x == track.maxs.x
            },
    {
        let track = match self.track(viewport_size, content_height) {
            Some(t) => t,
            None => {
                return None;
            },
        };
        let max_scroll = max_scroll(content_height, viewport_size.y);
        if max_scroll == 0 {
            return None;
        }
        let track_height = track.maxs.y - track.mins.y;
        let denominator: i64 = if content_height > 1 { content_height as i64 } else { 1 };
        let vy = viewport_size.y as i64;
        let th = track_height as i64;
        proof {
            assert(2 * vy * th <= 2 * vy * vy) by (nonlinear_arith)
                requires
                    0 < th < vy;
            assert(2 * vy * th >= 0) by (nonlinear_arith)
                requires
                    0 < th < vy;
        }
        let share = (2 * vy * th + denominator) / (2 * denominator);
        proof {
            assert(0 <= share <= th) by (nonlinear_arith)
                requires
                    share == (2 * vy * th + denominator) / (2 * denominator),
                    0 < th < vy,
                    vy < denominator,
                    2 * vy * th >= 0;
        }
        let share = share as i32;
        let thumb_height = clamp_i32(share, min_i32(MIN_THUMB_HEIGHT, track_height), track_height);
        let range = track_height - thumb_height;
        let top = if range == 0 {
            track.mins.y
        } else {
            proof {
                assert(scroll_y * range <= max_scroll * viewport_size.y) by (nonlinear_arith)
                    requires
                        0 <= scroll_y <= max_scroll,
                        0 <= range <= viewport_size.y;
            }
            let q = (scroll_y * range + max_scroll / 2) / max_scroll;
            proof {
                assert(0 <= q <= range) by (nonlinear_arith)
                    requires
                        q == (scroll_y * range + max_scroll / 2) / (max_scroll as int),
                        0 <= scroll_y <= max_scroll,
                        0 <= range,
                        max_scroll > 0;
            }
            track.mins.y + q
        };
        Some(Bounds2i::from_coords(track.mins.x, top, track.maxs.x, top + thumb_height))
    }

    /// Converts a thumb top position to a scroll offset.
    pub fn scroll_for_thumb_top(&self, viewport_size: Vec2i, content_height: i32, scroll_y: i32, thumb_top: i32) -> (r: i32)
        requires
            metrics_fit(viewport_size, content_height as int),
            0 <= scroll_y <= spec_max_scroll(content_height as int, viewport_size.y as int),
        ensures
            r == spec_scroll_for_thumb_top(viewport_size, content_height as int, scroll_y as int, thumb_top as int),
            0 <= r <= spec_max_scroll(content_height as int, viewport_size.y as int),
    {
        let track = match self.track(viewport_size, content_height) {
            Some(t) => t,
            None => {
                return 0;
            },
        };
        let thumb = match self.thumb(viewport_size, content_height, scroll_y) {
            Some(t) => t,
            None => {
                return 0;
            },
        };
        let max_scroll = max_scroll(content_height, viewport_size.y);
        let thumb_height = thumb.maxs.y - thumb.mins.y;
        let range = (track.maxs.y - track.mins.y) - thumb_height;
        if range <= 0 {
            return 0;
        }
        let top = clamp_i32(thumb_top, track.mins.y, track.maxs.y - thumb_height) - track.mins.y;
        proof {
            assert(range / 2 <= viewport_size.y);
            assert(top * max_scroll <= max_scroll * viewport_size.y) by (nonlinear_arith)
                requires
                    0 <= top <= range,
                    range <= viewport_size.y,
                    0 <= max_scroll;
            assert(0 <= top * max_scroll) by (nonlinear_arith)
                requires
                    0 <= top,
                    0 <= max_scroll;
        }
        let r = (top * max_scroll + range / 2) / range;
        proof {
            assert(0 <= r <= max_scroll) by (nonlinear_arith)
                requires
                    r == (top * max_scroll + range / 2) / (range as int),
                    0 <= top <= range,
                    range > 0,
                    0 <= max_scroll;
        }
        r
    }

    /// Updates whether the pointer at `local` hovers the thumb.
    pub fn update_hover(&mut self, local: Vec2i, viewport_size: Vec2i, content_height: i32, scroll_y: i32)
        requires
            metrics_fit(viewport_size, content_height as int),
            0 <= scroll_y <= spec_max_scroll(content_height as int, viewport_size.y as int),
        ensures
            final(self).spec_hover_thumb() == match spec_thumb(viewport_size, content_height as int, scroll_y as int) {
                Some(thumb) => thumb.spec_contains(local),
                None => false,
            },
            final(self).spec_scroll() == old(self).spec_scroll(),
            final(self).spec_drag_offset() == old(self).spec_drag_offset(),
    {
        self.hover_thumb = match self.thumb(viewport_size, content_height, scroll_y) {
            Some(thumb) => thumb.contains(local),
            None => false,
        };
    }

    /// The cursor the scrollbar asks for: grabbing while dragging, grab over the thumb.
    pub fn cursor(&self) -> (r: Option<Cursor>)
        ensures
            r == if self.spec_drag_offset() is Some {
                Some(Cursor::Grabbing)
            } else if self.spec_hover_thumb() {
                Some(Cursor::Grab)
            } else {
                None
            },
    {
        if self.drag_offset.is_some() {
            Some(Cursor::Grabbing)
        } else if self.hover_thumb {
            Some(Cursor::Grab)
        } else {
            None
        }
    }

    /// Keeps the scroll offset in range after the viewport or content changed size.
    pub fn layout(&mut self, viewport_size: Vec2i, content_height: i32)
        requires
            fits_i32(content_height - viewport_size.y),
        ensures
            final(self).spec_scroll() == spec_clamp(old(self).spec_scroll() as int, 0, spec_max_scroll(content_height as int, viewport_size.y as int)),
            final(self).spec_drag_offset() == old(self).spec_drag_offset(),
            final(self).spec_hover_thumb() == old(self).spec_hover_thumb(),
    {
        self.clamp_scroll(viewport_size.y, content_height);
    }

    /// Handles pointer input at `local` (viewport coordinates) and returns the scroll
    /// offset it asks for, if any. Pressing on the thumb starts a drag and captures
    /// the pointer for `owner`; pressing elsewhere on the track jumps there.
    pub fn pointer_event(&mut self, kind: MouseEventKind, local: Vec2i, viewport_size: Vec2i, content_height: i32, owner: SlotKey, scene: &mut SceneTree) -> (r: Option<i32>)
        requires
            metrics_fit(viewport_size, content_height as int),
            old(self).spec_drag_offset() matches Some(off) ==> fits_i32(local.y - off),
        ensures
            ({
                let o = spec_pointer_event(old(self).spec_scroll(), old(self).spec_drag_offset(), old(self).spec_hover_thumb(), kind, local, viewport_size, content_height as int);
                &&& final(self).spec_drag_offset() == o.drag_offset
                &&& final(self).spec_hover_thumb() == o.hover_thumb
                &&& r == o.scroll_to
                &&& final(scene).with_captured(*old(scene), match o.capture {
                    Some(true) => Some(owner),
                    Some(false) => None,
                    None => old(scene).spec_captured(),
                })
            }),
            final(self).spec_scroll() == old(self).spec_scroll(),
            final(scene).spec_popup_request() == old(scene).spec_popup_request(),
            forall|k: SlotKey| #[trigger] final(scene).spec_parent(k) == old(scene).spec_parent(k),
            final(scene).root_children_view() == old(scene).root_children_view(),
            final(scene).popup_chain_view() == old(scene).popup_chain_view(),
            final(scene).spec_popup_owner() == old(scene).spec_popup_owner(),
            final(scene).spec_pointed() == old(scene).spec_pointed(),
            final(scene).spec_content() == old(scene).spec_content(),
            old(scene).wf() ==> final(scene).wf(),
    {
        let scroll_y = self.scroll_y(viewport_size.y, content_height);
        if kind.left_down() {
            let track = match self.track(viewport_size, content_height) {
                Some(t) => t,
                None => {
                    return None;
                },
            };
            if !track.contains(local) {
                self.hover_thumb = false;
                return None;
            }
            let thumb = match self.thumb(viewport_size, content_height, scroll_y) {
                Some(t) => t,
                None => {
                    return None;
                },
            };
            self.hover_thumb = thumb.contains(local);
            if thumb.contains(local) {
                self.drag_offset = Some(local.y - thumb.mins.y);
                scene.capture_pointer(owner);
                return None;
            }
            let thumb_height = thumb.maxs.y - thumb.mins.y;
            return Some(self.scroll_for_thumb_top(viewport_size, content_height, scroll_y, local.y - thumb_height / 2));
        }
        if kind == MouseEventKind::Move {
            match self.drag_offset {
                Some(offset) => {
                    return Some(self.scroll_for_thumb_top(viewport_size, content_height, scroll_y, local.y - offset));
                },
                None => {
                    self.update_hover(local, viewport_size, content_height, scroll_y);
                    return None;
                },
            }
        }
        if kind.left_up() {
            self.drag_offset = None;
            scene.release_pointer();
            self.update_hover(local, viewport_size, content_height, scroll_y);
            return None;
        }
        None
    }

    /// `self` and `scene` are `old` and `old_scene` after the scrollbar of a scroll
    /// area with scene `bounds` over content of `content_height` handled `mouse` for
    /// the widget `owner`.
    pub open spec fn event_applied(&self, old: ScrollVBar, mouse: MouseEvent, bounds: Bounds2i, owner: SlotKey, content_height: i32, old_scene: SceneTree, scene: SceneTree) -> bool {
        let size = Vec2i { x: bounds.spec_width() as i32, y: bounds.spec_height() as i32 };
        let local = Vec2i { x: (mouse.pointer.x - bounds.mins.x) as i32, y: (mouse.pointer.y - bounds.mins.y) as i32 };
        let ms = spec_max_scroll(content_height as int, size.y as int);
        let idle = old.spec_drag_offset() is None;
        if (mouse.kind == MouseEventKind::Leave && idle) || (!bounds.spec_contains(mouse.pointer) && idle) {
            &&& !self.spec_hover_thumb()
            &&& self.spec_scroll() == old.spec_scroll()
            &&& self.spec_drag_offset() == old.spec_drag_offset()
            &&& scene == old_scene
        } else if mouse.kind is Wheel {
            &&& self.spec_scroll() == spec_clamp(old.spec_scroll() - mouse.kind->delta * SCROLL_STEP, 0, ms)
            &&& self.spec_hover_thumb() == old.spec_hover_thumb()
            &&& self.spec_drag_offset() == old.spec_drag_offset()
            &&& scene == old_scene
        } else {
            let o = spec_pointer_event(old.spec_scroll(), old.spec_drag_offset(), old.spec_hover_thumb(), mouse.kind, local, size, content_height as int);
            &&& self.spec_drag_offset() == o.drag_offset
            &&& self.spec_hover_thumb() == o.hover_thumb
            &&& self.spec_scroll() == match o.scroll_to {
                Some(to) => spec_clamp(to as int, 0, ms),
                None => old.spec_scroll() as int,
            }
            &&& scene.with_captured(old_scene, match o.capture {
                Some(true) => Some(owner),
                Some(false) => None,
                None => old_scene.spec_captured(),
            })
        }
    }

    /// Handles mouse input over a scroll area with scene `bounds`: the wheel scrolls,
    /// the pointer drags the thumb or jumps along the track. Input outside the area,
    /// or leaving it, only clears the thumb hover unless a drag is in progress.
    pub fn event(&mut self, mouse: MouseEvent, bounds: Bounds2i, owner: SlotKey, content_height: i32, scene: &mut SceneTree)
        requires
            vbar_event_fits(*old(self), mouse, bounds, content_height as int),
        ensures
            final(self).event_applied(*old(self), mouse, bounds, owner, content_height, *old(scene), *final(scene)),
    {
        let idle = self.drag_offset.is_none();
        if mouse.kind == MouseEventKind::Leave && idle {
            self.hover_thumb = false;
            return;
        }
        if !bounds.contains(mouse.pointer) && idle {
            self.hover_thumb = false;
            return;
        }
        let size = bounds.size();
        match mouse.kind {
            MouseEventKind::Wheel { delta } => {
                self.scroll_y = self.scroll_y - delta * SCROLL_STEP;
                self.clamp_scroll(size.y, content_height);
                return;
            },
            _ => {},
        }
        let local = mouse.pointer.sub(bounds.mins);
        match self.pointer_event(mouse.kind, local, size, content_height, owner, scene) {
            Some(scroll_y) => {
                self.scroll_y = scroll_y;
                self.clamp_scroll(size.y, content_height);
            },
            None => {},
        }
    }
}

/// What the scrollbar of a scroll area lying at `bounds`, over content of
/// `content_height`, needs to handle `mouse`: leaving the area, or input outside it,
/// while no drag is in progress does no arithmetic; the wheel scrolls within `i32`;
/// other input measures the area, the track and the pointer within `i32`.
pub open spec fn vbar_event_fits(bar: ScrollVBar, mouse: MouseEvent, bounds: Bounds2i, content_height: int) -> bool {
    let idle = bar.spec_drag_offset() is None;
    let size = Vec2i { x: bounds.spec_width() as i32, y: bounds.spec_height() as i32 };
    if (mouse.kind == MouseEventKind::Leave && idle) || (!bounds.spec_contains(mouse.pointer) && idle) {
        true
    } else if mouse.kind is Wheel {
        &&& bounds.size_fits()
        &&& fits_i32(content_height - size.y)
        &&& fits_i32(mouse.kind->delta * SCROLL_STEP)
        &&& fits_i32(bar.spec_scroll() - mouse.kind->delta * SCROLL_STEP)
    } else {
        &&& bounds.size_fits()
        &&& metrics_fit(size, content_height)
        &&& mouse.pointer.can_sub(bounds.mins)
        &&& (bar.spec_drag_offset() matches Some(off) ==> fits_i32(mouse.pointer.y - bounds.mins.y - off))
    }
}

/// Vertically scrollable container around one content widget.
pub struct ScrollPanel {
    key: SlotKey,
    content: ChildWidget,
    content_height: i32,
    vbar: ScrollVBar,
}

impl ScrollPanel {
    pub closed spec fn spec_key(&self) -> SlotKey {
        self.key
    }

    pub closed spec fn spec_content(&self) -> ChildWidget {
        self.content
    }

    pub closed spec fn spec_content_height(&self) -> i32 {
        self.content_height
    }

    pub closed spec fn spec_vbar(&self) -> ScrollVBar {
        self.vbar
    }

    /// What handling `mouse` at `bounds` needs: the scrollbar arithmetic stays within `i32`.
    pub open spec fn event_fits(&self, mouse: MouseEvent, bounds: Bounds2i) -> bool {
        vbar_event_fits(self.spec_vbar(), mouse, bounds, self.spec_content_height() as int)
    }

    /// Returns whether handling `mouse` at `bounds` stays within `i32`.
    pub fn check_event_fits(&self, mouse: MouseEvent, bounds: Bounds2i) -> (r: bool)
        ensures
            r == self.event_fits(mouse, bounds),
    {
        let min = i32::MIN as i64;
        let max = i32::MAX as i64;
        let idle = self.vbar.drag_offset.is_none();
        if (mouse.kind == MouseEventKind::Leave && idle) || (!bounds.contains(mouse.pointer) && idle) {
            return true;
        }
        let w = bounds.maxs.x as i64 - bounds.mins.x as i64;
        let h = bounds.maxs.y as i64 - bounds.mins.y as i64;
        if !(min <= w && w <= max && min <= h && h <= max) {
            return false;
        }
        match mouse.kind {
            MouseEventKind::Wheel { delta } => {
                let step = delta as i64 * SCROLL_STEP as i64;
                let to = self.vbar.scroll_y as i64 - step;
                let over = self.content_height as i64 - h;
                return min <= step && step <= max && min <= to && to <= max && min <= over && over <= max;
            },
            _ => {},
        }
        if !check_metrics_fit(Vec2i { x: w as i32, y: h as i32 }, self.content_height) {
            return false;
        }
        let lx = mouse.pointer.x as i64 - bounds.mins.x as i64;
        let ly = mouse.pointer.y as i64 - bounds.mins.y as i64;
        let sub_ok = min <= lx && lx <= max && min <= ly && ly <= max;
        let drag_ok = match self.vbar.drag_offset {
            Some(off) => min <= ly - off as i64 && ly - off as i64 <= max,
            None => true,
        };
        sub_ok && drag_ok
    }

    /// Creates a scroll panel around `content`, of `content_height`, scrolled to the top.
    pub fn new(key: SlotKey, content: SlotKey, content_height: i32) -> (r: ScrollPanel)
        ensures
            r.spec_key() == key,
            r.spec_content() == (ChildWidget { bounds: rect(0, 0, 0, 0), key: content }),
            r.spec_content_height() == content_height,
            r.spec_vbar().spec_scroll() == 0,
            r.spec_vbar().spec_drag_offset() is None,
            !r.spec_vbar().spec_hover_thumb(),
    {
        ScrollPanel { key, content: ChildWidget::new(Bounds2i::zero(), content), content_height, vbar: ScrollVBar::new() }
    }

    /// Returns the height of the content.
    pub fn content_height(&self) -> (r: i32)
        ensures
            r == self.spec_content_height(),
    {
        self.content_height
    }

    /// Returns the key of the panel.
    pub fn key(&self) -> (r: SlotKey)
        ensures
            r == self.spec_key(),
    {
        self.key
    }

    /// Returns the content child.
    pub fn content(&self) -> (r: ChildWidget)
        ensures
            r == self.spec_content(),
    {
        self.content
    }

    /// The cursor the scrollbar asks for.
    pub fn cursor(&self) -> (r: Option<Cursor>)
        ensures
            r == if self.spec_vbar().spec_drag_offset() is Some {
                Some(Cursor::Grabbing)
            } else if self.spec_vbar().spec_hover_thumb() {
                Some(Cursor::Grab)
            } else {
                None
            },
    {
        self.vbar.cursor()
    }

    /// Width left to the content beside the scrollbar.
    pub fn content_width(&self, viewport_size: Vec2i) -> (r: i32)
        requires
            fits_i32(self.spec_content_height() - viewport_size.y),
        ensures
            r == spec_max(viewport_size.x - (if spec_max_scroll(self.spec_content_height() as int, viewport_size.y as int) > 0
                && viewport_size.x > SCROLLBAR_WIDTH { SCROLLBAR_WIDTH as int } else { 0 }), 0),
    {
        let reserved = self.vbar.reserved_width(viewport_size, self.content_height);
        max_i32(viewport_size.x - reserved, 0)
    }

    /// `self` is `old` laid out in a viewport of `viewport_size`: the scroll offset is
    /// kept in range and the content placed, shifted up by it, beside the scrollbar
    /// where one is shown.
    pub open spec fn laid_out(&self, old: ScrollPanel, viewport_size: Vec2i) -> bool {
        let ch = old.spec_content_height() as int;
        let sy = spec_clamp(old.spec_vbar().spec_scroll() as int, 0, spec_max_scroll(ch, viewport_size.y as int));
        let width = spec_max(viewport_size.x - (if spec_max_scroll(ch, viewport_size.y as int) > 0
            && viewport_size.x > SCROLLBAR_WIDTH { SCROLLBAR_WIDTH as int } else { 0 }), 0);
        &&& self.spec_vbar().spec_scroll() == sy
        &&& self.spec_content() == (ChildWidget { bounds: rect(0, -sy, width, ch - sy), key: old.spec_content().key })
        &&& self.spec_key() == old.spec_key()
        &&& self.spec_content_height() == old.spec_content_height()
        &&& self.spec_vbar().spec_drag_offset() == old.spec_vbar().spec_drag_offset()
        &&& self.spec_vbar().spec_hover_thumb() == old.spec_vbar().spec_hover_thumb()
    }

    /// Keeps the scroll offset in range and places the content, shifted up by it.
    pub fn layout(&mut self, viewport_size: Vec2i)
        requires
            fits_i32(old(self).spec_content_height() - viewport_size.y),
            old(self).spec_content_height() >= 0,
        ensures
            final(self).laid_out(*old(self), viewport_size),
    {
        self.vbar.layout(viewport_size, self.content_height);
        let width = self.content_width(viewport_size);
        let scroll_y = self.vbar.scroll_y(viewport_size.y, self.content_height);
        self.content.bounds = Bounds2i::from_coords(0, -scroll_y, width, self.content_height - scroll_y);
    }

    /// `self` and `scene` are `old` and `old_scene` after handling a mouse event.
    pub open spec fn event_applied(&self, old: ScrollPanel, mouse: MouseEvent, bounds: Bounds2i, old_scene: SceneTree, scene: SceneTree) -> bool {
        &&& self.spec_key() == old.spec_key()
        &&& self.spec_content() == old.spec_content()
        &&& self.spec_content_height() == old.spec_content_height()
        &&& self.spec_vbar().event_applied(old.spec_vbar(), mouse, bounds, old.spec_key(), old.spec_content_height(), old_scene, scene)
        &&& old_scene.wf() ==> scene.wf()
        &&& forall|k: SlotKey| #[trigger] scene.spec_parent(k) == old_scene.spec_parent(k)
        &&& scene.spec_content() == old_scene.spec_content()
    }

    /// Hands mouse input over the panel, whose scene bounds are `bounds`, to its scrollbar.
    pub fn event(&mut self, mouse: MouseEvent, bounds: Bounds2i, scene: &mut SceneTree)
        requires
            old(self).event_fits(mouse, bounds),
        ensures
            final(self).event_applied(*old(self), mouse, bounds, *old(scene), *final(scene)),
    {
        let key = self.key;
        let content_height = self.content_height;
        self.vbar.event(mouse, bounds, key, content_height, scene);
    }
}

/// What the scrollbar of a viewport of `size` over content of `content_height`
/// draws: its track, then its thumb (brighter while dragged), where they show.
pub open spec fn scrollbar_shapes(bar: ScrollVBar, size: Vec2i, content_height: int) -> Seq<ShapeView> {
    let scroll_y = spec_clamp(bar.spec_scroll() as int, 0, spec_max_scroll(content_height, size.y as int));
    let track = match spec_track(size, content_height) {
        Some(t) => seq![ShapeView::Fill { bounds: t, color: Rgba8 { r: 24, g: 26, b: 31, a: 181 } }],
        None => seq![],
    };
    let thumb = match spec_thumb(size, content_height, scroll_y) {
        Some(t) => seq![ShapeView::Fill {
            bounds: t,
            color: if bar.spec_drag_offset() is Some { spec_rgb(174, 184, 198) } else { spec_rgb(112, 121, 137) },
        }],
        None => seq![],
    };
    track + thumb
}

impl ScrollVBar {
    /// Returns what the scrollbar of a viewport of `size` over content of
    /// `content_height` draws.
    pub fn draw(&self, size: Vec2i, content_height: i32) -> (r: Vec<Shape>)
        requires
            metrics_fit(size, content_height as int),
        ensures
            shapes_view(r@) == scrollbar_shapes(*self, size, content_height as int),
    {
        let scroll_y = self.scroll_y(size.y, content_height);
        let mut r: Vec<Shape> = Vec::new();
        match self.track(size, content_height) {
            Some(t) => r.push(Shape::Fill { bounds: t, color: Rgba8 { r: 24, g: 26, b: 31, a: 181 } }),
            None => {},
        }
        match self.thumb(size, content_height, scroll_y) {
            Some(t) => {
                let color = if self.drag_offset.is_some() { rgb(174, 184, 198) } else { rgb(112, 121, 137) };
                r.push(Shape::Fill { bounds: t, color });
            },
            None => {},
        }
        proof {
            assert(shapes_view(r@) =~= scrollbar_shapes(*self, size, content_height as int));
        }
        r
    }
}

impl ScrollPanel {
    /// Returns what the scroll panel draws at `size` around its content: its
    /// scrollbar.
    pub fn draw(&self, size: Vec2i) -> (r: Vec<Shape>)
        requires
            metrics_fit(size, self.spec_content_height() as int),
        ensures
            shapes_view(r@) == scrollbar_shapes(self.spec_vbar(), size, self.spec_content_height() as int),
    {
        self.vbar.draw(size, self.content_height)
    }
}

/// The thumb lies within the track for every scroll offset in range.
pub proof fn lemma_thumb_in_track(size: Vec2i, content_height: int, scroll_y: int)
    requires
        0 <= scroll_y <= spec_max_scroll(content_height, size.y as int),
        spec_track(size, content_height) is Some,
    ensures
        ({
            let track = spec_track(size, content_height)->Some_0;
            let thumb = spec_thumb(size, content_height, scroll_y)->Some_0;
            &&& spec_thumb(size, content_height, scroll_y) is Some
            &&& thumb.mins.x == track.mins.x && thumb.maxs.x == track.maxs.x
            &&& track.mins.y <= thumb.mins.y
            &&& thumb.maxs.y <= track.maxs.y
        }),
{
    let track = spec_track(size, content_height)->Some_0;
    let ms = spec_max_scroll(content_height, size.y as int);
    let th = track.maxs.y - track.mins.y;
    let h = spec_thumb_height(size.y as int, content_height, th);
    let range = th - h;
    assert(0 <= h <= th);
    if range != 0 {
        let q = (scroll_y * range + ms / 2) / ms;
        assert(0 <= q <= range) by (nonlinear_arith)
            requires
                0 <= scroll_y <= ms,
                ms > 0,
                range > 0,
                q == (scroll_y * range + ms / 2) / ms,
        {
            assert(scroll_y * range <= ms * range);
            assert(scroll_y * range + ms / 2 < ms * (range + 1));
        }
    }
}

/// Pressing the left button on the thumb starts a drag: the scrollbar then asks for
/// the grabbing cursor, the pointer is captured for the owner and the scroll offset
/// stays; releasing the left button next ends the drag: the cursor no longer grabs
/// and the pointer is released.
pub proof fn law_thumb_press_release(
    b0: ScrollVBar,
    b1: ScrollVBar,
    b2: ScrollVBar,
    down: MouseEvent,
    up: MouseEvent,
    bounds: Bounds2i,
    owner: SlotKey,
    content_height: i32,
    s0: SceneTree,
    s1: SceneTree,
    s2: SceneTree,
)
    requires
        down.kind.is_left_down(),
        bounds.spec_contains(down.pointer),
        thumb_contains(
            Vec2i { x: bounds.spec_width() as i32, y: bounds.spec_height() as i32 },
            content_height as int,
            spec_clamp(b0.spec_scroll() as int, 0, spec_max_scroll(content_height as int, bounds.spec_height() as i32 as int)),
            Vec2i { x: (down.pointer.x - bounds.mins.x) as i32, y: (down.pointer.y - bounds.mins.y) as i32 },
        ),
        b1.event_applied(b0, down, bounds, owner, content_height, s0, s1),
        up.kind.is_left_up(),
        b2.event_applied(b1, up, bounds, owner, content_height, s1, s2),
    ensures
        b1.spec_drag_offset() is Some,
        s1.with_captured(s0, Some(owner)),
        b1.spec_scroll() == b0.spec_scroll(),
        b2.spec_drag_offset() is None,
        s2.with_captured(s1, None),
{
    let size = Vec2i { x: bounds.spec_width() as i32, y: bounds.spec_height() as i32 };
    let sy = spec_clamp(b0.spec_scroll() as int, 0, spec_max_scroll(content_height as int, size.y as int));
    assert(spec_track(size, content_height as int) is Some);
    lemma_thumb_in_track(size, content_height as int, sy);
}

} // verus!
