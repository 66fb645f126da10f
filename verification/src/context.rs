//! The context a widget is laid out and drawn in: where it lies, what is visible.
use vstd::prelude::*;

use crate::geom::{Bounds2i, Vec2i};

verus! {

/// The instant a frame is laid out or drawn at.
#[verifier::external_type_specification]
#[verifier::external_body]
pub struct ExInstant(std::time::Instant);

/// Context for laying out and drawing a widget.
pub struct DrawContext {
    /// The bounds used for root-space projection.
    pub viewport: Bounds2i,
    /// The clipping rectangle for the current draw operation.
    pub clip: Bounds2i,
    /// The current time for the draw operation.
    pub time: std::time::Instant,
    /// The widget bounds in scene coordinates.
    pub bounds: Bounds2i,
}

/// The scissor rectangle for `clip` in `viewport`: the visible part of the clip,
/// flipped vertically within the viewport, or an empty rectangle at the origin when
/// nothing of it is visible.
pub open spec fn spec_scissor(viewport: Bounds2i, clip: Bounds2i) -> Bounds2i {
    match clip.spec_intersect(viewport) {
        None => Bounds2i { mins: Vec2i { x: 0, y: 0 }, maxs: Vec2i { x: 0, y: 0 } },
        Some(c) => Bounds2i {
            mins: Vec2i { x: c.mins.x, y: (viewport.mins.y + viewport.maxs.y - c.maxs.y) as i32 },
            maxs: Vec2i { x: c.maxs.x, y: (viewport.mins.y + viewport.maxs.y - c.mins.y) as i32 },
        },
    }
}

impl DrawContext {
    /// Converts the top-left-origin GUI clip rectangle to a bottom-left-origin
    /// graphics scissor.
    pub fn scissor(&self) -> (r: Bounds2i)
        ensures
            r == spec_scissor(self.viewport, self.clip),
            self.clip.spec_intersect(self.viewport) matches Some(c) ==> {
                &&& self.viewport.mins.y <= r.mins.y <= self.viewport.maxs.y
                &&& self.viewport.mins.y <= r.maxs.y <= self.viewport.maxs.y
            },
    {
        let clip = match self.clip.intersect(self.viewport) {
            None => {
                return Bounds2i::vec(Vec2i::zero());
            },
            Some(c) => c,
        };
        let flip = self.viewport.mins.y as i64 + self.viewport.maxs.y as i64;
        let y_min = flip - clip.maxs.y as i64;
        let y_max = flip - clip.mins.y as i64;
        Bounds2i::new(Vec2i::new(clip.mins.x, y_min as i32), Vec2i::new(clip.maxs.x, y_max as i32))
    }

    /// The context of a child placed at `local` within this widget: the child's scene
    /// bounds, clipped by the visible part of this widget (an empty rectangle at the
    /// origin when nothing of the child is visible).
    pub fn child(&self, local: Bounds2i) -> (r: DrawContext)
        requires
            local.can_translate(self.bounds.mins),
        ensures
            r.viewport == self.viewport,
            r.time == self.time,
            r.bounds == local.spec_translate(self.bounds.mins),
            r.clip == match self.clip.spec_intersect(local.spec_translate(self.bounds.mins)) {
                Some(c) => c,
                None => Bounds2i { mins: Vec2i { x: 0, y: 0 }, maxs: Vec2i { x: 0, y: 0 } },
            },
    {
        let bounds = local.translate(self.bounds.mins);
        let clip = match self.clip.intersect(bounds) {
            Some(c) => c,
            None => Bounds2i::zero(),
        };
        DrawContext { viewport: self.viewport, clip, time: self.time, bounds }
    }
}

} // verus!
