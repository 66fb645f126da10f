//! The decisions the OpenGL backend takes before it issues any call: which blend
//! factors a blend mode uses, whether a draw call is valid now and what it draws,
//! which texture units samplers get, and which attribute slots a draw enables.
use vstd::prelude::*;

use crate::graphics::{BlendMode, GfxError, IndexType};

verus! {

/// Source or destination factor of a blend function.
#[derive(Copy, Clone, Debug, PartialEq, Eq, Structural)]
pub enum BlendFactor {
    Zero,
    One,
    SrcAlpha,
    OneMinusSrcAlpha,
    OneMinusSrcColor,
    DstColor,
}

/// How blended source and destination colours combine.
#[derive(Copy, Clone, Debug, PartialEq, Eq, Structural)]
pub enum BlendEquation {
    Add,
    Max,
    Min,
}

/// The blend function and equation of a blend mode.
#[derive(Copy, Clone, Debug, PartialEq, Eq, Structural)]
pub struct BlendParams {
    pub sfactor: BlendFactor,
    pub dfactor: BlendFactor,
    pub equation: BlendEquation,
}

/// The blend function and equation that each blend mode stands for.
pub open spec fn spec_blend_params(mode: BlendMode) -> BlendParams {
    match mode {
        BlendMode::Solid => BlendParams { sfactor: BlendFactor::One, dfactor: BlendFactor::Zero, equation: BlendEquation::Add },
        BlendMode::Alpha => BlendParams { sfactor: BlendFactor::SrcAlpha, dfactor: BlendFactor::OneMinusSrcAlpha, equation: BlendEquation::Add },
        BlendMode::Additive => BlendParams { sfactor: BlendFactor::One, dfactor: BlendFactor::One, equation: BlendEquation::Add },
        BlendMode::Lighten => BlendParams { sfactor: BlendFactor::One, dfactor: BlendFactor::One, equation: BlendEquation::Max },
        BlendMode::Screen => BlendParams { sfactor: BlendFactor::One, dfactor: BlendFactor::OneMinusSrcColor, equation: BlendEquation::Add },
        BlendMode::Darken => BlendParams { sfactor: BlendFactor::One, dfactor: BlendFactor::One, equation: BlendEquation::Min },
        BlendMode::Multiply => BlendParams { sfactor: BlendFactor::DstColor, dfactor: BlendFactor::Zero, equation: BlendEquation::Add },
    }
}

/// Returns the blend function and equation for `mode`.
pub fn blend_params(mode: BlendMode) -> (r: BlendParams)
    ensures
        r == spec_blend_params(mode),
{
    match mode {
        BlendMode::Solid => BlendParams { sfactor: BlendFactor::One, dfactor: BlendFactor::Zero, equation: BlendEquation::Add },
        BlendMode::Alpha => BlendParams { sfactor: BlendFactor::SrcAlpha, dfactor: BlendFactor::OneMinusSrcAlpha, equation: BlendEquation::Add },
        BlendMode::Additive => BlendParams { sfactor: BlendFactor::One, dfactor: BlendFactor::One, equation: BlendEquation::Add },
        BlendMode::Lighten => BlendParams { sfactor: BlendFactor::One, dfactor: BlendFactor::One, equation: BlendEquation::Max },
        BlendMode::Screen => BlendParams { sfactor: BlendFactor::One, dfactor: BlendFactor::OneMinusSrcColor, equation: BlendEquation::Add },
        BlendMode::Darken => BlendParams { sfactor: BlendFactor::One, dfactor: BlendFactor::One, equation: BlendEquation::Min },
        BlendMode::Multiply => BlendParams { sfactor: BlendFactor::DstColor, dfactor: BlendFactor::Zero, equation: BlendEquation::Add },
    }
}

/// A non-indexed draw: `count` vertices from `first`.
#[derive(Copy, Clone, Debug, PartialEq, Eq, Structural)]
pub struct ArraysDraw {
    pub first: u32,
    pub count: u32,
}

/// An indexed draw: `count` indices of `index_type`, starting `byte_offset` bytes
/// into the index buffer.
#[derive(Copy, Clone, Debug, PartialEq, Eq, Structural)]
pub struct IndexedDraw {
    pub count: u32,
    pub byte_offset: u32,
    pub index_type: IndexType,
}

/// Whether draw calls may be issued: between `begin` and `end` of a frame.
pub struct DrawSession {
    drawing: bool,
}

impl DrawSession {
    pub closed spec fn spec_drawing(&self) -> bool {
        self.drawing
    }

    /// A session outside any frame.
    pub fn new() -> (r: DrawSession)
        ensures
            !r.spec_drawing(),
    {
        DrawSession { drawing: false }
    }

    /// Returns whether a frame is open.
    pub fn drawing(&self) -> (r: bool)
        ensures
            r == self.spec_drawing(),
    {
        self.drawing
    }

    /// Opens a frame; fails when one is open already.
    pub fn begin(&mut self) -> (r: Result<(), GfxError>)
        ensures
            r == if old(self).spec_drawing() { Err::<(), GfxError>(GfxError::InvalidDrawCallTime) } else { Ok::<(), GfxError>(()) },
            final(self).spec_drawing(),
    {
        if self.drawing {
            return Err(GfxError::InvalidDrawCallTime);
        }
        self.drawing = true;
        Ok(())
    }

    /// Closes the frame.
    pub fn end(&mut self) -> (r: Result<(), GfxError>)
        ensures
            r == Ok::<(), GfxError>(()),
            !final(self).spec_drawing(),
    {
        self.drawing = false;
        Ok(())
    }

    /// A clear is valid only inside a frame.
    pub fn check_clear(&self) -> (r: Result<(), GfxError>)
        ensures
            r == if self.spec_drawing() { Ok::<(), GfxError>(()) } else { Err(GfxError::InvalidDrawCallTime) },
    {
        if !self.drawing {
            return Err(GfxError::InvalidDrawCallTime);
        }
        Ok(())
    }

    /// Checks a non-indexed draw call, given whether every vertex buffer and the
    /// shader it names exist. `Ok(None)` is a valid call that draws nothing.
    pub fn check_arrays(&self, vertex_buffers_found: bool, shader_found: bool, vertex_start: u32, vertex_end: u32) -> (r: Result<Option<ArraysDraw>, GfxError>)
        ensures
            r == if !self.spec_drawing() {
                Err(GfxError::InvalidDrawCallTime)
            } else if !vertex_buffers_found || !shader_found {
                Err(GfxError::InvalidHandle)
            } else if vertex_end < vertex_start {
                Err(GfxError::IndexOutOfBounds)
            } else if vertex_start == vertex_end {
                Ok(None)
            } else {
                Ok(Some(ArraysDraw { first: vertex_start, count: (vertex_end - vertex_start) as u32 }))
            },
    {
        if !self.drawing {
            return Err(GfxError::InvalidDrawCallTime);
        }
        if !vertex_buffers_found || !shader_found {
            return Err(GfxError::InvalidHandle);
        }
        if vertex_end < vertex_start {
            return Err(GfxError::IndexOutOfBounds);
        }
        if vertex_start == vertex_end {
            return Ok(None);
        }
        Ok(Some(ArraysDraw { first: vertex_start, count: vertex_end - vertex_start }))
    }

    /// The indexed draw that a valid, non-empty call makes.
    pub open spec fn spec_indexed(&self, vertex_buffers_found: bool, index_type: Option<IndexType>, shader_found: bool, index_start: u32, index_end: u32) -> Result<Option<IndexedDraw>, GfxError> {
        if !self.spec_drawing() {
            Err(GfxError::InvalidDrawCallTime)
        } else if !vertex_buffers_found || index_type is None || !shader_found {
            Err(GfxError::InvalidHandle)
        } else if index_end < index_start {
            Err(GfxError::IndexOutOfBounds)
        } else if index_start == index_end {
            Ok(None)
        } else {
            Ok(Some(IndexedDraw {
                count: (index_end - index_start) as u32,
                byte_offset: (index_start * index_size(index_type->Some_0)) as u32,
                index_type: index_type->Some_0,
            }))
        }
    }

    /// Checks an indexed draw call, given whether every vertex buffer and the shader
    /// it names exist and the type of its index buffer (`None` when that buffer does
    /// not exist). `Ok(None)` is a valid call that draws nothing.
    pub fn check_indexed(&self, vertex_buffers_found: bool, index_type: Option<IndexType>, shader_found: bool, index_start: u32, index_end: u32) -> (r: Result<Option<IndexedDraw>, GfxError>)
        requires
            self.spec_indexed(vertex_buffers_found, index_type, shader_found, index_start, index_end) is Ok
                ==> index_start * index_size(index_type->Some_0) <= u32::MAX,
        ensures
            r == self.spec_indexed(vertex_buffers_found, index_type, shader_found, index_start, index_end),
    {
        if !self.drawing {
            return Err(GfxError::InvalidDrawCallTime);
        }
        if !vertex_buffers_found {
            return Err(GfxError::InvalidHandle);
        }
        let ty = match index_type {
            Some(ty) => ty,
            None => {
                return Err(GfxError::InvalidHandle);
            },
        };
        if !shader_found {
            return Err(GfxError::InvalidHandle);
        }
        if index_end < index_start {
            return Err(GfxError::IndexOutOfBounds);
        }
        if index_start == index_end {
            return Ok(None);
        }
        Ok(Some(IndexedDraw { count: index_end - index_start, byte_offset: index_start * ty.size(), index_type: ty }))
    }
}

/// Size of one index of `ty` in bytes.
pub open spec fn index_size(ty: IndexType) -> int {
    match ty {
        IndexType::U8 => 1,
        IndexType::U16 => 2,
        IndexType::U32 => 4,
    }
}

/// An active uniform as the shader reports it: its location (negative when the
/// uniform was optimised out) and whether it is a sampler.
#[derive(Copy, Clone, Debug, PartialEq, Eq, Structural)]
pub struct ActiveUniform {
    pub location: i32,
    pub sampler: bool,
}

/// Number of located samplers among the first `i` uniforms.
pub open spec fn samplers_before(uniforms: Seq<ActiveUniform>, i: int) -> int
    decreases i,
{
    if i <= 0 {
        0
    } else {
        samplers_before(uniforms, i - 1) + if uniforms[i - 1].location >= 0 && uniforms[i - 1].sampler { 1int } else { 0int }
    }
}

/// A count of samplers never exceeds the number of uniforms counted.
pub proof fn lemma_samplers_before_bounded(uniforms: Seq<ActiveUniform>, i: int)
    requires
        0 <= i,
    ensures
        0 <= samplers_before(uniforms, i) <= i,
    decreases i,
{
    if i > 0 {
        lemma_samplers_before_bounded(uniforms, i - 1);
    }
}

/// Assigns texture units to the uniforms of a linked program, in order: each located
/// sampler gets the next unit from zero, every other located uniform gets `-1`, and
/// uniforms without a location are skipped (`None`).
pub fn assign_texture_units(uniforms: &Vec<ActiveUniform>) -> (r: Vec<Option<i32>>)
    requires
        uniforms@.len() <= i32::MAX,
    ensures
        r@.len() == uniforms@.len(),
        forall|i: int| 0 <= i < r@.len() ==> #[trigger] r@[i] == if uniforms@[i].location < 0 {
            None
        } else if uniforms@[i].sampler {
            Some(samplers_before(uniforms@, i) as i32)
        } else {
            Some(-1i32)
        },
{
    let mut units: Vec<Option<i32>> = Vec::new();
    let mut next: i32 = 0;
    let mut i: usize = 0;
    while i < uniforms.len()
        invariant
            i <= uniforms@.len(),
            uniforms@.len() <= i32::MAX,
            units@.len() == i,
            next == samplers_before(uniforms@, i as int),
            forall|j: int| 0 <= j < i ==> #[trigger] units@[j] == if uniforms@[j].location < 0 {
                None
            } else if uniforms@[j].sampler {
                Some(samplers_before(uniforms@, j) as i32)
            } else {
                Some(-1i32)
            },
        decreases uniforms@.len() - i,
    {
        proof {
            lemma_samplers_before_bounded(uniforms@, i as int);
        }
        let u = uniforms[i];
        if u.location < 0 {
            units.push(None);
        } else if u.sampler {
            units.push(Some(next));
            next = next + 1;
        } else {
            units.push(Some(-1));
        }
        i = i + 1;
    }
    units
}

/// Whether bit `i` of `mask` is set.
pub open spec fn bit_set(mask: u32, i: u32) -> bool {
    (mask >> i) & 1u32 == 1u32
}

proof fn lemma_set_bit(mask: u32, l: u32, i: u32)
    requires
        l < 32,
        i < 32,
    ensures
        bit_set(mask | (1u32 << l), i) == (bit_set(mask, i) || i == l),
{
    assert(((mask | (1u32 << l)) >> i) & 1u32 == 1u32 <==> (((mask >> i) & 1u32 == 1u32) || i == l)) by (bit_vector)
        requires
            l < 32,
            i < 32,
    ;
}

/// The attribute mask of the vertex attribute slots a draw enables: bit `l` is set
/// for each location `l` in `locations`.
pub fn attribute_mask(locations: &Vec<u32>) -> (r: u32)
    requires
        forall|j: int| 0 <= j < locations@.len() ==> #[trigger] locations@[j] < 32,
    ensures
        forall|i: u32| i < 32 ==> (bit_set(r, i) <==> locations@.contains(i)),
{
    let mut mask: u32 = 0;
    let mut j: usize = 0;
    assert forall|i: u32| i < 32 implies !bit_set(0u32, i) by {
        assert((0u32 >> i) & 1u32 == 0u32) by (bit_vector);
    }
    while j < locations.len()
        invariant
            j <= locations@.len(),
            forall|k: int| 0 <= k < locations@.len() ==> #[trigger] locations@[k] < 32,
            forall|i: u32| i < 32 ==> (bit_set(mask, i) <==> locations@.subrange(0, j as int).contains(i)),
        decreases locations@.len() - j,
    {
        let l = locations[j];
        let ghost before = mask;
        mask = mask | (1u32 << l);
        proof {
            assert forall|i: u32| i < 32 implies (bit_set(mask, i) <==> locations@.subrange(0, j + 1).contains(i)) by {
                lemma_set_bit(before, l, i);
                let s0 = locations@.subrange(0, j as int);
                let s1 = locations@.subrange(0, j + 1);
                assert(s1[j as int] == l);
                if s0.contains(i) {
                    let w = choose|w: int| 0 <= w < s0.len() && s0[w] == i;
                    assert(s1[w] == i);
                }
                if s1.contains(i) && i != l {
                    let w = choose|w: int| 0 <= w < s1.len() && s1[w] == i;
                    assert(s0[w] == i);
                }
            }
        }
        j = j + 1;
    }
    assert(locations@.subrange(0, locations@.len() as int) =~= locations@);
    mask
}

/// The attribute slots a mask enables, lowest first.
pub fn mask_locations(mask: u32) -> (r: Vec<u32>)
    ensures
        forall|k: int| 0 <= k < r@.len() ==> #[trigger] r@[k] < 32 && bit_set(mask, r@[k]),
        forall|i: u32| i < 32 && bit_set(mask, i) ==> r@.contains(i),
        forall|a: int, b: int| 0 <= a < b < r@.len() ==> r@[a] < r@[b],
{
    let mut out: Vec<u32> = Vec::new();
    let mut i: u32 = 0;
    while i < 32
        invariant
            i <= 32,
            forall|k: int| 0 <= k < out@.len() ==> #[trigger] out@[k] < i && bit_set(mask, out@[k]),
            forall|b: u32| b < i && bit_set(mask, b) ==> out@.contains(b),
            forall|a: int, b: int| 0 <= a < b < out@.len() ==> out@[a] < out@[b],
        decreases 32 - i,
    {
        let ghost before = out@;
        if (mask >> i) & 1 == 1 {
            out.push(i);
            proof {
                assert(out@[out@.len() - 1] == i);
            }
        }
        proof {
            assert forall|b: u32| b < i + 1 && bit_set(mask, b) implies out@.contains(b) by {
                if b < i {
                    let w = choose|w: int| 0 <= w < before.len() && before[w] == b;
                    assert(out@[w] == b);
                } else {
                    assert(out@[out@.len() - 1] == i);
                }
            }
        }
        i = i + 1;
    }
    out
}

/// A frame cannot be opened twice: once `begin` succeeded, a second `begin` fails
/// until `end` closes the frame, after which `begin` succeeds again.
pub proof fn law_begin_end_cycle(
    s0: DrawSession,
    s1: DrawSession,
    r1: Result<(), GfxError>,
    s2: DrawSession,
    r2: Result<(), GfxError>,
    s3: DrawSession,
    s4: DrawSession,
    r4: Result<(), GfxError>,
)
    requires
        !s0.spec_drawing(),
        r1 == (if s0.spec_drawing() { Err::<(), GfxError>(GfxError::InvalidDrawCallTime) } else { Ok::<(), GfxError>(()) }),
        s1.spec_drawing(),
        r2 == (if s1.spec_drawing() { Err::<(), GfxError>(GfxError::InvalidDrawCallTime) } else { Ok::<(), GfxError>(()) }),
        s2.spec_drawing(),
        !s3.spec_drawing(),
        r4 == (if s3.spec_drawing() { Err::<(), GfxError>(GfxError::InvalidDrawCallTime) } else { Ok::<(), GfxError>(()) }),
        s4.spec_drawing(),
    ensures
        r1 is Ok,
        r2 == Err::<(), GfxError>(GfxError::InvalidDrawCallTime),
        r4 is Ok,
{
}

/// The value of a blend factor for a source colour channel `src`, destination
/// channel `dst` and source alpha `alpha`, channels scaled to `[0, 1]`.
pub open spec fn factor_value(f: BlendFactor, src: int, dst: int, alpha: int) -> int {
    match f {
        BlendFactor::Zero => 0,
        BlendFactor::One => 1,
        BlendFactor::SrcAlpha => alpha,
        BlendFactor::OneMinusSrcAlpha => 1 - alpha,
        BlendFactor::OneMinusSrcColor => 1 - src,
        BlendFactor::DstColor => dst,
    }
}

/// The channel that blending `src` (with alpha `alpha`) over `dst` produces with
/// `p`: the weighted source and destination combined by the equation.
pub open spec fn blended(p: BlendParams, src: int, dst: int, alpha: int) -> int {
    let s = src * factor_value(p.sfactor, src, dst, alpha);
    let d = dst * factor_value(p.dfactor, src, dst, alpha);
    match p.equation {
        BlendEquation::Add => s + d,
        BlendEquation::Max => if s >= d { s } else { d },
        BlendEquation::Min => if s <= d { s } else { d },
    }
}

/// What each blend mode does to a channel: solid replaces the destination with the
/// source, alpha mixes them by the source alpha, additive adds them, lighten keeps the
/// larger and darken the smaller, screen gives `src + dst - src * dst`, and multiply
/// gives `src * dst`.
pub proof fn law_blend_modes(src: int, dst: int, alpha: int)
    ensures
        blended(spec_blend_params(BlendMode::Solid), src, dst, alpha) == src,
        blended(spec_blend_params(BlendMode::Alpha), src, dst, alpha) == src * alpha + dst * (1 - alpha),
        blended(spec_blend_params(BlendMode::Additive), src, dst, alpha) == src + dst,
        blended(spec_blend_params(BlendMode::Lighten), src, dst, alpha) == if src >= dst { src } else { dst },
        blended(spec_blend_params(BlendMode::Darken), src, dst, alpha) == if src <= dst { src } else { dst },
        blended(spec_blend_params(BlendMode::Screen), src, dst, alpha) == src + dst - src * dst,
        blended(spec_blend_params(BlendMode::Multiply), src, dst, alpha) == src * dst,
{
    assert(src * 1 == src && dst * 0 == 0 && dst * 1 == dst);
    assert(dst * (1 - src) == dst - src * dst) by (nonlinear_arith);
}

} // verus!
