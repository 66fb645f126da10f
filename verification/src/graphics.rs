//! Graphics pipeline state shared by the drawing front end and the backends.
use vstd::prelude::*;

use crate::handle::VertexBuffer;

verus! {

/// Primitive type.
#[derive(Copy, Clone, Debug, PartialEq, Eq, Structural)]
pub enum PrimType {
    /// Lines, two indices per primitive.
    Lines,
    /// Triangles, three indices per primitive.
    Triangles,
}

/// Blend mode.
#[derive(Copy, Clone, Debug, PartialEq, Eq, Structural)]
pub enum BlendMode {
    Solid,
    Alpha,
    Additive,
    Lighten,
    Screen,
    Darken,
    Multiply,
}

/// Depth test.
#[derive(Copy, Clone, Debug, PartialEq, Eq, Structural)]
pub enum DepthTest {
    Never,
    Less,
    Equal,
    LessEqual,
    Greater,
    NotEqual,
    GreaterEqual,
    Always,
}

/// Comparison function (texture depth compare).
#[derive(Copy, Clone, Debug, PartialEq, Eq, Structural)]
pub enum Compare {
    Never,
    Less,
    Equal,
    LessEqual,
    Greater,
    NotEqual,
    GreaterEqual,
    Always,
}

/// Triangle culling mode.
#[derive(Copy, Clone, Debug, PartialEq, Eq, Structural)]
pub enum CullMode {
    /// Cull counter-clockwise triangles.
    CCW,
    /// Cull clockwise triangles.
    CW,
}

/// Buffer usage hint.
#[derive(Copy, Clone, Debug, PartialEq, Eq, Structural)]
pub enum BufferUsage {
    Static,
    Dynamic,
    Stream,
}

/// Index element type.
#[derive(Copy, Clone, Debug, PartialEq, Eq, Structural)]
pub enum IndexType {
    U8,
    U16,
    U32,
}

impl IndexType {
    /// Size of one index in bytes.
    pub fn size(self) -> (r: u32)
        ensures
            r == match self {
                IndexType::U8 => 1u32,
                IndexType::U16 => 2u32,
                IndexType::U32 => 4u32,
            },
    {
        match self {
            IndexType::U8 => 1,
            IndexType::U16 => 2,
            IndexType::U32 => 4,
        }
    }
}

/// Vertex attribute divisor for instanced rendering.
#[derive(Copy, Clone, Debug, PartialEq, Eq, Structural)]
pub enum VertexDivisor {
    PerVertex,
    PerInstance,
}

/// Texture filtering.
#[derive(Copy, Clone, Debug, PartialEq, Eq, Structural)]
pub enum TextureFilter {
    Nearest,
    Linear,
}

/// Texture wrapping.
#[derive(Copy, Clone, Debug, PartialEq, Eq, Structural)]
pub enum TextureWrap {
    ClampEdge,
    ClampBorder,
    Repeat,
    Mirror,
}

/// Errors reported by the graphics backends.
#[derive(Copy, Clone, Debug, PartialEq, Eq, Structural)]
pub enum GfxError {
    /// A draw call was issued outside `begin()`/`end()`.
    InvalidDrawCallTime,
    /// A handle did not name a live object.
    InvalidHandle,
    /// An index or vertex range was reversed.
    IndexOutOfBounds,
}

/// Free mode.
#[derive(Copy, Clone, Debug, PartialEq, Eq, Structural)]
pub enum FreeMode {
    /// Delete the resource immediately.
    Delete,
    /// Release the resource, but keep the handle valid for future use.
    Release,
}

/// Draw mask.
#[derive(Copy, Clone, Debug, PartialEq, Eq, Structural)]
pub struct DrawMask {
    pub red: bool,
    pub green: bool,
    pub blue: bool,
    pub alpha: bool,
    pub depth: bool,
    pub stencil: u8,
}

impl DrawMask {
    /// Every channel, depth and all stencil bits.
    pub fn all() -> (r: DrawMask)
        ensures
            r == (DrawMask { red: true, green: true, blue: true, alpha: true, depth: true, stencil: 255 }),
    {
        DrawMask { red: true, green: true, blue: true, alpha: true, depth: true, stencil: 255 }
    }

    /// The color channels only.
    pub fn color() -> (r: DrawMask)
        ensures
            r == (DrawMask { red: true, green: true, blue: true, alpha: true, depth: false, stencil: 0 }),
    {
        DrawMask { red: true, green: true, blue: true, alpha: true, depth: false, stencil: 0 }
    }

    /// Depth only.
    pub fn depth() -> (r: DrawMask)
        ensures
            r == (DrawMask { red: false, green: false, blue: false, alpha: false, depth: true, stencil: 0 }),
    {
        DrawMask { red: false, green: false, blue: false, alpha: false, depth: true, stencil: 0 }
    }

    /// All stencil bits only.
    pub fn stencil() -> (r: DrawMask)
        ensures
            r == (DrawMask { red: false, green: false, blue: false, alpha: false, depth: false, stencil: 255 }),
    {
        DrawMask { red: false, green: false, blue: false, alpha: false, depth: false, stencil: 255 }
    }

    /// Nothing.
    pub fn none() -> (r: DrawMask)
        ensures
            r == (DrawMask { red: false, green: false, blue: false, alpha: false, depth: false, stencil: 0 }),
    {
        DrawMask { red: false, green: false, blue: false, alpha: false, depth: false, stencil: 0 }
    }

    /// The union of two masks.
    pub open spec fn spec_bitor(self, rhs: DrawMask) -> DrawMask {
        DrawMask {
            red: self.red || rhs.red,
            green: self.green || rhs.green,
            blue: self.blue || rhs.blue,
            alpha: self.alpha || rhs.alpha,
            depth: self.depth || rhs.depth,
            stencil: self.stencil | rhs.stencil,
        }
    }

    /// Combines two masks: a channel is written when either mask writes it.
    pub fn bitor(self, rhs: DrawMask) -> (r: DrawMask)
        ensures
            r == self.spec_bitor(rhs),
    {
        DrawMask {
            red: self.red || rhs.red,
            green: self.green || rhs.green,
            blue: self.blue || rhs.blue,
            alpha: self.alpha || rhs.alpha,
            depth: self.depth || rhs.depth,
            stencil: self.stencil | rhs.stencil,
        }
    }
}

/// Combining masks is commutative and idempotent, and `none()` is its identity.
pub proof fn law_draw_mask_union(a: DrawMask, b: DrawMask)
    ensures
        a.spec_bitor(b) == b.spec_bitor(a),
        a.spec_bitor(a) == a,
        a.spec_bitor(DrawMask { red: false, green: false, blue: false, alpha: false, depth: false, stencil: 0 }) == a,
{
    let (x, y) = (a.stencil, b.stencil);
    assert(x | y == y | x) by (bit_vector);
    assert(x | x == x) by (bit_vector);
    assert(x | 0u8 == x) by (bit_vector);
}

/// A vertex buffer bound for drawing together with its divisor.
#[derive(Copy, Clone, Debug, PartialEq, Eq, Structural)]
pub struct DrawVertexBuffer {
    /// Vertex buffer.
    pub buffer: VertexBuffer,
    /// Divisor for instanced rendering.
    pub divisor: VertexDivisor,
}

} // verus!
