//! Graphics object handles.
//!
//! Handles are plain integers; the value zero is the invalid handle.
use vstd::prelude::*;

verus! {

/// Graphics base object handle. Every specific handle converts into it.
#[derive(Copy, Clone, Debug, Default, PartialEq, Eq, Hash, Structural)]
pub struct BaseObject {
    pub value: u32,
}

/// Vertex buffer handle.
#[derive(Copy, Clone, Debug, Default, PartialEq, Eq, Hash, Structural)]
pub struct VertexBuffer {
    pub value: u32,
}

/// Index buffer handle.
#[derive(Copy, Clone, Debug, Default, PartialEq, Eq, Hash, Structural)]
pub struct IndexBuffer {
    pub value: u32,
}

/// Shader program handle.
#[derive(Copy, Clone, Debug, Default, PartialEq, Eq, Hash, Structural)]
pub struct Shader {
    pub value: u32,
}

/// 2D texture handle.
#[derive(Copy, Clone, Debug, Default, PartialEq, Eq, Hash, Structural)]
pub struct Texture2D {
    pub value: u32,
}

/// Types of graphics objects.
#[derive(Copy, Clone, Debug, PartialEq, Eq, Structural)]
pub enum ObjectType {
    /// Vertex buffer.
    VertexBuffer,
    /// Index buffer.
    IndexBuffer,
    /// Shader program.
    ShaderProgram,
    /// Texture 2D.
    Texture2D,
}

impl BaseObject {
    /// The invalid handle.
    pub fn invalid() -> (r: BaseObject)
        ensures
            r.value == 0,
    {
        BaseObject { value: 0 }
    }

    /// Asserts that the handle is valid; the invalid handle is refused.
    pub fn unwrap(self) -> (r: Self)
        requires
            self.value != 0,
        ensures
            r == self,
    {
        self
    }

    /// Returns `self` unless it is the invalid handle, then `default`.
    pub fn unwrap_or(self, default: Self) -> (r: Self)
        ensures
            r == if self.value == 0 { default } else { self },
    {
        if self.value == 0 { default } else { self }
    }
}

impl VertexBuffer {
    /// The invalid handle.
    pub fn invalid() -> (r: VertexBuffer)
        ensures
            r.value == 0,
    {
        VertexBuffer { value: 0 }
    }

    /// Asserts that the handle is valid; the invalid handle is refused.
    pub fn unwrap(self) -> (r: Self)
        requires
            self.value != 0,
        ensures
            r == self,
    {
        self
    }

    /// Returns `self` unless it is the invalid handle, then `default`.
    pub fn unwrap_or(self, default: Self) -> (r: Self)
        ensures
            r == if self.value == 0 { default } else { self },
    {
        if self.value == 0 { default } else { self }
    }

    /// The same object seen as a base object.
    pub fn to_base(self) -> (r: BaseObject)
        ensures
            r.value == self.value,
    {
        BaseObject { value: self.value }
    }
}

impl IndexBuffer {
    /// The invalid handle.
    pub fn invalid() -> (r: IndexBuffer)
        ensures
            r.value == 0,
    {
        IndexBuffer { value: 0 }
    }

    /// Asserts that the handle is valid; the invalid handle is refused.
    pub fn unwrap(self) -> (r: Self)
        requires
            self.value != 0,
        ensures
            r == self,
    {
        self
    }

    /// Returns `self` unless it is the invalid handle, then `default`.
    pub fn unwrap_or(self, default: Self) -> (r: Self)
        ensures
            r == if self.value == 0 { default } else { self },
    {
        if self.value == 0 { default } else { self }
    }

    /// The same object seen as a base object.
    pub fn to_base(self) -> (r: BaseObject)
        ensures
            r.value == self.value,
    {
        BaseObject { value: self.value }
    }
}

impl Shader {
    /// The invalid handle.
    pub fn invalid() -> (r: Shader)
        ensures
            r.value == 0,
    {
        Shader { value: 0 }
    }

    /// Asserts that the handle is valid; the invalid handle is refused.
    pub fn unwrap(self) -> (r: Self)
        requires
            self.value != 0,
        ensures
            r == self,
    {
        self
    }

    /// Returns `self` unless it is the invalid handle, then `default`.
    pub fn unwrap_or(self, default: Self) -> (r: Self)
        ensures
            r == if self.value == 0 { default } else { self },
    {
        if self.value == 0 { default } else { self }
    }

    /// The same object seen as a base object.
    pub fn to_base(self) -> (r: BaseObject)
        ensures
            r.value == self.value,
    {
        BaseObject { value: self.value }
    }
}

impl Texture2D {
    /// The invalid handle.
    pub fn invalid() -> (r: Texture2D)
        ensures
            r.value == 0,
    {
        Texture2D { value: 0 }
    }

    /// Asserts that the handle is valid; the invalid handle is refused.
    pub fn unwrap(self) -> (r: Self)
        requires
            self.value != 0,
        ensures
            r == self,
    {
        self
    }

    /// Returns `self` unless it is the invalid handle, then `default`.
    pub fn unwrap_or(self, default: Self) -> (r: Self)
        ensures
            r == if self.value == 0 { default } else { self },
    {
        if self.value == 0 { default } else { self }
    }

    /// The same object seen as a base object.
    pub fn to_base(self) -> (r: BaseObject)
        ensures
            r.value == self.value,
    {
        BaseObject { value: self.value }
    }
}

/// Casts a base object to a vertex buffer handle, given the type that the graphics
/// backend records for it (`None` when the object is unknown).
pub fn cast_vertex_buffer(base: BaseObject, ty: Option<ObjectType>) -> (r: Option<VertexBuffer>)
    ensures
        r == (if ty == Some(ObjectType::VertexBuffer) { Some(VertexBuffer { value: base.value }) } else { None::<VertexBuffer> }),
{
    match ty {
        Some(ObjectType::VertexBuffer) => Some(VertexBuffer { value: base.value }),
        _ => None,
    }
}

/// Casts a base object to an index buffer handle, given its recorded type.
pub fn cast_index_buffer(base: BaseObject, ty: Option<ObjectType>) -> (r: Option<IndexBuffer>)
    ensures
        r == (if ty == Some(ObjectType::IndexBuffer) { Some(IndexBuffer { value: base.value }) } else { None::<IndexBuffer> }),
{
    match ty {
        Some(ObjectType::IndexBuffer) => Some(IndexBuffer { value: base.value }),
        _ => None,
    }
}

/// Casts a base object to a shader handle, given its recorded type.
pub fn cast_shader(base: BaseObject, ty: Option<ObjectType>) -> (r: Option<Shader>)
    ensures
        r == (if ty == Some(ObjectType::ShaderProgram) { Some(Shader { value: base.value }) } else { None::<Shader> }),
{
    match ty {
        Some(ObjectType::ShaderProgram) => Some(Shader { value: base.value }),
        _ => None,
    }
}

/// Casts a base object to a 2D texture handle, given its recorded type.
pub fn cast_texture2d(base: BaseObject, ty: Option<ObjectType>) -> (r: Option<Texture2D>)
    ensures
        r == (if ty == Some(ObjectType::Texture2D) { Some(Texture2D { value: base.value }) } else { None::<Texture2D> }),
{
    match ty {
        Some(ObjectType::Texture2D) => Some(Texture2D { value: base.value }),
        _ => None,
    }
}

} // verus!
