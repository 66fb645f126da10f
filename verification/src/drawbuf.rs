//! Immediate-mode geometry collection with automatic draw-call batching.
use vstd::prelude::*;

use crate::geom::Bounds2i;
use crate::graphics::{BlendMode, CullMode, DepthTest, DrawMask, PrimType};
use crate::handle::{IndexBuffer, Shader, VertexBuffer};
use vstd::std_specs::cmp::PartialEqSpec;

verus! {

/// Largest vertex count a draw builder can address with its 16-bit indices.
pub const MAX_VERTICES: usize = 65535;

/// Pipeline state for a draw command.
#[derive(Copy, Clone, Debug, PartialEq, Eq, Structural)]
pub struct PipelineState {
    pub prim_type: PrimType,
    pub scissor: Option<Bounds2i>,
    pub blend_mode: BlendMode,
    pub depth_test: Option<DepthTest>,
    pub cull_mode: Option<CullMode>,
    pub mask: DrawMask,
    pub shader: Shader,
    pub uniform_index: u32,
}

/// Command for drawing a range of indexed vertices.
#[derive(Copy, Clone, Debug, PartialEq, Eq, Structural)]
pub struct DrawCommand {
    pub pipeline_state: PipelineState,
    pub index_start: u32,
    pub index_end: u32,
}

/// Buffer for drawing indexed geometry that was uploaded to the GPU.
pub struct DrawBuffer<U> {
    pub vertices: VertexBuffer,
    pub indices: IndexBuffer,
    pub uniforms: Vec<U>,
    pub commands: Vec<DrawCommand>,
}

/// An indexed draw call: a command's pipeline state and index range, the uniforms it
/// names, and the buffers holding the geometry, drawn once per vertex.
pub struct IndexedCall<'a, U> {
    pub pipeline_state: PipelineState,
    pub uniforms: &'a U,
    pub vertices: VertexBuffer,
    pub indices: IndexBuffer,
    pub index_start: u32,
    pub index_end: u32,
}

/// Every command names one of `uniform_count` uniforms.
pub open spec fn uniforms_named(commands: Seq<DrawCommand>, uniform_count: int) -> bool {
    forall|k: int| 0 <= k < commands.len() ==> (#[trigger] commands[k]).pipeline_state.uniform_index < uniform_count
}

/// `call` draws `command` with its uniforms from `uniforms` over `vertices` and `indices`.
pub open spec fn call_for<U>(call: IndexedCall<U>, command: DrawCommand, uniforms: Seq<U>, vertices: VertexBuffer, indices: IndexBuffer) -> bool {
    &&& call.pipeline_state == command.pipeline_state
    &&& *call.uniforms == uniforms[command.pipeline_state.uniform_index as int]
    &&& call.vertices == vertices
    &&& call.indices == indices
    &&& call.index_start == command.index_start
    &&& call.index_end == command.index_end
}

/// Returns the draw calls for `commands`, in order, over geometry uploaded to
/// `vertices` and `indices`, each with the uniforms it names.
pub fn indexed_calls<'a, U>(commands: &[DrawCommand], uniforms: &'a [U], vertices: VertexBuffer, indices: IndexBuffer) -> (r: Vec<IndexedCall<'a, U>>)
    requires
        uniforms_named(commands@, uniforms@.len() as int),
    ensures
        r@.len() == commands@.len(),
        forall|k: int| 0 <= k < r@.len() ==> call_for(#[trigger] r@[k], commands@[k], uniforms@, vertices, indices),
{
    let mut calls: Vec<IndexedCall<'a, U>> = Vec::new();
    let mut i: usize = 0;
    while i < commands.len()
        invariant
            i <= commands@.len(),
            calls@.len() == i,
            uniforms_named(commands@, uniforms@.len() as int),
            forall|k: int| 0 <= k < i ==> call_for(#[trigger] calls@[k], commands@[k], uniforms@, vertices, indices),
        decreases commands@.len() - i,
    {
        let cmd = commands[i];
        assert(cmd.pipeline_state.uniform_index < uniforms@.len());
        calls.push(IndexedCall {
            pipeline_state: cmd.pipeline_state,
            uniforms: &uniforms[cmd.pipeline_state.uniform_index as usize],
            vertices,
            indices,
            index_start: cmd.index_start,
            index_end: cmd.index_end,
        });
        i = i + 1;
    }
    calls
}

impl<U> DrawBuffer<U> {
    /// Returns the draw calls for all commands of the buffer, in order.
    pub fn calls(&self) -> (r: Vec<IndexedCall<'_, U>>)
        requires
            uniforms_named(self.commands@, self.uniforms@.len() as int),
        ensures
            r@.len() == self.commands@.len(),
            forall|k: int| 0 <= k < r@.len() ==> call_for(#[trigger] r@[k], self.commands@[k], self.uniforms@, self.vertices, self.indices),
    {
        indexed_calls(self.commands.as_slice(), self.uniforms.as_slice(), self.vertices, self.indices)
    }

    /// Returns the draw calls for the commands from `start` up to `end`, in order.
    pub fn range_calls(&self, start: usize, end: usize) -> (r: Vec<IndexedCall<'_, U>>)
        requires
            start <= end <= self.commands@.len(),
            uniforms_named(self.commands@, self.uniforms@.len() as int),
        ensures
            r@.len() == end - start,
            forall|k: int| 0 <= k < r@.len() ==> call_for(#[trigger] r@[k], self.commands@[start + k], self.uniforms@, self.vertices, self.indices),
    {
        let range = vstd::slice::slice_subrange(self.commands.as_slice(), start, end);
        assert(uniforms_named(range@, self.uniforms@.len() as int)) by {
            assert forall|k: int| 0 <= k < range@.len() implies (#[trigger] range@[k]).pipeline_state.uniform_index < self.uniforms@.len() by {
                assert(range@[k] == self.commands@[start + k]);
            }
        }
        let r = indexed_calls(range, self.uniforms.as_slice(), self.vertices, self.indices);
        assert forall|k: int| 0 <= k < r@.len() implies call_for(#[trigger] r@[k], self.commands@[start + k], self.uniforms@, self.vertices, self.indices) by {
            assert(range@[k] == self.commands@[start + k]);
        }
        r
    }
}

/// A run of a draw builder's commands, with the buffers its geometry was uploaded to.
pub struct DrawBatch<'a> {
    pub commands: &'a [DrawCommand],
    pub vertices: VertexBuffer,
    pub indices: IndexBuffer,
}

/// Shared render state carried between draw builders of a pool.
#[derive(Copy, Clone, Debug, PartialEq, Eq, Structural)]
pub struct SharedState {
    pub scissor: Option<Bounds2i>,
    pub blend_mode: BlendMode,
    pub depth_test: Option<DepthTest>,
    pub cull_mode: Option<CullMode>,
}

/// `v` is a value that `T::default()` returns.
pub open spec fn is_default<T: Default>(v: T) -> bool {
    call_ensures(T::default, (), v)
}

/// Number of indices a primitive of the given type takes.
pub open spec fn indices_per_prim(prim_type: PrimType) -> nat {
    match prim_type {
        PrimType::Triangles => 3,
        PrimType::Lines => 2,
    }
}

/// Draw builder.
///
/// Collects geometry (vertices and indices) generated on the CPU and prepares it for
/// rendering. Consecutive primitives that share the same pipeline state are merged
/// into one draw command.
pub struct DrawBuilder<V, U> {
    pub(crate) vertices: Vec<V>,
    pub(crate) indices: Vec<u16>,
    pub(crate) uniforms: Vec<U>,
    pub(crate) commands: Vec<DrawCommand>,
    pub(crate) auto_state_tracking: bool,
    pub scissor: Option<Bounds2i>,
    pub blend_mode: BlendMode,
    pub depth_test: Option<DepthTest>,
    pub cull_mode: Option<CullMode>,
    pub shader: Shader,
    pub uniform: U,
}

impl<V: Copy + Default, U: Default + Clone + PartialEq> DrawBuilder<V, U> {
    pub closed spec fn vertices_view(&self) -> Seq<V> {
        self.vertices@
    }

    pub closed spec fn indices_view(&self) -> Seq<u16> {
        self.indices@
    }

    pub closed spec fn uniforms_view(&self) -> Seq<U> {
        self.uniforms@
    }

    pub closed spec fn commands_view(&self) -> Seq<DrawCommand> {
        self.commands@
    }

    /// Whether the next primitive may be merged into the last command.
    pub closed spec fn merging(&self) -> bool {
        self.auto_state_tracking
    }

    pub closed spec fn spec_scissor(&self) -> Option<Bounds2i> {
        self.scissor
    }

    pub closed spec fn spec_blend_mode(&self) -> BlendMode {
        self.blend_mode
    }

    pub closed spec fn spec_depth_test(&self) -> Option<DepthTest> {
        self.depth_test
    }

    pub closed spec fn spec_cull_mode(&self) -> Option<CullMode> {
        self.cull_mode
    }

    pub closed spec fn spec_shader(&self) -> Shader {
        self.shader
    }

    pub closed spec fn spec_uniform(&self) -> U {
        self.uniform
    }

    /// The pipeline state that a new primitive would be recorded with, given the
    /// index of its uniforms.
    pub open spec fn pipeline_state_for(&self, prim_type: PrimType, uniform_index: u32) -> PipelineState {
        PipelineState {
            prim_type,
            scissor: self.spec_scissor(),
            blend_mode: self.spec_blend_mode(),
            depth_test: self.spec_depth_test(),
            cull_mode: self.spec_cull_mode(),
            mask: DrawMask { red: true, green: true, blue: true, alpha: true, depth: true, stencil: 0 },
            shader: self.spec_shader(),
            uniform_index,
        }
    }

    /// Every recorded index names a recorded vertex.
    pub open spec fn indices_in_range(&self) -> bool {
        forall|k: int| 0 <= k < self.indices_view().len() ==> (#[trigger] self.indices_view()[k]) < self.vertices_view().len()
    }

    /// The commands draw the recorded indices in order, back to back, from the first
    /// to the last (see [`commands_tile`]).
    pub open spec fn commands_tiled(&self) -> bool {
        commands_tile(self.commands_view(), self.indices_view().len() as int)
    }

    /// Every command covers a range of recorded indices and names recorded uniforms.
    pub open spec fn wf(&self) -> bool {
        forall|k: int| 0 <= k < self.commands_view().len() ==> {
            &&& (#[trigger] self.commands_view()[k]).index_start <= self.commands_view()[k].index_end
            &&& self.commands_view()[k].index_end <= self.indices_view().len()
            &&& self.commands_view()[k].pipeline_state.uniform_index < self.uniforms_view().len()
        }
    }

    /// Creates a new, empty draw builder with default state.
    pub fn new() -> (b: Self)
        ensures
            b.vertices_view().len() == 0,
            b.indices_view().len() == 0,
            b.uniforms_view().len() == 0,
            b.commands_view().len() == 0,
            !b.merging(),
            b.spec_scissor() is None,
            b.spec_blend_mode() == BlendMode::Solid,
            b.spec_depth_test() is None,
            b.spec_cull_mode() is None,
            b.spec_shader().value == 0,
            is_default(b.spec_uniform()),
            b.wf(),
            b.commands_tiled(),
            b.indices_in_range(),
    {
        let b = DrawBuilder {
            vertices: Vec::new(),
            indices: Vec::new(),
            uniforms: Vec::new(),
            commands: Vec::new(),
            auto_state_tracking: false,
            scissor: None,
            blend_mode: BlendMode::Solid,
            depth_test: None,
            cull_mode: None,
            shader: Shader { value: 0 },
            uniform: U::default(),
        };
        proof {
            lemma_no_commands_tile(b.commands_view());
        }
        b
    }

    /// Clears the draw builder for reuse: all geometry and commands are dropped and
    /// the state is reset to its defaults.
    pub fn clear(&mut self)
        ensures
            final(self).vertices_view().len() == 0,
            final(self).indices_view().len() == 0,
            final(self).uniforms_view().len() == 0,
            final(self).commands_view().len() == 0,
            !final(self).merging(),
            final(self).spec_scissor() is None,
            final(self).spec_blend_mode() == BlendMode::Solid,
            final(self).spec_depth_test() is None,
            final(self).spec_cull_mode() is None,
            final(self).spec_shader().value == 0,
            is_default(final(self).spec_uniform()),
            final(self).wf(),
            final(self).commands_tiled(),
            final(self).indices_in_range(),
    {
        self.vertices.clear();
        self.indices.clear();
        self.uniforms.clear();
        self.commands.clear();
        self.auto_state_tracking = false;
        self.scissor = None;
        self.blend_mode = BlendMode::Solid;
        self.depth_test = None;
        self.cull_mode = None;
        self.shader = Shader { value: 0 };
        self.uniform = U::default();
        proof {
            lemma_no_commands_tile(self.commands_view());
        }
    }

    /// Returns the vertices recorded so far.
    pub fn vertices(&self) -> (r: &Vec<V>)
        ensures
            r@ == self.vertices_view(),
    {
        &self.vertices
    }

    /// Returns the indices recorded so far.
    pub fn indices(&self) -> (r: &Vec<u16>)
        ensures
            r@ == self.indices_view(),
    {
        &self.indices
    }

    /// Returns the uniform blocks recorded so far.
    pub fn uniforms(&self) -> (r: &Vec<U>)
        ensures
            r@ == self.uniforms_view(),
    {
        &self.uniforms
    }

    /// Returns the draw commands recorded so far.
    pub fn commands(&self) -> (r: &Vec<DrawCommand>)
        ensures
            r@ == self.commands_view(),
    {
        &self.commands
    }

    /// Returns the batch of the commands from `start` up to `end`, whose geometry was
    /// uploaded to `vertices` and `indices`.
    pub fn batch(&self, start: usize, end: usize, vertices: VertexBuffer, indices: IndexBuffer) -> (r: DrawBatch<'_>)
        requires
            start <= end <= self.commands_view().len(),
        ensures
            r.commands@ == self.commands_view().subrange(start as int, end as int),
            r.vertices == vertices,
            r.indices == indices,
            self.wf() ==> uniforms_named(r.commands@, self.uniforms_view().len() as int),
    {
        proof {
            let sub = self.commands_view().subrange(start as int, end as int);
            assert forall|k: int| 0 <= k < sub.len() && self.wf() implies (#[trigger] sub[k]).pipeline_state.uniform_index < self.uniforms_view().len() by {
                assert(sub[k] == self.commands_view()[start + k]);
            }
        }
        DrawBatch { commands: vstd::slice::slice_subrange(self.commands.as_slice(), start, end), vertices, indices }
    }

    /// Returns the draw calls for `batch`, in order, each with the builder's uniforms
    /// it names.
    pub fn batch_calls(&self, batch: &DrawBatch) -> (r: Vec<IndexedCall<'_, U>>)
        requires
            uniforms_named(batch.commands@, self.uniforms_view().len() as int),
        ensures
            r@.len() == batch.commands@.len(),
            forall|k: int| 0 <= k < r@.len() ==> call_for(#[trigger] r@[k], batch.commands@[k], self.uniforms_view(), batch.vertices, batch.indices),
    {
        indexed_calls(batch.commands, self.uniforms.as_slice(), batch.vertices, batch.indices)
    }

    /// The render state that carries over when drawing switches to another builder.
    pub fn shared_state(&self) -> (r: SharedState)
        ensures
            r == (SharedState {
                scissor: self.spec_scissor(),
                blend_mode: self.spec_blend_mode(),
                depth_test: self.spec_depth_test(),
                cull_mode: self.spec_cull_mode(),
            }),
    {
        SharedState { scissor: self.scissor, blend_mode: self.blend_mode, depth_test: self.depth_test, cull_mode: self.cull_mode }
    }

    /// Prepares the builder for drawing after a switch from another builder: the next
    /// primitive starts a new command, and the other builder's render state, if
    /// given, is carried over. Shader and uniforms are not.
    pub fn resume(&mut self, shared: Option<SharedState>)
        ensures
            !final(self).merging(),
            match shared {
                Some(s) => {
                    &&& final(self).spec_scissor() == s.scissor
                    &&& final(self).spec_blend_mode() == s.blend_mode
                    &&& final(self).spec_depth_test() == s.depth_test
                    &&& final(self).spec_cull_mode() == s.cull_mode
                },
                None => {
                    &&& final(self).spec_scissor() == old(self).spec_scissor()
                    &&& final(self).spec_blend_mode() == old(self).spec_blend_mode()
                    &&& final(self).spec_depth_test() == old(self).spec_depth_test()
                    &&& final(self).spec_cull_mode() == old(self).spec_cull_mode()
                },
            },
            final(self).vertices_view() == old(self).vertices_view(),
            final(self).indices_view() == old(self).indices_view(),
            final(self).uniforms_view() == old(self).uniforms_view(),
            final(self).commands_view() == old(self).commands_view(),
            final(self).spec_shader() == old(self).spec_shader(),
            final(self).spec_uniform() == old(self).spec_uniform(),
            old(self).wf() ==> final(self).wf(),
    {
        self.auto_state_tracking = false;
        match shared {
            Some(s) => {
                self.scissor = s.scissor;
                self.blend_mode = s.blend_mode;
                self.depth_test = s.depth_test;
                self.cull_mode = s.cull_mode;
            },
            None => {},
        }
    }

    /// Records the current uniforms unless they equal the last recorded ones.
    fn update_uniforms_if_changed(&mut self)
        ensures
            final(self).vertices_view() == old(self).vertices_view(),
            final(self).indices_view() == old(self).indices_view(),
            final(self).commands_view() == old(self).commands_view(),
            final(self).merging() == old(self).merging(),
            final(self).spec_scissor() == old(self).spec_scissor(),
            final(self).spec_blend_mode() == old(self).spec_blend_mode(),
            final(self).spec_depth_test() == old(self).spec_depth_test(),
            final(self).spec_cull_mode() == old(self).spec_cull_mode(),
            final(self).spec_shader() == old(self).spec_shader(),
            final(self).spec_uniform() == old(self).spec_uniform(),
            final(self).uniforms_view() == old(self).uniforms_view() || (
                final(self).uniforms_view().len() == old(self).uniforms_view().len() + 1
                && final(self).uniforms_view().drop_last() == old(self).uniforms_view()
                && cloned(old(self).spec_uniform(), final(self).uniforms_view().last())
            ),
            old(self).uniforms_view().len() == 0 ==> final(self).uniforms_view().len() == 1,
            U::obeys_eq_spec() && old(self).uniforms_view().len() > 0 ==> (
                final(self).uniforms_view() == old(self).uniforms_view()
                    <==> old(self).uniforms_view().last().eq_spec(&old(self).spec_uniform())
            ),
    {
        let mut new = true;
        let len = self.uniforms.len();
        if len > 0 {
            new = self.uniforms[len - 1].ne(&self.uniform);
        }
        if new {
            let u = self.uniform.clone();
            self.uniforms.push(u);
            proof {
                assert(self.uniforms@.drop_last() =~= old(self).uniforms@);
            }
        }
    }

    /// Begins adding a new primitive batch of `nverts` vertices and `nprims` primitives.
    ///
    /// The current uniforms are recorded when they changed, the batch is merged into
    /// the last command when that command has the same pipeline state (and merging is
    /// enabled), space for the vertices is reserved and the indices are pre-filled with
    /// the index of the first new vertex. The returned builder fills that space.
    pub fn begin<'a>(&'a mut self, prim_type: PrimType, nverts: usize, nprims: usize) -> (p: PrimBuilder<'a, V>)
        requires
            old(self).wf(),
            old(self).vertices_view().len() + nverts <= MAX_VERTICES,
            old(self).indices_view().len() + nprims * indices_per_prim(prim_type) <= u32::MAX,
            old(self).uniforms_view().len() < u32::MAX,
        ensures
            ({
                let o = *old(self);
                let f = *final(self);
                let nindices = nprims * indices_per_prim(prim_type);
                let ps = o.pipeline_state_for(prim_type, (f.uniforms_view().len() - 1) as u32);
                let merged = o.merging() && o.commands_view().len() > 0
                    && o.commands_view().last().pipeline_state == ps;
                &&& f.uniforms_view().len() > 0
                &&& (f.uniforms_view() == o.uniforms_view() || (
                    f.uniforms_view().drop_last() == o.uniforms_view()
                    && cloned(o.spec_uniform(), f.uniforms_view().last())))
                &&& (o.uniforms_view().len() == 0 ==> f.uniforms_view().len() == 1)
                &&& (U::obeys_eq_spec() && o.uniforms_view().len() > 0 ==> (
                    f.uniforms_view() == o.uniforms_view()
                        <==> o.uniforms_view().last().eq_spec(&o.spec_uniform())))
                &&& f.commands_view() == if merged {
                    o.commands_view().update(
                        o.commands_view().len() - 1,
                        DrawCommand {
                            index_end: (o.commands_view().last().index_end + nindices) as u32,
                            ..o.commands_view().last()
                        },
                    )
                } else {
                    o.commands_view().push(DrawCommand {
                        pipeline_state: ps,
                        index_start: o.indices_view().len() as u32,
                        index_end: (o.indices_view().len() + nindices) as u32,
                    })
                }
                &&& f.merging()
                &&& f.spec_scissor() == o.spec_scissor()
                &&& f.spec_blend_mode() == o.spec_blend_mode()
                &&& f.spec_depth_test() == o.spec_depth_test()
                &&& f.spec_cull_mode() == o.spec_cull_mode()
                &&& f.spec_shader() == o.spec_shader()
                &&& f.spec_uniform() == o.spec_uniform()
                &&& p.vertices_view().len() == o.vertices_view().len() + nverts
                &&& p.vertices_view().subrange(0, o.vertices_view().len() as int) == o.vertices_view()
                &&& forall|k: int| o.vertices_view().len() <= k < p.vertices_view().len() ==> is_default(#[trigger] p.vertices_view()[k])
                &&& p.indices_view() == o.indices_view() + Seq::new(nindices as nat, |k: int| o.vertices_view().len() as u16)
                &&& p.vertex_start() == o.vertices_view().len()
                &&& p.vertex_pos() == o.vertices_view().len()
                &&& p.vertex_count() == nverts
                &&& p.index_pos() == o.indices_view().len()
                &&& p.wf()
                &&& (o.indices_in_range() ==> p.written_in_range())
                &&& f.vertices_view() == (*final(p.vertices))@
                &&& f.indices_view() == (*final(p.indices))@
                &&& ((*final(p.indices))@.len() == p.indices_view().len() ==> f.wf())
                &&& (o.commands_tiled() && (*final(p.indices))@.len() == p.indices_view().len() ==> f.commands_tiled())
            }),
    {
        let ghost o = *self;
        self.update_uniforms_if_changed();
        let nindices: usize = match prim_type {
            PrimType::Triangles => nprims * 3,
            PrimType::Lines => nprims * 2,
        };
        let uniform_index = (self.uniforms.len() - 1) as u32;
        let pipeline_state = PipelineState {
            prim_type,
            scissor: self.scissor,
            blend_mode: self.blend_mode,
            depth_test: self.depth_test,
            cull_mode: self.cull_mode,
            mask: DrawMask { red: true, green: true, blue: true, alpha: true, depth: true, stencil: 0 },
            shader: self.shader,
            uniform_index,
        };

        // Can we merge this command with the last one?
        let mut new_cmd = true;
        if self.auto_state_tracking {
            let ncmds = self.commands.len();
            if ncmds > 0 && self.commands[ncmds - 1].pipeline_state == pipeline_state {
                let last = self.commands[ncmds - 1];
                let merged = DrawCommand { index_end: last.index_end + nindices as u32, ..last };
                self.commands.set(ncmds - 1, merged);
                new_cmd = false;
            }
        }

        // Track state again if it was disabled.
        self.auto_state_tracking = true;

        // Otherwise add a new command.
        if new_cmd {
            let index_start = self.indices.len() as u32;
            let index_end = index_start + nindices as u32;
            self.commands.push(DrawCommand { pipeline_state, index_start, index_end });
        }

        proof {
            if o.commands_tiled() {
                law_begin_keeps_commands_tiling(o.commands_view(), o.indices_view().len() as int, nindices as int, !new_cmd, pipeline_state, self.commands_view());
            }
        }
        let vertex_start = self.vertices.len();
        let index_start = self.indices.len();

        // Reserve space for the new data.
        extend_with_default(&mut self.vertices, nverts);
        extend_with_value(&mut self.indices, nindices, vertex_start as u16);
        PrimBuilder {
            vertices: &mut self.vertices,
            indices: &mut self.indices,
            vertex_pos: vertex_start,
            index_pos: index_start,
            vertex_start,
            nvertices: nverts,
        }
    }
}

/// Appends `n` default values.
fn extend_with_default<V: Default>(v: &mut Vec<V>, n: usize)
    ensures
        final(v)@.len() == old(v)@.len() + n,
        final(v)@.subrange(0, old(v)@.len() as int) == old(v)@,
        forall|k: int| old(v)@.len() <= k < final(v)@.len() ==> is_default(#[trigger] final(v)@[k]),
{
    let ghost start = v@.len();
    let mut i: usize = 0;
    while i < n
        invariant
            i <= n,
            v@.len() == start + i,
            v@.subrange(0, start as int) == old(v)@,
            forall|k: int| start <= k < v@.len() ==> is_default(#[trigger] v@[k]),
        decreases n - i,
    {
        v.push(V::default());
        i = i + 1;
        proof {
            assert(v@.subrange(0, start as int) =~= old(v)@);
        }
    }
}

/// Appends `n` copies of `value`.
fn extend_with_value(v: &mut Vec<u16>, n: usize, value: u16)
    ensures
        final(v)@ == old(v)@ + Seq::new(n as nat, |k: int| value),
{
    let mut j: usize = 0;
    while j < n
        invariant
            j <= n,
            v@ =~= old(v)@ + Seq::new(j as nat, |k: int| value),
        decreases n - j,
    {
        v.push(value);
        j = j + 1;
    }
}

/// Primitive builder: fills the vertices and indices reserved by
/// [`DrawBuilder::begin`].
///
/// Vertex indices are relative to the first vertex of the batch.
pub struct PrimBuilder<'a, V> {
    pub vertices: &'a mut Vec<V>,
    pub indices: &'a mut Vec<u16>,
    pub vertex_pos: usize,
    pub index_pos: usize,
    pub vertex_start: usize,
    pub nvertices: usize,
}

impl<'a, V: Copy> PrimBuilder<'a, V> {
    pub open spec fn vertices_view(&self) -> Seq<V> {
        self.vertices@
    }

    pub open spec fn indices_view(&self) -> Seq<u16> {
        self.indices@
    }

    /// Position of the next vertex to write.
    pub open spec fn vertex_pos(&self) -> int {
        self.vertex_pos as int
    }

    /// Position of the next index to write.
    pub open spec fn index_pos(&self) -> int {
        self.index_pos as int
    }

    /// Index of the first vertex of the batch.
    pub open spec fn vertex_start(&self) -> int {
        self.vertex_start as int
    }

    /// Number of vertices reserved for the batch.
    pub open spec fn vertex_count(&self) -> int {
        self.nvertices as int
    }

    /// The reserved space is consistent: unwritten indices still hold the first vertex.
    pub open spec fn wf(&self) -> bool {
        &&& self.vertex_start + self.nvertices == self.vertices@.len()
        &&& self.vertex_start <= self.vertex_pos <= self.vertices@.len()
        &&& self.vertices@.len() <= MAX_VERTICES
        &&& self.index_pos <= self.indices@.len()
        &&& forall|k: int| self.index_pos <= k < self.indices@.len() ==> #[trigger] self.indices@[k] == self.vertex_start
    }

    /// Every index written so far names a vertex of the builder.
    pub open spec fn written_in_range(&self) -> bool {
        forall|k: int| 0 <= k < self.index_pos ==> (#[trigger] self.indices@[k]) < self.vertices@.len()
    }

    /// The builder after writing `value` at the current index position.
    pub open spec fn wrote_index(self, old_b: Self, value: int) -> bool {
        &&& self.wf()
        &&& self.indices_view() == old_b.indices_view().update(old_b.index_pos() as int, value as u16)
        &&& self.index_pos() == old_b.index_pos() + 1
        &&& self.vertices_view() == old_b.vertices_view()
        &&& self.vertex_pos() == old_b.vertex_pos()
        &&& self.vertex_start() == old_b.vertex_start()
        &&& self.vertex_count() == old_b.vertex_count()
    }

    /// Adds a vertex index, relative to the first vertex of the batch.
    pub fn add_index(&mut self, vertex: u32)
        requires
            old(self).wf(),
            old(self).index_pos() < old(self).indices_view().len(),
            vertex < old(self).vertex_count(),
        ensures
            final(self).wrote_index(*old(self), old(self).vertex_start() + vertex),
            old(self).written_in_range() ==> final(self).written_in_range(),
            *final(final(self).indices) == *final(old(self).indices),
            *final(final(self).vertices) == *final(old(self).vertices),
    {
        let pos = self.index_pos;
        let _len = self.indices.len();
        let cur = self.indices[pos];
        self.indices.set(pos, cur + vertex as u16);
        self.index_pos = pos + 1;
    }

    /// Adds two vertex indices.
    pub fn add_index2(&mut self, vertex1: u32, vertex2: u32)
        requires
            old(self).wf(),
            old(self).index_pos() + 2 <= old(self).indices_view().len(),
            vertex1 < old(self).vertex_count(),
            vertex2 < old(self).vertex_count(),
        ensures
            final(self).wf(),
            final(self).indices_view() == old(self).indices_view()
                .update(old(self).index_pos() as int, (old(self).vertex_start() + vertex1) as u16)
                .update(old(self).index_pos() + 1, (old(self).vertex_start() + vertex2) as u16),
            final(self).index_pos() == old(self).index_pos() + 2,
            final(self).vertices_view() == old(self).vertices_view(),
            final(self).vertex_pos() == old(self).vertex_pos(),
            final(self).vertex_start() == old(self).vertex_start(),
            final(self).vertex_count() == old(self).vertex_count(),
            old(self).written_in_range() ==> final(self).written_in_range(),
            *final(final(self).indices) == *final(old(self).indices),
            *final(final(self).vertices) == *final(old(self).vertices),
    {
        self.add_index(vertex1);
        self.add_index(vertex2);
    }

    /// Adds three vertex indices.
    pub fn add_index3(&mut self, vertex1: u32, vertex2: u32, vertex3: u32)
        requires
            old(self).wf(),
            old(self).index_pos() + 3 <= old(self).indices_view().len(),
            vertex1 < old(self).vertex_count(),
            vertex2 < old(self).vertex_count(),
            vertex3 < old(self).vertex_count(),
        ensures
            final(self).wf(),
            final(self).indices_view() == old(self).indices_view()
                .update(old(self).index_pos() as int, (old(self).vertex_start() + vertex1) as u16)
                .update(old(self).index_pos() + 1, (old(self).vertex_start() + vertex2) as u16)
                .update(old(self).index_pos() + 2, (old(self).vertex_start() + vertex3) as u16),
            final(self).index_pos() == old(self).index_pos() + 3,
            final(self).vertices_view() == old(self).vertices_view(),
            final(self).vertex_pos() == old(self).vertex_pos(),
            final(self).vertex_start() == old(self).vertex_start(),
            final(self).vertex_count() == old(self).vertex_count(),
            old(self).written_in_range() ==> final(self).written_in_range(),
            *final(final(self).indices) == *final(old(self).indices),
            *final(final(self).vertices) == *final(old(self).vertices),
    {
        self.add_index(vertex1);
        self.add_index(vertex2);
        self.add_index(vertex3);
    }

    /// Adds vertex indices, each relative to the first vertex of the batch.
    pub fn add_indices(&mut self, indices: &[u16])
        requires
            old(self).wf(),
            old(self).index_pos() + indices@.len() <= old(self).indices_view().len(),
            forall|i: int| 0 <= i < indices@.len() ==> (#[trigger] indices@[i]) < old(self).vertex_count(),
        ensures
            final(self).wf(),
            final(self).indices_view().len() == old(self).indices_view().len(),
            forall|k: int|
                0 <= k < final(self).indices_view().len() ==> #[trigger] final(self).indices_view()[k] == if old(self).index_pos() <= k < old(self).index_pos() + indices@.len() {
                    (old(self).vertex_start() + indices@[k - old(self).index_pos()]) as u16
                } else {
                    old(self).indices_view()[k]
                },
            final(self).index_pos() == old(self).index_pos() + indices@.len(),
            final(self).vertices_view() == old(self).vertices_view(),
            final(self).vertex_pos() == old(self).vertex_pos(),
            final(self).vertex_start() == old(self).vertex_start(),
            final(self).vertex_count() == old(self).vertex_count(),
            old(self).written_in_range() ==> final(self).written_in_range(),
            *final(final(self).indices) == *final(old(self).indices),
            *final(final(self).vertices) == *final(old(self).vertices),
    {
        let mut i: usize = 0;
        let n = indices.len();
        while i < n
            invariant
                0 <= i <= n,
                n == indices@.len(),
                old(self).index_pos() + indices@.len() <= old(self).indices_view().len(),
                self.wf(),
                self.index_pos() == old(self).index_pos() + i,
                self.indices_view().len() == old(self).indices_view().len(),
                forall|j: int| 0 <= j < indices@.len() ==> (#[trigger] indices@[j]) < old(self).vertex_count(),
                forall|k: int|
                    0 <= k < self.indices_view().len() ==> #[trigger] self.indices_view()[k] == if old(self).index_pos() <= k < old(self).index_pos() + i {
                        (old(self).vertex_start() + indices@[k - old(self).index_pos()]) as u16
                    } else {
                        old(self).indices_view()[k]
                    },
                self.vertices_view() == old(self).vertices_view(),
                self.vertex_pos() == old(self).vertex_pos(),
                self.vertex_start() == old(self).vertex_start(),
                self.vertex_count() == old(self).vertex_count(),
                *final(self.indices) == *final(old(self).indices),
                *final(self.vertices) == *final(old(self).vertices),
            decreases n - i,
        {
            self.add_index(indices[i] as u32);
            i = i + 1;
        }
    }

    /// Adds the vertex indices for a quad.
    ///
    /// ```text
    /// 1---2
    /// | / |
    /// 0---3
    /// ```
    pub fn add_indices_quad(&mut self)
        requires
            old(self).wf(),
            old(self).index_pos() + 6 <= old(self).indices_view().len(),
            old(self).vertex_count() >= 4,
        ensures
            final(self).wf(),
            final(self).indices_view() == old(self).indices_view()
                .update(old(self).index_pos() as int, old(self).vertex_start() as u16)
                .update(old(self).index_pos() + 1, (old(self).vertex_start() + 1) as u16)
                .update(old(self).index_pos() + 2, (old(self).vertex_start() + 2) as u16)
                .update(old(self).index_pos() + 3, old(self).vertex_start() as u16)
                .update(old(self).index_pos() + 4, (old(self).vertex_start() + 2) as u16)
                .update(old(self).index_pos() + 5, (old(self).vertex_start() + 3) as u16),
            final(self).index_pos() == old(self).index_pos() + 6,
            final(self).vertices_view() == old(self).vertices_view(),
            final(self).vertex_pos() == old(self).vertex_pos(),
            final(self).vertex_start() == old(self).vertex_start(),
            final(self).vertex_count() == old(self).vertex_count(),
            old(self).written_in_range() ==> final(self).written_in_range(),
            *final(final(self).indices) == *final(old(self).indices),
            *final(final(self).vertices) == *final(old(self).vertices),
    {
        let quad: [u16; 6] = [0, 1, 2, 0, 2, 3];
        self.add_indices(&quad);
        proof {
            assert(final(self).indices_view() =~= old(self).indices_view()
                .update(old(self).index_pos() as int, old(self).vertex_start() as u16)
                .update(old(self).index_pos() + 1, (old(self).vertex_start() + 1) as u16)
                .update(old(self).index_pos() + 2, (old(self).vertex_start() + 2) as u16)
                .update(old(self).index_pos() + 3, old(self).vertex_start() as u16)
                .update(old(self).index_pos() + 4, (old(self).vertex_start() + 2) as u16)
                .update(old(self).index_pos() + 5, (old(self).vertex_start() + 3) as u16));
        }
    }

    /// Adds a vertex.
    pub fn add_vertex(&mut self, vertex: V)
        requires
            old(self).wf(),
            old(self).vertex_pos() < old(self).vertices_view().len(),
        ensures
            final(self).wf(),
            final(self).vertices_view() == old(self).vertices_view().update(old(self).vertex_pos() as int, vertex),
            final(self).vertex_pos() == old(self).vertex_pos() + 1,
            final(self).indices_view() == old(self).indices_view(),
            final(self).index_pos() == old(self).index_pos(),
            final(self).vertex_start() == old(self).vertex_start(),
            final(self).vertex_count() == old(self).vertex_count(),
            old(self).written_in_range() ==> final(self).written_in_range(),
            *final(final(self).indices) == *final(old(self).indices),
            *final(final(self).vertices) == *final(old(self).vertices),
    {
        let pos = self.vertex_pos;
        let _len = self.vertices.len();
        self.vertices.set(pos, vertex);
        self.vertex_pos = pos + 1;
    }

    /// Adds vertices.
    pub fn add_vertices(&mut self, vertices: &[V])
        requires
            old(self).wf(),
            old(self).vertex_pos() + vertices@.len() <= old(self).vertices_view().len(),
        ensures
            final(self).wf(),
            final(self).vertices_view() == old(self).vertices_view().subrange(0, old(self).vertex_pos() as int)
                + vertices@
                + old(self).vertices_view().subrange((old(self).vertex_pos() + vertices@.len()) as int, old(self).vertices_view().len() as int),
            final(self).vertex_pos() == (old(self).vertex_pos() + vertices@.len()) as int,
            final(self).indices_view() == old(self).indices_view(),
            final(self).index_pos() == old(self).index_pos(),
            final(self).vertex_start() == old(self).vertex_start(),
            final(self).vertex_count() == old(self).vertex_count(),
            old(self).written_in_range() ==> final(self).written_in_range(),
            *final(final(self).indices) == *final(old(self).indices),
            *final(final(self).vertices) == *final(old(self).vertices),
    {
        let mut i: usize = 0;
        let n = vertices.len();
        while i < n
            invariant
                0 <= i <= n,
                n == vertices@.len(),
                self.wf(),
                self.vertex_pos() == old(self).vertex_pos() + i,
                self.vertices_view() =~= old(self).vertices_view().subrange(0, old(self).vertex_pos() as int)
                    + vertices@.subrange(0, i as int)
                    + old(self).vertices_view().subrange(old(self).vertex_pos() + i as int, old(self).vertices_view().len() as int),
                old(self).vertex_pos() + n <= old(self).vertices_view().len(),
                self.indices_view() == old(self).indices_view(),
                self.index_pos() == old(self).index_pos(),
                self.vertex_start() == old(self).vertex_start(),
                self.vertex_count() == old(self).vertex_count(),
                *final(self.indices) == *final(old(self).indices),
                *final(self.vertices) == *final(old(self).vertices),
            decreases n - i,
        {
            self.add_vertex(vertices[i]);
            i = i + 1;
        }
        proof {
            assert(vertices@.subrange(0, n as int) =~= vertices@);
        }
    }
}


/// A batch whose index slots were all written through its builder, begun on a draw
/// builder whose indices all named its vertices, leaves every index naming a vertex.
pub proof fn law_filled_batch_indices_in_range<'a, V: Copy>(p: PrimBuilder<'a, V>)
    requires
        p.written_in_range(),
        p.index_pos() == p.indices_view().len(),
    ensures
        forall|k: int| 0 <= k < p.indices_view().len() ==> (#[trigger] p.indices_view()[k]) < p.vertices_view().len(),
{
}

/// The commands draw the index buffer of length `len` in order, back to back, from
/// its start to its end.
#[verifier::opaque]
pub open spec fn commands_tile(cmds: Seq<DrawCommand>, len: int) -> bool {
    &&& (cmds.len() == 0 ==> len == 0)
    &&& (cmds.len() > 0 ==> cmds[0].index_start == 0 && cmds.last().index_end == len)
    &&& forall|k: int| 0 < k < cmds.len() ==> (#[trigger] cmds[k]).index_start == cmds[k - 1].index_end
}

/// No commands tile an empty index buffer.
proof fn lemma_no_commands_tile(cmds: Seq<DrawCommand>)
    requires
        cmds.len() == 0,
    ensures
        commands_tile(cmds, 0),
{
    reveal(commands_tile);
}

/// Beginning a primitive keeps the commands tiling the index buffer: it either
/// extends the last command over the new indices, or appends a command for them.
#[verifier::spinoff_prover]
pub proof fn law_begin_keeps_commands_tiling(
    cmds: Seq<DrawCommand>,
    len: int,
    nindices: int,
    merged: bool,
    ps: PipelineState,
    next: Seq<DrawCommand>,
)
    requires
        commands_tile(cmds, len),
        0 <= nindices,
        len + nindices <= u32::MAX,
        merged ==> cmds.len() > 0,
        next == if merged {
            cmds.update(cmds.len() - 1, DrawCommand { index_end: (cmds.last().index_end + nindices) as u32, ..cmds.last() })
        } else {
            cmds.push(DrawCommand { pipeline_state: ps, index_start: len as u32, index_end: (len + nindices) as u32 })
        },
    ensures
        commands_tile(next, len + nindices),
{
    reveal(commands_tile);
    let n = cmds.len();
    if merged {
        let last = cmds[n - 1];
        assert(next.len() == n);
        assert(next[n - 1].index_start == last.index_start);
        assert(next[n - 1].index_end == last.index_end + nindices);
        assert forall|k: int| 0 <= k < n - 1 implies next[k] == cmds[k] by {}
        assert forall|k: int| 0 < k < next.len() implies (#[trigger] next[k]).index_start == next[k - 1].index_end by {
            assert(cmds[k].index_start == cmds[k - 1].index_end);
        }
    } else {
        assert(next.len() == n + 1);
        assert forall|k: int| 0 <= k < n implies next[k] == cmds[k] by {}
        assert forall|k: int| 0 < k < next.len() implies (#[trigger] next[k]).index_start == next[k - 1].index_end by {
            if k < n {
                assert(cmds[k].index_start == cmds[k - 1].index_end);
            }
        }
    }
}

} // verus!
