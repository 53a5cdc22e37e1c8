//! The recorder: the public encoding handle that turns draw and state
//! calls into appended commands.

use vstd::prelude::*;
use crate::cache::{blend_fold, grown, lemma_blend_fold_emit_len, Cache};
use crate::command::{AttributeDesc, BlendTarget, Buffer, ClearColor, ClearDepthStencil,
    ClearValue, ColorValue,
    Command, GraphicsPipeline, Image, ImageView, IndexBufferView, IndexType, Rect, Span,
    Viewport, COLOR_ATTACHMENT0, DRAW_FRAMEBUFFER, UNSIGNED_INT, UNSIGNED_SHORT};
use crate::slice::BufferSlice;
use crate::storage::BufferMemory;

verus! {

/// The subset of the device limits that command validation reads.
#[derive(Debug, Clone, Copy, PartialEq, Eq, Structural)]
pub struct Limits {
    /// Largest number of simultaneous viewports (and scissors) the device
    /// supports.
    pub max_viewports: usize,
}

impl Limits {
    /// Keep just the limits recording validates against.
    pub fn new(max_viewports: usize) -> (r: Limits)
        ensures
            r == (Limits { max_viewports }),
    {
        Limits { max_viewports }
    }
}

/// The coverage slice after appending `k` more log entries at tail
/// position `start`: a fresh run begins there, a non-empty run grows.
pub open spec fn extend_cover(buf: BufferSlice, start: nat, k: nat) -> BufferSlice {
    if k == 0 {
        buf
    } else if buf.is_empty() {
        BufferSlice { offset: start as u32, size: k as u32 }
    } else {
        BufferSlice { offset: buf.offset, size: (buf.size + k) as u32 }
    }
}

/// Law: covering one more tail entry after covering `k` of them covers
/// `k + 1` of them — coverage grows entry by entry.
pub proof fn lemma_extend_cover_step(buf: BufferSlice, start: nat, k: nat)
    requires
        buf.wf(),
        buf.is_empty() || buf.offset + buf.size == start,
        start + k + 1 <= u32::MAX,
    ensures
        extend_cover(extend_cover(buf, start, k), (start + k) as nat, 1) == extend_cover(
            buf,
            start,
            (k + 1) as nat,
        ),
{
}

/// Law: coverage composes — covering `k2` more tail entries after
/// covering `k1` of them covers `k1 + k2` of them.
pub proof fn lemma_extend_cover_compose(buf: BufferSlice, start: nat, k1: nat, k2: nat)
    requires
        buf.wf(),
        buf.is_empty() || buf.offset + buf.size == start,
        start + k1 + k2 <= u32::MAX,
    ensures
        extend_cover(extend_cover(buf, start, k1), (start + k1) as nat, k2) == extend_cover(
            buf,
            start,
            (k1 + k2) as nat,
        ),
{
}

/// A command buffer recorder. It appends commands for its assigned
/// log/buffer pair of the pool's shared storage, which every call takes as
/// an explicit exclusive borrow, keeps its coverage slice over the log
/// entries it appended, and caches bound state to skip redundant
/// state-change commands.
#[derive(Debug)]
pub struct RawCommandBuffer {
    /// Coverage slice over the log entries this recorder appended since
    /// its last reset.
    pub buf: BufferSlice,
    /// Buffer id inside the owning pool's storage; picks a pair only when
    /// the pool is in individual mode.
    pub id: usize,
    /// Whether this recorder resets on its own; fixed at creation and
    /// mirrors the pool's mode.
    pub individual_reset: bool,
    /// The framebuffer recording binds for internal clears.
    pub fbo: u32,
    /// The framebuffer to use for rendering to the main targets.
    pub display_fb: u32,
    /// Last known bound state, for dedup and implicit draw context.
    pub cache: Cache,
    /// Device limits that validation reads.
    pub limits: Limits,
    /// How many vertex attributes are currently enabled.
    pub active_attribs: usize,
}

impl RawCommandBuffer {
    /// The recorder agrees with the pool storage it records into: its mode
    /// flag mirrors the pool's, its id names a live pair, and its coverage
    /// slice either is empty or ends exactly at the log's tail.
    pub open spec fn wf(self, mem: BufferMemory) -> bool {
        &&& self.individual_reset == mem.is_individual()
        &&& mem.valid_id(self.id)
        &&& mem.log_at(self.id).len() <= u32::MAX
        &&& mem.data_at(self.id).len() <= u32::MAX
        &&& !self.buf.is_empty() ==> self.buf.offset + self.buf.size == mem.log_at(self.id).len()
        &&& self.buf.wf()
    }

    /// The fields that identify the recorder and never change while
    /// recording.
    pub open spec fn keeps_identity(pre: RawCommandBuffer, post: RawCommandBuffer) -> bool {
        &&& post.id == pre.id
        &&& post.individual_reset == pre.individual_reset
        &&& post.fbo == pre.fbo
        &&& post.display_fb == pre.display_fb
        &&& post.limits == pre.limits
        &&& post.active_attribs == pre.active_attribs
    }

    /// Create a recorder against the pool's storage. In individual mode
    /// this registers a fresh empty log/buffer pair under the next
    /// sequential id; in linear mode the recorder shares the pool's single
    /// pair under id 0 and the storage is untouched.
    pub fn new(fbo: u32, limits: Limits, mem: &mut BufferMemory) -> (r: RawCommandBuffer)
        requires
            old(mem).is_individual() ==> old(mem).buffer_count() < usize::MAX,
            !old(mem).is_individual() ==> old(mem).log_at(0).len() <= u32::MAX
                && old(mem).data_at(0).len() <= u32::MAX,
        ensures
            r.wf(*final(mem)),
            r.buf.is_empty(),
            r.cache.is_fresh(),
            r.fbo == fbo,
            r.display_fb == 0,
            r.limits == limits,
            r.active_attribs == 0,
            r.individual_reset == old(mem).is_individual(),
            final(mem).is_individual() == old(mem).is_individual(),
            !old(mem).is_individual() ==> r.id == 0 && *final(mem) == *old(mem),
            old(mem).is_individual() ==> {
                &&& r.id == old(mem).buffer_count()
                &&& final(mem).buffer_count() == old(mem).buffer_count() + 1
                &&& final(mem).log_at(r.id) == Seq::<Command>::empty()
                &&& final(mem).data_at(r.id) == Seq::<u64>::empty()
                &&& forall|j: usize|
                    old(mem).valid_id(j) ==> final(mem).log_at(j) == old(mem).log_at(j)
                        && final(mem).data_at(j) == old(mem).data_at(j)
            },
    {
        let (id, individual_reset) = mem.register_buffer();
        RawCommandBuffer {
            buf: BufferSlice::new(),
            id,
            individual_reset,
            fbo,
            display_fb: 0,
            cache: Cache::new(),
            limits,
            active_attribs: 0,
        }
    }

    /// Forget this recorder's coverage slice and cached state, touching no
    /// storage: the pool's shared log content stays as it is.
    pub fn soft_reset(&mut self)
        ensures
            RawCommandBuffer::keeps_identity(*old(self), *final(self)),
            final(self).buf.is_empty(),
            final(self).cache.is_fresh(),
    {
        self.buf = BufferSlice::new();
        self.cache = Cache::new();
    }

    /// Append one command to this recorder's log and merge the new tail
    /// entry into the coverage slice.
    fn push_cmd(&mut self, mem: &mut BufferMemory, cmd: Command)
        requires
            old(self).wf(*old(mem)),
            old(mem).log_at(old(self).id).len() < u32::MAX,
        ensures
            final(self).wf(*final(mem)),
            RawCommandBuffer::keeps_identity(*old(self), *final(self)),
            final(self).cache == old(self).cache,
            BufferMemory::isolated_update(*old(mem), *final(mem), old(self).id),
            final(mem).log_at(old(self).id) == old(mem).log_at(old(self).id).push(cmd),
            final(mem).data_at(old(self).id) == old(mem).data_at(old(self).id),
            final(self).buf == extend_cover(
                old(self).buf,
                old(mem).log_at(old(self).id).len(),
                1,
            ),
    {
        let slice = mem.append_command(self.id, cmd);
        self.buf.append(slice);
    }

    /// Start recording. An individually-resettable recorder implicitly
    /// resets its own storage pair; a linear-pool recorder only forgets its
    /// coverage and cached state, leaving the shared log untouched.
    pub fn begin(&mut self, mem: &mut BufferMemory)
        requires
            old(self).wf(*old(mem)),
        ensures
            final(self).wf(*final(mem)),
            RawCommandBuffer::keeps_identity(*old(self), *final(self)),
            final(self).buf.is_empty(),
            final(self).cache.is_fresh(),
            BufferMemory::isolated_update(*old(mem), *final(mem), old(self).id),
            old(self).individual_reset ==> {
                &&& final(mem).log_at(old(self).id) == Seq::<Command>::empty()
                &&& final(mem).data_at(old(self).id) == Seq::<u64>::empty()
            },
            !old(self).individual_reset ==> *final(mem) == *old(mem),
    {
        if self.individual_reset {
            let _ = self.reset(mem, false);
        } else {
            self.soft_reset();
        }
    }

    /// Mark the recording as complete; nothing in storage changes.
    pub fn finish(&mut self)
        ensures
            *final(self) == *old(self),
    {
    }

    /// Empty this recorder's own log/buffer pair and forget its coverage
    /// and cached state. Legal only for an individually-resettable
    /// recorder: on a linear pool the request is rejected as unsupported
    /// and nothing changes. `release_resources` is a capacity-shrink hint
    /// and not required for correctness.
    pub fn reset(&mut self, mem: &mut BufferMemory, release_resources: bool) -> (r: Result<
        (),
        NotSupported,
    >)
        requires
            old(self).wf(*old(mem)),
        ensures
            final(self).wf(*final(mem)),
            RawCommandBuffer::keeps_identity(*old(self), *final(self)),
            BufferMemory::isolated_update(*old(mem), *final(mem), old(self).id),
            r is Ok <==> old(self).individual_reset,
            old(self).individual_reset ==> {
                &&& final(self).buf.is_empty()
                &&& final(self).cache.is_fresh()
                &&& final(mem).log_at(old(self).id) == Seq::<Command>::empty()
                &&& final(mem).data_at(old(self).id) == Seq::<u64>::empty()
            },
            !old(self).individual_reset ==> *final(self) == *old(self) && *final(mem) == *old(
                mem,
            ),
    {
        if !self.individual_reset {
            return Err(NotSupported);
        }
        self.soft_reset();
        mem.clear_buffer(self.id);
        Ok(())
    }
}

impl RawCommandBuffer {
    /// Record a dispatch of the given work-group counts.
    pub fn dispatch(&mut self, mem: &mut BufferMemory, x: u32, y: u32, z: u32)
        requires
            old(self).wf(*old(mem)),
            old(mem).log_at(old(self).id).len() < u32::MAX,
        ensures
            final(self).wf(*final(mem)),
            RawCommandBuffer::keeps_identity(*old(self), *final(self)),
            final(self).cache == old(self).cache,
            BufferMemory::isolated_update(*old(mem), *final(mem), old(self).id),
            final(mem).log_at(old(self).id) == old(mem).log_at(old(self).id).push(
                Command::Dispatch(x, y, z),
            ),
            final(mem).data_at(old(self).id) == old(mem).data_at(old(self).id),
            final(self).buf == extend_cover(
                old(self).buf,
                old(mem).log_at(old(self).id).len(),
                1,
            ),
    {
        self.push_cmd(mem, Command::Dispatch(x, y, z));
    }

    /// Record a dispatch whose counts replay reads from `buffer` at the
    /// given byte offset.
    pub fn dispatch_indirect(&mut self, mem: &mut BufferMemory, buffer: &Buffer, offset: u64)
        requires
            old(self).wf(*old(mem)),
            old(mem).log_at(old(self).id).len() < u32::MAX,
        ensures
            final(self).wf(*final(mem)),
            RawCommandBuffer::keeps_identity(*old(self), *final(self)),
            final(self).cache == old(self).cache,
            BufferMemory::isolated_update(*old(mem), *final(mem), old(self).id),
            final(mem).log_at(old(self).id) == old(mem).log_at(old(self).id).push(
                Command::DispatchIndirect(buffer.raw, offset),
            ),
            final(mem).data_at(old(self).id) == old(mem).data_at(old(self).id),
            final(self).buf == extend_cover(
                old(self).buf,
                old(mem).log_at(old(self).id).len(),
                1,
            ),
    {
        self.push_cmd(mem, Command::DispatchIndirect(buffer.raw, offset));
    }

    /// Bind an index buffer: the element width is cached as implicit
    /// context for indexed draws, and a bind command is recorded.
    pub fn bind_index_buffer(&mut self, mem: &mut BufferMemory, ibv: IndexBufferView)
        requires
            old(self).wf(*old(mem)),
            old(mem).log_at(old(self).id).len() < u32::MAX,
        ensures
            final(self).wf(*final(mem)),
            RawCommandBuffer::keeps_identity(*old(self), *final(self)),
            final(self).cache == (Cache {
                index_type: Some(ibv.index_type),
                ..old(self).cache
            }),
            BufferMemory::isolated_update(*old(mem), *final(mem), old(self).id),
            final(mem).log_at(old(self).id) == old(mem).log_at(old(self).id).push(
                Command::BindIndexBuffer(ibv.buffer.raw),
            ),
            final(mem).data_at(old(self).id) == old(mem).data_at(old(self).id),
            final(self).buf == extend_cover(
                old(self).buf,
                old(mem).log_at(old(self).id).len(),
                1,
            ),
    {
        self.cache.index_type = Some(ibv.index_type);
        self.push_cmd(mem, Command::BindIndexBuffer(ibv.buffer.raw));
    }

    /// Record a bind command for each vertex buffer, in order.
    pub fn bind_vertex_buffers(&mut self, mem: &mut BufferMemory, buffers: &Vec<Buffer>)
        requires
            old(self).wf(*old(mem)),
            old(mem).log_at(old(self).id).len() + buffers@.len() <= u32::MAX,
        ensures
            final(self).wf(*final(mem)),
            RawCommandBuffer::keeps_identity(*old(self), *final(self)),
            final(self).cache == old(self).cache,
            BufferMemory::isolated_update(*old(mem), *final(mem), old(self).id),
            final(mem).log_at(old(self).id) == old(mem).log_at(old(self).id) + Seq::new(
                buffers@.len(),
                |i: int| Command::BindVertexBuffer(buffers@[i].raw),
            ),
            final(mem).data_at(old(self).id) == old(mem).data_at(old(self).id),
            final(self).buf == extend_cover(
                old(self).buf,
                old(mem).log_at(old(self).id).len(),
                buffers@.len(),
            ),
    {
        let ghost binds = Seq::new(
            buffers@.len(),
            |i: int| Command::BindVertexBuffer(buffers@[i].raw),
        );
        let n = buffers.len();
        let mut i: usize = 0;
        while i < n
            invariant
                i <= n,
                n == buffers@.len(),
                binds == Seq::new(
                    buffers@.len(),
                    |k: int| Command::BindVertexBuffer(buffers@[k].raw),
                ),
                old(mem).log_at(old(self).id).len() + n <= u32::MAX,
                old(self).buf.wf(),
                old(self).buf.is_empty() || old(self).buf.offset + old(self).buf.size == old(
                    mem,
                ).log_at(old(self).id).len(),
                self.wf(*mem),
                RawCommandBuffer::keeps_identity(*old(self), *self),
                self.cache == old(self).cache,
                BufferMemory::isolated_update(*old(mem), *mem, old(self).id),
                mem.log_at(old(self).id) == old(mem).log_at(old(self).id) + binds.take(i as int),
                mem.data_at(old(self).id) == old(mem).data_at(old(self).id),
                self.buf == extend_cover(
                    old(self).buf,
                    old(mem).log_at(old(self).id).len(),
                    i as nat,
                ),
            decreases n - i,
        {
            let raw = buffers[i].raw;
            self.push_cmd(mem, Command::BindVertexBuffer(raw));
            proof {
                assert(binds.take(i + 1) =~= binds.take(i as int).push(binds[i as int]));
                lemma_extend_cover_step(
                    old(self).buf,
                    old(mem).log_at(old(self).id).len(),
                    i as nat,
                );
            }
            i = i + 1;
        }
        proof {
            assert(binds.take(n as int) =~= binds);
        }
    }

    /// Cache the stencil reference values until a pipeline assembles the
    /// full stencil state; no command is recorded.
    pub fn set_stencil_reference(&mut self, front: u32, back: u32)
        ensures
            RawCommandBuffer::keeps_identity(*old(self), *final(self)),
            final(self).buf == old(self).buf,
            final(self).cache == (Cache {
                stencil_ref: Some((front, back)),
                ..old(self).cache
            }),
    {
        self.cache.stencil_ref = Some((front, back));
    }

    /// Record a blend-color change, unless that color is already bound.
    pub fn set_blend_constants(&mut self, mem: &mut BufferMemory, cv: ColorValue)
        requires
            old(self).wf(*old(mem)),
            old(mem).log_at(old(self).id).len() < u32::MAX,
        ensures
            final(self).wf(*final(mem)),
            RawCommandBuffer::keeps_identity(*old(self), *final(self)),
            BufferMemory::isolated_update(*old(mem), *final(mem), old(self).id),
            final(mem).data_at(old(self).id) == old(mem).data_at(old(self).id),
            old(self).cache.blend_color == Some(cv) ==> *final(mem) == *old(mem) && *final(self)
                == *old(self),
            old(self).cache.blend_color != Some(cv) ==> {
                &&& final(self).cache == (Cache { blend_color: Some(cv), ..old(self).cache })
                &&& final(mem).log_at(old(self).id) == old(mem).log_at(old(self).id).push(
                    Command::SetBlendColor(cv),
                )
                &&& final(self).buf == extend_cover(
                    old(self).buf,
                    old(mem).log_at(old(self).id).len(),
                    1,
                )
            },
    {
        let bound = match self.cache.blend_color {
            Some(c) => c == cv,
            None => false,
        };
        if !bound {
            self.cache.blend_color = Some(cv);
            self.push_cmd(mem, Command::SetBlendColor(cv));
        }
    }

    /// Record a draw over a vertex and an instance range. The cached
    /// topology is the implicit context; with none bound the call only
    /// raises the sticky error flag and records nothing.
    pub fn draw(&mut self, mem: &mut BufferMemory, vertices: Span, instances: Span)
        requires
            old(self).wf(*old(mem)),
            old(mem).log_at(old(self).id).len() < u32::MAX,
        ensures
            final(self).wf(*final(mem)),
            RawCommandBuffer::keeps_identity(*old(self), *final(self)),
            BufferMemory::isolated_update(*old(mem), *final(mem), old(self).id),
            final(mem).data_at(old(self).id) == old(mem).data_at(old(self).id),
            old(self).cache.primitive matches Some(primitive) ==> {
                &&& final(self).cache == old(self).cache
                &&& final(mem).log_at(old(self).id) == old(mem).log_at(old(self).id).push(
                    Command::Draw { primitive, vertices, instances },
                )
                &&& final(self).buf == extend_cover(
                    old(self).buf,
                    old(mem).log_at(old(self).id).len(),
                    1,
                )
            },
            old(self).cache.primitive is None ==> {
                &&& *final(mem) == *old(mem)
                &&& final(self).buf == old(self).buf
                &&& final(self).cache == (Cache { error_state: true, ..old(self).cache })
            },
    {
        match self.cache.primitive {
            Some(primitive) => {
                self.push_cmd(mem, Command::Draw { primitive, vertices, instances });
            },
            None => {
                self.cache.error_state = true;
            },
        }
    }

    /// Record an indexed draw. The cached index width fixes the element
    /// size: the byte offset into the index buffer is `indices.start`
    /// times that width and the index count is the length of the range.
    /// With no index type or no topology bound the call only raises the
    /// sticky error flag and records nothing.
    pub fn draw_indexed(
        &mut self,
        mem: &mut BufferMemory,
        indices: Span,
        base_vertex: i32,
        instances: Span,
    )
        requires
            old(self).wf(*old(mem)),
            old(mem).log_at(old(self).id).len() < u32::MAX,
            indices.wf(),
        ensures
            final(self).wf(*final(mem)),
            RawCommandBuffer::keeps_identity(*old(self), *final(self)),
            BufferMemory::isolated_update(*old(mem), *final(mem), old(self).id),
            final(mem).data_at(old(self).id) == old(mem).data_at(old(self).id),
            old(self).cache.index_type matches Some(it)
                ==> old(self).cache.primitive matches Some(primitive) ==> {
                &&& final(self).cache == old(self).cache
                &&& final(mem).log_at(old(self).id) == old(mem).log_at(old(self).id).push(
                    Command::DrawIndexed {
                        primitive,
                        index_type: gl_index_type(it),
                        index_count: (indices.end - indices.start) as u32,
                        index_buffer_offset: index_offset(it, indices.start),
                        base_vertex,
                        instances,
                    },
                )
                &&& final(self).buf == extend_cover(
                    old(self).buf,
                    old(mem).log_at(old(self).id).len(),
                    1,
                )
            },
            (old(self).cache.index_type is None || old(self).cache.primitive is None) ==> {
                &&& *final(mem) == *old(mem)
                &&& final(self).buf == old(self).buf
                &&& final(self).cache == (Cache { error_state: true, ..old(self).cache })
            },
    {
        let (offset, index_type) = match self.cache.index_type {
            Some(IndexType::U16) => (indices.start as u64 * 2, UNSIGNED_SHORT),
            Some(IndexType::U32) => (indices.start as u64 * 4, UNSIGNED_INT),
            None => {
                self.cache.error_state = true;
                return ;
            },
        };
        match self.cache.primitive {
            Some(primitive) => {
                self.push_cmd(
                    mem,
                    Command::DrawIndexed {
                        primitive,
                        index_type,
                        index_count: indices.end - indices.start,
                        index_buffer_offset: offset,
                        base_vertex,
                        instances,
                    },
                );
            },
            None => {
                self.cache.error_state = true;
            },
        }
    }
}

impl RawCommandBuffer {
    /// Record the viewport set. Each viewport's rectangle is serialized as
    /// four 32-bit float bit patterns and its depth range as two 64-bit
    /// float bit patterns, all into one contiguous block of the data
    /// buffer: rectangles first, then depth ranges. An empty set records
    /// nothing and raises the sticky error flag; a set larger than the
    /// device limit raises the flag after serializing, recording no
    /// command.
    pub fn set_viewports(&mut self, mem: &mut BufferMemory, viewports: &Vec<Viewport>)
        requires
            old(self).wf(*old(mem)),
            old(mem).log_at(old(self).id).len() < u32::MAX,
            old(mem).data_at(old(self).id).len() + 6 * viewports@.len() <= u32::MAX,
        ensures
            final(self).wf(*final(mem)),
            RawCommandBuffer::keeps_identity(*old(self), *final(self)),
            BufferMemory::isolated_update(*old(mem), *final(mem), old(self).id),
            viewports@.len() == 0 ==> {
                &&& *final(mem) == *old(mem)
                &&& final(self).buf == old(self).buf
                &&& final(self).cache == (Cache { error_state: true, ..old(self).cache })
            },
            viewports@.len() > 0 ==> final(mem).data_at(old(self).id) == old(mem).data_at(
                old(self).id,
            ) + viewports_rect_scalars(viewports@) + viewports_depth_scalars(viewports@),
            0 < viewports@.len() <= old(self).limits.max_viewports ==> {
                &&& final(self).cache == old(self).cache
                &&& final(mem).log_at(old(self).id) == old(mem).log_at(old(self).id).push(
                    Command::SetViewports {
                        viewport_ptr: BufferSlice {
                            offset: old(mem).data_at(old(self).id).len() as u32,
                            size: (4 * viewports@.len()) as u32,
                        },
                        depth_range_ptr: BufferSlice {
                            offset: (old(mem).data_at(old(self).id).len() + 4
                                * viewports@.len()) as u32,
                            size: (2 * viewports@.len()) as u32,
                        },
                    },
                )
                &&& final(self).buf == extend_cover(
                    old(self).buf,
                    old(mem).log_at(old(self).id).len(),
                    1,
                )
            },
            viewports@.len() > old(self).limits.max_viewports ==> {
                &&& final(mem).log_at(old(self).id) == old(mem).log_at(old(self).id)
                &&& final(self).buf == old(self).buf
                &&& final(self).cache == (Cache { error_state: true, ..old(self).cache })
            },
    {
        let n = viewports.len();
        if n == 0 {
            self.cache.error_state = true;
            return ;
        }
        let mut rect_vals: Vec<u64> = Vec::new();
        let mut depth_vals: Vec<u64> = Vec::new();
        let mut i: usize = 0;
        while i < n
            invariant
                i <= n,
                n == viewports@.len(),
                rect_vals@ == viewports_rect_scalars(viewports@.take(i as int)),
                depth_vals@ == viewports_depth_scalars(viewports@.take(i as int)),
            decreases n - i,
        {
            let v = &viewports[i];
            rect_vals.push(v.x_bits as u64);
            rect_vals.push(v.y_bits as u64);
            rect_vals.push(v.w_bits as u64);
            rect_vals.push(v.h_bits as u64);
            depth_vals.push(v.depth_start_bits);
            depth_vals.push(v.depth_end_bits);
            proof {
                assert(viewports@.take(i + 1).drop_last() =~= viewports@.take(i as int));
                assert(viewports@.take(i + 1).last() == viewports@[i as int]);
                assert(rect_vals@ =~= viewports_rect_scalars(viewports@.take(i as int))
                    + rect_scalars(viewports@[i as int]));
                assert(depth_vals@ =~= viewports_depth_scalars(viewports@.take(i as int))
                    + depth_scalars(viewports@[i as int]));
            }
            i = i + 1;
        }
        proof {
            assert(viewports@.take(n as int) =~= viewports@);
            lemma_viewport_scalars_len(viewports@);
        }
        let viewport_ptr = mem.append_data(self.id, &rect_vals);
        let depth_range_ptr = mem.append_data(self.id, &depth_vals);
        if n <= self.limits.max_viewports {
            self.push_cmd(mem, Command::SetViewports { viewport_ptr, depth_range_ptr });
        } else {
            self.cache.error_state = true;
        }
    }

    /// Record the scissor set. Each rectangle is serialized as four 32-bit
    /// integers into one contiguous block of the data buffer. An empty set
    /// records nothing and raises the sticky error flag; a set larger than
    /// the device limit raises the flag after serializing, recording no
    /// command.
    pub fn set_scissors(&mut self, mem: &mut BufferMemory, scissors: &Vec<Rect>)
        requires
            old(self).wf(*old(mem)),
            old(mem).log_at(old(self).id).len() < u32::MAX,
            old(mem).data_at(old(self).id).len() + 4 * scissors@.len() <= u32::MAX,
        ensures
            final(self).wf(*final(mem)),
            RawCommandBuffer::keeps_identity(*old(self), *final(self)),
            BufferMemory::isolated_update(*old(mem), *final(mem), old(self).id),
            scissors@.len() == 0 ==> {
                &&& *final(mem) == *old(mem)
                &&& final(self).buf == old(self).buf
                &&& final(self).cache == (Cache { error_state: true, ..old(self).cache })
            },
            scissors@.len() > 0 ==> final(mem).data_at(old(self).id) == old(mem).data_at(
                old(self).id,
            ) + scissors_scalars(scissors@),
            0 < scissors@.len() <= old(self).limits.max_viewports ==> {
                &&& final(self).cache == old(self).cache
                &&& final(mem).log_at(old(self).id) == old(mem).log_at(old(self).id).push(
                    Command::SetScissors(
                        BufferSlice {
                            offset: old(mem).data_at(old(self).id).len() as u32,
                            size: (4 * scissors@.len()) as u32,
                        },
                    ),
                )
                &&& final(self).buf == extend_cover(
                    old(self).buf,
                    old(mem).log_at(old(self).id).len(),
                    1,
                )
            },
            scissors@.len() > old(self).limits.max_viewports ==> {
                &&& final(mem).log_at(old(self).id) == old(mem).log_at(old(self).id)
                &&& final(self).buf == old(self).buf
                &&& final(self).cache == (Cache { error_state: true, ..old(self).cache })
            },
    {
        let n = scissors.len();
        if n == 0 {
            self.cache.error_state = true;
            return ;
        }
        let mut vals: Vec<u64> = Vec::new();
        let mut i: usize = 0;
        while i < n
            invariant
                i <= n,
                n == scissors@.len(),
                vals@ == scissors_scalars(scissors@.take(i as int)),
            decreases n - i,
        {
            let r = &scissors[i];
            vals.push(r.x as u64);
            vals.push(r.y as u64);
            vals.push(r.w as u64);
            vals.push(r.h as u64);
            proof {
                assert(scissors@.take(i + 1).drop_last() =~= scissors@.take(i as int));
                assert(scissors@.take(i + 1).last() == scissors@[i as int]);
                assert(vals@ =~= scissors_scalars(scissors@.take(i as int)) + scissor_scalars(
                    scissors@[i as int],
                ));
            }
            i = i + 1;
        }
        proof {
            assert(scissors@.take(n as int) =~= scissors@);
            lemma_scissor_scalars_len(scissors@);
        }
        let scissors_ptr = mem.append_data(self.id, &vals);
        if n <= self.limits.max_viewports {
            self.push_cmd(mem, Command::SetScissors(scissors_ptr));
        } else {
            self.cache.error_state = true;
        }
    }

    /// Clear one color image: bind the recorder's internal framebuffer,
    /// attach a view of the image, direct drawing at one color buffer and
    /// record the clear.
    pub fn clear_color_image(&mut self, mem: &mut BufferMemory, image: &Image, value: ClearColor)
        requires
            old(self).wf(*old(mem)),
            old(mem).log_at(old(self).id).len() + 4 <= u32::MAX,
        ensures
            final(self).wf(*final(mem)),
            RawCommandBuffer::keeps_identity(*old(self), *final(self)),
            final(self).cache == old(self).cache,
            BufferMemory::isolated_update(*old(mem), *final(mem), old(self).id),
            final(mem).data_at(old(self).id) == old(mem).data_at(old(self).id),
            final(mem).log_at(old(self).id) == old(mem).log_at(old(self).id) + seq![
                Command::BindFrameBuffer(DRAW_FRAMEBUFFER, old(self).fbo),
                Command::BindTargetView(
                    DRAW_FRAMEBUFFER,
                    COLOR_ATTACHMENT0,
                    clear_target_view(*image),
                ),
                Command::SetDrawColorBuffers(1),
                Command::ClearColor(value),
            ],
            final(self).buf == extend_cover(
                old(self).buf,
                old(mem).log_at(old(self).id).len(),
                4,
            ),
    {
        let fbo = self.fbo;
        let view = match image {
            Image::Surface(id) => ImageView::Surface(*id),
            Image::Texture(id) => ImageView::Texture(*id, 0),
        };
        let ghost start = mem.log_at(self.id).len();
        self.push_cmd(mem, Command::BindFrameBuffer(DRAW_FRAMEBUFFER, fbo));
        self.push_cmd(mem, Command::BindTargetView(DRAW_FRAMEBUFFER, COLOR_ATTACHMENT0, view));
        self.push_cmd(mem, Command::SetDrawColorBuffers(1));
        self.push_cmd(mem, Command::ClearColor(value));
        proof {
            lemma_extend_cover_step(old(self).buf, start, 0);
            lemma_extend_cover_step(old(self).buf, start, 1);
            lemma_extend_cover_step(old(self).buf, start, 2);
            lemma_extend_cover_step(old(self).buf, start, 3);
            assert(mem.log_at(old(self).id) =~= old(mem).log_at(old(self).id) + seq![
                Command::BindFrameBuffer(DRAW_FRAMEBUFFER, old(self).fbo),
                Command::BindTargetView(
                    DRAW_FRAMEBUFFER,
                    COLOR_ATTACHMENT0,
                    clear_target_view(*image),
                ),
                Command::SetDrawColorBuffers(1),
                Command::ClearColor(value),
            ]);
        }
    }

    /// Start a render pass by recording a clear for each color clear
    /// value, in order. Depth/stencil clears are outside this core's
    /// coverage: a set containing one is rejected whole as unsupported,
    /// recording nothing.
    pub fn begin_renderpass(&mut self, mem: &mut BufferMemory, clear_values: &Vec<ClearValue>)
        -> (r: Result<(), NotSupported>)
        requires
            old(self).wf(*old(mem)),
            old(mem).log_at(old(self).id).len() + clear_values@.len() <= u32::MAX,
        ensures
            final(self).wf(*final(mem)),
            RawCommandBuffer::keeps_identity(*old(self), *final(self)),
            BufferMemory::isolated_update(*old(mem), *final(mem), old(self).id),
            final(mem).data_at(old(self).id) == old(mem).data_at(old(self).id),
            r is Ok <==> (forall|i: int|
                0 <= i < clear_values@.len() ==> clear_values@[i] is Color),
            r is Ok ==> {
                &&& final(self).cache == old(self).cache
                &&& final(mem).log_at(old(self).id) == old(mem).log_at(old(self).id) + Seq::new(
                    clear_values@.len(),
                    |i: int| Command::ClearColor(clear_values@[i]->Color_0),
                )
                &&& final(self).buf == extend_cover(
                    old(self).buf,
                    old(mem).log_at(old(self).id).len(),
                    clear_values@.len(),
                )
            },
            r is Err ==> *final(self) == *old(self) && *final(mem) == *old(mem),
    {
        let n = clear_values.len();
        let mut i: usize = 0;
        while i < n
            invariant
                i <= n,
                n == clear_values@.len(),
                *self == *old(self),
                *mem == *old(mem),
                old(self).wf(*old(mem)),
                forall|j: int| 0 <= j < i ==> clear_values@[j] is Color,
            decreases n - i,
        {
            match &clear_values[i] {
                ClearValue::Color(_) => {},
                ClearValue::DepthStencil(_) => {
                    return Err(NotSupported);
                },
            }
            i = i + 1;
        }
        let ghost clears = Seq::new(
            clear_values@.len(),
            |i: int| Command::ClearColor(clear_values@[i]->Color_0),
        );
        i = 0;
        while i < n
            invariant
                i <= n,
                n == clear_values@.len(),
                clears == Seq::new(
                    clear_values@.len(),
                    |k: int| Command::ClearColor(clear_values@[k]->Color_0),
                ),
                forall|j: int| 0 <= j < n ==> clear_values@[j] is Color,
                old(mem).log_at(old(self).id).len() + n <= u32::MAX,
                old(self).buf.wf(),
                old(self).buf.is_empty() || old(self).buf.offset + old(self).buf.size == old(
                    mem,
                ).log_at(old(self).id).len(),
                self.wf(*mem),
                RawCommandBuffer::keeps_identity(*old(self), *self),
                self.cache == old(self).cache,
                BufferMemory::isolated_update(*old(mem), *mem, old(self).id),
                mem.log_at(old(self).id) == old(mem).log_at(old(self).id) + clears.take(i as int),
                mem.data_at(old(self).id) == old(mem).data_at(old(self).id),
                self.buf == extend_cover(
                    old(self).buf,
                    old(mem).log_at(old(self).id).len(),
                    i as nat,
                ),
            decreases n - i,
        {
            let value = match &clear_values[i] {
                ClearValue::Color(c) => *c,
                ClearValue::DepthStencil(_) => {
                    proof {
                        assert(clear_values@[i as int] is Color);
                    }
                    unreached()
                },
            };
            self.push_cmd(mem, Command::ClearColor(value));
            proof {
                assert(clears.take(i + 1) =~= clears.take(i as int).push(clears[i as int]));
                lemma_extend_cover_step(
                    old(self).buf,
                    old(mem).log_at(old(self).id).len(),
                    i as nat,
                );
            }
            i = i + 1;
        }
        proof {
            assert(clears.take(n as int) =~= clears);
        }
        Ok(())
    }
}

impl RawCommandBuffer {
    /// Bind a list of blend descriptors to their slots, growing the cache
    /// to the highest referenced slot and recording a command only for
    /// slots whose descriptor was unknown or different.
    fn update_blend_targets(&mut self, mem: &mut BufferMemory, blend_targets: &Vec<BlendTarget>)
        requires
            old(self).wf(*old(mem)),
            old(mem).log_at(old(self).id).len() + blend_targets@.len() <= u32::MAX,
        ensures
            final(self).wf(*final(mem)),
            RawCommandBuffer::keeps_identity(*old(self), *final(self)),
            Cache::agrees_except_blend(old(self).cache, final(self).cache),
            final(self).cache.blend_targets@ == blend_fold(
                old(self).cache.blend_targets@,
                blend_targets@,
            ).0,
            BufferMemory::isolated_update(*old(mem), *final(mem), old(self).id),
            final(mem).data_at(old(self).id) == old(mem).data_at(old(self).id),
            final(mem).log_at(old(self).id) == old(mem).log_at(old(self).id) + blend_fold(
                old(self).cache.blend_targets@,
                blend_targets@,
            ).1,
            final(self).buf == extend_cover(
                old(self).buf,
                old(mem).log_at(old(self).id).len(),
                blend_fold(old(self).cache.blend_targets@, blend_targets@).1.len(),
            ),
    {
        let ghost cached0 = old(self).cache.blend_targets@;
        let n = blend_targets.len();
        let mut i: usize = 0;
        while i < n
            invariant
                i <= n,
                n == blend_targets@.len(),
                old(mem).log_at(old(self).id).len() + n <= u32::MAX,
                old(self).buf.wf(),
                old(self).buf.is_empty() || old(self).buf.offset + old(self).buf.size == old(
                    mem,
                ).log_at(old(self).id).len(),
                cached0 == old(self).cache.blend_targets@,
                self.wf(*mem),
                RawCommandBuffer::keeps_identity(*old(self), *self),
                Cache::agrees_except_blend(old(self).cache, self.cache),
                self.cache.blend_targets@ == blend_fold(cached0, blend_targets@.take(i as int)).0,
                BufferMemory::isolated_update(*old(mem), *mem, old(self).id),
                mem.data_at(old(self).id) == old(mem).data_at(old(self).id),
                mem.log_at(old(self).id) == old(mem).log_at(old(self).id) + blend_fold(
                    cached0,
                    blend_targets@.take(i as int),
                ).1,
                self.buf == extend_cover(
                    old(self).buf,
                    old(mem).log_at(old(self).id).len(),
                    blend_fold(cached0, blend_targets@.take(i as int)).1.len(),
                ),
            decreases n - i,
        {
            proof {
                lemma_blend_fold_emit_len(cached0, blend_targets@.take(i as int));
            }
            let ghost fold_prev = blend_fold(cached0, blend_targets@.take(i as int));
            let t = blend_targets[i];
            let slot = t.slot as usize;
            while self.cache.blend_targets.len() <= slot
                invariant
                    slot < 256,
                    self.cache.blend_targets@ == grown(
                        fold_prev.0,
                        self.cache.blend_targets@.len() as nat,
                    ),
                    self.cache.blend_targets@.len() >= fold_prev.0.len(),
                    self.cache.blend_targets@.len() <= slot + 1
                        || self.cache.blend_targets@.len() == fold_prev.0.len(),
                    self.wf(*mem),
                    RawCommandBuffer::keeps_identity(*old(self), *self),
                    Cache::agrees_except_blend(old(self).cache, self.cache),
                    self.buf == extend_cover(
                        old(self).buf,
                        old(mem).log_at(old(self).id).len(),
                        fold_prev.1.len(),
                    ),
                decreases slot + 1 - self.cache.blend_targets@.len(),
            {
                self.cache.blend_targets.push(None);
                proof {
                    assert(self.cache.blend_targets@ =~= grown(
                        fold_prev.0,
                        self.cache.blend_targets@.len() as nat,
                    ));
                }
            }
            proof {
                assert(self.cache.blend_targets@ =~= grown(fold_prev.0, t.slot as nat + 1));
            }
            let stale = match self.cache.blend_targets[slot] {
                Some(c) => !(c == t.desc),
                None => true,
            };
            if stale {
                self.cache.blend_targets[slot] = Some(t.desc);
                self.push_cmd(mem, Command::BindBlendSlot(t.slot, t.desc));
                proof {
                    lemma_extend_cover_step(
                        old(self).buf,
                        old(mem).log_at(old(self).id).len(),
                        fold_prev.1.len(),
                    );
                }
            }
            proof {
                assert(blend_targets@.take(i + 1).drop_last() =~= blend_targets@.take(i as int));
                assert(blend_targets@.take(i + 1).last() == blend_targets@[i as int]);
                assert(mem.log_at(old(self).id) =~= old(mem).log_at(old(self).id) + blend_fold(
                    cached0,
                    blend_targets@.take(i + 1),
                ).1);
            }
            i = i + 1;
        }
        proof {
            assert(blend_targets@.take(n as int) =~= blend_targets@);
        }
    }

    /// Record an enable command for each of the pipeline's vertex
    /// attributes, in order; attributes are re-recorded on every pipeline
    /// bind, never deduplicated.
    fn bind_attributes(&mut self, mem: &mut BufferMemory, attributes: &Vec<AttributeDesc>)
        requires
            old(self).wf(*old(mem)),
            old(mem).log_at(old(self).id).len() + attributes@.len() <= u32::MAX,
        ensures
            final(self).wf(*final(mem)),
            RawCommandBuffer::keeps_identity(*old(self), *final(self)),
            final(self).cache == old(self).cache,
            BufferMemory::isolated_update(*old(mem), *final(mem), old(self).id),
            final(mem).log_at(old(self).id) == old(mem).log_at(old(self).id) + attribute_cmds(
                attributes@,
            ),
            final(mem).data_at(old(self).id) == old(mem).data_at(old(self).id),
            final(self).buf == extend_cover(
                old(self).buf,
                old(mem).log_at(old(self).id).len(),
                attributes@.len(),
            ),
    {
        let ghost binds = attribute_cmds(attributes@);
        let n = attributes.len();
        let mut i: usize = 0;
        while i < n
            invariant
                i <= n,
                n == attributes@.len(),
                binds == attribute_cmds(attributes@),
                old(mem).log_at(old(self).id).len() + n <= u32::MAX,
                old(self).buf.wf(),
                old(self).buf.is_empty() || old(self).buf.offset + old(self).buf.size == old(
                    mem,
                ).log_at(old(self).id).len(),
                self.wf(*mem),
                RawCommandBuffer::keeps_identity(*old(self), *self),
                self.cache == old(self).cache,
                BufferMemory::isolated_update(*old(mem), *mem, old(self).id),
                mem.log_at(old(self).id) == old(mem).log_at(old(self).id) + binds.take(i as int),
                mem.data_at(old(self).id) == old(mem).data_at(old(self).id),
                self.buf == extend_cover(
                    old(self).buf,
                    old(mem).log_at(old(self).id).len(),
                    i as nat,
                ),
            decreases n - i,
        {
            let attribute = attributes[i];
            self.push_cmd(mem, Command::BindAttribute(attribute));
            proof {
                assert(binds.take(i + 1) =~= binds.take(i as int).push(binds[i as int]));
                lemma_extend_cover_step(
                    old(self).buf,
                    old(mem).log_at(old(self).id).len(),
                    i as nat,
                );
            }
            i = i + 1;
        }
        proof {
            assert(binds.take(n as int) =~= binds);
        }
    }

    /// Bind a graphics pipeline: cache its topology as implicit draw
    /// context, record patch-size and program changes only when they
    /// differ from the cache, re-record its vertex attributes, and bind
    /// its blend descriptors through the per-slot cache.
    pub fn bind_graphics_pipeline(&mut self, mem: &mut BufferMemory, pipeline: &GraphicsPipeline)
        requires
            old(self).wf(*old(mem)),
            old(mem).log_at(old(self).id).len() + 2 + pipeline.attributes@.len()
                + pipeline.blend_targets@.len() <= u32::MAX,
        ensures
            final(self).wf(*final(mem)),
            RawCommandBuffer::keeps_identity(*old(self), *final(self)),
            BufferMemory::isolated_update(*old(mem), *final(mem), old(self).id),
            final(mem).data_at(old(self).id) == old(mem).data_at(old(self).id),
            final(mem).log_at(old(self).id) == old(mem).log_at(old(self).id) + pipeline_cmds(
                old(self).cache,
                *pipeline,
            ),
            final(self).buf == extend_cover(
                old(self).buf,
                old(mem).log_at(old(self).id).len(),
                pipeline_cmds(old(self).cache, *pipeline).len(),
            ),
            final(self).cache.primitive == Some(pipeline.primitive),
            final(self).cache.patch_size == pipeline.patch_size,
            final(self).cache.program == Some(pipeline.program),
            final(self).cache.blend_targets@ == blend_fold(
                old(self).cache.blend_targets@,
                pipeline.blend_targets@,
            ).0,
            final(self).cache.index_type == old(self).cache.index_type,
            final(self).cache.stencil_ref == old(self).cache.stencil_ref,
            final(self).cache.blend_color == old(self).cache.blend_color,
            final(self).cache.framebuffer == old(self).cache.framebuffer,
            final(self).cache.error_state == old(self).cache.error_state,
    {
        let ghost start = old(mem).log_at(old(self).id).len();
        let ghost p_cmds = patch_cmds(old(self).cache, *pipeline);
        let ghost g_cmds = program_cmds(old(self).cache, *pipeline);
        let ghost a_cmds = attribute_cmds(pipeline.attributes@);
        let ghost b_cmds = blend_fold(old(self).cache.blend_targets@, pipeline.blend_targets@).1;

        self.cache.primitive = Some(pipeline.primitive);

        let same_patch = match (self.cache.patch_size, pipeline.patch_size) {
            (Some(a), Some(b)) => a == b,
            (None, None) => true,
            _ => false,
        };
        if !same_patch {
            self.cache.patch_size = pipeline.patch_size;
            if let Some(size) = pipeline.patch_size {
                self.push_cmd(mem, Command::SetPatchSize(size));
            }
        }
        proof {
            assert(mem.log_at(old(self).id) =~= old(mem).log_at(old(self).id) + p_cmds);
            lemma_extend_cover_compose(old(self).buf, start, 0, p_cmds.len());
        }

        let same_program = match self.cache.program {
            Some(p) => p == pipeline.program,
            None => false,
        };
        if !same_program {
            self.cache.program = Some(pipeline.program);
            self.push_cmd(mem, Command::BindProgram(pipeline.program));
        }
        proof {
            assert(mem.log_at(old(self).id) =~= old(mem).log_at(old(self).id) + (p_cmds
                + g_cmds));
            lemma_extend_cover_compose(old(self).buf, start, p_cmds.len(), g_cmds.len());
        }

        self.bind_attributes(mem, &pipeline.attributes);
        proof {
            assert(mem.log_at(old(self).id) =~= old(mem).log_at(old(self).id) + (p_cmds + g_cmds
                + a_cmds));
            lemma_extend_cover_compose(
                old(self).buf,
                start,
                (p_cmds.len() + g_cmds.len()) as nat,
                a_cmds.len(),
            );
        }

        self.update_blend_targets(mem, &pipeline.blend_targets);
        proof {
            lemma_blend_fold_emit_len(old(self).cache.blend_targets@, pipeline.blend_targets@);
            assert(mem.log_at(old(self).id) =~= old(mem).log_at(old(self).id) + pipeline_cmds(
                old(self).cache,
                *pipeline,
            ));
            lemma_extend_cover_compose(
                old(self).buf,
                start,
                (p_cmds.len() + g_cmds.len() + a_cmds.len()) as nat,
                b_cmds.len(),
            );
            assert(pipeline_cmds(old(self).cache, *pipeline).len() == p_cmds.len() + g_cmds.len()
                + a_cmds.len() + b_cmds.len());
        }
    }
}

// Operations below are out of this core's coverage in this revision. Each
// must be distinguishable from a validation failure: it reports typed
// incompleteness instead of raising the sticky error flag, and records
// nothing.
impl RawCommandBuffer {
    /// A pipeline barrier needs no command in this encoding; recording one
    /// changes nothing.
    pub fn pipeline_barrier(&mut self)
        ensures
            *final(self) == *old(self),
    {
    }

    /// Graphics descriptor sets are resolved outside the log at replay
    /// time; recording the bind changes nothing.
    pub fn bind_graphics_descriptor_sets(&mut self, first_set: usize)
        ensures
            *final(self) == *old(self),
    {
    }

    /// Filling a buffer with a repeated value is not supported.
    pub fn fill_buffer(&mut self, buffer: &Buffer, offset: u64, size: u64, data: u32) -> (r:
        Result<(), NotSupported>)
        ensures
            *final(self) == *old(self),
            r is Err,
    {
        Err(NotSupported)
    }

    /// Updating a buffer from host memory is not supported.
    pub fn update_buffer(&mut self, buffer: &Buffer, offset: u64, data: &Vec<u8>) -> (r: Result<
        (),
        NotSupported,
    >)
        ensures
            *final(self) == *old(self),
            r is Err,
    {
        Err(NotSupported)
    }

    /// Advancing to the next subpass is not supported.
    pub fn next_subpass(&mut self) -> (r: Result<(), NotSupported>)
        ensures
            *final(self) == *old(self),
            r is Err,
    {
        Err(NotSupported)
    }

    /// Ending a render pass records nothing.
    pub fn end_renderpass(&mut self)
        ensures
            *final(self) == *old(self),
    {
    }

    /// Clearing a depth/stencil image is not supported.
    pub fn clear_depth_stencil_image(&mut self, image: &Image, value: ClearDepthStencil) -> (r:
        Result<(), NotSupported>)
        ensures
            *final(self) == *old(self),
            r is Err,
    {
        Err(NotSupported)
    }

    /// Resolving a multisampled image is not supported.
    pub fn resolve_image(&mut self, src: &Image, dst: &Image) -> (r: Result<(), NotSupported>)
        ensures
            *final(self) == *old(self),
            r is Err,
    {
        Err(NotSupported)
    }

    /// Clearing attachments of the current render pass is not supported.
    pub fn clear_attachments(&mut self, rects: &Vec<Rect>) -> (r: Result<(), NotSupported>)
        ensures
            *final(self) == *old(self),
            r is Err,
    {
        Err(NotSupported)
    }

    /// Binding compute descriptor sets is not supported.
    pub fn bind_compute_descriptor_sets(&mut self, first_set: usize) -> (r: Result<
        (),
        NotSupported,
    >)
        ensures
            *final(self) == *old(self),
            r is Err,
    {
        Err(NotSupported)
    }

    /// Binding a compute pipeline is not supported.
    pub fn bind_compute_pipeline(&mut self, program: u32) -> (r: Result<(), NotSupported>)
        ensures
            *final(self) == *old(self),
            r is Err,
    {
        Err(NotSupported)
    }

    /// Copying between buffers is not supported.
    pub fn copy_buffer(&mut self, src: &Buffer, dst: &Buffer) -> (r: Result<(), NotSupported>)
        ensures
            *final(self) == *old(self),
            r is Err,
    {
        Err(NotSupported)
    }

    /// Copying between images is not supported.
    pub fn copy_image(&mut self, src: &Image, dst: &Image) -> (r: Result<(), NotSupported>)
        ensures
            *final(self) == *old(self),
            r is Err,
    {
        Err(NotSupported)
    }

    /// Copying a buffer into an image is not supported.
    pub fn copy_buffer_to_image(&mut self, src: &Buffer, dst: &Image) -> (r: Result<
        (),
        NotSupported,
    >)
        ensures
            *final(self) == *old(self),
            r is Err,
    {
        Err(NotSupported)
    }

    /// Copying an image into a buffer is not supported.
    pub fn copy_image_to_buffer(&mut self, src: &Image, dst: &Buffer) -> (r: Result<
        (),
        NotSupported,
    >)
        ensures
            *final(self) == *old(self),
            r is Err,
    {
        Err(NotSupported)
    }

    /// Indirect draws are not supported.
    pub fn draw_indirect(&mut self, buffer: &Buffer, offset: u64, draw_count: u32, stride: u32)
        -> (r: Result<(), NotSupported>)
        ensures
            *final(self) == *old(self),
            r is Err,
    {
        Err(NotSupported)
    }

    /// Indirect indexed draws are not supported.
    pub fn draw_indexed_indirect(
        &mut self,
        buffer: &Buffer,
        offset: u64,
        draw_count: u32,
        stride: u32,
    ) -> (r: Result<(), NotSupported>)
        ensures
            *final(self) == *old(self),
            r is Err,
    {
        Err(NotSupported)
    }

    /// Queries are not supported.
    pub fn begin_query(&mut self, query: u32) -> (r: Result<(), NotSupported>)
        ensures
            *final(self) == *old(self),
            r is Err,
    {
        Err(NotSupported)
    }

    /// Queries are not supported.
    pub fn end_query(&mut self, query: u32) -> (r: Result<(), NotSupported>)
        ensures
            *final(self) == *old(self),
            r is Err,
    {
        Err(NotSupported)
    }

    /// Queries are not supported.
    pub fn reset_query_pool(&mut self, first: u32, count: u32) -> (r: Result<(), NotSupported>)
        ensures
            *final(self) == *old(self),
            r is Err,
    {
        Err(NotSupported)
    }

    /// Timestamps are not supported.
    pub fn write_timestamp(&mut self, query: u32) -> (r: Result<(), NotSupported>)
        ensures
            *final(self) == *old(self),
            r is Err,
    {
        Err(NotSupported)
    }

    /// Push constants are not supported.
    pub fn push_graphics_constants(&mut self, offset: u32, constants: &Vec<u32>) -> (r: Result<
        (),
        NotSupported,
    >)
        ensures
            *final(self) == *old(self),
            r is Err,
    {
        Err(NotSupported)
    }

    /// Push constants are not supported.
    pub fn push_compute_constants(&mut self, offset: u32, constants: &Vec<u32>) -> (r: Result<
        (),
        NotSupported,
    >)
        ensures
            *final(self) == *old(self),
            r is Err,
    {
        Err(NotSupported)
    }
}

/// The patch-size change a pipeline bind records: one command when the
/// pipeline fixes a patch size the cache does not already hold, nothing
/// otherwise.
pub open spec fn patch_cmds(cache: Cache, p: GraphicsPipeline) -> Seq<Command> {
    if cache.patch_size != p.patch_size {
        match p.patch_size {
            Some(size) => seq![Command::SetPatchSize(size)],
            None => Seq::empty(),
        }
    } else {
        Seq::empty()
    }
}

/// The program change a pipeline bind records: one command unless the
/// pipeline's program is already bound.
pub open spec fn program_cmds(cache: Cache, p: GraphicsPipeline) -> Seq<Command> {
    if cache.program != Some(p.program) {
        seq![Command::BindProgram(p.program)]
    } else {
        Seq::empty()
    }
}

/// The attribute enables a pipeline bind records, one per attribute.
pub open spec fn attribute_cmds(attributes: Seq<AttributeDesc>) -> Seq<Command> {
    Seq::new(attributes.len(), |i: int| Command::BindAttribute(attributes[i]))
}

/// Everything one pipeline bind records, in order: the patch-size change,
/// the program change, the attribute enables, then the non-redundant
/// blend-slot binds.
pub open spec fn pipeline_cmds(cache: Cache, p: GraphicsPipeline) -> Seq<Command> {
    patch_cmds(cache, p) + program_cmds(cache, p) + attribute_cmds(p.attributes@) + blend_fold(
        cache.blend_targets@,
        p.blend_targets@,
    ).1
}

/// The view a clear binds for an image: a surface view of a surface, the
/// base level of a texture.
pub open spec fn clear_target_view(image: Image) -> ImageView {
    match image {
        Image::Surface(id) => ImageView::Surface(id),
        Image::Texture(id) => ImageView::Texture(id, 0),
    }
}

/// The serialized rectangle of one viewport: four 32-bit float bit
/// patterns, widened to data-buffer scalars.
pub open spec fn rect_scalars(v: Viewport) -> Seq<u64> {
    seq![v.x_bits as u64, v.y_bits as u64, v.w_bits as u64, v.h_bits as u64]
}

/// The serialized depth range of one viewport: two 64-bit float bit
/// patterns.
pub open spec fn depth_scalars(v: Viewport) -> Seq<u64> {
    seq![v.depth_start_bits, v.depth_end_bits]
}

/// The rectangles of a viewport set, serialized in order.
pub open spec fn viewports_rect_scalars(vs: Seq<Viewport>) -> Seq<u64>
    decreases vs.len(),
{
    if vs.len() == 0 {
        Seq::empty()
    } else {
        viewports_rect_scalars(vs.drop_last()) + rect_scalars(vs.last())
    }
}

/// The depth ranges of a viewport set, serialized in order.
pub open spec fn viewports_depth_scalars(vs: Seq<Viewport>) -> Seq<u64>
    decreases vs.len(),
{
    if vs.len() == 0 {
        Seq::empty()
    } else {
        viewports_depth_scalars(vs.drop_last()) + depth_scalars(vs.last())
    }
}

/// The serialized form of one scissor rectangle: four 32-bit integers,
/// widened to data-buffer scalars.
pub open spec fn scissor_scalars(r: Rect) -> Seq<u64> {
    seq![r.x as u64, r.y as u64, r.w as u64, r.h as u64]
}

/// The rectangles of a scissor set, serialized in order.
pub open spec fn scissors_scalars(rs: Seq<Rect>) -> Seq<u64>
    decreases rs.len(),
{
    if rs.len() == 0 {
        Seq::empty()
    } else {
        scissors_scalars(rs.drop_last()) + scissor_scalars(rs.last())
    }
}

/// Law: a viewport set of `n` entries serializes to exactly `4 * n`
/// rectangle scalars and `2 * n` depth scalars.
pub proof fn lemma_viewport_scalars_len(vs: Seq<Viewport>)
    ensures
        viewports_rect_scalars(vs).len() == 4 * vs.len(),
        viewports_depth_scalars(vs).len() == 2 * vs.len(),
    decreases vs.len(),
{
    if vs.len() > 0 {
        lemma_viewport_scalars_len(vs.drop_last());
    }
}

/// Law: a scissor set of `n` entries serializes to exactly `4 * n`
/// scalars.
pub proof fn lemma_scissor_scalars_len(rs: Seq<Rect>)
    ensures
        scissors_scalars(rs).len() == 4 * rs.len(),
    decreases rs.len(),
{
    if rs.len() > 0 {
        lemma_scissor_scalars_len(rs.drop_last());
    }
}

/// The byte offset into the index buffer at which an indexed draw starts:
/// the first index scaled by the element width the index type fixes.
pub open spec fn index_offset(it: IndexType, start: u32) -> u64 {
    match it {
        IndexType::U16 => (start as u64 * 2) as u64,
        IndexType::U32 => (start as u64 * 4) as u64,
    }
}

/// The enumerant replay hands the context for an index element type.
pub open spec fn gl_index_type(it: IndexType) -> u32 {
    match it {
        IndexType::U16 => UNSIGNED_SHORT,
        IndexType::U32 => UNSIGNED_INT,
    }
}

/// The operation is out of this core's coverage: incomplete backend
/// support, not a caller error.
#[derive(Clone, Copy, PartialEq, Eq, Structural, Debug)]
pub struct NotSupported;

/// A subpass command buffer abstraction; subpass recording is out of this
/// core's scope.
#[derive(Debug)]
pub struct SubpassCommandBuffer;

} // verus!
