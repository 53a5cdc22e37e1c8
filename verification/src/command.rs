//! The compact commands of the log and the plain values they carry.
//!
//! Replay happens outside this crate, against a live rendering context; the
//! core only stores and compares handles and scalar encodings by identity.
//! Floating-point payloads (colors, viewport rectangles, depth ranges) are
//! carried as their IEEE-754 bit patterns, so the log itself is made of
//! plain integers.

use vstd::prelude::*;
use crate::slice::BufferSlice;

verus! {

/// Target enumerant for framebuffer binds, as replay hands it to the context.
pub type FrameBufferTarget = u32;

/// Attachment enumerant for target-view binds.
pub type AttachmentPoint = u32;

/// Name of a framebuffer object.
pub type FrameBuffer = u32;

/// Index of a color attachment slot.
pub type ColorSlot = u8;

/// Enumerant replay uses to bind to the draw framebuffer.
pub const DRAW_FRAMEBUFFER: u32 = 0x8CA9;

/// Enumerant of the first color attachment point.
pub const COLOR_ATTACHMENT0: u32 = 0x8CE0;

/// Enumerant for 16-bit index elements.
pub const UNSIGNED_SHORT: u32 = 0x1403;

/// Enumerant for 32-bit index elements.
pub const UNSIGNED_INT: u32 = 0x1405;

/// A half-open range `start..end` of counts or indices.
#[derive(Clone, Copy, PartialEq, Eq, Structural, Debug)]
pub struct Span {
    pub start: u32,
    pub end: u32,
}

impl Span {
    /// The range does not run backwards.
    pub open spec fn wf(self) -> bool {
        self.start <= self.end
    }
}

/// An RGBA color; each channel holds the bit pattern of a 32-bit float.
#[derive(Clone, Copy, PartialEq, Eq, Structural, Debug)]
pub struct ColorValue {
    pub r: u32,
    pub g: u32,
    pub b: u32,
    pub a: u32,
}

/// An RGBA color of signed 32-bit integer channels.
#[derive(Clone, Copy, PartialEq, Eq, Structural, Debug)]
pub struct SignedColorValue {
    pub r: i32,
    pub g: i32,
    pub b: i32,
    pub a: i32,
}

/// An RGBA color of unsigned 32-bit integer channels.
#[derive(Clone, Copy, PartialEq, Eq, Structural, Debug)]
pub struct UnsignedColorValue {
    pub r: u32,
    pub g: u32,
    pub b: u32,
    pub a: u32,
}

/// A clear color, interpreted per the render target's channel type.
#[derive(Clone, Copy, PartialEq, Eq, Structural, Debug)]
pub enum ClearColor {
    Float(ColorValue),
    Int(SignedColorValue),
    Uint(UnsignedColorValue),
}

/// A combined depth/stencil clear value; the depth holds a 32-bit float's
/// bit pattern.
#[derive(Clone, Copy, PartialEq, Eq, Structural, Debug)]
pub struct ClearDepthStencil {
    pub depth_bits: u32,
    pub stencil: u32,
}

/// A clear value for one attachment of a render pass.
#[derive(Clone, Copy, PartialEq, Eq, Structural, Debug)]
pub enum ClearValue {
    Color(ClearColor),
    DepthStencil(ClearDepthStencil),
}

/// Element width of a bound index buffer.
#[derive(Clone, Copy, PartialEq, Eq, Structural, Debug)]
pub enum IndexType {
    U16,
    U32,
}

/// A view of an image, by the handle replay resolves it with.
#[derive(Clone, Copy, PartialEq, Eq, Structural, Debug)]
pub enum ImageView {
    Surface(u32),
    Texture(u32, u32),
}

/// An image resource: either a renderbuffer surface or a texture.
#[derive(Clone, Copy, PartialEq, Eq, Structural, Debug)]
pub enum Image {
    Surface(u32),
    Texture(u32),
}

/// A buffer resource, stored and compared only by its raw name.
#[derive(Clone, Copy, PartialEq, Eq, Structural, Debug)]
pub struct Buffer {
    pub raw: u32,
}

/// An opaque vertex-attribute descriptor; the core never interprets it.
#[derive(Clone, Copy, PartialEq, Eq, Structural, Debug)]
pub struct AttributeDesc {
    pub raw: u64,
}

/// Blend configuration of one color attachment: a write mask and an opaque
/// encoding of the blend state. The core compares these only by identity.
#[derive(Clone, Copy, PartialEq, Eq, Structural, Debug)]
pub struct ColorBlendDesc {
    pub mask: u32,
    pub blend: u64,
}

/// A blend descriptor aimed at one attachment slot.
#[derive(Clone, Copy, PartialEq, Eq, Structural, Debug)]
pub struct BlendTarget {
    pub slot: ColorSlot,
    pub desc: ColorBlendDesc,
}

/// A bound index buffer: the buffer, a byte offset into it, and the width
/// of its elements.
#[derive(Clone, Copy, PartialEq, Eq, Structural, Debug)]
pub struct IndexBufferView {
    pub buffer: Buffer,
    pub offset: u64,
    pub index_type: IndexType,
}

/// A viewport: the rectangle as four 32-bit float bit patterns and the
/// depth range as two 64-bit float bit patterns.
#[derive(Clone, Copy, PartialEq, Eq, Structural, Debug)]
pub struct Viewport {
    pub x_bits: u32,
    pub y_bits: u32,
    pub w_bits: u32,
    pub h_bits: u32,
    pub depth_start_bits: u64,
    pub depth_end_bits: u64,
}

/// A scissor rectangle in window coordinates.
#[derive(Clone, Copy, PartialEq, Eq, Structural, Debug)]
pub struct Rect {
    pub x: u16,
    pub y: u16,
    pub w: u16,
    pub h: u16,
}

/// The state of a graphics pipeline that recording reads: the fixed
/// topology, the optional patch size, the program to bind, the blend
/// descriptors it sets, and the vertex attributes it enables.
#[derive(PartialEq, Eq, Debug)]
pub struct GraphicsPipeline {
    pub primitive: u32,
    pub patch_size: Option<i32>,
    pub program: u32,
    pub blend_targets: Vec<BlendTarget>,
    pub attributes: Vec<AttributeDesc>,
}

/// One entry of the command log. Commands are appended once and never
/// mutated; payload slices index the auxiliary data buffer, whose element
/// type per variant is fixed by that variant (rectangle scalars for
/// `SetViewports`/`SetScissors`, depth bit patterns for `SetViewports`).
#[derive(Clone, Copy, PartialEq, Eq, Structural, Debug)]
pub enum Command {
    Dispatch(u32, u32, u32),
    DispatchIndirect(u32, u64),
    Draw { primitive: u32, vertices: Span, instances: Span },
    DrawIndexed {
        primitive: u32,
        index_type: u32,
        index_count: u32,
        index_buffer_offset: u64,
        base_vertex: i32,
        instances: Span,
    },
    BindIndexBuffer(u32),
    BindVertexBuffer(u32),
    SetViewports { viewport_ptr: BufferSlice, depth_range_ptr: BufferSlice },
    SetScissors(BufferSlice),
    SetBlendColor(ColorValue),
    ClearColor(ClearColor),
    BindFrameBuffer(FrameBufferTarget, FrameBuffer),
    BindTargetView(FrameBufferTarget, AttachmentPoint, ImageView),
    SetDrawColorBuffers(usize),
    SetPatchSize(i32),
    BindProgram(u32),
    BindBlendSlot(ColorSlot, ColorBlendDesc),
    BindAttribute(AttributeDesc),
    UnbindAttribute(AttributeDesc),
}

} // verus!
