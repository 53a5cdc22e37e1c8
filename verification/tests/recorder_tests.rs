use gl_command::command::{
    AttributeDesc, BlendTarget, Buffer, ClearColor, ClearDepthStencil, ClearValue,
    ColorBlendDesc, ColorValue, Command, GraphicsPipeline, Image, ImageView, IndexBufferView,
    IndexType, Rect, Span, Viewport, COLOR_ATTACHMENT0, DRAW_FRAMEBUFFER, UNSIGNED_SHORT,
};
use gl_command::recorder::{Limits, RawCommandBuffer};
use gl_command::storage::{BufferMemory, OwnedBuffer};

fn fresh_recorder(max_viewports: usize) -> (RawCommandBuffer, BufferMemory) {
    let mut mem = BufferMemory::Linear(OwnedBuffer::new());
    let mut r = RawCommandBuffer::new(0, Limits::new(max_viewports), &mut mem);
    r.begin(&mut mem);
    (r, mem)
}

fn log(mem: &BufferMemory, id: usize) -> Vec<Command> {
    let mut out = Vec::new();
    let n = mem.command_count(id);
    for i in 0..n {
        out.push(mem.command_at(id, i));
    }
    out
}

fn pipeline(program: u32) -> GraphicsPipeline {
    GraphicsPipeline {
        primitive: 4,
        patch_size: None,
        program,
        blend_targets: Vec::new(),
        attributes: Vec::new(),
    }
}

#[test]
fn draw_without_pipeline_sets_error_and_emits_nothing() {
    let (mut r, mut mem) = fresh_recorder(16);
    r.draw(&mut mem, Span { start: 0, end: 3 }, Span { start: 0, end: 1 });
    assert!(r.cache.error_state);
    assert_eq!(mem.command_count(0), 0);
}

#[test]
fn draw_after_pipeline_emits_one_draw_with_topology() {
    let (mut r, mut mem) = fresh_recorder(16);
    r.bind_graphics_pipeline(&mut mem, &pipeline(11));
    let before = mem.command_count(0);
    r.draw(&mut mem, Span { start: 2, end: 5 }, Span { start: 0, end: 1 });
    assert!(!r.cache.error_state);
    let entries = log(&mem, 0);
    assert_eq!(entries.len(), before + 1);
    assert_eq!(
        entries[before],
        Command::Draw {
            primitive: 4,
            vertices: Span { start: 2, end: 5 },
            instances: Span { start: 0, end: 1 },
        }
    );
}

#[test]
fn draw_indexed_without_index_buffer_sets_error() {
    let (mut r, mut mem) = fresh_recorder(16);
    r.bind_graphics_pipeline(&mut mem, &pipeline(11));
    let before = mem.command_count(0);
    r.draw_indexed(&mut mem, Span { start: 0, end: 6 }, 0, Span { start: 0, end: 1 });
    assert!(r.cache.error_state);
    assert_eq!(mem.command_count(0), before);
}

#[test]
fn draw_indexed_sixteen_bit_scales_offset() {
    let (mut r, mut mem) = fresh_recorder(16);
    r.bind_graphics_pipeline(&mut mem, &pipeline(11));
    r.bind_index_buffer(
        &mut mem,
        IndexBufferView { buffer: Buffer { raw: 42 }, offset: 0, index_type: IndexType::U16 },
    );
    let before = mem.command_count(0);
    r.draw_indexed(&mut mem, Span { start: 10, end: 20 }, 3, Span { start: 0, end: 1 });
    let entries = log(&mem, 0);
    assert_eq!(entries.len(), before + 1);
    assert_eq!(
        entries[before],
        Command::DrawIndexed {
            primitive: 4,
            index_type: UNSIGNED_SHORT,
            index_count: 10,
            index_buffer_offset: 20,
            base_vertex: 3,
            instances: Span { start: 0, end: 1 },
        }
    );
}

#[test]
fn bind_index_buffer_records_and_caches() {
    let (mut r, mut mem) = fresh_recorder(16);
    r.bind_index_buffer(
        &mut mem,
        IndexBufferView { buffer: Buffer { raw: 42 }, offset: 0, index_type: IndexType::U32 },
    );
    assert_eq!(r.cache.index_type, Some(IndexType::U32));
    assert_eq!(log(&mem, 0), vec![Command::BindIndexBuffer(42)]);
}

#[test]
fn bind_vertex_buffers_records_each_in_order() {
    let (mut r, mut mem) = fresh_recorder(16);
    r.bind_vertex_buffers(&mut mem, &vec![Buffer { raw: 5 }, Buffer { raw: 6 }]);
    assert_eq!(
        log(&mem, 0),
        vec![Command::BindVertexBuffer(5), Command::BindVertexBuffer(6)]
    );
}

#[test]
fn same_program_twice_emits_one_bind() {
    let (mut r, mut mem) = fresh_recorder(16);
    r.bind_graphics_pipeline(&mut mem, &pipeline(11));
    r.bind_graphics_pipeline(&mut mem, &pipeline(11));
    assert_eq!(log(&mem, 0), vec![Command::BindProgram(11)]);
}

#[test]
fn distinct_programs_emit_one_bind_each() {
    let (mut r, mut mem) = fresh_recorder(16);
    r.bind_graphics_pipeline(&mut mem, &pipeline(11));
    r.bind_graphics_pipeline(&mut mem, &pipeline(12));
    assert_eq!(
        log(&mem, 0),
        vec![Command::BindProgram(11), Command::BindProgram(12)]
    );
}

#[test]
fn same_patch_size_twice_emits_one_change() {
    let (mut r, mut mem) = fresh_recorder(16);
    let mut p = pipeline(11);
    p.patch_size = Some(3);
    r.bind_graphics_pipeline(&mut mem, &p);
    r.bind_graphics_pipeline(&mut mem, &p);
    assert_eq!(
        log(&mem, 0),
        vec![Command::SetPatchSize(3), Command::BindProgram(11)]
    );
}

#[test]
fn same_blend_color_twice_emits_one_change() {
    let (mut r, mut mem) = fresh_recorder(16);
    let cv = ColorValue { r: 1, g: 2, b: 3, a: 4 };
    r.set_blend_constants(&mut mem, cv);
    r.set_blend_constants(&mut mem, cv);
    assert_eq!(log(&mem, 0), vec![Command::SetBlendColor(cv)]);

    let cv2 = ColorValue { r: 9, g: 2, b: 3, a: 4 };
    r.set_blend_constants(&mut mem, cv2);
    assert_eq!(
        log(&mem, 0),
        vec![Command::SetBlendColor(cv), Command::SetBlendColor(cv2)]
    );
}

#[test]
fn blend_slots_grow_cache_and_emit_once() {
    let (mut r, mut mem) = fresh_recorder(16);
    let desc = ColorBlendDesc { mask: 0xF, blend: 77 };
    let mut p = pipeline(11);
    p.blend_targets = vec![
        BlendTarget { slot: 0, desc },
        BlendTarget { slot: 2, desc },
        BlendTarget { slot: 5, desc },
    ];
    r.bind_graphics_pipeline(&mut mem, &p);

    // Cache grew to cover slot 5; untouched slots stay unknown.
    assert!(r.cache.blend_targets.len() >= 6);
    assert_eq!(r.cache.blend_targets[0], Some(desc));
    assert_eq!(r.cache.blend_targets[1], None);
    assert_eq!(r.cache.blend_targets[2], Some(desc));
    assert_eq!(r.cache.blend_targets[3], None);
    assert_eq!(r.cache.blend_targets[4], None);
    assert_eq!(r.cache.blend_targets[5], Some(desc));

    let blend_binds = log(&mem, 0)
        .iter()
        .filter(|c| matches!(c, Command::BindBlendSlot(_, _)))
        .count();
    assert_eq!(blend_binds, 3);

    // Re-binding identical descriptors emits nothing further.
    let before = mem.command_count(0);
    r.bind_graphics_pipeline(&mut mem, &p);
    assert_eq!(mem.command_count(0), before);
}

#[test]
fn pipeline_attributes_are_rerecorded_every_bind() {
    let (mut r, mut mem) = fresh_recorder(16);
    let mut p = pipeline(11);
    p.attributes = vec![AttributeDesc { raw: 100 }, AttributeDesc { raw: 200 }];
    r.bind_graphics_pipeline(&mut mem, &p);
    r.bind_graphics_pipeline(&mut mem, &p);
    let attr_binds = log(&mem, 0)
        .iter()
        .filter(|c| matches!(c, Command::BindAttribute(_)))
        .count();
    assert_eq!(attr_binds, 4);
}

#[test]
fn empty_viewport_set_is_rejected() {
    let (mut r, mut mem) = fresh_recorder(16);
    r.set_viewports(&mut mem, &Vec::new());
    assert!(r.cache.error_state);
    assert_eq!(mem.command_count(0), 0);
    assert_eq!(mem.data_count(0), 0);
}

#[test]
fn over_limit_viewport_set_is_rejected() {
    let (mut r, mut mem) = fresh_recorder(1);
    let v = Viewport {
        x_bits: 0,
        y_bits: 0,
        w_bits: 0,
        h_bits: 0,
        depth_start_bits: 0,
        depth_end_bits: 0,
    };
    r.set_viewports(&mut mem, &vec![v, v]);
    assert!(r.cache.error_state);
    assert_eq!(mem.command_count(0), 0);
}

#[test]
fn viewport_set_serializes_rects_then_depths() {
    let (mut r, mut mem) = fresh_recorder(16);
    let v0 = Viewport {
        x_bits: (1.0f32).to_bits(),
        y_bits: (2.0f32).to_bits(),
        w_bits: (3.0f32).to_bits(),
        h_bits: (4.0f32).to_bits(),
        depth_start_bits: (0.0f64).to_bits(),
        depth_end_bits: (1.0f64).to_bits(),
    };
    let v1 = Viewport {
        x_bits: (5.0f32).to_bits(),
        y_bits: (6.0f32).to_bits(),
        w_bits: (7.0f32).to_bits(),
        h_bits: (8.0f32).to_bits(),
        depth_start_bits: (0.25f64).to_bits(),
        depth_end_bits: (0.75f64).to_bits(),
    };
    r.set_viewports(&mut mem, &vec![v0, v1]);
    assert!(!r.cache.error_state);

    let entries = log(&mem, 0);
    assert_eq!(entries.len(), 1);
    match entries[0] {
        Command::SetViewports { viewport_ptr, depth_range_ptr } => {
            assert_eq!((viewport_ptr.offset, viewport_ptr.size), (0, 8));
            assert_eq!((depth_range_ptr.offset, depth_range_ptr.size), (8, 4));
        }
        ref other => panic!("expected SetViewports, got {:?}", other),
    }
    assert_eq!(mem.data_count(0), 12);
    assert_eq!(mem.data_scalar_at(0, 0), (1.0f32).to_bits() as u64);
    assert_eq!(mem.data_scalar_at(0, 4), (5.0f32).to_bits() as u64);
    assert_eq!(mem.data_scalar_at(0, 8), (0.0f64).to_bits());
    assert_eq!(mem.data_scalar_at(0, 11), (0.75f64).to_bits());
}

#[test]
fn scissor_set_serializes_four_ints_each() {
    let (mut r, mut mem) = fresh_recorder(16);
    let s0 = Rect { x: 1, y: 2, w: 3, h: 4 };
    let s1 = Rect { x: 5, y: 6, w: 7, h: 8 };
    r.set_scissors(&mut mem, &vec![s0, s1]);
    let entries = log(&mem, 0);
    assert_eq!(entries.len(), 1);
    match entries[0] {
        Command::SetScissors(ptr) => {
            assert_eq!((ptr.offset, ptr.size), (0, 8));
        }
        ref other => panic!("expected SetScissors, got {:?}", other),
    }
    assert_eq!(mem.data_count(0), 8);
    assert_eq!(mem.data_scalar_at(0, 0), 1);
    assert_eq!(mem.data_scalar_at(0, 7), 8);
}

#[test]
fn distinct_patch_sizes_emit_one_change_each() {
    let (mut r, mut mem) = fresh_recorder(16);
    let mut p = pipeline(11);
    p.patch_size = Some(3);
    r.bind_graphics_pipeline(&mut mem, &p);
    p.patch_size = Some(4);
    r.bind_graphics_pipeline(&mut mem, &p);
    assert_eq!(
        log(&mem, 0),
        vec![
            Command::SetPatchSize(3),
            Command::BindProgram(11),
            Command::SetPatchSize(4),
        ]
    );
    assert_eq!(r.cache.patch_size, Some(4));
}

#[test]
fn viewport_count_at_limit_is_accepted() {
    let (mut r, mut mem) = fresh_recorder(2);
    let v = Viewport {
        x_bits: 0,
        y_bits: 0,
        w_bits: 0,
        h_bits: 0,
        depth_start_bits: 0,
        depth_end_bits: 0,
    };
    r.set_viewports(&mut mem, &vec![v, v]);
    assert!(!r.cache.error_state);
    assert_eq!(mem.command_count(0), 1);
}

#[test]
fn over_limit_sets_still_serialize_payload() {
    let (mut r, mut mem) = fresh_recorder(1);
    let s = Rect { x: 1, y: 2, w: 3, h: 4 };
    r.set_scissors(&mut mem, &vec![s, s]);
    assert!(r.cache.error_state);
    // The payload was copied before the count check; only the command is
    // withheld.
    assert_eq!(mem.command_count(0), 0);
    assert_eq!(mem.data_count(0), 8);
}

#[test]
fn empty_scissor_set_is_rejected() {
    let (mut r, mut mem) = fresh_recorder(16);
    r.set_scissors(&mut mem, &Vec::new());
    assert!(r.cache.error_state);
    assert_eq!(mem.command_count(0), 0);
}

#[test]
fn stencil_reference_is_cached_without_emission() {
    let (mut r, mut mem) = fresh_recorder(16);
    r.set_stencil_reference(7, 8);
    assert_eq!(r.cache.stencil_ref, Some((7, 8)));
    assert_eq!(mem.command_count(0), 0);
}

#[test]
fn clear_color_image_records_four_commands() {
    let (mut r, mut mem) = fresh_recorder(16);
    let value = ClearColor::Float(ColorValue { r: 1, g: 2, b: 3, a: 4 });
    r.clear_color_image(&mut mem, &Image::Texture(9), value);
    assert_eq!(
        log(&mem, 0),
        vec![
            Command::BindFrameBuffer(DRAW_FRAMEBUFFER, 0),
            Command::BindTargetView(DRAW_FRAMEBUFFER, COLOR_ATTACHMENT0, ImageView::Texture(9, 0)),
            Command::SetDrawColorBuffers(1),
            Command::ClearColor(value),
        ]
    );
}

#[test]
fn begin_renderpass_records_color_clears() {
    let (mut r, mut mem) = fresh_recorder(16);
    let c0 = ClearColor::Float(ColorValue { r: 1, g: 0, b: 0, a: 0 });
    let c1 = ClearColor::Uint(gl_command::command::UnsignedColorValue { r: 0, g: 1, b: 0, a: 0 });
    let res = r.begin_renderpass(&mut mem, &vec![ClearValue::Color(c0), ClearValue::Color(c1)]);
    assert!(res.is_ok());
    assert_eq!(
        log(&mem, 0),
        vec![Command::ClearColor(c0), Command::ClearColor(c1)]
    );
}

#[test]
fn begin_renderpass_rejects_depth_stencil_clears() {
    let (mut r, mut mem) = fresh_recorder(16);
    let c0 = ClearColor::Float(ColorValue { r: 1, g: 0, b: 0, a: 0 });
    let res = r.begin_renderpass(
        &mut mem,
        &vec![
            ClearValue::Color(c0),
            ClearValue::DepthStencil(ClearDepthStencil { depth_bits: 0, stencil: 0 }),
        ],
    );
    assert!(res.is_err());
    assert_eq!(mem.command_count(0), 0);
}

#[test]
fn dispatch_indirect_records_buffer_and_offset() {
    let (mut r, mut mem) = fresh_recorder(16);
    r.dispatch_indirect(&mut mem, &Buffer { raw: 33 }, 256);
    assert_eq!(log(&mem, 0), vec![Command::DispatchIndirect(33, 256)]);
}

#[test]
fn unsupported_operations_report_typed_errors() {
    let (mut r, mut mem) = fresh_recorder(16);
    assert!(r.fill_buffer(&Buffer { raw: 1 }, 0, 16, 0).is_err());
    assert!(r.update_buffer(&Buffer { raw: 1 }, 0, &vec![0u8]).is_err());
    assert!(r.next_subpass().is_err());
    assert!(r.copy_buffer(&Buffer { raw: 1 }, &Buffer { raw: 2 }).is_err());
    assert!(r.copy_image(&Image::Texture(1), &Image::Texture(2)).is_err());
    assert!(r.copy_buffer_to_image(&Buffer { raw: 1 }, &Image::Texture(2)).is_err());
    assert!(r.copy_image_to_buffer(&Image::Texture(1), &Buffer { raw: 2 }).is_err());
    assert!(r.bind_compute_pipeline(3).is_err());
    assert!(r.bind_compute_descriptor_sets(0).is_err());
    assert!(r.draw_indirect(&Buffer { raw: 1 }, 0, 1, 0).is_err());
    assert!(r.draw_indexed_indirect(&Buffer { raw: 1 }, 0, 1, 0).is_err());
    assert!(r.begin_query(0).is_err());
    assert!(r.end_query(0).is_err());
    assert!(r.reset_query_pool(0, 1).is_err());
    assert!(r.write_timestamp(0).is_err());
    assert!(r.push_graphics_constants(0, &vec![1]).is_err());
    assert!(r.push_compute_constants(0, &vec![1]).is_err());
    assert!(r.clear_attachments(&vec![Rect { x: 0, y: 0, w: 1, h: 1 }]).is_err());
    assert!(
        r
            .clear_depth_stencil_image(
                &Image::Texture(1),
                ClearDepthStencil { depth_bits: 0, stencil: 0 },
            )
            .is_err()
    );
    // None of them touched the recorder's storage or raised the flag.
    assert_eq!(mem.command_count(0), 0);
    assert!(!r.cache.error_state);
}
