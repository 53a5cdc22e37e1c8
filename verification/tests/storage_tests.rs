use gl_command::command::{Command, GraphicsPipeline, Span};
use gl_command::recorder::{Limits, RawCommandBuffer};
use gl_command::storage::{BufferMemory, OwnedBuffer};

fn linear_pool() -> BufferMemory {
    BufferMemory::Linear(OwnedBuffer::new())
}

fn individual_pool() -> BufferMemory {
    BufferMemory::Individual { storage: Vec::new() }
}

fn limits() -> Limits {
    Limits::new(16)
}

#[test]
fn append_command_returns_tail_slice() {
    let mut mem = linear_pool();
    let s0 = mem.append_command(0, Command::Dispatch(1, 2, 3));
    let s1 = mem.append_command(0, Command::Dispatch(4, 5, 6));
    assert_eq!((s0.offset, s0.size), (0, 1));
    assert_eq!((s1.offset, s1.size), (1, 1));
    assert_eq!(mem.command_count(0), 2);
    assert_eq!(mem.command_at(0, 0), Command::Dispatch(1, 2, 3));
    assert_eq!(mem.command_at(0, 1), Command::Dispatch(4, 5, 6));
}

#[test]
fn append_data_covers_copied_scalars() {
    let mut mem = linear_pool();
    let s0 = mem.append_data(0, &vec![10, 11]);
    let s1 = mem.append_data(0, &vec![12, 13, 14]);
    assert_eq!((s0.offset, s0.size), (0, 2));
    assert_eq!((s1.offset, s1.size), (2, 3));
    assert_eq!(mem.data_count(0), 5);
    assert_eq!(mem.data_scalar_at(0, 0), 10);
    assert_eq!(mem.data_scalar_at(0, 4), 14);
}

#[test]
fn linear_reset_then_record_starts_at_zero() {
    let mut mem = linear_pool();
    let mut a = RawCommandBuffer::new(0, limits(), &mut mem);
    a.begin(&mut mem);
    a.dispatch(&mut mem, 1, 1, 1);
    a.dispatch(&mut mem, 2, 2, 2);
    a.finish();
    assert_eq!(a.buf.offset, 0);
    assert_eq!(a.buf.size, 2);

    // Reset the whole pool, then record a second buffer: its first entry
    // must start at offset 0 and reuse none of the first recording's
    // indices.
    mem.reset_all();
    assert_eq!(mem.command_count(0), 0);
    let mut b = RawCommandBuffer::new(0, limits(), &mut mem);
    b.begin(&mut mem);
    b.dispatch(&mut mem, 9, 9, 9);
    b.finish();
    assert_eq!(b.buf.offset, 0);
    assert_eq!(b.buf.size, 1);
    assert_eq!(mem.command_count(0), 1);
    assert_eq!(mem.command_at(0, 0), Command::Dispatch(9, 9, 9));
}

#[test]
fn individual_recorders_get_sequential_ids() {
    let mut mem = individual_pool();
    let r0 = RawCommandBuffer::new(0, limits(), &mut mem);
    let r1 = RawCommandBuffer::new(0, limits(), &mut mem);
    let r2 = RawCommandBuffer::new(0, limits(), &mut mem);
    assert_eq!(r0.id, 0);
    assert_eq!(r1.id, 1);
    assert_eq!(r2.id, 2);
    assert!(r0.individual_reset && r1.individual_reset && r2.individual_reset);
    assert_eq!(mem.command_count(0), 0);
    assert_eq!(mem.command_count(1), 0);
    assert_eq!(mem.command_count(2), 0);
}

#[test]
fn linear_recorder_shares_id_zero() {
    let mut mem = linear_pool();
    let r0 = RawCommandBuffer::new(0, limits(), &mut mem);
    let r1 = RawCommandBuffer::new(0, limits(), &mut mem);
    assert_eq!(r0.id, 0);
    assert_eq!(r1.id, 0);
    assert!(!r0.individual_reset && !r1.individual_reset);
}

#[test]
fn individual_reset_empties_only_one_buffer() {
    let mut mem = individual_pool();
    let mut r0 = RawCommandBuffer::new(0, limits(), &mut mem);
    let mut r1 = RawCommandBuffer::new(0, limits(), &mut mem);
    r0.begin(&mut mem);
    r1.begin(&mut mem);

    // Record a distinct draw on each recorder.
    let p0 = GraphicsPipeline {
        primitive: 4,
        patch_size: None,
        program: 10,
        blend_targets: Vec::new(),
        attributes: Vec::new(),
    };
    let p1 = GraphicsPipeline {
        primitive: 4,
        patch_size: None,
        program: 20,
        blend_targets: Vec::new(),
        attributes: Vec::new(),
    };
    r0.bind_graphics_pipeline(&mut mem, &p0);
    r0.draw(&mut mem, Span { start: 0, end: 3 }, Span { start: 0, end: 1 });
    r1.bind_graphics_pipeline(&mut mem, &p1);
    r1.draw(&mut mem, Span { start: 3, end: 9 }, Span { start: 0, end: 2 });
    let r1_log_before = mem.command_count(1);

    let r = r0.reset(&mut mem, false);
    assert!(r.is_ok());
    assert_eq!(mem.command_count(0), 0);
    assert_eq!(mem.command_count(1), r1_log_before);
    assert_eq!(mem.command_at(1, 0), Command::BindProgram(20));
    assert_eq!(
        mem.command_at(1, 1),
        Command::Draw {
            primitive: 4,
            vertices: Span { start: 3, end: 9 },
            instances: Span { start: 0, end: 2 },
        }
    );
}

#[test]
fn reset_on_linear_pool_is_unsupported() {
    let mut mem = linear_pool();
    let mut r = RawCommandBuffer::new(0, limits(), &mut mem);
    r.begin(&mut mem);
    r.dispatch(&mut mem, 1, 1, 1);
    let res = r.reset(&mut mem, false);
    assert!(res.is_err());
    // The shared log is untouched by the rejected request.
    assert_eq!(mem.command_count(0), 1);
}

#[test]
fn begin_on_individual_recorder_resets_its_pair() {
    let mut mem = individual_pool();
    let mut r = RawCommandBuffer::new(0, limits(), &mut mem);
    r.begin(&mut mem);
    r.dispatch(&mut mem, 1, 1, 1);
    r.finish();
    assert_eq!(mem.command_count(0), 1);
    r.begin(&mut mem);
    assert_eq!(mem.command_count(0), 0);
    assert_eq!(r.buf.size, 0);
}

#[test]
fn begin_on_linear_recorder_keeps_shared_log() {
    let mut mem = linear_pool();
    let mut r = RawCommandBuffer::new(0, limits(), &mut mem);
    r.begin(&mut mem);
    r.dispatch(&mut mem, 1, 1, 1);
    r.finish();
    r.begin(&mut mem);
    // Soft reset: coverage forgotten, shared log content untouched.
    assert_eq!(r.buf.size, 0);
    assert_eq!(mem.command_count(0), 1);
}
