//! Per-recorder cache of the last bound state, used to elide redundant
//! state-change commands.

use vstd::prelude::*;
use crate::command::{BlendTarget, ColorBlendDesc, ColorValue, Command, FrameBuffer,
    FrameBufferTarget, IndexType};

verus! {

/// The last state a recorder knows to be bound in the context. Every field
/// starts unknown; emission decisions always compare against this history,
/// never against assumed context defaults.
#[derive(Debug)]
pub struct Cache {
    /// Active primitive topology, set by the current pipeline. Implicit
    /// context for draw commands; never emitted on its own.
    pub primitive: Option<u32>,
    /// Active index element width, set by the last bound index buffer.
    pub index_type: Option<IndexType>,
    /// Stencil reference values (front, back), kept until a pipeline
    /// assembles the full stencil state.
    pub stencil_ref: Option<(u32, u32)>,
    /// Last emitted blend color.
    pub blend_color: Option<ColorValue>,
    /// Last bound framebuffer, cached for completeness.
    pub framebuffer: Option<(FrameBufferTarget, FrameBuffer)>,
    /// Sticky flag: an invalid command was recorded and skipped. A flagged
    /// recording stays usable but must not be submitted for execution.
    pub error_state: bool,
    /// Vertices per patch for tessellation primitives.
    pub patch_size: Option<i32>,
    /// Active program name.
    pub program: Option<u32>,
    /// Per attachment slot, the last bound blend descriptor; grown to the
    /// highest slot ever referenced, unknown slots hold `None`.
    pub blend_targets: Vec<Option<ColorBlendDesc>>,
}

impl Cache {
    /// Every field is unknown and no error was recorded.
    pub open spec fn is_fresh(self) -> bool {
        &&& self.primitive is None
        &&& self.index_type is None
        &&& self.stencil_ref is None
        &&& self.blend_color is None
        &&& self.framebuffer is None
        &&& self.error_state == false
        &&& self.patch_size is None
        &&& self.program is None
        &&& self.blend_targets@ == Seq::<Option<ColorBlendDesc>>::empty()
    }

    /// Every field except the blend-target entries agrees between the two
    /// caches.
    pub open spec fn agrees_except_blend(pre: Cache, post: Cache) -> bool {
        &&& post.primitive == pre.primitive
        &&& post.index_type == pre.index_type
        &&& post.stencil_ref == pre.stencil_ref
        &&& post.blend_color == pre.blend_color
        &&& post.framebuffer == pre.framebuffer
        &&& post.error_state == pre.error_state
        &&& post.patch_size == pre.patch_size
        &&& post.program == pre.program
    }

    /// A cache with every field unknown.
    pub fn new() -> (r: Cache)
        ensures
            r.is_fresh(),
    {
        Cache {
            primitive: None,
            index_type: None,
            stencil_ref: None,
            blend_color: None,
            framebuffer: None,
            error_state: false,
            patch_size: None,
            program: None,
            blend_targets: Vec::new(),
        }
    }
}

/// The cached blend entries after growing to cover at least `n` slots; new
/// slots are filled unknown, existing entries are kept.
pub open spec fn grown(cached: Seq<Option<ColorBlendDesc>>, n: nat) -> Seq<Option<ColorBlendDesc>> {
    if cached.len() >= n {
        cached
    } else {
        cached + Seq::new((n - cached.len()) as nat, |i: int| None)
    }
}

/// The cached blend entries and the emitted commands after binding one
/// blend descriptor: the cache grows to cover the slot; a bind-blend-slot
/// command is emitted only if the slot was unknown or held a different
/// descriptor, and the slot is then updated.
pub open spec fn blend_step(
    cached: Seq<Option<ColorBlendDesc>>,
    t: BlendTarget,
) -> (Seq<Option<ColorBlendDesc>>, Seq<Command>) {
    let g = grown(cached, t.slot as nat + 1);
    if g[t.slot as int] == Some(t.desc) {
        (g, Seq::empty())
    } else {
        (g.update(t.slot as int, Some(t.desc)), seq![Command::BindBlendSlot(t.slot, t.desc)])
    }
}

/// The cached blend entries and the emitted commands after binding a whole
/// list of blend descriptors in order.
pub open spec fn blend_fold(
    cached: Seq<Option<ColorBlendDesc>>,
    targets: Seq<BlendTarget>,
) -> (Seq<Option<ColorBlendDesc>>, Seq<Command>)
    decreases targets.len(),
{
    if targets.len() == 0 {
        (cached, Seq::empty())
    } else {
        let prev = blend_fold(cached, targets.drop_last());
        let step = blend_step(prev.0, targets.last());
        (step.0, prev.1 + step.1)
    }
}

/// Law: binding a list of blend descriptors emits at most one command per
/// descriptor bound.
pub proof fn lemma_blend_fold_emit_len(
    cached: Seq<Option<ColorBlendDesc>>,
    targets: Seq<BlendTarget>,
)
    ensures
        blend_fold(cached, targets).1.len() <= targets.len(),
    decreases targets.len(),
{
    if targets.len() > 0 {
        lemma_blend_fold_emit_len(cached, targets.drop_last());
    }
}

/// Law: binding blend descriptors never forgets a slot — the cache after a
/// fold covers every slot it covered before, every slot just bound holds
/// exactly the descriptor bound to it last, slots never mentioned keep
/// their entries, and slots reached only by growth stay unknown.
pub proof fn lemma_blend_fold_slots(cached: Seq<Option<ColorBlendDesc>>, targets: Seq<BlendTarget>)
    ensures
        blend_fold(cached, targets).0.len() >= cached.len(),
        forall|i: int| 0 <= i < targets.len() ==> blend_fold(cached, targets).0.len()
            > targets[i].slot,
        forall|i: int|
            #![trigger targets[i]]
            0 <= i < targets.len() && (forall|j: int| i < j < targets.len()
                ==> targets[j].slot != targets[i].slot)
            ==> blend_fold(cached, targets).0[targets[i].slot as int] == Some(targets[i].desc),
        forall|s: int| 0 <= s < cached.len() && (forall|j: int| 0 <= j < targets.len()
            ==> targets[j].slot != s) ==> blend_fold(cached, targets).0[s] == cached[s],
        forall|s: int| cached.len() <= s < blend_fold(cached, targets).0.len() && (forall|j: int|
            0 <= j < targets.len() ==> targets[j].slot != s) ==> blend_fold(
            cached,
            targets,
        ).0[s] is None,
    decreases targets.len(),
{
    if targets.len() > 0 {
        lemma_blend_fold_slots(cached, targets.drop_last());
        let prev = blend_fold(cached, targets.drop_last());
        let step = blend_step(prev.0, targets.last());
        assert(step.0.len() >= prev.0.len());
        assert(step.0.len() > targets.last().slot);
        assert forall|i: int| 0 <= i < targets.len()
            implies blend_fold(cached, targets).0.len() > targets[i].slot by {
            if i < targets.len() - 1 {
                assert(targets.drop_last()[i] == targets[i]);
            } else {
                assert(targets[i] == targets.last());
            }
        }
        assert forall|i: int|
            #![trigger targets[i]]
            0 <= i < targets.len() && (forall|j: int| i < j < targets.len()
                ==> targets[j].slot != targets[i].slot)
            implies blend_fold(cached, targets).0[targets[i].slot as int]
                == Some(targets[i].desc) by {
            if i < targets.len() - 1 {
                assert(targets.drop_last()[i] == targets[i]);
                assert(forall|j: int| i < j < targets.drop_last().len()
                    ==> targets.drop_last()[j].slot != targets.drop_last()[i].slot);
            }
        }
    }
}

/// Law: rebinding descriptors that the cache already holds emits nothing
/// and leaves the cache as it is.
pub proof fn lemma_blend_fold_idempotent(
    cached: Seq<Option<ColorBlendDesc>>,
    targets: Seq<BlendTarget>,
)
    requires
        forall|i: int|
            #![trigger targets[i]]
            0 <= i < targets.len() ==> targets[i].slot < cached.len()
                && cached[targets[i].slot as int] == Some(targets[i].desc),
    ensures
        blend_fold(cached, targets).0 == cached,
        blend_fold(cached, targets).1 == Seq::<Command>::empty(),
    decreases targets.len(),
{
    if targets.len() > 0 {
        assert(forall|i: int|
            #![trigger targets.drop_last()[i]]
            0 <= i < targets.drop_last().len() ==> targets.drop_last()[i] == targets[i]);
        lemma_blend_fold_idempotent(cached, targets.drop_last());
        assert(targets[targets.len() - 1] == targets.last());
        assert(grown(cached, targets.last().slot as nat + 1) == cached);
        assert(blend_fold(cached, targets).1 =~= Seq::<Command>::empty());
    }
}

} // verus!
