//! The deferred command queue.
//!
//! Callers record scene mutations as [`Instruction`] values in the producer
//! buffer of an [`InstructionStreamPair`]; once per frame the renderer swaps
//! the two buffers and drains the consumer buffer in push order. The pair
//! itself is plain state mutated through `&mut`; the device layer around this
//! crate puts it behind one lock, so every push and swap it performs is one
//! of the atomic steps modelled by [`QueueOp`].

use vstd::prelude::*;
use vstd::seq_lib::group_seq_properties;

use crate::types::{
    Camera, DirectionalLight, DirectionalLightChange, GraphDataAdd, InstructionLocation, Mat4Bits,
    MaterialChange, MaterialFill, Object, ObjectChange, PointLight, PointLightChange,
    RawDirectionalLightHandle, RawGraphDataHandleUntyped, RawMaterialHandle, RawMeshHandle,
    RawObjectHandle, RawPointLightHandle, RawSkeletonHandle, RawTexture2DHandle,
    RawTextureCubeHandle, ScalarBits, Skeleton, TextureData, TextureFromTexture,
};

verus! {

/// One recorded scene mutation, together with the call site that requested
/// it. No variant holds an owning reference to a resource: a deletion is
/// itself an instruction appended after any use, so ordering within the
/// queue, not reference counting, keeps handles valid.
pub struct Instruction {
    pub kind: InstructionKind,
    pub location: InstructionLocation,
}

/// The closed set of scene mutations, one variant per operation the frame
/// stage can apply.
pub enum InstructionKind {
    AddSkeleton { handle: RawSkeletonHandle, skeleton: Skeleton },
    AddTexture2D { handle: RawTexture2DHandle, texture: TextureData },
    AddTexture2DFromTexture { handle: RawTexture2DHandle, texture: TextureFromTexture },
    AddTextureCube { handle: RawTextureCubeHandle, texture: TextureData },
    AddMaterial { handle: RawMaterialHandle, fill: MaterialFill },
    AddObject { handle: RawObjectHandle, object: Object },
    AddDirectionalLight { handle: RawDirectionalLightHandle, light: DirectionalLight },
    AddPointLight { handle: RawPointLightHandle, light: PointLight },
    AddGraphData { add: GraphDataAdd },
    ChangeMaterial { handle: RawMaterialHandle, change: MaterialChange },
    ChangeDirectionalLight { handle: RawDirectionalLightHandle, change: DirectionalLightChange },
    ChangePointLight { handle: RawPointLightHandle, change: PointLightChange },
    DeleteMesh { handle: RawMeshHandle },
    DeleteSkeleton { handle: RawSkeletonHandle },
    DeleteTexture2D { handle: RawTexture2DHandle },
    DeleteTextureCube { handle: RawTextureCubeHandle },
    DeleteMaterial { handle: RawMaterialHandle },
    DeleteObject { handle: RawObjectHandle },
    DeleteDirectionalLight { handle: RawDirectionalLightHandle },
    DeletePointLight { handle: RawPointLightHandle },
    DeleteGraphData { handle: RawGraphDataHandleUntyped },
    SetObjectTransform { handle: RawObjectHandle, transform: Mat4Bits },
    SetSkeletonJointDeltas { handle: RawSkeletonHandle, joint_matrices: Vec<Mat4Bits> },
    SetAspectRatio { ratio: ScalarBits },
    SetCameraData { data: Camera },
    DuplicateObject {
        src_handle: RawObjectHandle,
        dst_handle: RawObjectHandle,
        change: ObjectChange,
    },
}

/// The two-buffer queue: callers append to `producer`, the renderer drains
/// `consumer`, and a swap exchanges the two in one step.
pub struct InstructionStreamPair {
    pub producer: Vec<Instruction>,
    pub consumer: Vec<Instruction>,
}

impl InstructionStreamPair {
    /// Both buffers start empty.
    pub fn new() -> (r: Self)
        ensures
            r.producer@ =~= Seq::<Instruction>::empty(),
            r.consumer@ =~= Seq::<Instruction>::empty(),
    {
        InstructionStreamPair { producer: Vec::new(), consumer: Vec::new() }
    }

    /// Appends one instruction to the producer buffer. This is
    /// [`queue_op_applied`] for a `Push`.
    pub fn push(&mut self, kind: InstructionKind, location: InstructionLocation)
        ensures
            final(self).producer@ == old(self).producer@.push(
                (Instruction { kind, location }),
            ),
            final(self).consumer@ == old(self).consumer@,
    {
        self.producer.push(Instruction { kind, location });
    }

    /// Exchanges the two buffers' contents in one step, without copying
    /// elements. Afterwards the consumer holds exactly what was pushed since
    /// the previous swap, in push order, and the producer holds what the
    /// consumer held (nothing, once the renderer had drained it). This is
    /// [`queue_op_applied`] for a `Swap`.
    pub fn swap(&mut self)
        ensures
            final(self).producer@ == old(self).consumer@,
            final(self).consumer@ == old(self).producer@,
    {
        core::mem::swap(&mut self.producer, &mut self.consumer);
    }

    /// Takes the whole consumer buffer, in push order, leaving it empty; the
    /// renderer applies the result one instruction at a time. This is
    /// [`queue_op_applied`] for a `Drain`.
    pub fn drain_consumer(&mut self) -> (r: Vec<Instruction>)
        ensures
            r@ == old(self).consumer@,
            final(self).consumer@ =~= Seq::<Instruction>::empty(),
            final(self).producer@ == old(self).producer@,
    {
        let mut out: Vec<Instruction> = Vec::new();
        core::mem::swap(&mut out, &mut self.consumer);
        out
    }
}

/// One atomic step on the queue, as the lock around the pair serializes
/// them. The state is the pair of buffer contents `(producer, consumer)`.
pub enum QueueOp {
    Push { instruction: Instruction },
    Swap,
    Drain,
}

/// What one step does to the state: exactly the `ensures` of [`push`],
/// [`swap`] and [`drain_consumer`].
///
/// [`push`]: InstructionStreamPair::push
/// [`swap`]: InstructionStreamPair::swap
/// [`drain_consumer`]: InstructionStreamPair::drain_consumer
pub open spec fn queue_op_applied(
    state: (Seq<Instruction>, Seq<Instruction>),
    op: QueueOp,
) -> (Seq<Instruction>, Seq<Instruction>) {
    match op {
        QueueOp::Push { instruction } => (state.0.push(instruction), state.1),
        QueueOp::Swap => (state.1, state.0),
        QueueOp::Drain => (state.0, Seq::empty()),
    }
}

/// The state after a whole run of steps, first step first.
pub open spec fn queue_ops_applied(
    state: (Seq<Instruction>, Seq<Instruction>),
    ops: Seq<QueueOp>,
) -> (Seq<Instruction>, Seq<Instruction>)
    decreases ops.len(),
{
    if ops.len() == 0 {
        state
    } else {
        queue_ops_applied(queue_op_applied(state, ops.first()), ops.drop_first())
    }
}

/// A run of pushes appends the pushed instructions to the producer, in
/// order, and leaves the consumer alone.
pub proof fn lemma_pushes_accumulate(
    state: (Seq<Instruction>, Seq<Instruction>),
    pushes: Seq<Instruction>,
)
    ensures
        queue_ops_applied(state, pushes.map_values(|i| QueueOp::Push { instruction: i })).0
            == state.0 + pushes,
        queue_ops_applied(state, pushes.map_values(|i| QueueOp::Push { instruction: i })).1
            == state.1,
    decreases pushes.len(),
{
    broadcast use group_seq_properties;

    let ops = pushes.map_values(|i| QueueOp::Push { instruction: i });
    if pushes.len() == 0 {
        assert(state.0 + pushes =~= state.0);
    } else {
        let mid = queue_op_applied(state, ops.first());
        assert(ops.drop_first() =~= pushes.drop_first().map_values(
            |i| QueueOp::Push { instruction: i },
        ));
        lemma_pushes_accumulate(mid, pushes.drop_first());
        assert(state.0.push(pushes.first()) + pushes.drop_first() =~= state.0 + pushes);
    }
}

/// Swap correctness: whatever the consumer held, after any run of pushes
/// followed by one swap the consumer holds exactly those pushes since the
/// prior swap, in push order, and the producer holds what the consumer held
/// before — so the producer is empty immediately after the swap whenever the
/// renderer had drained the consumer.
pub proof fn lemma_swap_correctness(leftover: Seq<Instruction>, pushes: Seq<Instruction>)
    ensures
        ({
            let before = queue_ops_applied(
                (Seq::<Instruction>::empty(), leftover),
                pushes.map_values(|i| QueueOp::Push { instruction: i }),
            );
            let after = queue_op_applied(before, QueueOp::Swap);
            after.1 == pushes && after.0 == leftover
        }),
{
    lemma_pushes_accumulate((Seq::<Instruction>::empty(), leftover), pushes);
    assert(Seq::<Instruction>::empty() + pushes =~= pushes);
}

/// `c` merges `a` and `b`: every element of `c` comes from exactly one of
/// the two sides, and each side keeps its own order. This is the shape of
/// any run the lock around the pair makes of two threads' pushes.
pub open spec fn is_interleaving(
    a: Seq<Instruction>,
    b: Seq<Instruction>,
    c: Seq<Instruction>,
) -> bool
    decreases c.len(),
{
    if c.len() == 0 {
        a.len() == 0 && b.len() == 0
    } else {
        ||| (a.len() > 0 && a.first() == c.first() && is_interleaving(
            a.drop_first(),
            b,
            c.drop_first(),
        ))
        ||| (b.len() > 0 && b.first() == c.first() && is_interleaving(
            a,
            b.drop_first(),
            c.drop_first(),
        ))
    }
}

/// Removing a sequence's first element takes one occurrence of it out of
/// the multiset; read the other way, the whole sequence's multiset is the
/// rest's plus that element.
proof fn lemma_first_in_multiset(s: Seq<Instruction>)
    requires
        s.len() > 0,
    ensures
        s.to_multiset() =~= s.drop_first().to_multiset().insert(s.first()),
{
    broadcast use vstd::seq_lib::group_to_multiset_ensures;
    broadcast use vstd::multiset::group_multiset_axioms;

    assert(s.remove(0) =~= s.drop_first());
    assert(s.remove(0).to_multiset() =~= s.to_multiset().remove(s[0]));
    assert(s.contains(s[0]));
    assert(s.to_multiset().count(s[0]) > 0);
}

/// An interleaving holds exactly the two sides' elements: as many, and the
/// same instructions with the same multiplicities.
pub proof fn lemma_interleaving_counts(
    a: Seq<Instruction>,
    b: Seq<Instruction>,
    c: Seq<Instruction>,
)
    requires
        is_interleaving(a, b, c),
    ensures
        c.len() == a.len() + b.len(),
        c.to_multiset() =~= a.to_multiset().add(b.to_multiset()),
    decreases c.len(),
{
    broadcast use vstd::seq_lib::group_to_multiset_ensures;
    broadcast use vstd::multiset::group_multiset_axioms;

    if c.len() == 0 {
        assert(a =~= Seq::<Instruction>::empty());
        assert(b =~= c);
    } else if a.len() > 0 && a.first() == c.first() && is_interleaving(
        a.drop_first(),
        b,
        c.drop_first(),
    ) {
        lemma_interleaving_counts(a.drop_first(), b, c.drop_first());
        lemma_first_in_multiset(a);
        lemma_first_in_multiset(c);
        assert(c.to_multiset() =~= a.to_multiset().add(b.to_multiset()));
    } else {
        lemma_interleaving_counts(a, b.drop_first(), c.drop_first());
        lemma_first_in_multiset(b);
        lemma_first_in_multiset(c);
        assert(c.to_multiset() =~= a.to_multiset().add(b.to_multiset()));
    }
}

/// Concurrency safety for two producers: however the lock serialized thread
/// A's and thread B's pushes into one run — any merge that keeps each
/// thread's own order — one swap delivers that run whole as the consumer:
/// one instruction per push, none lost, none duplicated, and each thread's
/// pushes still in their relative order because the consumer is the run
/// itself. More producers compose: treat the first two threads' run as one
/// side and the next thread as the other.
pub proof fn lemma_concurrent_pushes_delivered_exactly_once(
    a: Seq<Instruction>,
    b: Seq<Instruction>,
    pushes: Seq<Instruction>,
    leftover: Seq<Instruction>,
)
    requires
        is_interleaving(a, b, pushes),
    ensures
        ({
            let before = queue_ops_applied(
                (Seq::<Instruction>::empty(), leftover),
                pushes.map_values(|i| QueueOp::Push { instruction: i }),
            );
            let after = queue_op_applied(before, QueueOp::Swap);
            &&& after.1 == pushes
            &&& after.1.len() == a.len() + b.len()
            &&& after.1.to_multiset() == a.to_multiset().add(b.to_multiset())
        }),
{
    lemma_swap_correctness(leftover, pushes);
    lemma_interleaving_counts(a, b, pushes);
}

/// Conversion of a raw handle into the delete instruction for its resource
/// kind: a pure capability, total over the closed set of handle types, used
/// by generic code that deletes without knowing the concrete resource kind.
pub trait DeletableRawResourceHandle: Sized {
    /// Which delete instruction this handle type converts to.
    spec fn delete_instruction_kind(self) -> InstructionKind;

    /// Builds the delete instruction carrying this handle.
    fn into_delete_instruction_kind(self) -> (r: InstructionKind)
        ensures
            r == self.delete_instruction_kind(),
    ;
}

impl DeletableRawResourceHandle for RawMeshHandle {
    open spec fn delete_instruction_kind(self) -> InstructionKind {
        InstructionKind::DeleteMesh { handle: self }
    }

    fn into_delete_instruction_kind(self) -> InstructionKind {
        InstructionKind::DeleteMesh { handle: self }
    }
}

impl DeletableRawResourceHandle for RawSkeletonHandle {
    open spec fn delete_instruction_kind(self) -> InstructionKind {
        InstructionKind::DeleteSkeleton { handle: self }
    }

    fn into_delete_instruction_kind(self) -> InstructionKind {
        InstructionKind::DeleteSkeleton { handle: self }
    }
}

impl DeletableRawResourceHandle for RawTexture2DHandle {
    open spec fn delete_instruction_kind(self) -> InstructionKind {
        InstructionKind::DeleteTexture2D { handle: self }
    }

    fn into_delete_instruction_kind(self) -> InstructionKind {
        InstructionKind::DeleteTexture2D { handle: self }
    }
}

impl DeletableRawResourceHandle for RawTextureCubeHandle {
    open spec fn delete_instruction_kind(self) -> InstructionKind {
        InstructionKind::DeleteTextureCube { handle: self }
    }

    fn into_delete_instruction_kind(self) -> InstructionKind {
        InstructionKind::DeleteTextureCube { handle: self }
    }
}

impl DeletableRawResourceHandle for RawMaterialHandle {
    open spec fn delete_instruction_kind(self) -> InstructionKind {
        InstructionKind::DeleteMaterial { handle: self }
    }

    fn into_delete_instruction_kind(self) -> InstructionKind {
        InstructionKind::DeleteMaterial { handle: self }
    }
}

impl DeletableRawResourceHandle for RawObjectHandle {
    open spec fn delete_instruction_kind(self) -> InstructionKind {
        InstructionKind::DeleteObject { handle: self }
    }

    fn into_delete_instruction_kind(self) -> InstructionKind {
        InstructionKind::DeleteObject { handle: self }
    }
}

impl DeletableRawResourceHandle for RawDirectionalLightHandle {
    open spec fn delete_instruction_kind(self) -> InstructionKind {
        InstructionKind::DeleteDirectionalLight { handle: self }
    }

    fn into_delete_instruction_kind(self) -> InstructionKind {
        InstructionKind::DeleteDirectionalLight { handle: self }
    }
}

impl DeletableRawResourceHandle for RawPointLightHandle {
    open spec fn delete_instruction_kind(self) -> InstructionKind {
        InstructionKind::DeletePointLight { handle: self }
    }

    fn into_delete_instruction_kind(self) -> InstructionKind {
        InstructionKind::DeletePointLight { handle: self }
    }
}

impl DeletableRawResourceHandle for RawGraphDataHandleUntyped {
    open spec fn delete_instruction_kind(self) -> InstructionKind {
        InstructionKind::DeleteGraphData { handle: self }
    }

    fn into_delete_instruction_kind(self) -> InstructionKind {
        InstructionKind::DeleteGraphData { handle: self }
    }
}

} // verus!
