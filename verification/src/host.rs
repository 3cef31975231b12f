//! The life cycle of the JIT host.
//!
//! The host is created, takes the parsed module into its main dynamic
//! library, gets the definition generator attached and is then ready for
//! lookups. Each step happens once, in that order.

use crate::fatal::Fatal;
use vstd::prelude::*;

verus! {

/// How far the host has come.
#[derive(Clone, Copy, Debug, PartialEq, Eq, Structural)]
pub enum HostState {
    /// Nothing has been done yet.
    Uninitialized,
    /// The engine exists.
    Created,
    /// The main dynamic library holds the module.
    ModuleAdded,
    /// The definition generator is attached to the library.
    GeneratorAttached,
    /// The set-up is complete: lookups may be made.
    Ready,
}

/// What can be asked of the host.
#[derive(Clone, Copy, Debug, PartialEq, Eq, Structural)]
pub enum HostOperation {
    /// Create the engine.
    Create,
    /// Hand the parsed module to the main dynamic library.
    AddModule,
    /// Attach the definition generator to that library.
    AttachGenerator,
    /// Declare the set-up complete: from here on lookups may be made.
    MarkReady,
    /// Look up the address of an exported name.
    Lookup,
    /// Register a definition that the generator made for a lookup.
    Define,
}

/// The state that `operation` leads to from `state`, where the operation
/// is in order there.
pub open spec fn transition(state: HostState, operation: HostOperation) -> Option<HostState> {
    match (state, operation) {
        (HostState::Uninitialized, HostOperation::Create) => Some(HostState::Created),
        (HostState::Created, HostOperation::AddModule) => Some(HostState::ModuleAdded),
        (HostState::ModuleAdded, HostOperation::AttachGenerator) => Some(
            HostState::GeneratorAttached,
        ),
        (HostState::GeneratorAttached, HostOperation::MarkReady) => Some(HostState::Ready),
        (HostState::Ready, HostOperation::Lookup) => Some(HostState::Ready),
        (HostState::Ready, HostOperation::Define) => Some(HostState::Ready),
        _ => None,
    }
}

/// Whether `operation` is one of those that set the host up.
pub open spec fn is_set_up_step(operation: HostOperation) -> bool {
    operation != HostOperation::Lookup && operation != HostOperation::Define
}

/// The outcome of an operation: the next state, or the fatal condition
/// where the operation is out of order or the engine signalled an error.
pub open spec fn outcome(
    state: HostState,
    operation: HostOperation,
    engine_error: bool,
) -> Result<HostState, Fatal> {
    match transition(state, operation) {
        Some(next) => if engine_error {
            Err(Fatal::EngineInvariantViolation)
        } else {
            Ok(next)
        },
        None => Err(Fatal::EngineInvariantViolation),
    }
}

/// Whether a lookup may be made in `state`.
pub open spec fn lookup_allowed(state: HostState) -> bool {
    state == HostState::Ready
}

/// How many set-up steps lie behind `state`.
pub open spec fn progress(state: HostState) -> nat {
    match state {
        HostState::Uninitialized => 0,
        HostState::Created => 1,
        HostState::ModuleAdded => 2,
        HostState::GeneratorAttached => 3,
        HostState::Ready => 4,
    }
}

/// The state after the operations `operations`, made in that order from
/// `state` with no error from the engine; `None` where one of them is out
/// of order.
pub open spec fn after_all(state: HostState, operations: Seq<HostOperation>) -> Option<HostState>
    decreases operations.len(),
{
    if operations.len() == 0 {
        Some(state)
    } else {
        match after_all(state, operations.drop_last()) {
            Some(reached) => transition(reached, operations.last()),
            None => None,
        }
    }
}

/// The four operations that set the host up, in their order.
pub open spec fn set_up() -> Seq<HostOperation> {
    seq![
        HostOperation::Create,
        HostOperation::AddModule,
        HostOperation::AttachGenerator,
        HostOperation::MarkReady,
    ]
}

impl HostState {
    /// A host on which nothing has been done yet.
    pub fn new() -> (state: HostState)
        ensures
            state == HostState::Uninitialized,
    {
        HostState::Uninitialized
    }

    /// Whether a lookup may be made in this state: only once the host is
    /// ready.
    pub fn can_lookup(&self) -> (allowed: bool)
        ensures
            allowed == lookup_allowed(*self),
    {
        match self {
            HostState::Ready => true,
            _ => false,
        }
    }

    /// Records that `operation` was made in this state. `engine_error`
    /// says whether the engine answered it with an error. The result is
    /// the next state, or the fatal condition that ends the run: an error
    /// from the engine, or an operation that is out of order.
    pub fn advance(self, operation: HostOperation, engine_error: bool) -> (next: Result<HostState, Fatal>)
        ensures
            next == outcome(self, operation, engine_error),
    {
        if engine_error {
            return Err(Fatal::EngineInvariantViolation);
        }
        match (self, operation) {
            (HostState::Uninitialized, HostOperation::Create) => Ok(HostState::Created),
            (HostState::Created, HostOperation::AddModule) => Ok(HostState::ModuleAdded),
            (HostState::ModuleAdded, HostOperation::AttachGenerator) => Ok(
                HostState::GeneratorAttached,
            ),
            (HostState::GeneratorAttached, HostOperation::MarkReady) => Ok(HostState::Ready),
            (HostState::Ready, HostOperation::Lookup) => Ok(HostState::Ready),
            (HostState::Ready, HostOperation::Define) => Ok(HostState::Ready),
            _ => Err(Fatal::EngineInvariantViolation),
        }
    }
}

/// An operation never takes the host back: a set-up step takes it one step
/// further, a lookup or a definition leaves it where it is.
pub proof fn transition_moves_forward(state: HostState, operation: HostOperation)
    ensures
        transition(state, operation) matches Some(next) ==> progress(next) == progress(state) + (
        if is_set_up_step(operation) {
            1nat
        } else {
            0nat
        }),
{
}

/// The set-up, made in order on a new host, makes it ready.
pub proof fn set_up_makes_ready()
    ensures
        after_all(HostState::Uninitialized, set_up()) == Some(HostState::Ready),
{
    let ops = set_up();
    assert(ops.drop_last() =~= seq![
        HostOperation::Create,
        HostOperation::AddModule,
        HostOperation::AttachGenerator,
    ]);
    assert(ops.drop_last().drop_last() =~= seq![HostOperation::Create, HostOperation::AddModule]);
    assert(ops.drop_last().drop_last().drop_last() =~= seq![HostOperation::Create]);
    assert(ops.drop_last().drop_last().drop_last().drop_last() =~= Seq::<HostOperation>::empty());
    reveal_with_fuel(after_all, 5);
}

/// There is one way to a lookup: whatever operations lead a new host to
/// the state in which lookups are allowed, they begin with the set-up, in
/// its order, and all that follows is lookups and the definitions made
/// for them.
pub proof fn ready_only_after_set_up(operations: Seq<HostOperation>)
    requires
        after_all(HostState::Uninitialized, operations) matches Some(state) && lookup_allowed(
            state,
        ),
    ensures
        operations.len() >= 4,
        operations.take(4) == set_up(),
        forall|i: int| 4 <= i < operations.len() ==> !is_set_up_step(operations[i]),
{
    shape_of_run(operations);
    assert(operations.take(4) =~= set_up());
}

/// What a run from a new host looks like: as long as the host is not
/// ready, the operations made are the first ones of the set-up.
proof fn shape_of_run(operations: Seq<HostOperation>)
    requires
        after_all(HostState::Uninitialized, operations) is Some,
    ensures
        ({
            let state = after_all(HostState::Uninitialized, operations)->0;
            &&& operations.len() >= progress(state)
            &&& progress(state) < 4 ==> operations.len() == progress(state)
            &&& forall|i: int| 0 <= i < progress(state) ==> operations[i] == set_up()[i]
            &&& forall|i: int|
                progress(state) <= i < operations.len() ==> !is_set_up_step(operations[i])
        }),
    decreases operations.len(),
{
    if operations.len() > 0 {
        let front = operations.drop_last();
        shape_of_run(front);
        let reached = after_all(HostState::Uninitialized, front)->0;
        let state = after_all(HostState::Uninitialized, operations)->0;
        assert(transition(reached, operations.last()) == Some(state));
        assert forall|i: int| 0 <= i < progress(state) implies operations[i] == set_up()[i] by {
            if i < front.len() {
                assert(operations[i] == front[i]);
            }
        }
        assert forall|i: int| progress(state) <= i < operations.len() implies !is_set_up_step(
            operations[i],
        ) by {
            if i < front.len() {
                assert(operations[i] == front[i]);
            }
        }
    }
}

} // verus!
