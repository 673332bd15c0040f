//! Pre-initialization: run a module's initializer once and freeze the state
//! it leaves as the baseline of every later instance.
use vstd::prelude::*;
use crate::allocator::{allocate_on_demand, AllocationError};
use crate::instance::{after_effects, Effect, Instance, RunState};
use crate::limits::page_bytes;
use crate::module::{names_contain, Module, SnapshotImage};
use crate::outcome::Termination;
use crate::sandbox::SandboxContext;

verus! {

/// Why an initializer did not leave a state to capture.
#[derive(Clone, Debug, PartialEq, Eq)]
pub enum InitializerFault {
    /// The module does not export the initializer.
    MissingExport,
    /// No storage could be had for the initializer's instance.
    Allocation(AllocationError),
    /// The instance was not running its initializer.
    NotRunning,
    /// The initializer asked to exit instead of returning.
    ExitedWithCode(i32),
    /// The initializer trapped; the reason is the engine's.
    Trapped(String),
    /// A recorded step of the initializer was out of bounds or over the
    /// memory limit.
    AccessRefused,
    /// The state that the initializer left does not fit the module.
    ImageRejected,
}

#[derive(Clone, Debug, PartialEq, Eq)]
pub enum SnapshotError {
    InitializerFailed(InitializerFault),
}

/// The fault, if any, in an initializer that ended with `signal`. Only a
/// plain return of a running initializer is none.
pub open spec fn initializer_fault(state: RunState, signal: Termination) -> Option<
    InitializerFault,
> {
    if state != RunState::Running {
        Some(InitializerFault::NotRunning)
    } else {
        match signal {
            Termination::Returned => None,
            Termination::Trap { exit_status: Some(code), reason } => Some(
                InitializerFault::ExitedWithCode(code),
            ),
            Termination::Trap { exit_status: None, reason } => Some(
                InitializerFault::Trapped(reason),
            ),
        }
    }
}

/// Prepares the instance on which the initializer runs: storage allocated
/// on demand, outside any pool, in the module's baseline state, with an
/// empty sandbox, and already running `initializer`.
pub fn begin_snapshot(module: &Module, initializer: &String) -> (started: Result<
    Instance,
    SnapshotError,
>)
    ensures
        match started {
            Ok(instance) => {
                &&& names_contain(module.exports(), initializer@)
                &&& instance.exports() == module.exports()
                &&& instance.memory() == module.baseline_memory()
                &&& instance.globals() == module.baseline_globals()
                &&& instance.sized_for(*module)
                &&& instance.state() == RunState::Running
                &&& instance.slot() is None
                &&& instance.context().grants().len() == 0
                &&& instance.context().args().len() == 0
                &&& instance.context().pending_input().len() == 0
            },
            Err(SnapshotError::InitializerFailed(fault)) => {
                if names_contain(module.exports(), initializer@) {
                    fault == InitializerFault::Allocation(
                        AllocationError::BackingAllocationFailed,
                    )
                } else {
                    fault == InitializerFault::MissingExport
                }
            },
        },
        module.baseline_memory().len() > usize::MAX ==> started is Err,
{
    if !module.has_export(initializer) {
        return Err(SnapshotError::InitializerFailed(InitializerFault::MissingExport));
    }
    match allocate_on_demand(module, SandboxContext::empty()) {
        Err(error) => Err(SnapshotError::InitializerFailed(InitializerFault::Allocation(error))),
        Ok(instance) => {
            let mut instance = instance;
            let started = instance.begin(initializer);
            assert(started);
            Ok(instance)
        },
    }
}

/// Freezes the memory and globals of `instance` as they are.
pub fn capture(instance: Instance) -> (image: SnapshotImage)
    ensures
        image.memory() == instance.memory(),
        image.globals() == instance.globals(),
        forall|m: Module| #[trigger] instance.sized_for(m) ==> m.admits(image),
{
    let (_, memory, globals) = instance.into_storage();
    SnapshotImage::new(memory, globals)
}

/// Ends a snapshot run with what the engine reported. A running
/// initializer that returned yields the image of the state it left; every
/// other ending is an initializer failure with its detail.
pub fn complete_snapshot(instance: Instance, signal: Termination) -> (taken: Result<
    SnapshotImage,
    SnapshotError,
>)
    ensures
        match initializer_fault(instance.state(), signal) {
            None => taken matches Ok(image) && image.memory() == instance.memory()
                && image.globals() == instance.globals() && forall|m: Module| #[trigger]
                instance.sized_for(m) ==> m.admits(image),
            Some(fault) => taken == Err::<SnapshotImage, SnapshotError>(
                SnapshotError::InitializerFailed(fault),
            ),
        },
{
    if instance.run_state() != RunState::Running {
        return Err(SnapshotError::InitializerFailed(InitializerFault::NotRunning));
    }
    match signal {
        Termination::Returned => Ok(capture(instance)),
        Termination::Trap { exit_status: Some(code), reason } => Err(
            SnapshotError::InitializerFailed(InitializerFault::ExitedWithCode(code)),
        ),
        Termination::Trap { exit_status: None, reason } => Err(
            SnapshotError::InitializerFailed(InitializerFault::Trapped(reason)),
        ),
    }
}

/// What a recorded initializer leaves of `module`: the memory and globals
/// after its steps on the module's baseline, if the module exports it, every
/// step is allowed and it ends by returning.
pub open spec fn recorded_snapshot(
    module: Module,
    initializer: Seq<char>,
    effects: Seq<Effect>,
    signal: Termination,
) -> Result<(Seq<u8>, Seq<i64>), InitializerFault> {
    let end = after_effects(
        module.baseline_memory(),
        module.baseline_globals(),
        module.limits().memory_pages,
        effects,
    );
    if !names_contain(module.exports(), initializer) {
        Err(InitializerFault::MissingExport)
    } else if !end.2 {
        Err(InitializerFault::AccessRefused)
    } else {
        match initializer_fault(RunState::Running, signal) {
            Some(fault) => Err(fault),
            None => Ok((end.0, end.1)),
        }
    }
}

/// What `snapshot` may return: the image that the record determines, or the
/// fault that it determines, or, for an exported initializer, the host's
/// refusal of memory.
pub open spec fn snapshot_result(
    module: Module,
    initializer: Seq<char>,
    effects: Seq<Effect>,
    signal: Termination,
    taken: Result<SnapshotImage, SnapshotError>,
) -> bool {
    let recorded = recorded_snapshot(module, initializer, effects, signal);
    match taken {
        Ok(image) => recorded == Ok::<(Seq<u8>, Seq<i64>), InitializerFault>(
            (image.memory(), image.globals()),
        ) && module.admits(image),
        Err(SnapshotError::InitializerFailed(fault)) => recorded == Err::<
            (Seq<u8>, Seq<i64>),
            InitializerFault,
        >(fault) || (fault == InitializerFault::Allocation(
            AllocationError::BackingAllocationFailed,
        ) && names_contain(module.exports(), initializer)),
    }
}

/// Takes the snapshot of `module` from a record of its initializer's run:
/// the steps it made on its storage and how it ended. The steps are applied
/// to a new instance allocated on demand, outside any pool. The image
/// depends on the module and the record alone.
pub fn snapshot(
    module: &Module,
    initializer: &String,
    effects: &Vec<Effect>,
    signal: Termination,
) -> (taken: Result<SnapshotImage, SnapshotError>)
    ensures
        snapshot_result(*module, initializer@, effects@, signal, taken),
        module.baseline_memory().len() > usize::MAX ==> taken is Err,
{
    let mut instance = match begin_snapshot(module, initializer) {
        Ok(instance) => instance,
        Err(error) => {
            return Err(error);
        },
    };
    if !instance.replay(effects) {
        return Err(SnapshotError::InitializerFailed(InitializerFault::AccessRefused));
    }
    complete_snapshot(instance, signal)
}

/// The storage of `instance` fits `module` as a baseline.
pub open spec fn fits_as_baseline(module: Module, instance: Instance) -> bool {
    instance.memory().len() <= page_bytes(module.limits().memory_pages)
        && instance.globals().len() == module.global_count()
}

/// Ends a snapshot run and pairs the image with `module`: the derived
/// variant has the module's exports and limits and starts from the state
/// that the initializer left. The instance that `begin_snapshot` made for
/// the module always fits it.
pub fn derive_variant(module: &Module, instance: Instance, signal: Termination) -> (derived: Result<
    Module,
    SnapshotError,
>)
    ensures
        match initializer_fault(instance.state(), signal) {
            Some(fault) => derived matches Err(SnapshotError::InitializerFailed(f)) && f == fault,
            None => if fits_as_baseline(*module, instance) {
                &&& derived matches Ok(variant)
                &&& variant.exports() == module.exports()
                &&& variant.limits() == module.limits()
                &&& variant.initial_pages() == module.initial_pages()
                &&& variant.global_count() == module.global_count()
                &&& variant.snapshot() matches Some(image)
                &&& image.memory() == instance.memory()
                &&& image.globals() == instance.globals()
            } else {
                derived matches Err(SnapshotError::InitializerFailed(f)) && f
                    == InitializerFault::ImageRejected
            },
        },
        instance.sized_for(*module) ==> fits_as_baseline(*module, instance),
{
    match complete_snapshot(instance, signal) {
        Err(error) => Err(error),
        Ok(image) => match module.with_snapshot(image) {
            Some(variant) => Ok(variant),
            None => Err(SnapshotError::InitializerFailed(InitializerFault::ImageRejected)),
        },
    }
}

} // verus!
