//! What holds across allocation, release and snapshots, stated over the
//! same predicates as the functions' own contracts.
use vstd::prelude::*;
use crate::allocator::{on_demand_result, AllocationError, Pool};
use crate::instance::{after_effects, Effect, Instance};
use crate::module::{Module, SnapshotImage};
use crate::outcome::Termination;
use crate::sandbox::SandboxContext;
use crate::snapshot::snapshot_result;

verus! {

/// A pool whose slots cover a module's limits and that has a free slot
/// allocates successfully, and the instance it returns is in the same state
/// as one allocated on demand: same exports, memory, globals, memory limit,
/// run state and sandbox.
pub proof fn lemma_pooled_matches_on_demand(
    pool: Pool,
    after: Pool,
    module: Module,
    context: SandboxContext,
    pooled: Result<Instance, AllocationError>,
    fresh: Instance,
)
    requires
        pool.limits().covers(module.limits()),
        !pool.exhausted(),
        pool.allocation(after, module, context, pooled),
        on_demand_result(module, context, Ok(fresh)),
    ensures
        pooled is Ok,
        pooled.unwrap().exports() == fresh.exports(),
        pooled.unwrap().memory() == fresh.memory(),
        pooled.unwrap().globals() == fresh.globals(),
        pooled.unwrap().page_limit() == fresh.page_limit(),
        pooled.unwrap().state() == fresh.state(),
        pooled.unwrap().context() == fresh.context(),
{
}

/// In a pool with a free slot, exactly one slot is the next to be handed
/// out.
pub proof fn lemma_next_free_exists(pool: Pool)
    requires
        !pool.exhausted(),
    ensures
        exists|i: int| pool.is_next_free(i),
        forall|i: int, j: int| pool.is_next_free(i) && pool.is_next_free(j) ==> i == j,
{
    let some = choose|k: int| 0 <= k < pool.capacity() && !pool.in_use(k);
    lemma_first_free_up_to(pool, some);
    assert forall|i: int, j: int| pool.is_next_free(i) && pool.is_next_free(j) implies i == j by {
        if i < j {
            assert(pool.in_use(i));
        }
        if j < i {
            assert(pool.in_use(j));
        }
    }
}

proof fn lemma_first_free_up_to(pool: Pool, bound: int)
    requires
        0 <= bound < pool.capacity(),
        !pool.in_use(bound),
    ensures
        exists|i: int| pool.is_next_free(i),
    decreases bound,
{
    if forall|k: int| 0 <= k < bound ==> pool.in_use(k) {
        assert(pool.is_next_free(bound));
    } else {
        let lower = choose|k: int| 0 <= k < bound && !pool.in_use(k);
        lemma_first_free_up_to(pool, lower);
    }
}

/// After an instance is released into a pool that had no free slot, the
/// next allocation of a module that the pool covers succeeds, reuses the
/// released slot, and its instance sees the module's baseline, not what the
/// previous occupant left.
pub proof fn lemma_released_slot_is_reused(
    full: Pool,
    released: Pool,
    after: Pool,
    slot: usize,
    module: Module,
    context: SandboxContext,
    result: Result<Instance, AllocationError>,
)
    requires
        full.exhausted(),
        full.release_of(released, Some(slot), true),
        released.limits().covers(module.limits()),
        released.allocation(after, module, context, result),
    ensures
        result is Ok,
        result.unwrap().slot() == Some(slot),
        result.unwrap().memory() == module.baseline_memory(),
        result.unwrap().globals() == module.baseline_globals(),
        after.exhausted(),
{
    assert(!released.in_use(slot as int));
    assert(!released.exhausted());
    let got = result.unwrap().slot().unwrap() as int;
    if got != slot as int {
        assert(released.in_use(got) == full.in_use(got));
    }
    assert forall|k: int| 0 <= k < after.capacity() implies after.in_use(k) by {
        if k != slot as int {
            assert(released.in_use(k) == full.in_use(k));
        }
    }
}

/// Two snapshots of one module from the same record of its initializer are
/// byte-identical: both runs begin in the module's baseline and apply the
/// same steps, so they leave the same memory and globals, and each image is
/// that state.
pub proof fn lemma_snapshot_idempotent(
    module: Module,
    initializer: Seq<char>,
    effects: Seq<Effect>,
    signal: Termination,
    first: SnapshotImage,
    second: SnapshotImage,
)
    requires
        snapshot_result(module, initializer, effects, signal, Ok(first)),
        snapshot_result(module, initializer, effects, signal, Ok(second)),
    ensures
        first.memory() == second.memory(),
        first.globals() == second.globals(),
        (first.memory(), first.globals(), true) == after_effects(
            module.baseline_memory(),
            module.baseline_globals(),
            module.limits().memory_pages,
            effects,
        ),
{
}

/// An instance of the derived variant begins exactly where the initializer
/// left the plain module: the image holds the initialized state, the
/// variant's baseline is the image, and the exports are unchanged. So an
/// entry export runs from the same state either way.
pub proof fn lemma_snapshot_equivalence(
    plain: Module,
    derived: Module,
    image: SnapshotImage,
    initialized: Instance,
    resumed: Instance,
)
    requires
        derived.exports() == plain.exports(),
        derived.limits() == plain.limits(),
        derived.snapshot() == Some(image),
        image.memory() == initialized.memory(),
        image.globals() == initialized.globals(),
        initialized.exports() == plain.exports(),
        initialized.page_limit() == plain.limits().memory_pages,
        resumed.starts_from(derived),
    ensures
        resumed.memory() == initialized.memory(),
        resumed.globals() == initialized.globals(),
        resumed.exports() == initialized.exports(),
        resumed.page_limit() == initialized.page_limit(),
{
}

/// With no directory grants, no path resolves.
pub proof fn lemma_no_grants_no_access(context: SandboxContext, path: Seq<u8>)
    requires
        context.grants().len() == 0,
    ensures
        forall|k: int| !context.covering(path, k),
{
}

} // verus!
