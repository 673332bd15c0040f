//! Binding modules to storage: freshly on demand, or from a pool of slots
//! reserved once and reused.
use vstd::prelude::*;
use crate::instance::Instance;
use crate::limits::{bytes_for_pages, page_bytes, ModuleLimits};
use crate::module::Module;
use crate::sandbox::SandboxContext;

verus! {

#[derive(Clone, Copy, Debug, PartialEq, Eq, Structural)]
pub enum AllocationError {
    /// The module declares more than a pool slot provides.
    LimitsExceeded,
    /// Every slot of the pool is in use.
    PoolExhausted,
    /// The host could not provide the memory.
    BackingAllocationFailed,
}

/// Which free slot a pool hands out.
#[derive(Clone, Copy, Debug, PartialEq, Eq, Structural)]
pub enum Placement {
    /// The free slot with the lowest index.
    NextAvailable,
}

/// How an allocator obtains storage; fixed when the allocator is made.
#[derive(Clone, Copy, Debug, PartialEq, Eq, Structural)]
pub enum AllocationStrategy {
    OnDemand,
    Pooled { slots: usize, placement: Placement, limits: ModuleLimits },
}

#[derive(Debug)]
struct Slot {
    memory: Vec<u8>,
    globals: Vec<i64>,
    in_use: bool,
}

/// A fixed number of storage slots, each reserved for the pool's limits.
#[derive(Debug)]
pub struct Pool {
    limits: ModuleLimits,
    slots: Vec<Slot>,
}

/// `capacity` covers the declared limits of every module in `modules`.
pub open spec fn covers_all(capacity: ModuleLimits, modules: Seq<Module>) -> bool {
    forall|i: int| 0 <= i < modules.len() ==> capacity.covers((#[trigger] modules[i]).limits())
}

/// The smallest limits that cover every module in `modules`: in each
/// dimension the largest declared maximum, and zero for no modules. A pool
/// for these modules is sized from it.
pub fn required_limits(modules: &Vec<Module>) -> (needed: ModuleLimits)
    ensures
        covers_all(needed, modules@),
        forall|capacity: ModuleLimits| covers_all(capacity, modules@) ==> capacity.covers(needed),
{
    let mut needed = ModuleLimits { memory_pages: 0, table_elements: 0, types: 0 };
    let mut i: usize = 0;
    while i < modules.len()
        invariant
            i <= modules.len(),
            forall|k: int| 0 <= k < i ==> needed.covers((#[trigger] modules@[k]).limits()),
            needed.memory_pages == 0 || exists|k: int|
                0 <= k < i && needed.memory_pages == (#[trigger] modules@[k]).limits().memory_pages,
            needed.table_elements == 0 || exists|k: int|
                0 <= k < i && needed.table_elements == (#[trigger] modules@[k]).limits().table_elements,
            needed.types == 0 || exists|k: int|
                0 <= k < i && needed.types == (#[trigger] modules@[k]).limits().types,
        decreases modules.len() - i,
    {
        let declared = modules[i].declared_limits();
        if declared.memory_pages > needed.memory_pages {
            needed.memory_pages = declared.memory_pages;
        }
        if declared.table_elements > needed.table_elements {
            needed.table_elements = declared.table_elements;
        }
        if declared.types > needed.types {
            needed.types = declared.types;
        }
        i += 1;
    }
    needed
}

/// What an on-demand allocation may return: an instance in the module's
/// baseline state outside any pool, or a failure of the host to provide the
/// memory.
pub open spec fn on_demand_result(
    module: Module,
    context: SandboxContext,
    result: Result<Instance, AllocationError>,
) -> bool {
    match result {
        Ok(instance) => {
            &&& instance.starts_from(module)
            &&& instance.sized_for(module)
            &&& instance.slot() is None
            &&& instance.context() == context
        },
        Err(error) => error == AllocationError::BackingAllocationFailed,
    }
}

/// Allocates fresh storage for one instance of `module`. The host decides
/// whether the memory can be had; a baseline larger than the address space
/// always fails.
pub fn allocate_on_demand(module: &Module, context: SandboxContext) -> (result: Result<
    Instance,
    AllocationError,
>)
    ensures
        on_demand_result(*module, context, result),
        module.baseline_memory().len() > usize::MAX ==> result is Err,
{
    match module.baseline_size() {
        None => Err(AllocationError::BackingAllocationFailed),
        Some(size) => {
            let mut memory: Vec<u8> = Vec::new();
            let mut globals: Vec<i64> = Vec::new();
            match memory.try_reserve(size) {
                Err(_) => Err(AllocationError::BackingAllocationFailed),
                Ok(_) => {
                    module.write_baseline(&mut memory, &mut globals);
                    Ok(Instance::bind(None, module, memory, globals, context))
                },
            }
        },
    }
}

impl Pool {
    #[verifier::type_invariant]
    spec fn well_formed(self) -> bool {
        page_bytes(self.limits.memory_pages) <= usize::MAX
    }

    /// The number of slots.
    pub closed spec fn capacity(self) -> nat {
        self.slots@.len()
    }

    /// The capacity of each slot.
    pub closed spec fn limits(self) -> ModuleLimits {
        self.limits
    }

    /// Slot `i` is held by a live instance.
    pub closed spec fn in_use(self, i: int) -> bool {
        self.slots@[i].in_use
    }

    /// Slot `i` is the free slot with the lowest index.
    pub open spec fn is_next_free(self, i: int) -> bool {
        &&& 0 <= i < self.capacity()
        &&& !self.in_use(i)
        &&& forall|k: int| 0 <= k < i ==> self.in_use(k)
    }

    /// No slot is free.
    pub open spec fn exhausted(self) -> bool {
        forall|k: int| 0 <= k < self.capacity() ==> self.in_use(k)
    }

    /// How many of the first `n` slots are free.
    pub open spec fn free_among(self, n: int) -> int
        decreases n,
    {
        if n <= 0 {
            0
        } else {
            self.free_among(n - 1) + if self.in_use(n - 1) {
                0int
            } else {
                1int
            }
        }
    }

    /// Among the first `n` slots none is free exactly when all are in use.
    pub proof fn lemma_free_among(self, n: int)
        ensures
            0 <= self.free_among(n),
            n >= 0 ==> self.free_among(n) <= n,
            self.free_among(n) == 0 <==> forall|k: int| 0 <= k < n ==> self.in_use(k),
        decreases n,
    {
        if n > 0 {
            self.lemma_free_among(n - 1);
        }
    }

    /// `self` and `other` have the same slots in use, but perhaps for slot
    /// `except`.
    pub open spec fn same_occupancy_but(self, other: Pool, except: int) -> bool {
        &&& self.capacity() == other.capacity()
        &&& self.limits() == other.limits()
        &&& forall|k: int| 0 <= k < self.capacity() && k != except ==> self.in_use(k) == other.in_use(k)
    }

    /// What `allocate` may return on pool `self`, leaving it as `after`.
    pub open spec fn allocation(
        self,
        after: Pool,
        module: Module,
        context: SandboxContext,
        result: Result<Instance, AllocationError>,
    ) -> bool {
        match result {
            Ok(instance) => {
                &&& self.limits().covers(module.limits())
                &&& instance.slot() is Some
                &&& self.is_next_free(instance.slot().unwrap() as int)
                &&& instance.starts_from(module)
                &&& instance.sized_for(module)
                &&& instance.context() == context
                &&& after.in_use(instance.slot().unwrap() as int)
                &&& after.same_occupancy_but(self, instance.slot().unwrap() as int)
            },
            Err(AllocationError::LimitsExceeded) => {
                &&& !self.limits().covers(module.limits())
                &&& after.same_occupancy_but(self, -1)
            },
            Err(AllocationError::PoolExhausted) => {
                &&& self.limits().covers(module.limits())
                &&& self.exhausted()
                &&& after.same_occupancy_but(self, -1)
            },
            Err(AllocationError::BackingAllocationFailed) => false,
        }
    }

    /// What `release` does to pool `self`, leaving it as `after`: the slot
    /// of an instance that holds one of this pool's slots becomes free, and
    /// nothing else changes.
    pub open spec fn release_of(self, after: Pool, slot: Option<usize>, returned: bool) -> bool {
        &&& returned == (slot matches Some(k) && k < self.capacity() && self.in_use(k as int))
        &&& if returned {
            !after.in_use(slot.unwrap() as int) && after.same_occupancy_but(
                self,
                slot.unwrap() as int,
            )
        } else {
            after.same_occupancy_but(self, -1)
        }
    }

    /// Reserves `slots` slots, each for memory of `limits.memory_pages`
    /// pages. Fails where the host cannot provide that memory, and always
    /// where one slot is larger than the address space. A pool without
    /// slots asks the host for nothing and is always made, if a slot of its
    /// limits could be addressed at all.
    pub fn new(limits: ModuleLimits, slots: usize) -> (made: Result<Pool, AllocationError>)
        ensures
            match made {
                Ok(pool) => {
                    &&& pool.capacity() == slots
                    &&& pool.limits() == limits
                    &&& forall|k: int| 0 <= k < slots ==> !pool.in_use(k)
                },
                Err(error) => error == AllocationError::BackingAllocationFailed,
            },
            page_bytes(limits.memory_pages) > usize::MAX ==> made is Err,
            slots == 0 && page_bytes(limits.memory_pages) <= usize::MAX ==> made is Ok,
    {
        let arena: usize = match bytes_for_pages(limits.memory_pages) {
            Some(bytes) => bytes,
            None => {
                return Err(AllocationError::BackingAllocationFailed);
            },
        };
        let mut reserved: Vec<Slot> = Vec::new();
        let mut i: usize = 0;
        while i < slots
            invariant
                i <= slots,
                reserved@.len() == i,
                forall|k: int| 0 <= k < i ==> !(#[trigger] reserved@[k]).in_use,
            decreases slots - i,
        {
            let mut memory: Vec<u8> = Vec::new();
            match memory.try_reserve(arena) {
                Err(_) => {
                    return Err(AllocationError::BackingAllocationFailed);
                },
                Ok(_) => {},
            }
            reserved.push(Slot { memory, globals: Vec::new(), in_use: false });
            i += 1;
        }
        Ok(Pool { limits, slots: reserved })
    }

    /// Reserves a pool for the modules that will use it. A module that the
    /// limits do not cover is a configuration error, found here and not at
    /// its first allocation; otherwise as [`Pool::new`].
    pub fn new_for(limits: ModuleLimits, slots: usize, modules: &Vec<Module>) -> (made: Result<
        Pool,
        AllocationError,
    >)
        ensures
            match made {
                Ok(pool) => {
                    &&& covers_all(limits, modules@)
                    &&& pool.capacity() == slots
                    &&& pool.limits() == limits
                    &&& forall|k: int| 0 <= k < slots ==> !pool.in_use(k)
                },
                Err(AllocationError::LimitsExceeded) => !covers_all(limits, modules@),
                Err(AllocationError::BackingAllocationFailed) => covers_all(limits, modules@),
                Err(AllocationError::PoolExhausted) => false,
            },
            page_bytes(limits.memory_pages) > usize::MAX ==> made is Err,
            covers_all(limits, modules@) && slots == 0 && page_bytes(limits.memory_pages)
                <= usize::MAX ==> made is Ok,
    {
        let mut i: usize = 0;
        while i < modules.len()
            invariant
                i <= modules.len(),
                forall|k: int| 0 <= k < i ==> limits.covers((#[trigger] modules@[k]).limits()),
            decreases modules.len() - i,
        {
            if !modules[i].declared_limits().fits_within(&limits) {
                return Err(AllocationError::LimitsExceeded);
            }
            i += 1;
        }
        Pool::new(limits, slots)
    }

    pub fn slot_count(&self) -> (count: usize)
        ensures
            count == self.capacity(),
    {
        self.slots.len()
    }

    pub fn slot_limits(&self) -> (limits: ModuleLimits)
        ensures
            limits == self.limits(),
    {
        self.limits
    }

    /// The number of slots that no instance holds.
    pub fn free_slots(&self) -> (count: usize)
        ensures
            count == self.free_among(self.capacity() as int),
            count == 0 <==> self.exhausted(),
    {
        let mut count: usize = 0;
        let mut i: usize = 0;
        while i < self.slots.len()
            invariant
                i <= self.slots.len(),
                count <= i,
                count == self.free_among(i as int),
            decreases self.slots.len() - i,
        {
            if !self.slots[i].in_use {
                count += 1;
            }
            i += 1;
        }
        proof {
            self.lemma_free_among(self.slots.len() as int);
        }
        count
    }

    /// Binds the free slot with the lowest index to a new instance of
    /// `module`, with its storage reset to the module's baseline. A module
    /// whose limits the pool does not cover is refused, whatever is free;
    /// otherwise the allocation succeeds exactly when a slot is free.
    pub fn allocate(&mut self, module: &Module, context: SandboxContext) -> (result: Result<
        Instance,
        AllocationError,
    >)
        ensures
            old(self).allocation(*final(self), *module, context, result),
    {
        proof {
            use_type_invariant(&*self);
        }
        if !module.declared_limits().fits_within(&self.limits) {
            return Err(AllocationError::LimitsExceeded);
        }
        let mut i: usize = 0;
        while i < self.slots.len() && self.slots[i].in_use
            invariant
                i <= self.slots.len(),
                forall|k: int| 0 <= k < i ==> self.in_use(k),
            decreases self.slots.len() - i,
        {
            i += 1;
        }
        if i >= self.slots.len() {
            return Err(AllocationError::PoolExhausted);
        }
        let size = module.baseline_size();
        assert(size is Some) by {
            assert(page_bytes(module.limits().memory_pages) <= page_bytes(
                self.limits.memory_pages,
            ));
        }
        let mut taken = Slot { memory: Vec::new(), globals: Vec::new(), in_use: true };
        let mut slots: Vec<Slot> = Vec::new();
        core::mem::swap(&mut self.slots, &mut slots);
        slots.set_and_swap(i, &mut taken);
        core::mem::swap(&mut self.slots, &mut slots);
        let Slot { memory, globals, in_use } = taken;
        let mut memory = memory;
        let mut globals = globals;
        module.write_baseline(&mut memory, &mut globals);
        Ok(Instance::bind(Some(i), module, memory, globals, context))
    }

    /// Takes back the storage of `instance` and frees its slot. The memory
    /// stays reserved. An instance without a slot, or whose slot index is
    /// free or unknown here, is dropped and the pool does not change. The
    /// pool tells a slot by its index alone, so an instance must be released
    /// into the pool that it came from.
    pub fn release(&mut self, instance: Instance) -> (returned: bool)
        ensures
            old(self).release_of(*final(self), instance.slot(), returned),
    {
        proof {
            use_type_invariant(&*self);
        }
        let (slot, memory, globals) = instance.into_storage();
        match slot {
            Some(k) => {
                if k < self.slots.len() && self.slots[k].in_use {
                    let mut slots: Vec<Slot> = Vec::new();
                    core::mem::swap(&mut self.slots, &mut slots);
                    slots.set(k, Slot { memory, globals, in_use: false });
                    core::mem::swap(&mut self.slots, &mut slots);
                    true
                } else {
                    false
                }
            },
            None => false,
        }
    }
}

/// The instance allocator of one engine, with its strategy fixed.
#[derive(Debug)]
pub struct Allocator {
    pool: Option<Pool>,
}

impl Allocator {
    /// The pool behind a pooled allocator; `None` for on-demand allocation.
    pub closed spec fn pool(self) -> Option<Pool> {
        self.pool
    }

    /// Makes the allocator for `strategy`, reserving the pool where the
    /// strategy is pooled.
    pub fn new(strategy: AllocationStrategy) -> (made: Result<Allocator, AllocationError>)
        ensures
            match made {
                Ok(allocator) => match strategy {
                    AllocationStrategy::OnDemand => allocator.pool() is None,
                    AllocationStrategy::Pooled { slots, placement, limits } => {
                        &&& allocator.pool() is Some
                        &&& allocator.pool().unwrap().capacity() == slots
                        &&& allocator.pool().unwrap().limits() == limits
                        &&& forall|k: int| 0 <= k < slots ==> !allocator.pool().unwrap().in_use(k)
                    },
                },
                Err(error) => error == AllocationError::BackingAllocationFailed && strategy
                    != AllocationStrategy::OnDemand,
            },
            strategy matches AllocationStrategy::Pooled { slots, placement, limits } ==> {
                &&& page_bytes(limits.memory_pages) > usize::MAX ==> made is Err
                &&& slots == 0 && page_bytes(limits.memory_pages) <= usize::MAX ==> made is Ok
            },
    {
        match strategy {
            AllocationStrategy::OnDemand => Ok(Allocator { pool: None }),
            AllocationStrategy::Pooled { slots, placement, limits } => {
                match Pool::new(limits, slots) {
                    Ok(pool) => Ok(Allocator { pool: Some(pool) }),
                    Err(error) => Err(error),
                }
            },
        }
    }

    /// Makes the allocator for `strategy` and the modules that will use
    /// it. Under pooling, a module that the slots' limits do not cover is
    /// refused here with `LimitsExceeded`; on demand, every module is
    /// accepted.
    pub fn new_for(strategy: AllocationStrategy, modules: &Vec<Module>) -> (made: Result<
        Allocator,
        AllocationError,
    >)
        ensures
            match strategy {
                AllocationStrategy::OnDemand => made matches Ok(allocator) && allocator.pool()
                    is None,
                AllocationStrategy::Pooled { slots, placement, limits } => match made {
                    Ok(allocator) => {
                        &&& covers_all(limits, modules@)
                        &&& allocator.pool() is Some
                        &&& allocator.pool().unwrap().capacity() == slots
                        &&& allocator.pool().unwrap().limits() == limits
                        &&& forall|k: int| 0 <= k < slots ==> !allocator.pool().unwrap().in_use(k)
                    },
                    Err(AllocationError::LimitsExceeded) => !covers_all(limits, modules@),
                    Err(AllocationError::BackingAllocationFailed) => covers_all(limits, modules@),
                    Err(AllocationError::PoolExhausted) => false,
                },
            },
            strategy matches AllocationStrategy::Pooled { slots, placement, limits } ==> {
                &&& page_bytes(limits.memory_pages) > usize::MAX ==> made is Err
                &&& covers_all(limits, modules@) && slots == 0 && page_bytes(limits.memory_pages)
                    <= usize::MAX ==> made is Ok
            },
    {
        match strategy {
            AllocationStrategy::OnDemand => Ok(Allocator { pool: None }),
            AllocationStrategy::Pooled { slots, placement, limits } => {
                match Pool::new_for(limits, slots, modules) {
                    Ok(pool) => Ok(Allocator { pool: Some(pool) }),
                    Err(error) => Err(error),
                }
            },
        }
    }

    pub fn is_pooled(&self) -> (pooled: bool)
        ensures
            pooled == self.pool().is_some(),
    {
        self.pool.is_some()
    }

    /// Produces a ready instance of `module` by the allocator's strategy.
    pub fn allocate(&mut self, module: &Module, context: SandboxContext) -> (result: Result<
        Instance,
        AllocationError,
    >)
        ensures
            match old(self).pool() {
                Some(pool) => final(self).pool() is Some && pool.allocation(
                    final(self).pool().unwrap(),
                    *module,
                    context,
                    result,
                ),
                None => final(self).pool() is None && on_demand_result(*module, context, result),
            },
    {
        match &mut self.pool {
            Some(pool) => pool.allocate(module, context),
            None => allocate_on_demand(module, context),
        }
    }

    /// Tears `instance` down. Under pooling its slot becomes free again;
    /// on-demand storage is given back to the host.
    pub fn release(&mut self, instance: Instance) -> (returned: bool)
        ensures
            match old(self).pool() {
                Some(pool) => final(self).pool() is Some && pool.release_of(
                    final(self).pool().unwrap(),
                    instance.slot(),
                    returned,
                ),
                None => final(self).pool() is None && !returned,
            },
    {
        match &mut self.pool {
            Some(pool) => pool.release(instance),
            None => false,
        }
    }
}

} // verus!
