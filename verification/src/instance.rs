//! A live binding of a module to storage and a sandbox context, and the
//! steps by which the driver runs it once.
use vstd::prelude::*;
use crate::limits::page_bytes;
use crate::module::{name_listed, names_contain, zeroed_memory, Module};
use crate::outcome::{interpret, outcome_of, ExecutionOutcome, Termination};
use crate::sandbox::SandboxContext;

verus! {

/// Where an instance stands in its single run.
#[derive(Clone, Copy, Debug, PartialEq, Eq, Structural)]
pub enum RunState {
    NotStarted,
    Running,
    Finished,
}

/// Why an access to an instance's memory or globals was refused. The engine
/// turns either into a trap.
#[derive(Clone, Copy, Debug, PartialEq, Eq, Structural)]
pub enum MemoryFault {
    OutOfBounds,
    NotRunning,
    /// Growing would pass the module's declared maximum, or what the host
    /// can address.
    LimitReached,
}

/// One step by which running code changes the storage of its instance.
#[derive(Clone, Copy, Debug, PartialEq, Eq, Structural)]
pub enum Effect {
    Store { address: usize, value: u8 },
    SetGlobal { index: usize, value: i64 },
    Grow { pages: u32 },
}

/// The step is within bounds: the address or index exists, or the growth
/// is one that `may_grow` allows.
pub open spec fn effect_allowed(
    memory: Seq<u8>,
    globals: Seq<i64>,
    limit: u32,
    effect: Effect,
) -> bool {
    match effect {
        Effect::Store { address, value } => address < memory.len(),
        Effect::SetGlobal { index, value } => index < globals.len(),
        Effect::Grow { pages } => Instance::may_grow(memory.len(), pages, limit),
    }
}

/// Memory and globals after one allowed step.
pub open spec fn after_effect(memory: Seq<u8>, globals: Seq<i64>, effect: Effect) -> (
    Seq<u8>,
    Seq<i64>,
) {
    match effect {
        Effect::Store { address, value } => (memory.update(address as int, value), globals),
        Effect::SetGlobal { index, value } => (memory, globals.update(index as int, value)),
        Effect::Grow { pages } => (memory + zeroed_memory(pages), globals),
    }
}

/// Memory and globals after the steps in order, up to the first that is not
/// allowed; the flag says whether all were.
pub open spec fn after_effects(
    memory: Seq<u8>,
    globals: Seq<i64>,
    limit: u32,
    effects: Seq<Effect>,
) -> (Seq<u8>, Seq<i64>, bool)
    decreases effects.len(),
{
    if effects.len() == 0 {
        (memory, globals, true)
    } else if !effect_allowed(memory, globals, limit, effects[0]) {
        (memory, globals, false)
    } else {
        let next = after_effect(memory, globals, effects[0]);
        after_effects(next.0, next.1, limit, effects.drop_first())
    }
}

/// One runnable instance. It owns its storage: no other instance can reach
/// the same memory.
#[derive(Debug)]
pub struct Instance {
    slot: Option<usize>,
    exports: Vec<String>,
    memory: Vec<u8>,
    globals: Vec<i64>,
    max_pages: u32,
    context: SandboxContext,
    state: RunState,
}

impl Instance {
    /// The pool slot that the storage came from; `None` for storage
    /// allocated on demand.
    pub closed spec fn slot(self) -> Option<usize> {
        self.slot
    }

    pub closed spec fn exports(self) -> Seq<String> {
        self.exports@
    }

    pub closed spec fn memory(self) -> Seq<u8> {
        self.memory@
    }

    pub closed spec fn globals(self) -> Seq<i64> {
        self.globals@
    }

    /// The declared maximum of linear memory, in pages.
    pub closed spec fn page_limit(self) -> u32 {
        self.max_pages
    }

    pub closed spec fn context(self) -> SandboxContext {
        self.context
    }

    pub closed spec fn state(self) -> RunState {
        self.state
    }

    /// The instance is as a new instance of `module` must be: the module's
    /// exports, its baseline memory and globals, and not started.
    pub open spec fn starts_from(self, module: Module) -> bool {
        &&& self.exports() == module.exports()
        &&& self.memory() == module.baseline_memory()
        &&& self.globals() == module.baseline_globals()
        &&& self.page_limit() == module.limits().memory_pages
        &&& self.state() == RunState::NotStarted
    }

    /// The storage is of a size that `module` allows: memory within the
    /// declared maximum, which is the instance's own limit, and one value
    /// for each of the module's globals. Every new instance of a module is
    /// so, and no step of its run changes that.
    pub open spec fn sized_for(self, module: Module) -> bool {
        &&& self.page_limit() == module.limits().memory_pages
        &&& self.memory().len() <= page_bytes(self.page_limit())
        &&& self.globals().len() == module.global_count()
    }

    /// Everything but the run state is the same in `self` and `other`.
    pub open spec fn same_bindings(self, other: Instance) -> bool {
        &&& self.slot() == other.slot()
        &&& self.exports() == other.exports()
        &&& self.memory() == other.memory()
        &&& self.globals() == other.globals()
        &&& self.page_limit() == other.page_limit()
        &&& self.context() == other.context()
    }

    pub(crate) fn bind(
        slot: Option<usize>,
        module: &Module,
        memory: Vec<u8>,
        globals: Vec<i64>,
        context: SandboxContext,
    ) -> (instance: Instance)
        requires
            memory@ == module.baseline_memory(),
            globals@ == module.baseline_globals(),
        ensures
            instance.starts_from(*module),
            instance.sized_for(*module),
            instance.slot() == slot,
            instance.context() == context,
    {
        let _ = module.baseline_size();
        Instance {
            slot,
            exports: module.export_names(),
            memory,
            globals,
            max_pages: module.declared_limits().memory_pages,
            context,
            state: RunState::NotStarted,
        }
    }

    pub(crate) fn into_storage(self) -> (parts: (Option<usize>, Vec<u8>, Vec<i64>))
        ensures
            parts.0 == self.slot(),
            parts.1@ == self.memory(),
            parts.2@ == self.globals(),
    {
        (self.slot, self.memory, self.globals)
    }

    pub fn pool_slot(&self) -> (slot: Option<usize>)
        ensures
            slot == self.slot(),
    {
        self.slot
    }

    /// The most pages that linear memory may grow to.
    pub fn memory_limit(&self) -> (pages: u32)
        ensures
            pages == self.page_limit(),
    {
        self.max_pages
    }

    pub fn run_state(&self) -> (state: RunState)
        ensures
            state == self.state(),
    {
        self.state
    }

    pub fn memory_bytes(&self) -> (bytes: &Vec<u8>)
        ensures
            bytes@ == self.memory(),
    {
        &self.memory
    }

    pub fn global_values(&self) -> (values: &Vec<i64>)
        ensures
            values@ == self.globals(),
    {
        &self.globals
    }

    pub fn sandbox(&self) -> (context: &SandboxContext)
        ensures
            *context == self.context(),
    {
        &self.context
    }

    pub fn has_export(&self, name: &String) -> (found: bool)
        ensures
            found == names_contain(self.exports(), name@),
    {
        name_listed(&self.exports, name)
    }

    /// Starts the single run: succeeds exactly when the instance has not
    /// been started and exports `entry`, and then the instance is running.
    /// Otherwise nothing changes.
    pub fn begin(&mut self, entry: &String) -> (started: bool)
        ensures
            started == (old(self).state() == RunState::NotStarted && names_contain(
                old(self).exports(),
                entry@,
            )),
            final(self).state() == if started {
                RunState::Running
            } else {
                old(self).state()
            },
            final(self).same_bindings(*old(self)),
            forall|m: Module| #[trigger] old(self).sized_for(m) ==> final(self).sized_for(m),
    {
        if self.state == RunState::NotStarted && name_listed(&self.exports, entry) {
            self.state = RunState::Running;
            true
        } else {
            false
        }
    }

    /// Ends the run with what the engine reported. A running instance
    /// becomes finished and yields the outcome of `signal`; an instance that
    /// is not running yields `None` and does not change.
    pub fn finish(&mut self, signal: Termination) -> (outcome: Option<ExecutionOutcome>)
        ensures
            outcome == if old(self).state() == RunState::Running {
                Some(outcome_of(signal))
            } else {
                None
            },
            final(self).state() == if old(self).state() == RunState::Running {
                RunState::Finished
            } else {
                old(self).state()
            },
            final(self).same_bindings(*old(self)),
            forall|m: Module| #[trigger] old(self).sized_for(m) ==> final(self).sized_for(m),
    {
        if self.state == RunState::Running {
            self.state = RunState::Finished;
            Some(interpret(signal))
        } else {
            None
        }
    }

    /// Reads one byte of linear memory on behalf of the running instance.
    pub fn load(&self, address: usize) -> (read: Result<u8, MemoryFault>)
        ensures
            read == if self.state() != RunState::Running {
                Err::<u8, MemoryFault>(MemoryFault::NotRunning)
            } else if address >= self.memory().len() {
                Err(MemoryFault::OutOfBounds)
            } else {
                Ok(self.memory()[address as int])
            },
    {
        if self.state != RunState::Running {
            Err(MemoryFault::NotRunning)
        } else if address >= self.memory.len() {
            Err(MemoryFault::OutOfBounds)
        } else {
            Ok(self.memory[address])
        }
    }

    /// Writes one byte of linear memory on behalf of the running instance.
    /// A refused write changes nothing.
    pub fn store(&mut self, address: usize, value: u8) -> (written: Result<(), MemoryFault>)
        ensures
            written == if old(self).state() != RunState::Running {
                Err::<(), MemoryFault>(MemoryFault::NotRunning)
            } else if address >= old(self).memory().len() {
                Err(MemoryFault::OutOfBounds)
            } else {
                Ok(())
            },
            final(self).memory() == if written is Ok {
                old(self).memory().update(address as int, value)
            } else {
                old(self).memory()
            },
            final(self).slot() == old(self).slot(),
            final(self).exports() == old(self).exports(),
            final(self).globals() == old(self).globals(),
            final(self).page_limit() == old(self).page_limit(),
            forall|m: Module| #[trigger] old(self).sized_for(m) ==> final(self).sized_for(m),
            final(self).context() == old(self).context(),
            final(self).state() == old(self).state(),
    {
        if self.state != RunState::Running {
            Err(MemoryFault::NotRunning)
        } else if address >= self.memory.len() {
            Err(MemoryFault::OutOfBounds)
        } else {
            self.memory.set(address, value);
            Ok(())
        }
    }

    /// Whether memory of `size` bytes may grow by `pages` pages under a
    /// maximum of `limit` pages: the result must be within the maximum and
    /// within what the host can address.
    pub open spec fn may_grow(size: nat, pages: u32, limit: u32) -> bool {
        size + page_bytes(pages) <= page_bytes(limit) && size + page_bytes(pages) <= usize::MAX
    }

    /// Grows linear memory by `pages` zero-filled pages on behalf of the
    /// running instance and returns the size in bytes before. A refused
    /// growth changes nothing.
    pub fn grow(&mut self, pages: u32) -> (grown: Result<usize, MemoryFault>)
        ensures
            grown == if old(self).state() != RunState::Running {
                Err::<usize, MemoryFault>(MemoryFault::NotRunning)
            } else if !Self::may_grow(old(self).memory().len(), pages, old(self).page_limit()) {
                Err(MemoryFault::LimitReached)
            } else {
                Ok(old(self).memory().len() as usize)
            },
            final(self).memory() == if grown is Ok {
                old(self).memory() + zeroed_memory(pages)
            } else {
                old(self).memory()
            },
            final(self).slot() == old(self).slot(),
            final(self).exports() == old(self).exports(),
            final(self).globals() == old(self).globals(),
            final(self).page_limit() == old(self).page_limit(),
            forall|m: Module| #[trigger] old(self).sized_for(m) ==> final(self).sized_for(m),
            final(self).context() == old(self).context(),
            final(self).state() == old(self).state(),
    {
        if self.state != RunState::Running {
            return Err(MemoryFault::NotRunning);
        }
        let before: usize = self.memory.len();
        let added: u64 = pages as u64 * 65536;
        let limit: u64 = self.max_pages as u64 * 65536;
        if before as u128 + added as u128 > limit as u128 || before as u128 + added as u128
            > usize::MAX as u128 {
            return Err(MemoryFault::LimitReached);
        }
        let target: usize = before + added as usize;
        let mut size: usize = before;
        while size < target
            invariant
                before <= size <= target,
                self.memory@ == old(self).memory@ + Seq::new((size - before) as nat, |i: int| 0u8),
                self.slot == old(self).slot,
                self.exports == old(self).exports,
                self.globals == old(self).globals,
                self.max_pages == old(self).max_pages,
                self.context == old(self).context,
                self.state == old(self).state,
            decreases target - size,
        {
            self.memory.push(0u8);
            assert(self.memory@ =~= old(self).memory@ + Seq::new(
                (size + 1 - before) as nat,
                |i: int| 0u8,
            ));
            size += 1;
        }
        Ok(before)
    }

    /// Reads one global value on behalf of the running instance.
    pub fn global(&self, index: usize) -> (read: Result<i64, MemoryFault>)
        ensures
            read == if self.state() != RunState::Running {
                Err::<i64, MemoryFault>(MemoryFault::NotRunning)
            } else if index >= self.globals().len() {
                Err(MemoryFault::OutOfBounds)
            } else {
                Ok(self.globals()[index as int])
            },
    {
        if self.state != RunState::Running {
            Err(MemoryFault::NotRunning)
        } else if index >= self.globals.len() {
            Err(MemoryFault::OutOfBounds)
        } else {
            Ok(self.globals[index])
        }
    }

    /// Writes one global value on behalf of the running instance. A refused
    /// write changes nothing.
    pub fn set_global(&mut self, index: usize, value: i64) -> (written: Result<(), MemoryFault>)
        ensures
            written == if old(self).state() != RunState::Running {
                Err::<(), MemoryFault>(MemoryFault::NotRunning)
            } else if index >= old(self).globals().len() {
                Err(MemoryFault::OutOfBounds)
            } else {
                Ok(())
            },
            final(self).globals() == if written is Ok {
                old(self).globals().update(index as int, value)
            } else {
                old(self).globals()
            },
            final(self).slot() == old(self).slot(),
            final(self).exports() == old(self).exports(),
            final(self).memory() == old(self).memory(),
            final(self).page_limit() == old(self).page_limit(),
            forall|m: Module| #[trigger] old(self).sized_for(m) ==> final(self).sized_for(m),
            final(self).context() == old(self).context(),
            final(self).state() == old(self).state(),
    {
        if self.state != RunState::Running {
            Err(MemoryFault::NotRunning)
        } else if index >= self.globals.len() {
            Err(MemoryFault::OutOfBounds)
        } else {
            self.globals.set(index, value);
            Ok(())
        }
    }

    /// Applies recorded steps in order on behalf of the running instance
    /// and stops at the first that is refused. The result says whether all
    /// were applied. An instance that is not running takes none.
    pub fn replay(&mut self, effects: &Vec<Effect>) -> (done: bool)
        ensures
            old(self).state() != RunState::Running ==> !done && final(self).memory() == old(
                self,
            ).memory() && final(self).globals() == old(self).globals(),
            old(self).state() == RunState::Running ==> (
                final(self).memory(),
                final(self).globals(),
                done,
            ) == after_effects(
                old(self).memory(),
                old(self).globals(),
                old(self).page_limit(),
                effects@,
            ),
            final(self).slot() == old(self).slot(),
            final(self).exports() == old(self).exports(),
            final(self).page_limit() == old(self).page_limit(),
            forall|m: Module| #[trigger] old(self).sized_for(m) ==> final(self).sized_for(m),
            final(self).context() == old(self).context(),
            final(self).state() == old(self).state(),
    {
        if self.state != RunState::Running {
            return false;
        }
        let ghost start_memory = self.memory();
        let ghost start_globals = self.globals();
        let ghost limit = self.page_limit();
        let mut i: usize = 0;
        assert(effects@.skip(0) =~= effects@);
        while i < effects.len()
            invariant
                i <= effects.len(),
                self.state() == RunState::Running,
                old(self).state() == RunState::Running,
                start_memory == old(self).memory(),
                start_globals == old(self).globals(),
                self.slot() == old(self).slot(),
                self.exports() == old(self).exports(),
                self.page_limit() == limit,
                limit == old(self).page_limit(),
                self.context() == old(self).context(),
                forall|m: Module| #[trigger] old(self).sized_for(m) ==> self.sized_for(m),
                after_effects(start_memory, start_globals, limit, effects@) == after_effects(
                    self.memory(),
                    self.globals(),
                    limit,
                    effects@.skip(i as int),
                ),
            decreases effects.len() - i,
        {
            proof {
                assert(effects@.skip(i as int).drop_first() =~= effects@.skip(i + 1));
                assert(effects@.skip(i as int)[0] == effects@[i as int]);
            }
            let applied = match effects[i] {
                Effect::Store { address, value } => match self.store(address, value) {
                    Ok(_) => true,
                    Err(_) => false,
                },
                Effect::SetGlobal { index, value } => match self.set_global(index, value) {
                    Ok(_) => true,
                    Err(_) => false,
                },
                Effect::Grow { pages } => match self.grow(pages) {
                    Ok(_) => true,
                    Err(_) => false,
                },
            };
            if !applied {
                return false;
            }
            i += 1;
        }
        true
    }

    /// Reads up to `max` bytes of the instance's input; see
    /// [`SandboxContext::read_input`].
    pub fn read_input(&mut self, max: usize) -> (bytes: Vec<u8>)
        ensures
            bytes@.len() == if max <= old(self).context().pending_input().len() {
                max as int
            } else {
                old(self).context().pending_input().len() as int
            },
            bytes@ == old(self).context().pending_input().subrange(0, bytes@.len() as int),
            final(self).context().pending_input() == old(self).context().pending_input().subrange(
                bytes@.len() as int,
                old(self).context().pending_input().len() as int,
            ),
            final(self).context().args() == old(self).context().args(),
            final(self).context().grants() == old(self).context().grants(),
            final(self).slot() == old(self).slot(),
            final(self).exports() == old(self).exports(),
            final(self).memory() == old(self).memory(),
            final(self).globals() == old(self).globals(),
            final(self).page_limit() == old(self).page_limit(),
            forall|m: Module| #[trigger] old(self).sized_for(m) ==> final(self).sized_for(m),
            final(self).state() == old(self).state(),
    {
        self.context.read_input(max)
    }
}

} // verus!
