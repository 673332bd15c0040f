//! Compiled modules and the snapshot images they may start from.
use vstd::prelude::*;
use crate::limits::{bytes_for_pages, page_bytes, ModuleLimits};

verus! {

/// Linear memory and global values, frozen after a one-time initializer.
#[derive(Clone, Debug, PartialEq, Eq)]
pub struct SnapshotImage {
    memory: Vec<u8>,
    globals: Vec<i64>,
}

impl SnapshotImage {
    pub closed spec fn memory(self) -> Seq<u8> {
        self.memory@
    }

    pub closed spec fn globals(self) -> Seq<i64> {
        self.globals@
    }

    pub fn new(memory: Vec<u8>, globals: Vec<i64>) -> (image: SnapshotImage)
        ensures
            image.memory() == memory@,
            image.globals() == globals@,
    {
        SnapshotImage { memory, globals }
    }

    pub fn memory_bytes(&self) -> (bytes: &Vec<u8>)
        ensures
            bytes@ == self.memory(),
    {
        &self.memory
    }

    pub fn global_values(&self) -> (values: &Vec<i64>)
        ensures
            values@ == self.globals(),
    {
        &self.globals
    }
}

/// `name` is one of `names`.
pub open spec fn names_contain(names: Seq<String>, name: Seq<char>) -> bool {
    exists|i: int| 0 <= i < names.len() && (#[trigger] names[i])@ == name
}

/// Zero-filled linear memory of `pages` pages.
pub open spec fn zeroed_memory(pages: u32) -> Seq<u8> {
    Seq::new(page_bytes(pages) as nat, |i: int| 0u8)
}

/// `count` global values, all zero.
pub open spec fn zeroed_globals(count: usize) -> Seq<i64> {
    Seq::new(count as nat, |i: int| 0i64)
}

/// An immutable compiled artifact: its named exports, its declared limits
/// and the state in which each of its instances begins.
#[derive(Debug)]
pub struct Module {
    exports: Vec<String>,
    initial_pages: u32,
    global_count: usize,
    limits: ModuleLimits,
    baseline: Option<SnapshotImage>,
}

impl Module {
    #[verifier::type_invariant]
    spec fn well_formed(self) -> bool {
        &&& self.initial_pages <= self.limits.memory_pages
        &&& match self.baseline {
            Some(image) => image.memory@.len() <= page_bytes(self.limits.memory_pages)
                && image.globals@.len() == self.global_count,
            None => true,
        }
    }

    pub closed spec fn exports(self) -> Seq<String> {
        self.exports@
    }

    pub closed spec fn initial_pages(self) -> u32 {
        self.initial_pages
    }

    pub closed spec fn global_count(self) -> usize {
        self.global_count
    }

    pub closed spec fn limits(self) -> ModuleLimits {
        self.limits
    }

    /// The snapshot that instances start from, if the module has one.
    pub closed spec fn snapshot(self) -> Option<SnapshotImage> {
        self.baseline
    }

    /// The linear memory of a new instance: the snapshot's where there is
    /// one, else the initial pages filled with zero.
    pub open spec fn baseline_memory(self) -> Seq<u8> {
        match self.snapshot() {
            Some(image) => image.memory(),
            None => zeroed_memory(self.initial_pages()),
        }
    }

    /// The global values of a new instance.
    pub open spec fn baseline_globals(self) -> Seq<i64> {
        match self.snapshot() {
            Some(image) => image.globals(),
            None => zeroed_globals(self.global_count()),
        }
    }

    /// A module without a snapshot. `None` where the initial memory is
    /// larger than the declared maximum.
    pub fn new(
        exports: Vec<String>,
        initial_pages: u32,
        global_count: usize,
        limits: ModuleLimits,
    ) -> (made: Option<Module>)
        ensures
            made is Some <==> initial_pages <= limits.memory_pages,
            made matches Some(m) ==> {
                &&& m.exports() == exports@
                &&& m.initial_pages() == initial_pages
                &&& m.global_count() == global_count
                &&& m.limits() == limits
                &&& m.snapshot() is None
            },
    {
        if initial_pages <= limits.memory_pages {
            Some(Module { exports, initial_pages, global_count, limits, baseline: None })
        } else {
            None
        }
    }

    /// Whether `image` can serve as this module's baseline: its memory is
    /// within the declared maximum and it has a value for each global.
    pub open spec fn admits(self, image: SnapshotImage) -> bool {
        image.memory().len() <= page_bytes(self.limits().memory_pages) && image.globals().len()
            == self.global_count()
    }

    /// The derived variant that starts from `image`: same exports, same
    /// limits, `image` as its baseline. `None` where the module does not
    /// admit the image.
    pub fn with_snapshot(&self, image: SnapshotImage) -> (derived: Option<Module>)
        ensures
            derived is Some <==> self.admits(image),
            derived matches Some(m) ==> {
                &&& m.exports() == self.exports()
                &&& m.initial_pages() == self.initial_pages()
                &&& m.global_count() == self.global_count()
                &&& m.limits() == self.limits()
                &&& m.snapshot() == Some(image)
            },
    {
        proof {
            use_type_invariant(self);
        }
        let size: usize = image.memory.len();
        let fits = match bytes_for_pages(self.limits.memory_pages) {
            Some(max_bytes) => size <= max_bytes,
            None => true,
        };
        if fits && image.globals.len() == self.global_count {
            Some(
                Module {
                    exports: self.export_names(),
                    initial_pages: self.initial_pages,
                    global_count: self.global_count,
                    limits: self.limits,
                    baseline: Some(image),
                },
            )
        } else {
            None
        }
    }

    pub fn declared_limits(&self) -> (limits: ModuleLimits)
        ensures
            limits == self.limits(),
    {
        self.limits
    }

    pub fn has_snapshot(&self) -> (yes: bool)
        ensures
            yes == self.snapshot().is_some(),
    {
        self.baseline.is_some()
    }

    /// Whether the module exports `name`.
    pub fn has_export(&self, name: &String) -> (found: bool)
        ensures
            found == names_contain(self.exports(), name@),
    {
        name_listed(&self.exports, name)
    }

    /// A copy of the export names, in order.
    pub fn export_names(&self) -> (names: Vec<String>)
        ensures
            names@ == self.exports(),
    {
        let mut names: Vec<String> = Vec::new();
        let mut i: usize = 0;
        while i < self.exports.len()
            invariant
                i <= self.exports.len(),
                names@ == self.exports@.subrange(0, i as int),
            decreases self.exports.len() - i,
        {
            names.push(self.exports[i].clone());
            assert(names@ =~= self.exports@.subrange(0, i + 1));
            i += 1;
        }
        assert(names@ =~= self.exports@);
        names
    }

    /// The byte size of the baseline memory, or `None` where the host's
    /// address space cannot express it. The baseline never exceeds the
    /// declared maximum.
    pub fn baseline_size(&self) -> (size: Option<usize>)
        ensures
            self.baseline_memory().len() <= page_bytes(self.limits().memory_pages),
            self.baseline_globals().len() == self.global_count(),
            self.baseline_memory().len() <= usize::MAX ==> size == Some(
                self.baseline_memory().len() as usize,
            ),
            self.baseline_memory().len() > usize::MAX ==> size is None,
    {
        proof {
            use_type_invariant(self);
        }
        match &self.baseline {
            Some(image) => Some(image.memory.len()),
            None => bytes_for_pages(self.initial_pages),
        }
    }

    /// Overwrites `memory` and `globals` with the baseline, whatever they
    /// held before.
    pub fn write_baseline(&self, memory: &mut Vec<u8>, globals: &mut Vec<i64>)
        requires
            self.baseline_memory().len() <= usize::MAX,
        ensures
            final(memory)@ == self.baseline_memory(),
            final(globals)@ == self.baseline_globals(),
    {
        proof {
            use_type_invariant(self);
        }
        memory.clear();
        globals.clear();
        match &self.baseline {
            Some(image) => {
                let mut i: usize = 0;
                while i < image.memory.len()
                    invariant
                        i <= image.memory.len(),
                        memory@ == image.memory@.subrange(0, i as int),
                    decreases image.memory.len() - i,
                {
                    memory.push(image.memory[i]);
                    assert(memory@ =~= image.memory@.subrange(0, i + 1));
                    i += 1;
                }
                assert(memory@ =~= image.memory@);
                let mut j: usize = 0;
                while j < image.globals.len()
                    invariant
                        j <= image.globals.len(),
                        globals@ == image.globals@.subrange(0, j as int),
                    decreases image.globals.len() - j,
                {
                    globals.push(image.globals[j]);
                    assert(globals@ =~= image.globals@.subrange(0, j + 1));
                    j += 1;
                }
                assert(globals@ =~= image.globals@);
            },
            None => {
                let size: usize = self.initial_pages as usize * 65536;
                let mut i: usize = 0;
                while i < size
                    invariant
                        i <= size,
                        memory@ == Seq::new(i as nat, |k: int| 0u8),
                    decreases size - i,
                {
                    memory.push(0u8);
                    assert(memory@ =~= Seq::new((i + 1) as nat, |k: int| 0u8));
                    i += 1;
                }
                let mut j: usize = 0;
                while j < self.global_count
                    invariant
                        j <= self.global_count,
                        globals@ == Seq::new(j as nat, |k: int| 0i64),
                    decreases self.global_count - j,
                {
                    globals.push(0i64);
                    assert(globals@ =~= Seq::new((j + 1) as nat, |k: int| 0i64));
                    j += 1;
                }
            },
        }
    }
}

/// Whether `name` is one of `names`.
pub fn name_listed(names: &Vec<String>, name: &String) -> (found: bool)
    ensures
        found == names_contain(names@, name@),
{
    let mut i: usize = 0;
    while i < names.len()
        invariant
            i <= names.len(),
            forall|k: int| 0 <= k < i ==> (#[trigger] names@[k])@ != name@,
        decreases names.len() - i,
    {
        if names[i] == *name {
            return true;
        }
        i += 1;
    }
    false
}

} // verus!
