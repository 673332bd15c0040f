//! The capability-scoped environment of one instance: its arguments, its
//! input and the directories it was granted.
use vstd::prelude::*;

verus! {

/// A host directory exposed under a guest path. `opened` records whether the
/// host could open the directory when the grant was prepared.
#[derive(Clone, Debug, PartialEq, Eq)]
pub struct DirectoryGrant {
    pub host: Vec<u8>,
    pub guest: Vec<u8>,
    pub opened: bool,
}

/// Why an environment could not be built; each carries the index of the
/// first offending element.
#[derive(Clone, Copy, Debug, PartialEq, Eq)]
pub enum EnvironmentError {
    DirectoryUnavailable(usize),
    InvalidArgument(usize),
}

/// Where a guest path leads: the grant that covers it and the path below
/// that grant's directory.
#[derive(Clone, Debug, PartialEq, Eq)]
pub struct Resolved {
    pub grant: usize,
    pub relative: Vec<u8>,
}

/// An argument can be handed to an instance when it holds no zero byte.
pub open spec fn encodable(arg: Seq<u8>) -> bool {
    forall|i: int| 0 <= i < arg.len() ==> arg[i] != 0
}

pub open spec fn is_prefix(prefix: Seq<u8>, path: Seq<u8>) -> bool {
    prefix.len() <= path.len() && path.subrange(0, prefix.len() as int) == prefix
}

/// `guest` is a prefix of `path` that ends where a path component ends.
pub open spec fn covers_path(guest: Seq<u8>, path: Seq<u8>) -> bool {
    is_prefix(guest, path) && (guest.len() == path.len() || (guest.len() > 0 && guest[guest.len()
        - 1] == 47) || path[guest.len() as int] == 47)
}

/// A `..` component starts at `i`.
pub open spec fn parent_at(path: Seq<u8>, i: int) -> bool {
    &&& 0 <= i
    &&& i + 2 <= path.len()
    &&& path[i] == 46
    &&& path[i + 1] == 46
    &&& (i == 0 || path[i - 1] == 47)
    &&& (i + 2 == path.len() || path[i + 2] == 47)
}

/// The path has a `..` component, by which it could leave a granted subtree.
pub open spec fn escapes(path: Seq<u8>) -> bool {
    exists|i: int| parent_at(path, i)
}

/// What lies below a covering grant has no `..` component when the whole
/// path has none: a resolved path cannot climb out of the granted
/// directory.
pub proof fn lemma_resolved_stays_inside(guest: Seq<u8>, path: Seq<u8>)
    requires
        covers_path(guest, path),
        !escapes(path),
    ensures
        !escapes(path.subrange(guest.len() as int, path.len() as int)),
{
    let rest = path.subrange(guest.len() as int, path.len() as int);
    assert forall|i: int| !parent_at(rest, i) by {
        if parent_at(rest, i) {
            let at = guest.len() + i;
            assert(rest[i] == path[at]);
            assert(rest[i + 1] == path[at + 1]);
            if i > 0 {
                assert(rest[i - 1] == path[at - 1]);
            } else if guest.len() > 0 {
                assert(path.subrange(0, guest.len() as int)[guest.len() - 1] == path[guest.len()
                    - 1]);
            }
            if i + 2 < rest.len() {
                assert(rest[i + 2] == path[at + 2]);
            }
            assert(parent_at(path, at));
        }
    }
}

fn argument_is_encodable(arg: &Vec<u8>) -> (ok: bool)
    ensures
        ok == encodable(arg@),
{
    let mut i: usize = 0;
    while i < arg.len()
        invariant
            i <= arg.len(),
            forall|k: int| 0 <= k < i ==> arg@[k] != 0,
        decreases arg.len() - i,
    {
        if arg[i] == 0 {
            return false;
        }
        i += 1;
    }
    true
}

fn path_has_prefix(prefix: &Vec<u8>, path: &Vec<u8>) -> (ok: bool)
    ensures
        ok == is_prefix(prefix@, path@),
{
    if prefix.len() > path.len() {
        return false;
    }
    let mut i: usize = 0;
    while i < prefix.len()
        invariant
            i <= prefix.len() <= path.len(),
            forall|k: int| 0 <= k < i ==> path@[k] == prefix@[k],
        decreases prefix.len() - i,
    {
        if path[i] != prefix[i] {
            assert(path@.subrange(0, prefix@.len() as int)[i as int] != prefix@[i as int]);
            return false;
        }
        i += 1;
    }
    assert(path@.subrange(0, prefix@.len() as int) =~= prefix@);
    true
}

fn guest_covers(guest: &Vec<u8>, path: &Vec<u8>) -> (ok: bool)
    ensures
        ok == covers_path(guest@, path@),
{
    if !path_has_prefix(guest, path) {
        return false;
    }
    let n: usize = guest.len();
    n == path.len() || (n > 0 && guest[n - 1] == 47) || path[n] == 47
}

fn path_escapes(path: &Vec<u8>) -> (found: bool)
    ensures
        found == escapes(path@),
{
    let n: usize = path.len();
    let mut i: usize = 0;
    while i < n
        invariant
            n == path.len(),
            i <= n,
            forall|k: int| 0 <= k < i ==> !parent_at(path@, k),
        decreases n - i,
    {
        if n - i >= 2 && path[i] == 46 && path[i + 1] == 46 && (i == 0 || path[i - 1] == 47) && (n
            - i == 2 || path[i + 2] == 47) {
            assert(parent_at(path@, i as int));
            return true;
        }
        i += 1;
    }
    assert(forall|k: int| !parent_at(path@, k));
    false
}

fn tail_of(path: &Vec<u8>, from: usize) -> (tail: Vec<u8>)
    requires
        from <= path.len(),
    ensures
        tail@ == path@.subrange(from as int, path.len() as int),
{
    let mut tail: Vec<u8> = Vec::new();
    let mut i: usize = from;
    while i < path.len()
        invariant
            from <= i <= path.len(),
            tail@ == path@.subrange(from as int, i as int),
        decreases path.len() - i,
    {
        tail.push(path[i]);
        assert(tail@ =~= path@.subrange(from as int, i + 1));
        i += 1;
    }
    tail
}

/// The restricted runtime context of one instance.
#[derive(Debug)]
pub struct SandboxContext {
    args: Vec<Vec<u8>>,
    input: Option<Vec<u8>>,
    consumed: usize,
    grants: Vec<DirectoryGrant>,
}

impl SandboxContext {
    #[verifier::type_invariant]
    spec fn well_formed(self) -> bool {
        match self.input {
            Some(bytes) => self.consumed <= bytes.len(),
            None => self.consumed == 0,
        }
    }

    /// The argument vector, in order.
    pub closed spec fn args(self) -> Seq<Vec<u8>> {
        self.args@
    }

    /// The directory grants, in order.
    pub closed spec fn grants(self) -> Seq<DirectoryGrant> {
        self.grants@
    }

    /// The input that the instance has not read yet; empty where no input
    /// stream was attached.
    pub closed spec fn pending_input(self) -> Seq<u8> {
        match self.input {
            Some(bytes) => bytes@.subrange(self.consumed as int, bytes.len() as int),
            None => Seq::empty(),
        }
    }

    /// Grant `i` exists and covers `path`.
    pub open spec fn covering(self, path: Seq<u8>, i: int) -> bool {
        0 <= i < self.grants().len() && covers_path(self.grants()[i].guest@, path)
    }

    /// Builds a context from an argument vector, an optional in-memory input
    /// and the directory grants. Arguments are checked first, in order, then
    /// the grants, in order.
    pub fn build(args: Vec<Vec<u8>>, input: Option<Vec<u8>>, grants: Vec<DirectoryGrant>) -> (built:
        Result<SandboxContext, EnvironmentError>)
        ensures
            match built {
                Ok(ctx) => {
                    &&& forall|k: int| 0 <= k < args.len() ==> encodable(#[trigger] args[k]@)
                    &&& forall|k: int| 0 <= k < grants.len() ==> (#[trigger] grants[k]).opened
                    &&& ctx.args() == args@
                    &&& ctx.grants() == grants@
                    &&& ctx.pending_input() == match input {
                        Some(bytes) => bytes@,
                        None => Seq::<u8>::empty(),
                    }
                },
                Err(EnvironmentError::InvalidArgument(i)) => {
                    &&& i < args.len()
                    &&& !encodable(args[i as int]@)
                    &&& forall|k: int| 0 <= k < i ==> encodable(#[trigger] args[k]@)
                },
                Err(EnvironmentError::DirectoryUnavailable(j)) => {
                    &&& forall|k: int| 0 <= k < args.len() ==> encodable(#[trigger] args[k]@)
                    &&& j < grants.len()
                    &&& !grants[j as int].opened
                    &&& forall|k: int| 0 <= k < j ==> (#[trigger] grants[k]).opened
                },
            },
    {
        let mut i: usize = 0;
        while i < args.len()
            invariant
                i <= args.len(),
                forall|k: int| 0 <= k < i ==> encodable(#[trigger] args[k]@),
            decreases args.len() - i,
        {
            if !argument_is_encodable(&args[i]) {
                return Err(EnvironmentError::InvalidArgument(i));
            }
            i += 1;
        }
        let mut j: usize = 0;
        while j < grants.len()
            invariant
                j <= grants.len(),
                forall|k: int| 0 <= k < args.len() ==> encodable(#[trigger] args[k]@),
                forall|k: int| 0 <= k < j ==> (#[trigger] grants[k]).opened,
            decreases grants.len() - j,
        {
            if !grants[j].opened {
                return Err(EnvironmentError::DirectoryUnavailable(j));
            }
            j += 1;
        }
        proof {
            if let Some(bytes) = &input {
                assert(bytes@.subrange(0, bytes.len() as int) =~= bytes@);
            }
        }
        Ok(SandboxContext { args, input, consumed: 0, grants })
    }

    /// A context with no arguments, no input and no grants.
    pub fn empty() -> (ctx: SandboxContext)
        ensures
            ctx.args() == Seq::<Vec<u8>>::empty(),
            ctx.grants() == Seq::<DirectoryGrant>::empty(),
            ctx.pending_input() == Seq::<u8>::empty(),
    {
        SandboxContext { args: Vec::new(), input: None, consumed: 0, grants: Vec::new() }
    }

    pub fn arguments(&self) -> (args: &Vec<Vec<u8>>)
        ensures
            args@ == self.args(),
    {
        &self.args
    }

    pub fn directory_grants(&self) -> (grants: &Vec<DirectoryGrant>)
        ensures
            grants@ == self.grants(),
    {
        &self.grants
    }

    /// Reads up to `max` bytes of input. With no input stream attached, or
    /// at its end, the result is empty.
    pub fn read_input(&mut self, max: usize) -> (bytes: Vec<u8>)
        ensures
            bytes@.len() == if max <= old(self).pending_input().len() {
                max as int
            } else {
                old(self).pending_input().len() as int
            },
            bytes@ == old(self).pending_input().subrange(0, bytes@.len() as int),
            final(self).pending_input() == old(self).pending_input().subrange(
                bytes@.len() as int,
                old(self).pending_input().len() as int,
            ),
            final(self).args() == old(self).args(),
            final(self).grants() == old(self).grants(),
    {
        proof {
            use_type_invariant(&*self);
        }
        let mut out: Vec<u8> = Vec::new();
        let start: usize = self.consumed;
        let mut taken: usize = 0;
        match &self.input {
            Some(source) => {
                let available: usize = source.len() - start;
                let want: usize = if max <= available {
                    max
                } else {
                    available
                };
                while taken < want
                    invariant
                        start + want <= source.len(),
                        taken <= want,
                        out@ == source@.subrange(start as int, start + taken),
                    decreases want - taken,
                {
                    out.push(source[start + taken]);
                    assert(out@ =~= source@.subrange(start as int, start + taken + 1));
                    taken += 1;
                }
                assert(out@ =~= source@.subrange(start as int, source.len() as int).subrange(
                    0,
                    taken as int,
                ));
                assert(source@.subrange(start + taken, source.len() as int) =~= source@.subrange(
                    start as int,
                    source.len() as int,
                ).subrange(taken as int, source.len() - start));
            },
            None => {
                assert(out@ =~= Seq::<u8>::empty().subrange(0, 0));
                assert(Seq::<u8>::empty() =~= Seq::<u8>::empty().subrange(0, 0));
            },
        }
        self.consumed = start + taken;
        out
    }

    /// Resolves a guest path against the grants. A path with a `..`
    /// component is refused; otherwise the first grant whose guest path
    /// covers it decides. Without a covering grant the path cannot be
    /// reached at all.
    pub fn resolve(&self, path: &Vec<u8>) -> (found: Option<Resolved>)
        ensures
            match found {
                Some(target) => {
                    &&& !escapes(path@)
                    &&& self.covering(path@, target.grant as int)
                    &&& forall|k: int| 0 <= k < target.grant ==> !self.covering(path@, k)
                    &&& target.relative@ == path@.subrange(
                        self.grants()[target.grant as int].guest@.len() as int,
                        path.len() as int,
                    )
                    &&& !escapes(target.relative@)
                },
                None => escapes(path@) || forall|k: int| !self.covering(path@, k),
            },
            self.grants().len() == 0 ==> found is None,
    {
        if path_escapes(path) {
            return None;
        }
        let mut i: usize = 0;
        while i < self.grants.len()
            invariant
                i <= self.grants.len(),
                !escapes(path@),
                forall|k: int| 0 <= k < i ==> !self.covering(path@, k),
            decreases self.grants.len() - i,
        {
            if guest_covers(&self.grants[i].guest, path) {
                let relative = tail_of(path, self.grants[i].guest.len());
                proof {
                    lemma_resolved_stays_inside(self.grants[i as int].guest@, path@);
                }
                return Some(Resolved { grant: i, relative });
            }
            i += 1;
        }
        None
    }
}

} // verus!
