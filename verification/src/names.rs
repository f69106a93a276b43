//! The registry of display names that are currently held.

use vstd::hash_set::StringHashSet;
use vstd::prelude::*;

verus! {

/// One call on a registry.
pub enum NameOp {
    Claim(Seq<char>),
    Release(Seq<char>),
}

/// The held names after `op` on a registry that held `held`.
pub open spec fn apply(held: Set<Seq<char>>, op: NameOp) -> Set<Seq<char>> {
    match op {
        NameOp::Claim(name) => held.insert(name),
        NameOp::Release(name) => held.remove(name),
    }
}

/// The held names after the calls `ops`, made one after the other on a
/// registry that held `held`.
pub open spec fn run(held: Set<Seq<char>>, ops: Seq<NameOp>) -> Set<Seq<char>>
    decreases ops.len(),
{
    if ops.len() == 0 {
        held
    } else {
        apply(run(held, ops.drop_last()), ops.last())
    }
}

/// Whether call `at` of `ops` is a claim of `name` that succeeds.
pub open spec fn grants(held: Set<Seq<char>>, ops: Seq<NameOp>, at: int, name: Seq<char>) -> bool {
    &&& 0 <= at < ops.len()
    &&& ops[at] == NameOp::Claim(name)
    &&& !run(held, ops.take(at)).contains(name)
}

/// A name that is held stays held until it is released.
proof fn lemma_held_until_released(
    held: Set<Seq<char>>,
    ops: Seq<NameOp>,
    from: int,
    to: int,
    name: Seq<char>,
)
    requires
        0 <= from <= to <= ops.len(),
        run(held, ops.take(from)).contains(name),
        forall|k: int| from <= k < to ==> ops[k] != NameOp::Release(name),
    ensures
        run(held, ops.take(to)).contains(name),
    decreases to - from,
{
    if from < to {
        lemma_held_until_released(held, ops, from, to - 1, name);
        assert(ops.take(to).drop_last() =~= ops.take(to - 1));
    }
}

/// However claims and releases of any names follow one another, between two
/// successful claims of one name that name is released: while it is held,
/// every claim of it fails.
pub proof fn law_one_holder(
    held: Set<Seq<char>>,
    ops: Seq<NameOp>,
    first: int,
    second: int,
    name: Seq<char>,
)
    requires
        first < second,
        grants(held, ops, first, name),
        grants(held, ops, second, name),
    ensures
        exists|k: int| first < k < second && ops[k] == NameOp::Release(name),
{
    if forall|k: int| first < k < second ==> ops[k] != NameOp::Release(name) {
        lemma_held_until_released(held, ops, first + 1, second, name);
    }
}

/// A released name can be claimed again at once, and a claimed name cannot.
pub proof fn law_release_frees(held: Set<Seq<char>>, name: Seq<char>)
    ensures
        !apply(held, NameOp::Release(name)).contains(name),
        apply(held, NameOp::Claim(name)).contains(name),
        forall|other: Seq<char>|
            other != name ==> (apply(held, NameOp::Release(name)).contains(other)
                <==> held.contains(other)),
{
}

/// The set of display names held by connected sessions.
///
/// Its view is the set of held names. A name is in the set from a successful
/// `claim` until the next `release` of that name.
pub struct NameRegistry {
    held: StringHashSet,
}

impl View for NameRegistry {
    type V = Set<Seq<char>>;

    closed spec fn view(&self) -> Set<Seq<char>> {
        self.held@
    }
}

impl NameRegistry {
    /// A registry in which no name is held.
    pub fn new() -> (registry: Self)
        ensures
            registry@ == Set::<Seq<char>>::empty(),
    {
        NameRegistry { held: StringHashSet::new() }
    }

    /// Reserves `name`. Succeeds exactly when nobody holds it; either way the
    /// name is held afterwards and no other name is affected.
    pub fn claim(&mut self, name: &str) -> (granted: bool)
        ensures
            granted == !old(self)@.contains(name@),
            final(self)@ == old(self)@.insert(name@),
            final(self)@ == apply(old(self)@, NameOp::Claim(name@)),
    {
        self.held.insert(String::from_str(name))
    }

    /// Frees `name`, whether or not it was held.
    pub fn release(&mut self, name: &str)
        ensures
            final(self)@ == old(self)@.remove(name@),
            final(self)@ == apply(old(self)@, NameOp::Release(name@)),
    {
        self.held.remove(name);
    }

    /// Whether `name` is held.
    pub fn is_held(&self, name: &str) -> (held: bool)
        ensures
            held == self@.contains(name@),
    {
        self.held.contains(name)
    }
}

} // verus!
