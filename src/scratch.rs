//! Allocation strategies for message buffers: fresh allocation, or a fixed
//! pool of scratch buffers that are handed out by role and taken back.
use vstd::prelude::*;

use crate::config::Reuse;

verus! {

/// Words in each pooled scratch buffer.
pub const SCRATCH_SIZE: usize = 131072;

/// Number of buffers in the pool.
pub const SLOT_COUNT: usize = 6;

#[verifier::external_type_specification]
#[verifier::external_body]
pub struct ExWord(capnp::Word);

/// Relies on capnp::Word::allocate_zeroed_vec: a vector of `length` words.
#[verifier::external_body]
fn zeroed_words(length: usize) -> (r: Vec<capnp::Word>)
    ensures
        r@.len() == length,
{
    capnp::Word::allocate_zeroed_vec(length)
}

/// The strategy that allocates every message afresh; it keeps no state.
#[derive(Clone, Copy, Debug)]
pub struct NoScratch;

/// What a message buffer is used for in one iteration. Each role has a slot
/// of its own, so that a client and a server in one process never share one.
#[derive(Clone, Copy, Debug, PartialEq, Eq, Structural)]
pub enum SlotRole {
    ClientRequest,
    ClientResponse,
    ServerRequest,
    ServerResponse,
}

pub open spec fn spec_slot_index(role: SlotRole) -> int {
    match role {
        SlotRole::ClientRequest => 0,
        SlotRole::ClientResponse => 1,
        SlotRole::ServerRequest => 2,
        SlotRole::ServerResponse => 3,
    }
}

/// The pool slot that backs a role.
pub fn slot_index(role: SlotRole) -> (r: usize)
    ensures
        r == spec_slot_index(role),
        r < SLOT_COUNT,
{
    match role {
        SlotRole::ClientRequest => 0,
        SlotRole::ClientResponse => 1,
        SlotRole::ServerRequest => 2,
        SlotRole::ServerResponse => 3,
    }
}

/// Distinct roles are backed by distinct slots.
pub proof fn lemma_roles_disjoint(a: SlotRole, b: SlotRole)
    requires
        a != b,
    ensures
        spec_slot_index(a) != spec_slot_index(b),
{
}

/// The pooled strategy: six scratch buffers of `SCRATCH_SIZE` words each,
/// owned for the life of the harness. A buffer that is out is not in its
/// slot, so no two messages can be built in one slot at a time.
pub struct UseScratch {
    slots: Vec<Option<Vec<capnp::Word>>>,
}

impl View for UseScratch {
    /// Which slots hold their buffer.
    type V = Seq<bool>;

    closed spec fn view(&self) -> Seq<bool> {
        self.slots@.map_values(|s: Option<Vec<capnp::Word>>| s.is_some())
    }
}

impl UseScratch {
    pub closed spec fn wf(&self) -> bool {
        &&& self.slots@.len() == SLOT_COUNT
        &&& forall|i: int|
            0 <= i < SLOT_COUNT && (#[trigger] self.slots@[i]).is_some() ==> self.slots@[i].unwrap()@.len()
                == SCRATCH_SIZE
    }

    /// Whether the buffer of `role` is in the pool.
    pub open spec fn spec_available(&self, role: SlotRole) -> bool {
        self@[spec_slot_index(role)]
    }

    /// A pool with every buffer in place.
    pub fn new() -> (r: UseScratch)
        ensures
            r.wf(),
            r@ == Seq::new(SLOT_COUNT as nat, |i: int| true),
    {
        let mut slots: Vec<Option<Vec<capnp::Word>>> = Vec::new();
        let mut i: usize = 0;
        while i < SLOT_COUNT
            invariant
                i <= SLOT_COUNT,
                slots@.len() == i,
                forall|j: int|
                    0 <= j < i ==> (#[trigger] slots@[j]).is_some() && slots@[j].unwrap()@.len()
                        == SCRATCH_SIZE,
            decreases SLOT_COUNT - i,
        {
            slots.push(Some(zeroed_words(SCRATCH_SIZE)));
            i = i + 1;
        }
        let r = UseScratch { slots };
        assert(r@ =~= Seq::new(SLOT_COUNT as nat, |i: int| true));
        r
    }

    pub fn is_available(&self, role: SlotRole) -> (r: bool)
        requires
            self.wf(),
        ensures
            r == self.spec_available(role),
    {
        self.slots[slot_index(role)].is_some()
    }

    /// Hands out the buffer of `role`, or `None` when it is already out.
    pub fn take(&mut self, role: SlotRole) -> (r: Option<Vec<capnp::Word>>)
        requires
            old(self).wf(),
        ensures
            final(self).wf(),
            r.is_some() == old(self).spec_available(role),
            r.is_some() ==> r.unwrap()@.len() == SCRATCH_SIZE,
            final(self)@ == old(self)@.update(spec_slot_index(role), false),
    {
        let i = slot_index(role);
        let mut out: Option<Vec<capnp::Word>> = None;
        self.slots.set_and_swap(i, &mut out);
        assert(self@ =~= old(self)@.update(i as int, false));
        out
    }

    /// Puts a buffer back in the slot of `role`. The slot must be empty and
    /// the buffer of the pool's size; otherwise the buffer is handed back.
    pub fn restore(&mut self, role: SlotRole, words: Vec<capnp::Word>) -> (r: Option<
        Vec<capnp::Word>,
    >)
        requires
            old(self).wf(),
        ensures
            final(self).wf(),
            r.is_none() == (!old(self).spec_available(role) && words@.len() == SCRATCH_SIZE),
            r.is_none() ==> final(self)@ == old(self)@.update(spec_slot_index(role), true),
            r.is_some() ==> final(self)@ == old(self)@ && r.unwrap()@ == words@,
    {
        let i = slot_index(role);
        if self.slots[i].is_some() || words.len() != SCRATCH_SIZE {
            return Some(words);
        }
        let mut back: Option<Vec<capnp::Word>> = Some(words);
        self.slots.set_and_swap(i, &mut back);
        assert(self@ =~= old(self)@.update(i as int, true));
        None
    }
}

/// Taking the buffer of a role and putting it back leaves the pool as it was,
/// so every iteration finds the same buffers in place.
pub proof fn lemma_take_restore(p: UseScratch, q: UseScratch, role: SlotRole)
    requires
        p.wf(),
        p.spec_available(role),
        q@ == p@.update(spec_slot_index(role), false),
    ensures
        q@.update(spec_slot_index(role), true) == p@,
{
    assert(q@.update(spec_slot_index(role), true) =~= p@);
}

/// The allocation strategy of a run, chosen once from its configuration.
pub enum Strategy {
    Fresh(NoScratch),
    Pooled(UseScratch),
}

impl Strategy {
    pub open spec fn wf(&self) -> bool {
        match self {
            Strategy::Fresh(_) => true,
            Strategy::Pooled(p) => p.wf(),
        }
    }

    /// Which roles can be leased a buffer now: every role when allocating
    /// afresh, the roles whose buffer is in the pool otherwise.
    pub open spec fn spec_leasable(&self) -> Seq<bool> {
        match self {
            Strategy::Fresh(_) => Seq::new(SLOT_COUNT as nat, |i: int| true),
            Strategy::Pooled(p) => p@,
        }
    }

    pub fn new(reuse: Reuse) -> (r: Strategy)
        ensures
            r.wf(),
            (r is Pooled) == (reuse == Reuse::Reuse),
            r.spec_leasable() == Seq::new(SLOT_COUNT as nat, |i: int| true),
    {
        match reuse {
            Reuse::NoReuse => Strategy::Fresh(NoScratch),
            Reuse::Reuse => Strategy::Pooled(UseScratch::new()),
        }
    }

    /// The backing words for a message of `role`: none when allocating
    /// afresh (the message then lives on the heap alone), the pooled buffer
    /// of the role otherwise. `None` when that buffer is already out.
    pub fn lease(&mut self, role: SlotRole) -> (r: Option<Vec<capnp::Word>>)
        requires
            old(self).wf(),
        ensures
            final(self).wf(),
            ((*final(self)) is Pooled) == ((*old(self)) is Pooled),
            r.is_some() == old(self).spec_leasable()[spec_slot_index(role)],
            r.is_some() ==> r.unwrap()@.len() == (if (*old(self)) is Pooled {
                SCRATCH_SIZE as int
            } else {
                0
            }),
            final(self).spec_leasable() == (if (*old(self)) is Pooled {
                old(self).spec_leasable().update(spec_slot_index(role), false)
            } else {
                old(self).spec_leasable()
            }),
    {
        match self {
            Strategy::Fresh(_) => Some(Vec::new()),
            Strategy::Pooled(p) => p.take(role),
        }
    }

    /// Ends the lease of `words` for `role`. Fresh words are dropped; pooled
    /// ones go back to their slot, and are handed back when it is occupied
    /// or they are not of the pool's size.
    pub fn give_back(&mut self, role: SlotRole, words: Vec<capnp::Word>) -> (r: Option<Vec<capnp::Word>>)
        requires
            old(self).wf(),
        ensures
            final(self).wf(),
            ((*final(self)) is Pooled) == ((*old(self)) is Pooled),
            (*old(self)) is Fresh ==> r.is_none() && final(self).spec_leasable() == old(self).spec_leasable(),
            (*old(self)) is Pooled ==> r.is_none() == (!old(self).spec_leasable()[spec_slot_index(role)]
                && words@.len() == SCRATCH_SIZE),
            (*old(self)) is Pooled && r.is_none() ==> final(self).spec_leasable() == old(self).spec_leasable().update(
                spec_slot_index(role),
                true,
            ),
            r.is_some() ==> final(self).spec_leasable() == old(self).spec_leasable() && r.unwrap()@ == words@,
    {
        match self {
            Strategy::Fresh(_) => None,
            Strategy::Pooled(p) => p.restore(role, words),
        }
    }
}

/// Under either strategy, leasing the buffer of a role and giving the same
/// words back leaves the strategy as it was: each iteration starts from the
/// same state, whichever strategy the run uses.
pub proof fn lemma_lease_give_back(a: Strategy, b: Strategy, c: Strategy, role: SlotRole, words: Vec<capnp::Word>)
    requires
        a.wf(),
        a.spec_leasable()[spec_slot_index(role)],
        b is Pooled <==> a is Pooled,
        b.spec_leasable() == (if a is Pooled {
            a.spec_leasable().update(spec_slot_index(role), false)
        } else {
            a.spec_leasable()
        }),
        a is Pooled ==> words@.len() == SCRATCH_SIZE,
        a is Pooled ==> c.spec_leasable() == b.spec_leasable().update(spec_slot_index(role), true),
        a is Fresh ==> c.spec_leasable() == b.spec_leasable(),
    ensures
        c.spec_leasable() == a.spec_leasable(),
{
    if a is Pooled {
        assert(c.spec_leasable() =~= a.spec_leasable());
    }
}

} // verus!
