//! The breakpoint table.
//!
//! Maps an instruction address to what is known about the breakpoint there.
//! An address can be registered before any process exists; the original byte
//! under the trap is only known once a live process lets us read it, so an
//! entry is either `Pending` or `Installed` with that byte.  The table is
//! owned by the session, outlives any single traced process, and is
//! re-applied to each fresh launch.

use vstd::prelude::*;

verus! {

/// What is known about one registered breakpoint.
#[derive(Clone, Copy, PartialEq, Eq, Structural, Debug)]
pub enum BpState {
    /// Requested while no process existed: no original byte yet.
    Pending,
    /// A trap byte is (or was) written in a live process; carries the byte
    /// it replaced.
    Installed(u8),
}

/// Address-keyed table of breakpoints, viewed as a map from address to
/// [`BpState`].  Keys are unique; insertion order is irrelevant.
pub struct BreakpointTable {
    entries: Vec<(usize, BpState)>,
}

spec fn entries_map(s: Seq<(usize, BpState)>) -> Map<usize, BpState>
    decreases s.len(),
{
    if s.len() == 0 {
        Map::empty()
    } else {
        entries_map(s.drop_last()).insert(s.last().0, s.last().1)
    }
}

spec fn uniq_keys(s: Seq<(usize, BpState)>) -> bool {
    forall|i: int, j: int| 0 <= i < j < s.len() ==> s[i].0 != s[j].0
}

proof fn lemma_entries_map_contains(s: Seq<(usize, BpState)>, k: usize)
    ensures
        entries_map(s).contains_key(k) <==> exists|i: int| 0 <= i < s.len() && s[i].0 == k,
    decreases s.len(),
{
    if s.len() > 0 {
        lemma_entries_map_contains(s.drop_last(), k);
        if s.last().0 == k {
            assert(s[s.len() - 1].0 == k);
        } else {
            if entries_map(s).contains_key(k) {
                let i = choose|i: int| 0 <= i < s.drop_last().len() && s.drop_last()[i].0 == k;
                assert(s[i].0 == k);
            }
            if exists|i: int| 0 <= i < s.len() && s[i].0 == k {
                let i = choose|i: int| 0 <= i < s.len() && s[i].0 == k;
                assert(i != s.len() - 1);
                assert(s.drop_last()[i].0 == k);
            }
        }
    }
}

proof fn lemma_entries_map_index(s: Seq<(usize, BpState)>, i: int)
    requires
        uniq_keys(s),
        0 <= i < s.len(),
    ensures
        entries_map(s).contains_key(s[i].0),
        entries_map(s)[s[i].0] == s[i].1,
    decreases s.len(),
{
    if i < s.len() - 1 {
        assert(uniq_keys(s.drop_last()));
        lemma_entries_map_index(s.drop_last(), i);
        assert(s.drop_last()[i] == s[i]);
        assert(s.last().0 != s[i].0);
    }
}

proof fn lemma_entries_map_update(s: Seq<(usize, BpState)>, i: int, v: BpState)
    requires
        uniq_keys(s),
        0 <= i < s.len(),
    ensures
        entries_map(s.update(i, (s[i].0, v))) == entries_map(s).insert(s[i].0, v),
    decreases s.len(),
{
    let k = s[i].0;
    let t = s.update(i, (k, v));
    if i == s.len() - 1 {
        assert(t.drop_last() =~= s.drop_last());
        assert(t.last() == (k, v));
        assert(entries_map(s.drop_last()).insert(k, s.last().1).insert(k, v) =~= entries_map(
            s.drop_last(),
        ).insert(k, v));
    } else {
        assert(uniq_keys(s.drop_last()));
        lemma_entries_map_update(s.drop_last(), i, v);
        assert(t.drop_last() =~= s.drop_last().update(i, (k, v)));
        assert(t.last() == s.last());
        assert(s.last().0 != k);
        assert(entries_map(s.drop_last()).insert(k, v).insert(s.last().0, s.last().1)
            =~= entries_map(s.drop_last()).insert(s.last().0, s.last().1).insert(k, v));
    }
}

proof fn lemma_entries_map_push(s: Seq<(usize, BpState)>, k: usize, v: BpState)
    ensures
        entries_map(s.push((k, v))) == entries_map(s).insert(k, v),
{
    assert(s.push((k, v)).drop_last() =~= s);
    assert(s.push((k, v)).last() == (k, v));
}

impl View for BreakpointTable {
    type V = Map<usize, BpState>;

    closed spec fn view(&self) -> Map<usize, BpState> {
        entries_map(self.entries@)
    }
}

impl BreakpointTable {
    /// Well-formedness: no address occurs twice.
    pub closed spec fn wf(&self) -> bool {
        uniq_keys(self.entries@)
    }

    /// The table's addresses in insertion order.
    pub closed spec fn addr_seq(&self) -> Seq<usize> {
        self.entries@.map_values(|t: (usize, BpState)| t.0)
    }

    /// An empty table.
    pub fn new() -> (r: BreakpointTable)
        ensures
            r.wf(),
            r@ == Map::<usize, BpState>::empty(),
            r.addr_seq() == Seq::<usize>::empty(),
    {
        let r = BreakpointTable { entries: Vec::new() };
        proof {
            assert(r.addr_seq() =~= Seq::<usize>::empty());
        }
        r
    }

    /// How many breakpoints are registered.
    pub fn count(&self) -> (r: usize)
        ensures
            r == self.addr_seq().len(),
    {
        self.entries.len()
    }

    /// The address of the `i`-th registered breakpoint.
    pub fn addr_at(&self, i: usize) -> (r: usize)
        requires
            self.wf(),
            i < self.addr_seq().len(),
        ensures
            r == self.addr_seq()[i as int],
            self@.contains_key(r),
    {
        proof {
            lemma_entries_map_index(self.entries@, i as int);
        }
        self.entries[i].0
    }

    /// Looks up the state recorded for `addr`.
    pub fn get(&self, addr: usize) -> (r: Option<BpState>)
        requires
            self.wf(),
        ensures
            r == if self@.contains_key(addr) {
                Some(self@[addr])
            } else {
                None::<BpState>
            },
    {
        let n = self.entries.len();
        let mut i: usize = 0;
        while i < n
            invariant
                n == self.entries@.len(),
                i <= n,
                uniq_keys(self.entries@),
                forall|j: int| 0 <= j < i ==> self.entries@[j].0 != addr,
            decreases n - i,
        {
            if self.entries[i].0 == addr {
                proof {
                    lemma_entries_map_index(self.entries@, i as int);
                }
                return Some(self.entries[i].1);
            }
            i += 1;
        }
        proof {
            lemma_entries_map_contains(self.entries@, addr);
        }
        None
    }

    /// Whether a breakpoint is registered at `addr`.
    pub fn contains(&self, addr: usize) -> (r: bool)
        requires
            self.wf(),
        ensures
            r == self@.contains_key(addr),
    {
        self.get(addr).is_some()
    }

    fn upsert(&mut self, addr: usize, st: BpState)
        requires
            old(self).wf(),
        ensures
            final(self).wf(),
            final(self)@ == old(self)@.insert(addr, st),
            old(self)@.contains_key(addr) ==> final(self).addr_seq() == old(self).addr_seq(),
            !old(self)@.contains_key(addr) ==> final(self).addr_seq() == old(
                self,
            ).addr_seq().push(addr),
    {
        let n = self.entries.len();
        let mut i: usize = 0;
        while i < n
            invariant
                *self == *old(self),
                n == self.entries@.len(),
                i <= n,
                uniq_keys(self.entries@),
                forall|j: int| 0 <= j < i ==> self.entries@[j].0 != addr,
            decreases n - i,
        {
            if self.entries[i].0 == addr {
                proof {
                    lemma_entries_map_index(self.entries@, i as int);
                    lemma_entries_map_update(self.entries@, i as int, st);
                }
                self.entries.set(i, (addr, st));
                proof {
                    assert(self.entries@ == old(self).entries@.update(i as int, (addr, st)));
                    assert(self.addr_seq() =~= old(self).addr_seq());
                }
                return ;
            }
            i += 1;
        }
        proof {
            lemma_entries_map_contains(self.entries@, addr);
            lemma_entries_map_push(self.entries@, addr, st);
        }
        self.entries.push((addr, st));
        proof {
            assert(self.entries@ == old(self).entries@.push((addr, st)));
            assert(self.addr_seq() =~= old(self).addr_seq().push(addr));
        }
    }

    /// Registers `addr` with no process live: no original byte is known yet.
    pub fn set_pending(&mut self, addr: usize)
        requires
            old(self).wf(),
        ensures
            final(self).wf(),
            final(self)@ == old(self)@.insert(addr, BpState::Pending),
            final(self)@.dom() == old(self)@.dom().insert(addr),
            old(self)@.contains_key(addr) ==> final(self).addr_seq() == old(self).addr_seq(),
            !old(self)@.contains_key(addr) ==> final(self).addr_seq() == old(
                self,
            ).addr_seq().push(addr),
    {
        self.upsert(addr, BpState::Pending);
        proof {
            assert(final(self)@.dom() =~= old(self)@.dom().insert(addr));
        }
    }

    /// Records that a trap was written at `addr` over original byte `orig`.
    pub fn set_installed(&mut self, addr: usize, orig: u8)
        requires
            old(self).wf(),
        ensures
            final(self).wf(),
            final(self)@ == old(self)@.insert(addr, BpState::Installed(orig)),
            final(self)@.dom() == old(self)@.dom().insert(addr),
            old(self)@.contains_key(addr) ==> final(self).addr_seq() == old(self).addr_seq(),
            !old(self)@.contains_key(addr) ==> final(self).addr_seq() == old(
                self,
            ).addr_seq().push(addr),
    {
        self.upsert(addr, BpState::Installed(orig));
        proof {
            assert(final(self)@.dom() =~= old(self)@.dom().insert(addr));
        }
    }
}

/// The table after a sequence of registrations, the `i`-th at address
/// `addrs[i]` recording state `states[i]`.
pub open spec fn apply_registrations(
    m: Map<usize, BpState>,
    addrs: Seq<usize>,
    states: Seq<BpState>,
) -> Map<usize, BpState>
    decreases addrs.len(),
{
    if addrs.len() == 0 {
        m
    } else {
        apply_registrations(m, addrs.drop_last(), states.drop_last()).insert(
            addrs.last(),
            states.last(),
        )
    }
}

/// Breakpoints registered before any run (pending, no byte known) and
/// breakpoints registered while a process is live (installed, with whatever
/// original bytes were read) leave the same set of addresses in the table:
/// for one sequence of registrations the resulting breakpoint set does not
/// depend on when a process was running.
pub proof fn lemma_registration_mode_irrelevant(
    m: Map<usize, BpState>,
    addrs: Seq<usize>,
    s1: Seq<BpState>,
    s2: Seq<BpState>,
)
    requires
        s1.len() == addrs.len(),
        s2.len() == addrs.len(),
    ensures
        apply_registrations(m, addrs, s1).dom() == apply_registrations(m, addrs, s2).dom(),
    decreases addrs.len(),
{
    if addrs.len() > 0 {
        lemma_registration_mode_irrelevant(m, addrs.drop_last(), s1.drop_last(), s2.drop_last());
        assert(apply_registrations(m, addrs, s1).dom() =~= apply_registrations(
            m,
            addrs,
            s2,
        ).dom());
    }
}

} // verus!
