//! The breakpoint table.
//!
//! Tracks every user-requested breakpoint address and its arm state.  An
//! address is registered even when no target is running (`Unarmed`, modelled
//! as `None`); it is armed lazily once a live target exists, recording the
//! original instruction byte (`Some(byte)`) so the patch can be rolled back.
//! Addresses persist across target restarts: on replacement or exit every
//! entry merely returns to `Unarmed`, ready to be re-armed on the next run.

use vstd::prelude::*;
use vstd::pervasive::VecAdditionalExecFns;

verus! {

/// Result of asking the table to register an address.
#[derive(PartialEq, Eq, Structural, Clone, Copy, Debug)]
pub enum RegisterOutcome {
    /// A fresh entry was created; `index` is its user-visible breakpoint
    /// number (the number of breakpoints that existed before it).
    Registered { index: usize },
    /// The address was already present; the table is unchanged.
    AlreadyRegistered,
}

/// An entry is an address paired with its arm state: `None` while unarmed,
/// `Some(byte)` once the trap opcode has been installed over `byte`.
pub type Entry = (u64, Option<u8>);

/// Whether some entry of `s` carries the address `a`.
pub open spec fn seq_tracks(s: Seq<Entry>, a: u64) -> bool {
    exists|i: int| 0 <= i < s.len() && s[i].0 == a
}

/// Registration: a no-op when `a` is already tracked, otherwise a fresh
/// unarmed entry at the end.
pub open spec fn spec_register(s: Seq<Entry>, a: u64) -> Seq<Entry> {
    if seq_tracks(s, a) {
        s
    } else {
        s.push((a, None))
    }
}

/// Disarming for a restart: every entry keeps its address and returns to the
/// unarmed state.
pub open spec fn spec_disarm(s: Seq<Entry>) -> Seq<Entry> {
    Seq::new(s.len(), |i: int| (s[i].0, None::<u8>))
}

/// Arming one address: the entry for `a` records the saved byte `b`; every
/// other entry is untouched.
pub open spec fn spec_arm(s: Seq<Entry>, a: u64, b: u8) -> Seq<Entry> {
    Seq::new(s.len(), |i: int| if s[i].0 == a { (a, Some(b)) } else { s[i] })
}

pub struct BreakpointTable {
    entries: Vec<Entry>,
}

impl BreakpointTable {
    /// The table's contents, in registration order.
    pub closed spec fn entries_seq(self) -> Seq<Entry> {
        self.entries@
    }

    /// The registered addresses, in registration order.
    pub open spec fn addrs(self) -> Seq<u64> {
        Seq::new(self.entries_seq().len(), |i: int| self.entries_seq()[i].0)
    }

    /// Identity of a breakpoint is its address: no two entries share one.
    pub open spec fn wf(self) -> bool {
        forall|i: int, j: int|
            0 <= i < j < self.entries_seq().len() ==> self.entries_seq()[i].0
                != self.entries_seq()[j].0
    }

    /// Whether `a` has been registered.
    pub open spec fn tracks(self, a: u64) -> bool {
        seq_tracks(self.entries_seq(), a)
    }

    pub closed spec fn idx_of(self, a: u64) -> int {
        choose|i: int| 0 <= i < self.entries_seq().len() && self.entries_seq()[i].0 == a
    }

    /// The arm state of `a`: the saved original byte when `a` is tracked and
    /// armed, `None` when it is unarmed or not tracked at all.
    pub open spec fn armed_byte(self, a: u64) -> Option<u8> {
        if self.tracks(a) {
            self.entries_seq()[self.idx_of(a)].1
        } else {
            None
        }
    }

    /// An empty table.
    pub fn new() -> (r: BreakpointTable)
        ensures
            r.wf(),
            r.entries_seq() == Seq::<Entry>::empty(),
    {
        BreakpointTable { entries: Vec::new() }
    }

    /// Number of registered breakpoints.
    pub fn len(&self) -> (r: usize)
        ensures
            r == self.entries_seq().len(),
    {
        self.entries.len()
    }

    /// Index of the entry carrying `addr`, if any.
    fn find(&self, addr: u64) -> (r: Option<usize>)
        ensures
            match r {
                Some(i) => i < self.entries_seq().len() && self.entries_seq()[i as int].0 == addr,
                None => !self.tracks(addr),
            },
    {
        let n = self.entries.len();
        let mut i: usize = 0;
        while i < n
            invariant
                i <= n,
                n == self.entries_seq().len(),
                forall|j: int| 0 <= j < i ==> self.entries_seq()[j].0 != addr,
            decreases n - i,
        {
            if self.entries[i].0 == addr {
                return Some(i);
            }
            i = i + 1;
        }
        None
    }

    /// Registers `addr`.  Idempotent: a fresh address gains one unarmed entry
    /// and is reported with its breakpoint number; a repeated address changes
    /// nothing and is reported distinctly.
    pub fn register(&mut self, addr: u64) -> (r: RegisterOutcome)
        requires
            old(self).wf(),
        ensures
            final(self).wf(),
            final(self).entries_seq() == spec_register(old(self).entries_seq(), addr),
            r == (if old(self).tracks(addr) {
                RegisterOutcome::AlreadyRegistered
            } else {
                RegisterOutcome::Registered { index: old(self).entries_seq().len() as usize }
            }),
            final(self).tracks(addr),
            !old(self).tracks(addr) ==> final(self).armed_byte(addr) == None::<u8>,
    {
        match self.find(addr) {
            Some(_) => RegisterOutcome::AlreadyRegistered,
            None => {
                let index = self.entries.len();
                self.entries.push((addr, None));
                proof {
                    let s = self.entries_seq();
                    assert(s[s.len() - 1].0 == addr);
                    let k = self.idx_of(addr);
                    assert(s[k].0 == addr);
                    assert(k == s.len() - 1);
                }
                RegisterOutcome::Registered { index }
            },
        }
    }

    /// The saved original byte at `addr`, when `addr` is tracked and armed.
    pub fn lookup(&self, addr: u64) -> (r: Option<u8>)
        requires
            self.wf(),
        ensures
            r == self.armed_byte(addr),
    {
        match self.find(addr) {
            Some(i) => {
                proof {
                    let k = self.idx_of(addr);
                    assert(self.entries_seq()[k].0 == addr);
                    assert(k == i);
                }
                self.entries[i].1
            },
            None => None,
        }
    }

    /// Records that the trap byte has been installed at `addr` over the
    /// original byte `orig`.
    pub fn set_armed(&mut self, addr: u64, orig: u8)
        requires
            old(self).wf(),
            old(self).tracks(addr),
        ensures
            final(self).wf(),
            final(self).entries_seq() == spec_arm(old(self).entries_seq(), addr, orig),
            final(self).addrs() == old(self).addrs(),
            final(self).armed_byte(addr) == Some(orig),
            forall|b: u64| b != addr ==> final(self).armed_byte(b) == old(self).armed_byte(b),
            forall|b: u64| final(self).tracks(b) == old(self).tracks(b),
    {
        let ghost olds = self.entries_seq();
        match self.find(addr) {
            Some(i) => {
                self.entries.set(i, (addr, Some(orig)));
                proof {
                    lemma_pointwise_same_addrs(olds, self.entries_seq());
                    assert(self.entries_seq() =~= spec_arm(olds, addr, orig)) by {
                        assert forall|j: int| 0 <= j < olds.len() implies self.entries_seq()[j]
                            == spec_arm(olds, addr, orig)[j] by {
                            if j != i {
                                assert(olds[j].0 != addr);
                            }
                        }
                    }
                    assert(final(self).addrs() =~= old(self).addrs());
                    let k = self.idx_of(addr);
                    assert(self.entries_seq()[k].0 == addr);
                    assert(k == i);
                    assert forall|b: u64| b != addr implies final(self).armed_byte(b) == old(
                        self,
                    ).armed_byte(b) by {
                        lemma_pointwise_same_tracks(olds, self.entries_seq(), b);
                        if old(self).tracks(b) {
                            let k1 = old(self).idx_of(b);
                            let k2 = final(self).idx_of(b);
                            assert(olds[k1].0 == b);
                            assert(self.entries_seq()[k2].0 == b);
                            assert(k1 == k2);
                        }
                    }
                    assert forall|b: u64| final(self).tracks(b) == old(self).tracks(b) by {
                        lemma_pointwise_same_tracks(olds, self.entries_seq(), b);
                    }
                }
            },
            None => {
                proof {
                    assert(false);
                }
            },
        }
    }

    /// Disarms every entry: on target replacement or exit the old process's
    /// patches are meaningless, but the registrations persist.
    pub fn disarm_for_restart(&mut self)
        requires
            old(self).wf(),
        ensures
            final(self).wf(),
            final(self).entries_seq() == spec_disarm(old(self).entries_seq()),
            final(self).addrs() == old(self).addrs(),
            forall|b: u64| final(self).tracks(b) == old(self).tracks(b),
            forall|b: u64| final(self).armed_byte(b) == None::<u8>,
    {
        let ghost olds = self.entries_seq();
        let n = self.entries.len();
        let mut i: usize = 0;
        while i < n
            invariant
                i <= n,
                n == self.entries_seq().len(),
                self.entries_seq().len() == olds.len(),
                forall|j: int| 0 <= j < i ==> self.entries_seq()[j] == (olds[j].0, None::<u8>),
                forall|j: int| i <= j < n ==> self.entries_seq()[j] == olds[j],
            decreases n - i,
        {
            let a = self.entries[i].0;
            self.entries.set(i, (a, None));
            i = i + 1;
        }
        proof {
            assert(self.entries_seq() =~= spec_disarm(olds));
            lemma_pointwise_same_addrs(olds, self.entries_seq());
            assert(final(self).addrs() =~= old(self).addrs());
            assert forall|b: u64| final(self).tracks(b) == old(self).tracks(b) by {
                lemma_pointwise_same_tracks(olds, self.entries_seq(), b);
            }
            assert forall|b: u64| final(self).armed_byte(b) == None::<u8> by {
                if final(self).tracks(b) {
                    let k = final(self).idx_of(b);
                    assert(self.entries_seq()[k].0 == b);
                }
            }
        }
    }

    /// The addresses that still need arming, in registration order.  After a
    /// fresh spawn the caller patches each of these and records the saved
    /// byte with `set_armed`, so that no target instruction can execute
    /// unguarded.
    pub fn unarmed_addrs(&self) -> (r: Vec<u64>)
        requires
            self.wf(),
        ensures
            forall|a: u64| r@.contains(a) <==> self.tracks(a) && self.armed_byte(a) == None::<u8>,
            forall|i: int, j: int| 0 <= i < j < r@.len() ==> r@[i] != r@[j],
    {
        let n = self.entries.len();
        let mut r: Vec<u64> = Vec::new();
        let mut i: usize = 0;
        while i < n
            invariant
                i <= n,
                self.wf(),
                n == self.entries_seq().len(),
                forall|a: u64|
                    r@.contains(a) <==> exists|j: int|
                        0 <= j < i && self.entries_seq()[j] == (a, None::<u8>),
                forall|p: int, q: int| 0 <= p < q < r@.len() ==> r@[p] != r@[q],
            decreases n - i,
        {
            let ghost pre = r@;
            let ghost s = self.entries_seq();
            let e = self.entries[i];
            if e.1.is_none() {
                proof {
                    if pre.contains(e.0) {
                        let j = choose|j: int| 0 <= j < i && s[j] == (e.0, None::<u8>);
                        assert(s[j].0 == s[i as int].0);
                        assert(false);
                    }
                }
                r.push(e.0);
                proof {
                    assert forall|a: u64|
                        r@.contains(a) <==> exists|j: int|
                            0 <= j < i + 1 && s[j] == (a, None::<u8>) by {
                        if r@.contains(a) {
                            let p = choose|p: int| 0 <= p < r@.len() && r@[p] == a;
                            if p < pre.len() {
                                assert(pre[p] == a);
                                assert(pre.contains(a));
                                let j = choose|j: int| 0 <= j < i && s[j] == (a, None::<u8>);
                                assert(0 <= j < i + 1 && s[j] == (a, None::<u8>));
                            } else {
                                assert(r@[p] == e.0);
                                assert(s[i as int] == (a, None::<u8>));
                            }
                        }
                        if exists|j: int| 0 <= j < i + 1 && s[j] == (a, None::<u8>) {
                            let j = choose|j: int| 0 <= j < i + 1 && s[j] == (a, None::<u8>);
                            if j < i {
                                assert(pre.contains(a));
                                let p = choose|p: int| 0 <= p < pre.len() && pre[p] == a;
                                assert(r@[p] == a);
                            } else {
                                assert(a == e.0);
                                assert(r@[pre.len() as int] == a);
                            }
                            assert(r@.contains(a));
                        }
                    }
                }
            } else {
                proof {
                    assert forall|a: u64|
                        r@.contains(a) <==> exists|j: int|
                            0 <= j < i + 1 && s[j] == (a, None::<u8>) by {
                        if exists|j: int| 0 <= j < i + 1 && s[j] == (a, None::<u8>) {
                            let j = choose|j: int| 0 <= j < i + 1 && s[j] == (a, None::<u8>);
                            assert(j < i);
                        }
                    }
                }
            }
            i = i + 1;
        }
        proof {
            assert forall|a: u64|
                r@.contains(a) <==> self.tracks(a) && self.armed_byte(a) == None::<u8> by {
                if r@.contains(a) {
                    let j = choose|j: int| 0 <= j < n && self.entries_seq()[j] == (a, None::<u8>);
                    assert(self.entries_seq()[j].0 == a);
                    let k = self.idx_of(a);
                    assert(self.entries_seq()[k].0 == a);
                    assert(k == j);
                } else {
                    if self.tracks(a) && self.armed_byte(a) == None::<u8> {
                        let k = self.idx_of(a);
                        assert(self.entries_seq()[k] == (a, None::<u8>));
                        assert(false);
                    }
                }
            }
        }
        r
    }
}

/// Two entry sequences that agree pointwise on addresses have the same
/// address sequence semantics.
proof fn lemma_pointwise_same_addrs(s1: Seq<Entry>, s2: Seq<Entry>)
    requires
        s1.len() == s2.len(),
        forall|i: int| 0 <= i < s1.len() ==> s1[i].0 == s2[i].0,
    ensures
        forall|a: u64| seq_tracks(s1, a) == seq_tracks(s2, a),
{
    assert forall|a: u64| seq_tracks(s1, a) == seq_tracks(s2, a) by {
        lemma_pointwise_same_tracks(s1, s2, a);
    }
}

proof fn lemma_pointwise_same_tracks(s1: Seq<Entry>, s2: Seq<Entry>, a: u64)
    requires
        s1.len() == s2.len(),
        forall|i: int| 0 <= i < s1.len() ==> s1[i].0 == s2[i].0,
    ensures
        seq_tracks(s1, a) == seq_tracks(s2, a),
{
    if seq_tracks(s1, a) {
        let i = choose|i: int| 0 <= i < s1.len() && s1[i].0 == a;
        assert(s2[i].0 == a);
    }
    if seq_tracks(s2, a) {
        let i = choose|i: int| 0 <= i < s2.len() && s2[i].0 == a;
        assert(s1[i].0 == a);
    }
}

/// Registering the same address twice never creates two table entries: the
/// second registration finds the address tracked, reports it distinctly, and
/// leaves the table exactly as it was.
pub proof fn lemma_register_idempotent(s: Seq<Entry>, a: u64)
    ensures
        seq_tracks(spec_register(s, a), a),
        spec_register(spec_register(s, a), a) == spec_register(s, a),
        spec_register(s, a).len() <= s.len() + 1,
{
    if !seq_tracks(s, a) {
        let s1 = s.push((a, None));
        assert(s1[s1.len() - 1].0 == a);
    }
}

/// After a target exits, disarming keeps every registration: the addresses
/// and their order are untouched, every entry is merely unarmed, so a
/// subsequent run finds them all waiting to be re-armed.
pub proof fn lemma_disarm_keeps_registrations(s: Seq<Entry>)
    ensures
        spec_disarm(s).len() == s.len(),
        forall|i: int| 0 <= i < s.len() ==> spec_disarm(s)[i] == (s[i].0, None::<u8>),
        forall|a: u64| seq_tracks(spec_disarm(s), a) == seq_tracks(s, a),
{
    lemma_pointwise_same_addrs(s, spec_disarm(s));
}

} // verus!
