//! Keyed persistent stores for proposals and votes.
//!
//! The storage layout contract of the module keys proposals by their numeric
//! id and votes by (proposal id, voter address bytes), and range scans walk
//! keys in ascending order. The stores keep their entries as vectors sorted
//! strictly by key, so a scan is a walk of the vector and every key occurs
//! at most once.

use vstd::prelude::*;
use vstd::utf8::encode_utf8;

use crate::state::{Proposal, ProposalVote};

verus! {

/// Strict lexicographic order on byte strings: the order in which voter
/// address keys are scanned.
pub open spec fn bytes_lt(a: Seq<u8>, b: Seq<u8>) -> bool
    decreases a.len(),
{
    if b.len() == 0 {
        false
    } else if a.len() == 0 {
        true
    } else if a[0] != b[0] {
        a[0] < b[0]
    } else {
        bytes_lt(a.drop_first(), b.drop_first())
    }
}

/// Exactly one of `a < b`, `a == b`, `b < a` holds.
pub proof fn lemma_bytes_lt_trichotomy(a: Seq<u8>, b: Seq<u8>)
    ensures
        bytes_lt(a, b) ==> !bytes_lt(b, a) && a != b,
        !bytes_lt(a, b) && !bytes_lt(b, a) ==> a == b,
    decreases a.len(),
{
    if b.len() == 0 {
        if a.len() == 0 {
            assert(a =~= b);
        }
    } else if a.len() == 0 {
    } else if a[0] != b[0] {
    } else {
        lemma_bytes_lt_trichotomy(a.drop_first(), b.drop_first());
        if !bytes_lt(a, b) && !bytes_lt(b, a) {
            assert(a.drop_first() == b.drop_first());
            assert forall|i: int| 0 <= i < a.len() implies a[i] == b[i] by {
                if i > 0 {
                    assert(a[i] == a.drop_first()[i - 1]);
                    assert(b[i] == b.drop_first()[i - 1]);
                }
            }
            assert(a =~= b);
        }
    }
}

/// The byte-string order is transitive.
pub proof fn lemma_bytes_lt_trans(a: Seq<u8>, b: Seq<u8>, c: Seq<u8>)
    requires
        bytes_lt(a, b),
        bytes_lt(b, c),
    ensures
        bytes_lt(a, c),
    decreases a.len(),
{
    if a.len() == 0 {
    } else {
        if a[0] == b[0] && b[0] == c[0] {
            lemma_bytes_lt_trans(a.drop_first(), b.drop_first(), c.drop_first());
        }
    }
}

/// Decides [`bytes_lt`] on byte slices.
pub fn bytes_lt_exec(a: &[u8], b: &[u8]) -> (r: bool)
    ensures
        r == bytes_lt(a@, b@),
    decreases a@.len(),
{
    if b.len() == 0 {
        false
    } else if a.len() == 0 {
        true
    } else if a[0] != b[0] {
        a[0] < b[0]
    } else {
        let r = bytes_lt_exec(&a[1..a.len()], &b[1..b.len()]);
        proof {
            assert(a@.subrange(1, a@.len() as int) =~= a@.drop_first());
            assert(b@.subrange(1, b@.len() as int) =~= b@.drop_first());
        }
        r
    }
}

/// Decides byte-string equality through the order.
pub fn bytes_eq_exec(a: &[u8], b: &[u8]) -> (r: bool)
    ensures
        r == (a@ == b@),
{
    proof {
        lemma_bytes_lt_trichotomy(a@, b@);
    }
    !bytes_lt_exec(a, b) && !bytes_lt_exec(b, a)
}

// ------------------------------------------------------------------
// Proposal store
// ------------------------------------------------------------------

/// One stored proposal under its id.
#[derive(Debug)]
pub struct ProposalEntry {
    pub id: u64,
    pub proposal: Proposal,
}

/// Entries strictly ascending by id.
pub open spec fn proposals_sorted(s: Seq<ProposalEntry>) -> bool {
    forall|i: int, j: int| 0 <= i < j < s.len() ==> s[i].id < s[j].id
}

/// Proposals keyed by id, scanned in ascending id order.
#[derive(Debug)]
pub struct ProposalStore {
    entries: Vec<ProposalEntry>,
}

impl View for ProposalStore {
    type V = Seq<ProposalEntry>;

    closed spec fn view(&self) -> Seq<ProposalEntry> {
        self.entries@
    }
}

impl ProposalStore {
    /// Entries are strictly sorted by id.
    pub open spec fn wf(self) -> bool {
        proposals_sorted(self@)
    }

    /// Some entry holds `id`.
    pub open spec fn contains_id(self, id: u64) -> bool {
        exists|i: int| 0 <= i < self@.len() && self@[i].id == id
    }

    /// The position of `id` among the entries.
    pub open spec fn index_of(self, id: u64) -> int {
        choose|i: int| 0 <= i < self@.len() && self@[i].id == id
    }

    /// The proposal stored under `id`.
    pub open spec fn spec_get(self, id: u64) -> Proposal {
        self@[self.index_of(id)].proposal
    }

    /// In a sorted store an id occurs at most once, so the entry at `i` is
    /// the one every id-based spec function speaks of.
    pub proof fn lemma_entry_at(self, i: int)
        requires
            self.wf(),
            0 <= i < self@.len(),
        ensures
            self.contains_id(self@[i].id),
            self.index_of(self@[i].id) == i,
            self.spec_get(self@[i].id) == self@[i].proposal,
    {
        let x = self@[i].id;
        assert forall|j: int| 0 <= j < self@.len() && self@[j].id == x implies j == i by {
            if j < i {
                assert(self@[j].id < self@[i].id);
            } else if j > i {
                assert(self@[i].id < self@[j].id);
            }
        }
    }

    /// An empty store.
    pub fn new() -> (r: ProposalStore)
        ensures
            r@ =~= Seq::<ProposalEntry>::empty(),
            r.wf(),
    {
        ProposalStore { entries: Vec::new() }
    }

    /// Number of stored proposals.
    pub fn len(&self) -> (n: usize)
        ensures
            n == self@.len(),
    {
        self.entries.len()
    }

    /// The entry at position `i` of the ascending scan.
    pub fn entry_at(&self, i: usize) -> (e: &ProposalEntry)
        requires
            i < self@.len(),
        ensures
            *e == self@[i as int],
    {
        &self.entries[i]
    }

    /// First position whose id is not below `id`.
    fn lower_bound(&self, id: u64) -> (i: usize)
        requires
            self.wf(),
        ensures
            i <= self@.len(),
            forall|j: int| 0 <= j < i ==> self@[j].id < id,
            i < self@.len() ==> self@[i as int].id >= id,
    {
        let mut i: usize = 0;
        while i < self.entries.len()
            invariant
                i <= self@.len(),
                forall|j: int| 0 <= j < i ==> self@[j].id < id,
            decreases self@.len() - i,
        {
            if self.entries[i].id >= id {
                return i;
            }
            i = i + 1;
        }
        i
    }

    /// Point lookup of the position of `id`.
    pub fn find_index(&self, id: u64) -> (r: Option<usize>)
        requires
            self.wf(),
        ensures
            match r {
                Option::Some(i) => i < self@.len() && self@[i as int].id == id
                    && self.contains_id(id) && self.index_of(id) == i,
                Option::None => !self.contains_id(id),
            },
    {
        let i = self.lower_bound(id);
        if i < self.entries.len() && self.entries[i].id == id {
            proof {
                self.lemma_entry_at(i as int);
            }
            Some(i)
        } else {
            proof {
                if self.contains_id(id) {
                    let j = choose|j: int| 0 <= j < self@.len() && self@[j].id == id;
                    assert(j >= i);
                    if j > i {
                        assert(self@[i as int].id < self@[j].id);
                    }
                }
            }
            None
        }
    }

    /// Point lookup of the proposal stored under `id`.
    pub fn may_load(&self, id: u64) -> (r: Option<&Proposal>)
        requires
            self.wf(),
        ensures
            match r {
                Option::Some(p) => self.contains_id(id) && *p == self.spec_get(id),
                Option::None => !self.contains_id(id),
            },
    {
        match self.find_index(id) {
            Some(i) => Some(&self.entries[i].proposal),
            None => None,
        }
    }

    /// Stores `proposal` under `id`, replacing any previous proposal with
    /// that id and leaving every other entry as it was.
    #[verifier::rlimit(100)]
    pub fn save(&mut self, id: u64, proposal: Proposal)
        requires
            old(self).wf(),
        ensures
            final(self).wf(),
            final(self).contains_id(id),
            final(self).spec_get(id) == proposal,
            forall|x: u64| x != id
                ==> final(self).contains_id(x) == old(self).contains_id(x),
            forall|x: u64| x != id && old(self).contains_id(x)
                ==> final(self).spec_get(x) == old(self).spec_get(x),
            final(self)@.len() == old(self)@.len()
                + (if old(self).contains_id(id) { 0int } else { 1int }),
    {
        let ghost s0 = self@;
        let i = self.lower_bound(id);
        let replace = i < self.entries.len() && self.entries[i].id == id;
        if replace {
            let _previous = self.entries.remove(i);
            self.entries.insert(i, ProposalEntry { id, proposal });
            proof {
                assert(self@ =~= s0.update(i as int, (ProposalEntry { id, proposal })));
            }
        } else {
            self.entries.insert(i, ProposalEntry { id, proposal });
            proof {
                if i < s0.len() {
                    assert(s0[i as int].id > id);
                }
            }
        }
        proof {
            let s1 = self@;
            let iw = i as int;
            if !replace && iw < s0.len() {
                // lower_bound stopped at a strictly larger id
                assert(s0[iw].id > id);
            }
            // strict order is kept around position `i`
            assert forall|a: int, b: int| 0 <= a < b < s1.len() implies s1[a].id < s1[b].id by {
                if replace {
                    assert(old(self).wf());
                } else {
                    if b == iw {
                        assert(s0[a].id < id);
                    } else if b > iw {
                        if a == iw || a < iw {
                            if b - 1 > iw {
                                assert(s0[iw].id < s0[b - 1].id);
                            }
                            if a < iw {
                                assert(s0[a].id < id);
                            }
                        }
                    }
                }
            }
            assert(final(self).wf());
            final(self).lemma_entry_at(iw);
            if replace {
                old(self).lemma_entry_at(iw);
            } else if old(self).contains_id(id) {
                // impossible: lower_bound would have stopped on it
                let j = old(self).index_of(id);
                if j < iw {
                    assert(s0[j].id < id);
                } else {
                    assert(iw < s0.len());
                    if j > iw {
                        assert(s0[iw].id < s0[j].id);
                    }
                }
                assert(false);
            }
            // every other id is stored exactly as before
            assert forall|x: u64| x != id implies final(self).contains_id(x)
                == old(self).contains_id(x) by {
                if old(self).contains_id(x) {
                    let j = old(self).index_of(x);
                    assert(0 <= j < s0.len() && s0[j].id == x);
                    if replace {
                        assert(s1[j].id == x);
                    } else if j < iw {
                        assert(s1[j].id == x);
                    } else {
                        assert(s1[j + 1].id == x);
                    }
                    assert(final(self).contains_id(x));
                }
                if final(self).contains_id(x) {
                    let j = final(self).index_of(x);
                    assert(0 <= j < s1.len() && s1[j].id == x);
                    if replace {
                        assert(s0[j].id == x);
                    } else if j < iw {
                        assert(s0[j].id == x);
                    } else {
                        assert(j != iw);
                        assert(s0[j - 1].id == x);
                    }
                    assert(old(self).contains_id(x));
                }
            }
            assert forall|x: u64| x != id && old(self).contains_id(x)
                implies final(self).spec_get(x) == old(self).spec_get(x) by {
                let j = old(self).index_of(x);
                old(self).lemma_entry_at(j);
                if replace || j < iw {
                    final(self).lemma_entry_at(j);
                } else {
                    final(self).lemma_entry_at(j + 1);
                }
            }
        }
    }
}

/// Entries with id at least `start`: what an inclusive-start ascending
/// scan visits, in scan order.
pub open spec fn proposals_from(s: Seq<ProposalEntry>, start: u64) -> Seq<ProposalEntry> {
    s.filter(|e: ProposalEntry| e.id >= start)
}

/// Scanning a concatenation scans both parts.
pub proof fn lemma_proposals_from_add(a: Seq<ProposalEntry>, b: Seq<ProposalEntry>, start: u64)
    ensures
        proposals_from(a + b, start) == proposals_from(a, start) + proposals_from(b, start),
    decreases b.len(),
{
    reveal(Seq::filter);
    if b.len() == 0 {
        assert(a + b =~= a);
        assert(proposals_from(b, start) =~= Seq::<ProposalEntry>::empty());
        assert(proposals_from(a, start) + proposals_from(b, start) =~= proposals_from(a, start));
    } else {
        lemma_proposals_from_add(a, b.drop_last(), start);
        let ab = a + b;
        assert(ab.drop_last() =~= a + b.drop_last());
        assert(ab.last() == b.last());
        if b.last().id >= start {
            assert(proposals_from(ab, start)
                == proposals_from(a + b.drop_last(), start).push(b.last()));
            assert(proposals_from(b, start)
                == proposals_from(b.drop_last(), start).push(b.last()));
            assert(proposals_from(a, start) + proposals_from(b.drop_last(), start).push(b.last())
                =~= (proposals_from(a, start) + proposals_from(b.drop_last(), start)).push(
                b.last(),
            ));
        } else {
            assert(proposals_from(ab, start) == proposals_from(a + b.drop_last(), start));
            assert(proposals_from(b, start) == proposals_from(b.drop_last(), start));
        }
    }
}

/// Scanning a single entry keeps or skips it.
pub proof fn lemma_proposals_from_singleton(e: ProposalEntry, start: u64)
    ensures
        proposals_from(seq![e], start) == (if e.id >= start {
            seq![e]
        } else {
            Seq::<ProposalEntry>::empty()
        }),
{
    reveal(Seq::filter);
    let s = seq![e];
    assert(s.drop_last() =~= Seq::<ProposalEntry>::empty());
    assert(proposals_from(s.drop_last(), start) =~= Seq::<ProposalEntry>::empty());
    if e.id >= start {
        assert(proposals_from(s, start) == proposals_from(s.drop_last(), start).push(e));
        assert(proposals_from(s.drop_last(), start).push(e) =~= seq![e]);
    }
}

impl ProposalStore {
    /// Replaces the tallies of the entry at `i`, leaving everything else —
    /// including the entry's id and all its other fields — unchanged.
    pub fn set_vote_tallies(&mut self, i: usize, for_votes: u128, against_votes: u128)
        requires
            old(self).wf(),
            i < old(self)@.len(),
        ensures
            final(self).wf(),
            final(self)@.len() == old(self)@.len(),
            final(self)@[i as int].id == old(self)@[i as int].id,
            forall|x: u64| final(self).contains_id(x) == old(self).contains_id(x),
            final(self).spec_get(old(self)@[i as int].id) == (Proposal {
                for_votes,
                against_votes,
                ..old(self)@[i as int].proposal
            }),
            forall|x: u64| x != old(self)@[i as int].id && old(self).contains_id(x)
                ==> final(self).spec_get(x) == old(self).spec_get(x),
    {
        let mut e = self.entries.remove(i);
        e.proposal.for_votes = for_votes;
        e.proposal.against_votes = against_votes;
        self.entries.insert(i, e);
        proof {
            self.lemma_same_ids_update(*old(self), i as int);
        }
    }

    /// Moves the status of the entry at `i` along the lifecycle machine,
    /// leaving everything else unchanged.
    pub fn set_status(&mut self, i: usize, status: crate::state::ProposalStatus)
        requires
            old(self).wf(),
            i < old(self)@.len(),
        ensures
            final(self).wf(),
            final(self)@.len() == old(self)@.len(),
            final(self)@[i as int].id == old(self)@[i as int].id,
            forall|x: u64| final(self).contains_id(x) == old(self).contains_id(x),
            final(self).spec_get(old(self)@[i as int].id) == (Proposal {
                status,
                ..old(self)@[i as int].proposal
            }),
            forall|x: u64| x != old(self)@[i as int].id && old(self).contains_id(x)
                ==> final(self).spec_get(x) == old(self).spec_get(x),
    {
        let mut e = self.entries.remove(i);
        e.proposal.status = status;
        self.entries.insert(i, e);
        proof {
            self.lemma_same_ids_update(*old(self), i as int);
        }
    }

    /// An entry replaced in place under its own id changes no id-keyed fact
    /// but the proposal stored at that id.
    proof fn lemma_same_ids_update(self, prev: ProposalStore, i: int)
        requires
            prev.wf(),
            0 <= i < prev@.len(),
            self@.len() == prev@.len(),
            self@[i].id == prev@[i].id,
            forall|j: int| 0 <= j < prev@.len() && j != i ==> self@[j] == prev@[j],
        ensures
            self.wf(),
            forall|x: u64| self.contains_id(x) == prev.contains_id(x),
            self.spec_get(self@[i].id) == self@[i].proposal,
            forall|x: u64| x != prev@[i].id && prev.contains_id(x)
                ==> self.spec_get(x) == prev.spec_get(x),
    {
        let s0 = prev@;
        let s1 = self@;
        assert forall|j: int| 0 <= j < s1.len() implies s1[j].id == s0[j].id by {}
        assert forall|a: int, b: int| 0 <= a < b < s1.len() implies s1[a].id < s1[b].id by {
            assert(s0[a].id < s0[b].id);
        }
        assert forall|x: u64| self.contains_id(x) == prev.contains_id(x) by {
            if prev.contains_id(x) {
                let j = prev.index_of(x);
                assert(s1[j].id == x);
            }
            if self.contains_id(x) {
                let j = self.index_of(x);
                assert(s0[j].id == x);
            }
        }
        self.lemma_entry_at(i);
        assert forall|x: u64| x != prev@[i].id && prev.contains_id(x)
            implies self.spec_get(x) == prev.spec_get(x) by {
            let j = prev.index_of(x);
            prev.lemma_entry_at(j);
            assert(j != i);
            self.lemma_entry_at(j);
        }
    }
}

// ------------------------------------------------------------------
// Vote store
// ------------------------------------------------------------------

/// One stored vote under (proposal id, voter address).
#[derive(Debug)]
pub struct VoteEntry {
    pub proposal_id: u64,
    pub voter: String,
    pub vote: ProposalVote,
}

/// The byte key a voter address scans under.
pub open spec fn voter_key(e: VoteEntry) -> Seq<u8> {
    encode_utf8(e.voter@)
}

/// Strict order on (proposal id, voter bytes): by id first, then by the
/// voter's byte key.
pub open spec fn vote_key_lt(p1: u64, b1: Seq<u8>, p2: u64, b2: Seq<u8>) -> bool {
    p1 < p2 || (p1 == p2 && bytes_lt(b1, b2))
}

/// Exactly one of `k1 < k2`, `k1 == k2`, `k2 < k1` holds for vote keys.
pub proof fn lemma_vote_key_trichotomy(p1: u64, b1: Seq<u8>, p2: u64, b2: Seq<u8>)
    ensures
        vote_key_lt(p1, b1, p2, b2) ==> !vote_key_lt(p2, b2, p1, b1) && !(p1 == p2 && b1 == b2),
        !vote_key_lt(p1, b1, p2, b2) && !vote_key_lt(p2, b2, p1, b1) ==> p1 == p2 && b1 == b2,
{
    lemma_bytes_lt_trichotomy(b1, b2);
}

/// The vote-key order is transitive.
pub proof fn lemma_vote_key_trans(
    p1: u64, b1: Seq<u8>,
    p2: u64, b2: Seq<u8>,
    p3: u64, b3: Seq<u8>,
)
    requires
        vote_key_lt(p1, b1, p2, b2),
        vote_key_lt(p2, b2, p3, b3),
    ensures
        vote_key_lt(p1, b1, p3, b3),
{
    if p1 == p2 && p2 == p3 {
        lemma_bytes_lt_trans(b1, b2, b3);
    }
}

/// Entries strictly ascending by (proposal id, voter bytes).
pub open spec fn votes_sorted(s: Seq<VoteEntry>) -> bool {
    forall|i: int, j: int| 0 <= i < j < s.len()
        ==> vote_key_lt(s[i].proposal_id, voter_key(s[i]), s[j].proposal_id, voter_key(s[j]))
}

/// Whether a votes scan of `pid`, starting exclusively after the voter key
/// `after` when one is given, visits this entry.
pub open spec fn votes_page_cond(e: VoteEntry, pid: u64, after: Option<Seq<u8>>) -> bool {
    e.proposal_id == pid && (match after {
        Option::Some(b) => bytes_lt(b, voter_key(e)),
        Option::None => true,
    })
}

/// The entries such a scan visits, in scan order.
pub open spec fn votes_page(s: Seq<VoteEntry>, pid: u64, after: Option<Seq<u8>>) -> Seq<
    VoteEntry,
> {
    s.filter(|e: VoteEntry| votes_page_cond(e, pid, after))
}

/// Scanning a concatenation scans both parts.
pub proof fn lemma_votes_page_add(
    a: Seq<VoteEntry>,
    b: Seq<VoteEntry>,
    pid: u64,
    after: Option<Seq<u8>>,
)
    ensures
        votes_page(a + b, pid, after) == votes_page(a, pid, after) + votes_page(b, pid, after),
    decreases b.len(),
{
    reveal(Seq::filter);
    if b.len() == 0 {
        assert(a + b =~= a);
        assert(votes_page(b, pid, after) =~= Seq::<VoteEntry>::empty());
        assert(votes_page(a, pid, after) + votes_page(b, pid, after)
            =~= votes_page(a, pid, after));
    } else {
        lemma_votes_page_add(a, b.drop_last(), pid, after);
        let ab = a + b;
        assert(ab.drop_last() =~= a + b.drop_last());
        assert(ab.last() == b.last());
        if votes_page_cond(b.last(), pid, after) {
            assert(votes_page(ab, pid, after)
                == votes_page(a + b.drop_last(), pid, after).push(b.last()));
            assert(votes_page(b, pid, after)
                == votes_page(b.drop_last(), pid, after).push(b.last()));
            assert(votes_page(a, pid, after)
                + votes_page(b.drop_last(), pid, after).push(b.last())
                =~= (votes_page(a, pid, after) + votes_page(b.drop_last(), pid, after)).push(
                b.last(),
            ));
        } else {
            assert(votes_page(ab, pid, after) == votes_page(a + b.drop_last(), pid, after));
            assert(votes_page(b, pid, after) == votes_page(b.drop_last(), pid, after));
        }
    }
}

/// Scanning a single entry keeps or skips it.
pub proof fn lemma_votes_page_singleton(e: VoteEntry, pid: u64, after: Option<Seq<u8>>)
    ensures
        votes_page(seq![e], pid, after) == (if votes_page_cond(e, pid, after) {
            seq![e]
        } else {
            Seq::<VoteEntry>::empty()
        }),
{
    reveal(Seq::filter);
    let s = seq![e];
    assert(s.drop_last() =~= Seq::<VoteEntry>::empty());
    assert(votes_page(s.drop_last(), pid, after) =~= Seq::<VoteEntry>::empty());
    if votes_page_cond(e, pid, after) {
        assert(votes_page(s, pid, after) == votes_page(s.drop_last(), pid, after).push(e));
        assert(votes_page(s.drop_last(), pid, after).push(e) =~= seq![e]);
    }
}

/// Votes keyed by (proposal id, voter address bytes), scanned per proposal
/// in ascending voter order.
#[derive(Debug)]
pub struct VoteStore {
    entries: Vec<VoteEntry>,
}

impl View for VoteStore {
    type V = Seq<VoteEntry>;

    closed spec fn view(&self) -> Seq<VoteEntry> {
        self.entries@
    }
}

impl VoteStore {
    /// Entries are strictly sorted by key.
    pub open spec fn wf(self) -> bool {
        votes_sorted(self@)
    }

    /// Some entry holds the key (`pid`, `vb`).
    pub open spec fn contains_vote(self, pid: u64, vb: Seq<u8>) -> bool {
        exists|i: int| 0 <= i < self@.len() && self@[i].proposal_id == pid
            && voter_key(self@[i]) == vb
    }

    /// The position of the key (`pid`, `vb`) among the entries.
    pub open spec fn index_of(self, pid: u64, vb: Seq<u8>) -> int {
        choose|i: int| 0 <= i < self@.len() && self@[i].proposal_id == pid
            && voter_key(self@[i]) == vb
    }

    /// The vote stored under (`pid`, `vb`).
    pub open spec fn spec_get(self, pid: u64, vb: Seq<u8>) -> ProposalVote {
        self@[self.index_of(pid, vb)].vote
    }

    /// In a sorted store a key occurs at most once, so the entry at `i` is
    /// the one every key-based spec function speaks of.
    pub proof fn lemma_entry_at(self, i: int)
        requires
            self.wf(),
            0 <= i < self@.len(),
        ensures
            self.contains_vote(self@[i].proposal_id, voter_key(self@[i])),
            self.index_of(self@[i].proposal_id, voter_key(self@[i])) == i,
            self.spec_get(self@[i].proposal_id, voter_key(self@[i])) == self@[i].vote,
    {
        let p = self@[i].proposal_id;
        let b = voter_key(self@[i]);
        assert forall|j: int|
            0 <= j < self@.len() && self@[j].proposal_id == p && voter_key(self@[j]) == b
            implies j == i by {
            lemma_vote_key_trichotomy(p, b, p, b);
            if j < i {
                assert(vote_key_lt(self@[j].proposal_id, voter_key(self@[j]),
                    self@[i].proposal_id, voter_key(self@[i])));
            } else if j > i {
                assert(vote_key_lt(self@[i].proposal_id, voter_key(self@[i]),
                    self@[j].proposal_id, voter_key(self@[j])));
            }
        }
    }

    /// An empty store.
    pub fn new() -> (r: VoteStore)
        ensures
            r@ =~= Seq::<VoteEntry>::empty(),
            r.wf(),
    {
        VoteStore { entries: Vec::new() }
    }

    /// Number of stored votes, over all proposals.
    pub fn len(&self) -> (n: usize)
        ensures
            n == self@.len(),
    {
        self.entries.len()
    }

    /// The entry at position `i` of the ascending scan.
    pub fn entry_at(&self, i: usize) -> (e: &VoteEntry)
        requires
            i < self@.len(),
        ensures
            *e == self@[i as int],
    {
        &self.entries[i]
    }

    /// First position whose key is not below (`pid`, the bytes of `voter`).
    fn lower_bound(&self, pid: u64, voter: &str) -> (i: usize)
        requires
            self.wf(),
        ensures
            i <= self@.len(),
            forall|j: int| 0 <= j < i
                ==> vote_key_lt(self@[j].proposal_id, voter_key(self@[j]), pid,
                    encode_utf8(voter@)),
            i < self@.len() ==> !vote_key_lt(self@[i as int].proposal_id,
                voter_key(self@[i as int]), pid, encode_utf8(voter@)),
    {
        let vb: &[u8] = voter.as_bytes();
        let mut i: usize = 0;
        while i < self.entries.len()
            invariant
                i <= self@.len(),
                vb@ == encode_utf8(voter@),
                forall|j: int| 0 <= j < i
                    ==> vote_key_lt(self@[j].proposal_id, voter_key(self@[j]), pid,
                        encode_utf8(voter@)),
            decreases self@.len() - i,
        {
            let e = &self.entries[i];
            let below = e.proposal_id < pid
                || (e.proposal_id == pid && bytes_lt_exec(e.voter.as_str().as_bytes(), vb));
            if !below {
                return i;
            }
            i = i + 1;
        }
        i
    }

    /// Point lookup of the vote stored under (`pid`, the bytes of `voter`).
    pub fn may_load(&self, pid: u64, voter: &str) -> (r: Option<ProposalVote>)
        requires
            self.wf(),
        ensures
            match r {
                Option::Some(v) => self.contains_vote(pid, encode_utf8(voter@))
                    && v == self.spec_get(pid, encode_utf8(voter@)),
                Option::None => !self.contains_vote(pid, encode_utf8(voter@)),
            },
    {
        let ghost vbg = encode_utf8(voter@);
        let i = self.lower_bound(pid, voter);
        if i < self.entries.len() {
            let e = &self.entries[i];
            if e.proposal_id == pid && bytes_eq_exec(e.voter.as_str().as_bytes(), voter.as_bytes()) {
                proof {
                    self.lemma_entry_at(i as int);
                }
                return Some(e.vote);
            }
        }
        proof {
            if self.contains_vote(pid, vbg) {
                let j = self.index_of(pid, vbg);
                lemma_vote_key_trichotomy(self@[j].proposal_id, voter_key(self@[j]), pid, vbg);
                assert(j >= i);
                assert(i < self@.len());
                if j > i {
                    assert(vote_key_lt(self@[i as int].proposal_id, voter_key(self@[i as int]),
                        self@[j].proposal_id, voter_key(self@[j])));
                }
                assert(false);
            }
        }
        None
    }

    /// Stores `vote` under (`proposal_id`, the bytes of `voter`), replacing
    /// any previous vote under that key and leaving every other entry as it
    /// was.
    #[verifier::rlimit(100)]
    pub fn save(&mut self, proposal_id: u64, voter: String, vote: ProposalVote)
        requires
            old(self).wf(),
        ensures
            final(self).wf(),
            final(self).contains_vote(proposal_id, encode_utf8(voter@)),
            final(self).spec_get(proposal_id, encode_utf8(voter@)) == vote,
            forall|x: u64, b: Seq<u8>| !(x == proposal_id && b == encode_utf8(voter@))
                ==> final(self).contains_vote(x, b) == old(self).contains_vote(x, b),
            forall|x: u64, b: Seq<u8>|
                !(x == proposal_id && b == encode_utf8(voter@)) && old(self).contains_vote(x, b)
                ==> final(self).spec_get(x, b) == old(self).spec_get(x, b),
            final(self)@.len() == old(self)@.len()
                + (if old(self).contains_vote(proposal_id, encode_utf8(voter@)) {
                    0int
                } else {
                    1int
                }),
    {
        let ghost s0 = self@;
        let ghost kb = encode_utf8(voter@);
        let i = self.lower_bound(proposal_id, voter.as_str());
        let replace = i < self.entries.len() && self.entries[i].proposal_id == proposal_id
            && bytes_eq_exec(self.entries[i].voter.as_str().as_bytes(), voter.as_str().as_bytes());
        let entry = VoteEntry { proposal_id, voter, vote };
        proof {
            assert(voter_key(entry) == kb);
        }
        if replace {
            let _previous = self.entries.remove(i);
            self.entries.insert(i, entry);
            proof {
                assert(self@ =~= s0.update(i as int, (VoteEntry {
                    proposal_id,
                    voter: self@[i as int].voter,
                    vote,
                })));
            }
        } else {
            self.entries.insert(i, entry);
        }
        proof {
            let s1 = self@;
            let iw = i as int;
            if !replace && iw < s0.len() {
                // lower_bound stopped at a strictly larger key
                lemma_vote_key_trichotomy(s0[iw].proposal_id, voter_key(s0[iw]), proposal_id, kb);
                assert(vote_key_lt(proposal_id, kb, s0[iw].proposal_id, voter_key(s0[iw])));
            }
            // strict order is kept around position `i`
            assert forall|a: int, b: int| 0 <= a < b < s1.len()
                implies vote_key_lt(s1[a].proposal_id, voter_key(s1[a]), s1[b].proposal_id,
                    voter_key(s1[b])) by {
                if replace {
                    assert(old(self).wf());
                    assert(voter_key(s1[iw]) == voter_key(s0[iw]));
                    assert(vote_key_lt(s0[a].proposal_id, voter_key(s0[a]), s0[b].proposal_id,
                        voter_key(s0[b])));
                } else {
                    if b == iw {
                        assert(vote_key_lt(s0[a].proposal_id, voter_key(s0[a]), proposal_id, kb));
                    } else if b > iw {
                        if a == iw {
                            if b - 1 > iw {
                                lemma_vote_key_trans(proposal_id, kb, s0[iw].proposal_id,
                                    voter_key(s0[iw]), s0[b - 1].proposal_id,
                                    voter_key(s0[b - 1]));
                            }
                        } else if a < iw {
                            assert(vote_key_lt(s0[a].proposal_id, voter_key(s0[a]),
                                s0[b - 1].proposal_id, voter_key(s0[b - 1])));
                        }
                    }
                }
            }
            assert(final(self).wf());
            final(self).lemma_entry_at(iw);
            if replace {
                old(self).lemma_entry_at(iw);
                assert(voter_key(s0[iw]) == kb);
            } else if old(self).contains_vote(proposal_id, kb) {
                // impossible: lower_bound would have stopped on it
                let j = old(self).index_of(proposal_id, kb);
                lemma_vote_key_trichotomy(s0[j].proposal_id, voter_key(s0[j]), proposal_id, kb);
                if j < iw {
                    assert(vote_key_lt(s0[j].proposal_id, voter_key(s0[j]), proposal_id, kb));
                } else {
                    assert(iw < s0.len());
                    if j > iw {
                        assert(vote_key_lt(s0[iw].proposal_id, voter_key(s0[iw]),
                            s0[j].proposal_id, voter_key(s0[j])));
                        lemma_vote_key_trichotomy(s0[iw].proposal_id, voter_key(s0[iw]),
                            proposal_id, kb);
                    }
                }
                assert(false);
            }
            // every other key is stored exactly as before
            assert forall|x: u64, vb: Seq<u8>| !(x == proposal_id && vb == kb)
                implies final(self).contains_vote(x, vb) == old(self).contains_vote(x, vb) by {
                if old(self).contains_vote(x, vb) {
                    let j = old(self).index_of(x, vb);
                    assert(0 <= j < s0.len() && s0[j].proposal_id == x && voter_key(s0[j]) == vb);
                    if replace {
                        assert(voter_key(s1[j]) == voter_key(s0[j]));
                        assert(s1[j].proposal_id == x && voter_key(s1[j]) == vb);
                    } else if j < iw {
                        assert(s1[j].proposal_id == x && voter_key(s1[j]) == vb);
                    } else {
                        assert(s1[j + 1].proposal_id == x && voter_key(s1[j + 1]) == vb);
                    }
                    assert(final(self).contains_vote(x, vb));
                }
                if final(self).contains_vote(x, vb) {
                    let j = final(self).index_of(x, vb);
                    assert(0 <= j < s1.len() && s1[j].proposal_id == x && voter_key(s1[j]) == vb);
                    if replace {
                        assert(j != iw);
                        assert(s0[j].proposal_id == x && voter_key(s0[j]) == vb);
                    } else if j < iw {
                        assert(s0[j].proposal_id == x && voter_key(s0[j]) == vb);
                    } else {
                        assert(j != iw);
                        assert(s0[j - 1].proposal_id == x && voter_key(s0[j - 1]) == vb);
                    }
                    assert(old(self).contains_vote(x, vb));
                }
            }
            assert forall|x: u64, vb: Seq<u8>|
                !(x == proposal_id && vb == kb) && old(self).contains_vote(x, vb)
                implies final(self).spec_get(x, vb) == old(self).spec_get(x, vb) by {
                let j = old(self).index_of(x, vb);
                old(self).lemma_entry_at(j);
                if replace || j < iw {
                    final(self).lemma_entry_at(j);
                    if replace {
                        assert(j != iw);
                    }
                } else {
                    final(self).lemma_entry_at(j + 1);
                }
            }
        }
    }
}

} // verus!
