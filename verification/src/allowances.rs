//! Allowance bookkeeping of the governance token ledger: an owner grants a
//! spender a spending allowance, optionally bounded by an expiration, and
//! transfers on the owner's behalf deduct from it.
//!
//! Only the bookkeeping lives here: the record of (owner, spender)
//! allowances, the rules for raising, lowering and deducting them, and the
//! expiry check. Moving the token balances themselves is the ledger's
//! concern, outside this module.

use vstd::prelude::*;
use vstd::utf8::encode_utf8;

use crate::repository::{bytes_eq_exec, bytes_lt, bytes_lt_exec, lemma_bytes_lt_trans,
    lemma_bytes_lt_trichotomy};

verus! {

/// When an allowance stops being usable.
#[derive(Clone, Copy, Debug, PartialEq, Eq, Structural)]
pub enum Expiration {
    /// Expired once the chain reaches this block height.
    AtHeight(u64),
    /// Expired once the block time reaches this point.
    AtTime(u64),
    /// Never expires.
    Never,
}

impl Default for Expiration {
    /// An allowance with no stated bound never expires.
    fn default() -> (r: Expiration)
        ensures
            r is Never,
    {
        Expiration::Never
    }
}

/// The block against which expirations are judged.
#[derive(Clone, Copy, Debug, PartialEq, Eq, Structural)]
pub struct BlockInfo {
    pub height: u64,
    pub time: u64,
}

impl Expiration {
    /// Whether the bound has been reached at `block`.
    pub open spec fn spec_is_expired(self, block: BlockInfo) -> bool {
        match self {
            Expiration::AtHeight(h) => block.height >= h,
            Expiration::AtTime(t) => block.time >= t,
            Expiration::Never => false,
        }
    }

    /// Decides [`Self::spec_is_expired`].
    pub fn is_expired(&self, block: &BlockInfo) -> (r: bool)
        ensures
            r == self.spec_is_expired(*block),
    {
        match self {
            Expiration::AtHeight(h) => block.height >= *h,
            Expiration::AtTime(t) => block.time >= *t,
            Expiration::Never => false,
        }
    }
}

/// One granted allowance: the amount still spendable and its expiration.
#[derive(Clone, Copy, Debug, PartialEq, Eq, Structural)]
pub struct AllowanceResponse {
    pub allowance: u128,
    pub expires: Expiration,
}

impl Default for AllowanceResponse {
    /// No grant: nothing spendable, no bound.
    fn default() -> (r: AllowanceResponse)
        ensures
            r.allowance == 0,
            r.expires is Never,
    {
        AllowanceResponse { allowance: 0, expires: Expiration::Never }
    }
}

/// Everything that can go wrong while updating allowances.
#[derive(Clone, Copy, Debug, PartialEq, Eq, Structural)]
pub enum AllowanceError {
    /// An account cannot grant itself an allowance.
    CannotSetToOwnAccount,
    /// Lowering an allowance that was never granted.
    NoAllowanceGranted,
    /// Spending from an allowance whose bound has been reached.
    Expired,
    /// Spending more than the allowance holds.
    Underflow,
    /// Raising an allowance past the integer range.
    Overflow,
}

/// One stored allowance under (owner, spender).
#[derive(Debug)]
pub struct AllowanceEntry {
    pub owner: String,
    pub spender: String,
    pub allowance: AllowanceResponse,
}

/// The byte key of the owner address.
pub open spec fn owner_key(e: AllowanceEntry) -> Seq<u8> {
    encode_utf8(e.owner@)
}

/// The byte key of the spender address.
pub open spec fn spender_key(e: AllowanceEntry) -> Seq<u8> {
    encode_utf8(e.spender@)
}

/// Strict order on (owner bytes, spender bytes).
pub open spec fn allowance_key_lt(o1: Seq<u8>, s1: Seq<u8>, o2: Seq<u8>, s2: Seq<u8>) -> bool {
    bytes_lt(o1, o2) || (o1 == o2 && bytes_lt(s1, s2))
}

/// Exactly one of `k1 < k2`, `k1 == k2`, `k2 < k1` holds.
pub proof fn lemma_allowance_key_trichotomy(o1: Seq<u8>, s1: Seq<u8>, o2: Seq<u8>, s2: Seq<u8>)
    ensures
        allowance_key_lt(o1, s1, o2, s2) ==> !allowance_key_lt(o2, s2, o1, s1)
            && !(o1 == o2 && s1 == s2),
        !allowance_key_lt(o1, s1, o2, s2) && !allowance_key_lt(o2, s2, o1, s1)
            ==> o1 == o2 && s1 == s2,
{
    lemma_bytes_lt_trichotomy(o1, o2);
    lemma_bytes_lt_trichotomy(s1, s2);
}

/// The key order is transitive.
pub proof fn lemma_allowance_key_trans(
    o1: Seq<u8>, s1: Seq<u8>,
    o2: Seq<u8>, s2: Seq<u8>,
    o3: Seq<u8>, s3: Seq<u8>,
)
    requires
        allowance_key_lt(o1, s1, o2, s2),
        allowance_key_lt(o2, s2, o3, s3),
    ensures
        allowance_key_lt(o1, s1, o3, s3),
{
    if o1 == o2 && o2 == o3 {
        lemma_bytes_lt_trichotomy(o1, o2);
        lemma_bytes_lt_trichotomy(o2, o3);
        lemma_bytes_lt_trans(s1, s2, s3);
    } else if bytes_lt(o1, o2) && bytes_lt(o2, o3) {
        lemma_bytes_lt_trans(o1, o2, o3);
    }
}

/// Entries strictly ascending by (owner bytes, spender bytes).
pub open spec fn allowances_sorted(s: Seq<AllowanceEntry>) -> bool {
    forall|i: int, j: int| 0 <= i < j < s.len()
        ==> allowance_key_lt(owner_key(s[i]), spender_key(s[i]), owner_key(s[j]),
            spender_key(s[j]))
}

/// Allowances keyed by (owner address bytes, spender address bytes).
#[derive(Debug)]
pub struct AllowanceStore {
    entries: Vec<AllowanceEntry>,
}

impl View for AllowanceStore {
    type V = Seq<AllowanceEntry>;

    closed spec fn view(&self) -> Seq<AllowanceEntry> {
        self.entries@
    }
}

impl AllowanceStore {
    /// Entries are strictly sorted by key.
    pub open spec fn wf(self) -> bool {
        allowances_sorted(self@)
    }

    /// Some entry holds the key (`ob`, `sb`).
    pub open spec fn contains_allowance(self, ob: Seq<u8>, sb: Seq<u8>) -> bool {
        exists|i: int| 0 <= i < self@.len() && owner_key(self@[i]) == ob
            && spender_key(self@[i]) == sb
    }

    /// The position of the key (`ob`, `sb`) among the entries.
    pub open spec fn index_of(self, ob: Seq<u8>, sb: Seq<u8>) -> int {
        choose|i: int| 0 <= i < self@.len() && owner_key(self@[i]) == ob
            && spender_key(self@[i]) == sb
    }

    /// The allowance stored under (`ob`, `sb`).
    pub open spec fn spec_get(self, ob: Seq<u8>, sb: Seq<u8>) -> AllowanceResponse {
        self@[self.index_of(ob, sb)].allowance
    }

    /// In a sorted store a key occurs at most once, so the entry at `i` is
    /// the one every key-based spec function speaks of.
    pub proof fn lemma_entry_at(self, i: int)
        requires
            self.wf(),
            0 <= i < self@.len(),
        ensures
            self.contains_allowance(owner_key(self@[i]), spender_key(self@[i])),
            self.index_of(owner_key(self@[i]), spender_key(self@[i])) == i,
            self.spec_get(owner_key(self@[i]), spender_key(self@[i])) == self@[i].allowance,
    {
        let ob = owner_key(self@[i]);
        let sb = spender_key(self@[i]);
        assert forall|j: int|
            0 <= j < self@.len() && owner_key(self@[j]) == ob && spender_key(self@[j]) == sb
            implies j == i by {
            lemma_allowance_key_trichotomy(ob, sb, ob, sb);
            if j < i {
                assert(allowance_key_lt(owner_key(self@[j]), spender_key(self@[j]),
                    owner_key(self@[i]), spender_key(self@[i])));
            } else if j > i {
                assert(allowance_key_lt(owner_key(self@[i]), spender_key(self@[i]),
                    owner_key(self@[j]), spender_key(self@[j])));
            }
        }
    }

    /// An empty store.
    pub fn new() -> (r: AllowanceStore)
        ensures
            r@ =~= Seq::<AllowanceEntry>::empty(),
            r.wf(),
    {
        AllowanceStore { entries: Vec::new() }
    }

    /// First position whose key is not below (`owner`, `spender`) bytes.
    fn lower_bound(&self, owner: &str, spender: &str) -> (i: usize)
        requires
            self.wf(),
        ensures
            i <= self@.len(),
            forall|j: int| 0 <= j < i
                ==> allowance_key_lt(owner_key(self@[j]), spender_key(self@[j]),
                    encode_utf8(owner@), encode_utf8(spender@)),
            i < self@.len() ==> !allowance_key_lt(owner_key(self@[i as int]),
                spender_key(self@[i as int]), encode_utf8(owner@), encode_utf8(spender@)),
    {
        let ob: &[u8] = owner.as_bytes();
        let sb: &[u8] = spender.as_bytes();
        let mut i: usize = 0;
        while i < self.entries.len()
            invariant
                i <= self@.len(),
                ob@ == encode_utf8(owner@),
                sb@ == encode_utf8(spender@),
                forall|j: int| 0 <= j < i
                    ==> allowance_key_lt(owner_key(self@[j]), spender_key(self@[j]),
                        encode_utf8(owner@), encode_utf8(spender@)),
            decreases self@.len() - i,
        {
            let e = &self.entries[i];
            let e_owner: &[u8] = e.owner.as_str().as_bytes();
            let e_spender: &[u8] = e.spender.as_str().as_bytes();
            let below = bytes_lt_exec(e_owner, ob)
                || (bytes_eq_exec(e_owner, ob) && bytes_lt_exec(e_spender, sb));
            if !below {
                return i;
            }
            i = i + 1;
        }
        i
    }

    /// Point lookup of the allowance granted by `owner` to `spender`.
    pub fn may_load(&self, owner: &str, spender: &str) -> (r: Option<AllowanceResponse>)
        requires
            self.wf(),
        ensures
            match r {
                Option::Some(a) => self.contains_allowance(encode_utf8(owner@),
                    encode_utf8(spender@)) && a == self.spec_get(encode_utf8(owner@),
                    encode_utf8(spender@)),
                Option::None => !self.contains_allowance(encode_utf8(owner@),
                    encode_utf8(spender@)),
            },
    {
        let ghost ob = encode_utf8(owner@);
        let ghost sb = encode_utf8(spender@);
        let i = self.lower_bound(owner, spender);
        if i < self.entries.len() {
            let e = &self.entries[i];
            if bytes_eq_exec(e.owner.as_str().as_bytes(), owner.as_bytes())
                && bytes_eq_exec(e.spender.as_str().as_bytes(), spender.as_bytes()) {
                proof {
                    self.lemma_entry_at(i as int);
                }
                return Some(e.allowance);
            }
        }
        proof {
            if self.contains_allowance(ob, sb) {
                let j = self.index_of(ob, sb);
                lemma_allowance_key_trichotomy(owner_key(self@[j]), spender_key(self@[j]), ob,
                    sb);
                assert(j >= i);
                assert(i < self@.len());
                if j > i {
                    assert(allowance_key_lt(owner_key(self@[i as int]),
                        spender_key(self@[i as int]), owner_key(self@[j]),
                        spender_key(self@[j])));
                    lemma_allowance_key_trichotomy(owner_key(self@[i as int]),
                        spender_key(self@[i as int]), ob, sb);
                }
                assert(false);
            }
        }
        None
    }

    /// Stores `allowance` under (`owner`, `spender`) bytes, replacing any
    /// previous grant under that key and leaving every other entry as it
    /// was.
    #[verifier::rlimit(100)]
    pub fn save(&mut self, owner: String, spender: String, allowance: AllowanceResponse)
        requires
            old(self).wf(),
        ensures
            final(self).wf(),
            final(self).contains_allowance(encode_utf8(owner@), encode_utf8(spender@)),
            final(self).spec_get(encode_utf8(owner@), encode_utf8(spender@)) == allowance,
            forall|o: Seq<u8>, s: Seq<u8>|
                !(o == encode_utf8(owner@) && s == encode_utf8(spender@))
                ==> final(self).contains_allowance(o, s) == old(self).contains_allowance(o, s),
            forall|o: Seq<u8>, s: Seq<u8>|
                !(o == encode_utf8(owner@) && s == encode_utf8(spender@))
                    && old(self).contains_allowance(o, s)
                ==> final(self).spec_get(o, s) == old(self).spec_get(o, s),
            final(self)@.len() == old(self)@.len()
                + (if old(self).contains_allowance(encode_utf8(owner@), encode_utf8(spender@)) {
                    0int
                } else {
                    1int
                }),
    {
        let ghost s0 = self@;
        let ghost kob = encode_utf8(owner@);
        let ghost ksb = encode_utf8(spender@);
        let i = self.lower_bound(owner.as_str(), spender.as_str());
        let replace = i < self.entries.len()
            && bytes_eq_exec(self.entries[i].owner.as_str().as_bytes(),
            owner.as_str().as_bytes())
            && bytes_eq_exec(self.entries[i].spender.as_str().as_bytes(),
            spender.as_str().as_bytes());
        let entry = AllowanceEntry { owner, spender, allowance };
        proof {
            assert(owner_key(entry) == kob && spender_key(entry) == ksb);
        }
        if replace {
            let _previous = self.entries.remove(i);
            self.entries.insert(i, entry);
            proof {
                assert(self@ =~= s0.update(i as int, self@[i as int]));
            }
        } else {
            self.entries.insert(i, entry);
        }
        proof {
            let s1 = self@;
            let iw = i as int;
            if !replace && iw < s0.len() {
                lemma_allowance_key_trichotomy(owner_key(s0[iw]), spender_key(s0[iw]), kob, ksb);
                assert(allowance_key_lt(kob, ksb, owner_key(s0[iw]), spender_key(s0[iw])));
            }
            assert forall|a: int, b: int| 0 <= a < b < s1.len()
                implies allowance_key_lt(owner_key(s1[a]), spender_key(s1[a]),
                    owner_key(s1[b]), spender_key(s1[b])) by {
                if replace {
                    assert(old(self).wf());
                    assert(owner_key(s1[iw]) == owner_key(s0[iw])
                        && spender_key(s1[iw]) == spender_key(s0[iw]));
                    assert(allowance_key_lt(owner_key(s0[a]), spender_key(s0[a]),
                        owner_key(s0[b]), spender_key(s0[b])));
                } else {
                    if b == iw {
                        assert(allowance_key_lt(owner_key(s0[a]), spender_key(s0[a]), kob,
                            ksb));
                    } else if b > iw {
                        if a == iw {
                            if b - 1 > iw {
                                lemma_allowance_key_trans(kob, ksb, owner_key(s0[iw]),
                                    spender_key(s0[iw]), owner_key(s0[b - 1]),
                                    spender_key(s0[b - 1]));
                            }
                        } else if a < iw {
                            assert(allowance_key_lt(owner_key(s0[a]), spender_key(s0[a]),
                                owner_key(s0[b - 1]), spender_key(s0[b - 1])));
                        }
                    }
                }
            }
            assert(final(self).wf());
            final(self).lemma_entry_at(iw);
            if replace {
                old(self).lemma_entry_at(iw);
                assert(owner_key(s0[iw]) == kob && spender_key(s0[iw]) == ksb);
            } else if old(self).contains_allowance(kob, ksb) {
                let j = old(self).index_of(kob, ksb);
                lemma_allowance_key_trichotomy(owner_key(s0[j]), spender_key(s0[j]), kob, ksb);
                if j < iw {
                    assert(allowance_key_lt(owner_key(s0[j]), spender_key(s0[j]), kob, ksb));
                } else {
                    assert(iw < s0.len());
                    if j > iw {
                        assert(allowance_key_lt(owner_key(s0[iw]), spender_key(s0[iw]),
                            owner_key(s0[j]), spender_key(s0[j])));
                        lemma_allowance_key_trichotomy(owner_key(s0[iw]), spender_key(s0[iw]),
                            kob, ksb);
                    }
                }
                assert(false);
            }
            assert forall|o: Seq<u8>, sp: Seq<u8>| !(o == kob && sp == ksb)
                implies final(self).contains_allowance(o, sp)
                    == old(self).contains_allowance(o, sp) by {
                if old(self).contains_allowance(o, sp) {
                    let j = old(self).index_of(o, sp);
                    if replace {
                        assert(owner_key(s1[j]) == o && spender_key(s1[j]) == sp);
                    } else if j < iw {
                        assert(owner_key(s1[j]) == o && spender_key(s1[j]) == sp);
                    } else {
                        assert(owner_key(s1[j + 1]) == o && spender_key(s1[j + 1]) == sp);
                    }
                    assert(final(self).contains_allowance(o, sp));
                }
                if final(self).contains_allowance(o, sp) {
                    let j = final(self).index_of(o, sp);
                    if replace {
                        assert(j != iw);
                        assert(owner_key(s0[j]) == o && spender_key(s0[j]) == sp);
                    } else if j < iw {
                        assert(owner_key(s0[j]) == o && spender_key(s0[j]) == sp);
                    } else {
                        assert(j != iw);
                        assert(owner_key(s0[j - 1]) == o && spender_key(s0[j - 1]) == sp);
                    }
                    assert(old(self).contains_allowance(o, sp));
                }
            }
            assert forall|o: Seq<u8>, sp: Seq<u8>|
                !(o == kob && sp == ksb) && old(self).contains_allowance(o, sp)
                implies final(self).spec_get(o, sp) == old(self).spec_get(o, sp) by {
                let j = old(self).index_of(o, sp);
                old(self).lemma_entry_at(j);
                if replace || j < iw {
                    final(self).lemma_entry_at(j);
                    if replace {
                        assert(j != iw);
                    }
                } else {
                    final(self).lemma_entry_at(j + 1);
                }
            }
        }
    }

    /// Deletes any grant under (`owner`, `spender`) bytes, leaving every
    /// other entry as it was.
    #[verifier::rlimit(100)]
    pub fn remove(&mut self, owner: &str, spender: &str)
        requires
            old(self).wf(),
        ensures
            final(self).wf(),
            !final(self).contains_allowance(encode_utf8(owner@), encode_utf8(spender@)),
            forall|o: Seq<u8>, s: Seq<u8>|
                !(o == encode_utf8(owner@) && s == encode_utf8(spender@))
                ==> final(self).contains_allowance(o, s) == old(self).contains_allowance(o, s),
            forall|o: Seq<u8>, s: Seq<u8>|
                !(o == encode_utf8(owner@) && s == encode_utf8(spender@))
                    && old(self).contains_allowance(o, s)
                ==> final(self).spec_get(o, s) == old(self).spec_get(o, s),
            final(self)@.len() == old(self)@.len()
                - (if old(self).contains_allowance(encode_utf8(owner@), encode_utf8(spender@)) {
                    1int
                } else {
                    0int
                }),
    {
        let ghost s0 = self@;
        let ghost kob = encode_utf8(owner@);
        let ghost ksb = encode_utf8(spender@);
        let i = self.lower_bound(owner, spender);
        let found = i < self.entries.len()
            && bytes_eq_exec(self.entries[i].owner.as_str().as_bytes(), owner.as_bytes())
            && bytes_eq_exec(self.entries[i].spender.as_str().as_bytes(), spender.as_bytes());
        if !found {
            proof {
                if old(self).contains_allowance(kob, ksb) {
                    let j = old(self).index_of(kob, ksb);
                    lemma_allowance_key_trichotomy(owner_key(s0[j]), spender_key(s0[j]), kob,
                        ksb);
                    if j < i as int {
                        assert(allowance_key_lt(owner_key(s0[j]), spender_key(s0[j]), kob,
                            ksb));
                    } else {
                        assert(i < self@.len());
                        if j > i as int {
                            assert(allowance_key_lt(owner_key(s0[i as int]),
                                spender_key(s0[i as int]), owner_key(s0[j]),
                                spender_key(s0[j])));
                            lemma_allowance_key_trichotomy(owner_key(s0[i as int]),
                                spender_key(s0[i as int]), kob, ksb);
                        }
                    }
                    assert(false);
                }
            }
            return;
        }
        let _removed = self.entries.remove(i);
        proof {
            let s1 = self@;
            let iw = i as int;
            old(self).lemma_entry_at(iw);
            assert(owner_key(s0[iw]) == kob && spender_key(s0[iw]) == ksb);
            assert forall|a: int, b: int| 0 <= a < b < s1.len()
                implies allowance_key_lt(owner_key(s1[a]), spender_key(s1[a]),
                    owner_key(s1[b]), spender_key(s1[b])) by {
                let a0 = if a < iw { a } else { a + 1 };
                let b0 = if b < iw { b } else { b + 1 };
                assert(s1[a] == s0[a0] && s1[b] == s0[b0]);
                assert(allowance_key_lt(owner_key(s0[a0]), spender_key(s0[a0]),
                    owner_key(s0[b0]), spender_key(s0[b0])));
            }
            assert(final(self).wf());
            if final(self).contains_allowance(kob, ksb) {
                let j = final(self).index_of(kob, ksb);
                let j0 = if j < iw { j } else { j + 1 };
                assert(s1[j] == s0[j0]);
                assert(j0 != iw);
                lemma_allowance_key_trichotomy(owner_key(s0[j0]), spender_key(s0[j0]), kob, ksb);
                if j0 < iw {
                    assert(allowance_key_lt(owner_key(s0[j0]), spender_key(s0[j0]),
                        owner_key(s0[iw]), spender_key(s0[iw])));
                } else {
                    assert(allowance_key_lt(owner_key(s0[iw]), spender_key(s0[iw]),
                        owner_key(s0[j0]), spender_key(s0[j0])));
                }
                assert(false);
            }
            assert forall|o: Seq<u8>, sp: Seq<u8>| !(o == kob && sp == ksb)
                implies final(self).contains_allowance(o, sp)
                    == old(self).contains_allowance(o, sp) by {
                if old(self).contains_allowance(o, sp) {
                    let j = old(self).index_of(o, sp);
                    assert(j != iw);
                    if j < iw {
                        assert(s1[j] == s0[j]);
                    } else {
                        assert(s1[j - 1] == s0[j]);
                    }
                    assert(final(self).contains_allowance(o, sp));
                }
                if final(self).contains_allowance(o, sp) {
                    let j = final(self).index_of(o, sp);
                    let j0 = if j < iw { j } else { j + 1 };
                    assert(s1[j] == s0[j0]);
                    assert(old(self).contains_allowance(o, sp));
                }
            }
            assert forall|o: Seq<u8>, sp: Seq<u8>|
                !(o == kob && sp == ksb) && old(self).contains_allowance(o, sp)
                implies final(self).spec_get(o, sp) == old(self).spec_get(o, sp) by {
                let j = old(self).index_of(o, sp);
                old(self).lemma_entry_at(j);
                assert(j != iw);
                if j < iw {
                    final(self).lemma_entry_at(j);
                } else {
                    final(self).lemma_entry_at(j - 1);
                }
            }
        }
    }
}

// ------------------------------------------------------------------
// Handlers
// ------------------------------------------------------------------

/// The allowance currently granted, or the empty default.
pub open spec fn spec_current_allowance(
    s: AllowanceStore,
    ob: Seq<u8>,
    sb: Seq<u8>,
) -> AllowanceResponse {
    if s.contains_allowance(ob, sb) {
        s.spec_get(ob, sb)
    } else {
        AllowanceResponse { allowance: 0, expires: Expiration::Never }
    }
}

/// Raises the allowance `owner` grants `spender` by `amount`, overriding
/// its expiration when a new one is given. An absent grant starts from the
/// empty default.
pub fn handle_increase_allowance(
    store: &mut AllowanceStore,
    owner: String,
    spender: String,
    amount: u128,
    expires: Option<Expiration>,
) -> (r: Result<(), AllowanceError>)
    requires
        old(store).wf(),
    ensures
        final(store).wf(),
        match r {
            Result::Ok(()) => {
                &&& encode_utf8(owner@) != encode_utf8(spender@)
                &&& spec_current_allowance(*old(store), encode_utf8(owner@),
                    encode_utf8(spender@)).allowance + amount <= u128::MAX
                &&& final(store).contains_allowance(encode_utf8(owner@), encode_utf8(spender@))
                &&& final(store).spec_get(encode_utf8(owner@), encode_utf8(spender@))
                    == (AllowanceResponse {
                    allowance: (spec_current_allowance(*old(store), encode_utf8(owner@),
                        encode_utf8(spender@)).allowance + amount) as u128,
                    expires: expires.unwrap_or(spec_current_allowance(*old(store),
                        encode_utf8(owner@), encode_utf8(spender@)).expires),
                })
                &&& forall|o: Seq<u8>, s: Seq<u8>|
                    !(o == encode_utf8(owner@) && s == encode_utf8(spender@))
                    ==> final(store).contains_allowance(o, s)
                        == old(store).contains_allowance(o, s)
                &&& forall|o: Seq<u8>, s: Seq<u8>|
                    !(o == encode_utf8(owner@) && s == encode_utf8(spender@))
                        && old(store).contains_allowance(o, s)
                    ==> final(store).spec_get(o, s) == old(store).spec_get(o, s)
            },
            Result::Err(e) => {
                &&& *final(store) == *old(store)
                &&& (if encode_utf8(owner@) == encode_utf8(spender@) {
                    e == AllowanceError::CannotSetToOwnAccount
                } else {
                    e == AllowanceError::Overflow
                        && spec_current_allowance(*old(store), encode_utf8(owner@),
                        encode_utf8(spender@)).allowance + amount > u128::MAX
                })
            },
        },
{
    if bytes_eq_exec(owner.as_str().as_bytes(), spender.as_str().as_bytes()) {
        return Err(AllowanceError::CannotSetToOwnAccount);
    }
    let mut val = match store.may_load(owner.as_str(), spender.as_str()) {
        Some(a) => a,
        None => AllowanceResponse { allowance: 0, expires: Expiration::Never },
    };
    if let Some(exp) = expires {
        val.expires = exp;
    }
    if val.allowance > u128::MAX - amount {
        return Err(AllowanceError::Overflow);
    }
    val.allowance = val.allowance + amount;
    store.save(owner, spender, val);
    Ok(())
}

/// Lowers the allowance `owner` grants `spender` by `amount`: partially if
/// the grant still has more than `amount` in it — overriding its
/// expiration when a new one is given — and by deleting the grant
/// entirely otherwise. Lowering an absent grant is an error.
pub fn handle_decrease_allowance(
    store: &mut AllowanceStore,
    owner: String,
    spender: String,
    amount: u128,
    expires: Option<Expiration>,
) -> (r: Result<(), AllowanceError>)
    requires
        old(store).wf(),
    ensures
        final(store).wf(),
        match r {
            Result::Ok(()) => {
                &&& encode_utf8(owner@) != encode_utf8(spender@)
                &&& old(store).contains_allowance(encode_utf8(owner@), encode_utf8(spender@))
                &&& (if amount < old(store).spec_get(encode_utf8(owner@),
                    encode_utf8(spender@)).allowance {
                    final(store).contains_allowance(encode_utf8(owner@), encode_utf8(spender@))
                        && final(store).spec_get(encode_utf8(owner@), encode_utf8(spender@))
                        == (AllowanceResponse {
                        allowance: (old(store).spec_get(encode_utf8(owner@),
                            encode_utf8(spender@)).allowance - amount) as u128,
                        expires: expires.unwrap_or(old(store).spec_get(encode_utf8(owner@),
                            encode_utf8(spender@)).expires),
                    })
                } else {
                    !final(store).contains_allowance(encode_utf8(owner@), encode_utf8(spender@))
                })
                &&& forall|o: Seq<u8>, s: Seq<u8>|
                    !(o == encode_utf8(owner@) && s == encode_utf8(spender@))
                    ==> final(store).contains_allowance(o, s)
                        == old(store).contains_allowance(o, s)
                &&& forall|o: Seq<u8>, s: Seq<u8>|
                    !(o == encode_utf8(owner@) && s == encode_utf8(spender@))
                        && old(store).contains_allowance(o, s)
                    ==> final(store).spec_get(o, s) == old(store).spec_get(o, s)
            },
            Result::Err(e) => {
                &&& *final(store) == *old(store)
                &&& (if encode_utf8(owner@) == encode_utf8(spender@) {
                    e == AllowanceError::CannotSetToOwnAccount
                } else {
                    e == AllowanceError::NoAllowanceGranted
                        && !old(store).contains_allowance(encode_utf8(owner@),
                        encode_utf8(spender@))
                })
            },
        },
{
    if bytes_eq_exec(owner.as_str().as_bytes(), spender.as_str().as_bytes()) {
        return Err(AllowanceError::CannotSetToOwnAccount);
    }
    let mut allowance = match store.may_load(owner.as_str(), spender.as_str()) {
        Some(a) => a,
        None => {
            return Err(AllowanceError::NoAllowanceGranted);
        },
    };
    if amount < allowance.allowance {
        allowance.allowance = allowance.allowance - amount;
        if let Some(exp) = expires {
            allowance.expires = exp;
        }
        store.save(owner, spender, allowance);
    } else {
        store.remove(owner.as_str(), spender.as_str());
    }
    Ok(())
}

/// Spends `amount` from the allowance `owner` granted `spender`, at
/// `block`: the grant must exist, must not have expired, and must hold at
/// least `amount`. Returns the grant as it remains.
pub fn deduct_allowance(
    store: &mut AllowanceStore,
    owner: &str,
    spender: &str,
    block: &BlockInfo,
    amount: u128,
) -> (r: Result<AllowanceResponse, AllowanceError>)
    requires
        old(store).wf(),
    ensures
        final(store).wf(),
        match r {
            Result::Ok(a) => {
                &&& old(store).contains_allowance(encode_utf8(owner@), encode_utf8(spender@))
                &&& !old(store).spec_get(encode_utf8(owner@),
                    encode_utf8(spender@)).expires.spec_is_expired(*block)
                &&& amount <= old(store).spec_get(encode_utf8(owner@),
                    encode_utf8(spender@)).allowance
                &&& a == (AllowanceResponse {
                    allowance: (old(store).spec_get(encode_utf8(owner@),
                        encode_utf8(spender@)).allowance - amount) as u128,
                    expires: old(store).spec_get(encode_utf8(owner@),
                        encode_utf8(spender@)).expires,
                })
                &&& final(store).contains_allowance(encode_utf8(owner@), encode_utf8(spender@))
                &&& final(store).spec_get(encode_utf8(owner@), encode_utf8(spender@)) == a
                &&& forall|o: Seq<u8>, s: Seq<u8>|
                    !(o == encode_utf8(owner@) && s == encode_utf8(spender@))
                    ==> final(store).contains_allowance(o, s)
                        == old(store).contains_allowance(o, s)
                &&& forall|o: Seq<u8>, s: Seq<u8>|
                    !(o == encode_utf8(owner@) && s == encode_utf8(spender@))
                        && old(store).contains_allowance(o, s)
                    ==> final(store).spec_get(o, s) == old(store).spec_get(o, s)
            },
            Result::Err(e) => {
                &&& *final(store) == *old(store)
                &&& (if !old(store).contains_allowance(encode_utf8(owner@),
                    encode_utf8(spender@)) {
                    e == AllowanceError::NoAllowanceGranted
                } else if old(store).spec_get(encode_utf8(owner@),
                    encode_utf8(spender@)).expires.spec_is_expired(*block) {
                    e == AllowanceError::Expired
                } else {
                    e == AllowanceError::Underflow
                        && amount > old(store).spec_get(encode_utf8(owner@),
                        encode_utf8(spender@)).allowance
                })
            },
        },
{
    let mut a = match store.may_load(owner, spender) {
        Some(a) => a,
        None => {
            return Err(AllowanceError::NoAllowanceGranted);
        },
    };
    if a.expires.is_expired(block) {
        return Err(AllowanceError::Expired);
    }
    if amount > a.allowance {
        return Err(AllowanceError::Underflow);
    }
    a.allowance = a.allowance - amount;
    store.save(owner.to_owned(), spender.to_owned(), a);
    Ok(a)
}

/// Reports the allowance `owner` grants `spender`: the stored grant, or
/// the empty default when none exists.
pub fn query_allowance(store: &AllowanceStore, owner: &str, spender: &str) -> (r:
    AllowanceResponse)
    requires
        store.wf(),
    ensures
        r == spec_current_allowance(*store, encode_utf8(owner@), encode_utf8(spender@)),
{
    match store.may_load(owner, spender) {
        Some(a) => a,
        None => AllowanceResponse { allowance: 0, expires: Expiration::Never },
    }
}

} // verus!
