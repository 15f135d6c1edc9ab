//! The data model of the registry: wrap records, the entries the record
//! store keeps, per-user counters, and the specification functions that
//! describe what a sequence of entries holds.
//!
//! The record store is a sequence of (user, record) entries with at most one
//! entry per (user, period) key, plus a sequence of per-user counters. The
//! spec functions here read those sequences the way the executable lookups
//! do: front to back, first match wins; the lemmas relate that reading to
//! pushes and updates, which is all the registry's operations ever do.

use vstd::prelude::*;

verus! {

/// One issued wrap record. Immutable once created: the registry offers no
/// operation that updates or removes it.
pub struct WrapRecord {
    /// When the record was issued, by the host clock.
    pub timestamp: u64,
    /// Hash of the off-ledger content the record stands for; the registry
    /// never interprets it.
    pub data_hash: [u8; 32],
    /// Short classification tag.
    pub archetype: Vec<u8>,
    /// The period this record is issued for; together with the user it is
    /// the record's key.
    pub period: u64,
}

/// The mathematical value of a `WrapRecord`.
pub ghost struct RecordModel {
    pub timestamp: u64,
    pub data_hash: Seq<u8>,
    pub archetype: Seq<u8>,
    pub period: u64,
}

impl View for WrapRecord {
    type V = RecordModel;

    open spec fn view(&self) -> RecordModel {
        RecordModel {
            timestamp: self.timestamp,
            data_hash: self.data_hash@,
            archetype: self.archetype@,
            period: self.period,
        }
    }
}

impl Clone for WrapRecord {
    fn clone(&self) -> (r: Self)
        ensures
            r@ == self@,
    {
        WrapRecord {
            timestamp: self.timestamp,
            data_hash: self.data_hash,
            archetype: copy_bytes(&self.archetype),
            period: self.period,
        }
    }
}

/// One entry of the record store: a record keyed by (user, period).
pub struct WrapEntry {
    pub user: Vec<u8>,
    pub record: WrapRecord,
}

/// One per-user issuance counter.
pub struct CountEntry {
    pub user: Vec<u8>,
    pub count: u64,
}

/// How a mint request claims to be authorized.
pub enum MintAuth {
    /// The host's native authorization mechanism has authenticated
    /// `caller`; the request is authorized only when `caller` is the
    /// stored admin. Code around the library builds this variant only for
    /// an identity the host actually authenticated.
    Capability { caller: Vec<u8> },
    /// A detached Ed25519 signature by the admin over the canonical payload
    /// of the request; anyone may submit it.
    Signature { signature: [u8; 64] },
}

/// The notification a successful mint emits: routing topics are the mint
/// tag, the user and the period; the payload is the archetype.
pub struct MintEvent {
    pub user: Vec<u8>,
    pub period: u64,
    pub archetype: Vec<u8>,
}

/// A verified copy of a byte vector.
pub fn copy_bytes(b: &Vec<u8>) -> (r: Vec<u8>)
    ensures
        r@ == b@,
{
    let mut r: Vec<u8> = Vec::new();
    let mut i: usize = 0;
    while i < b.len()
        invariant
            i <= b.len(),
            r@ == b@.subrange(0, i as int),
        decreases b.len() - i,
    {
        r.push(b[i]);
        assert(r@ =~= b@.subrange(0, i + 1));
        i = i + 1;
    }
    assert(r@ =~= b@);
    r
}

/// Whether bytes `a` and `b` are equal.
pub fn bytes_eq(a: &Vec<u8>, b: &Vec<u8>) -> (r: bool)
    ensures
        r == (a@ == b@),
{
    if a.len() != b.len() {
        return false;
    }
    let mut i: usize = 0;
    while i < a.len()
        invariant
            i <= a.len(),
            a@.len() == b@.len(),
            forall|j: int| 0 <= j < i ==> a@[j] == b@[j],
        decreases a.len() - i,
    {
        if a[i] != b[i] {
            return false;
        }
        i = i + 1;
    }
    proof {
        assert(a@ =~= b@);
    }
    true
}

/// The record stored under (user, period), reading front to back, first
/// match first. With unique keys this is the only match.
pub open spec fn find_wrap(s: Seq<WrapEntry>, user: Seq<u8>, period: u64) -> Option<RecordModel>
    decreases s.len(),
{
    if s.len() == 0 {
        None
    } else if s[0].user@ == user && s[0].record.period == period {
        Some(s[0].record@)
    } else {
        find_wrap(s.subrange(1, s.len() as int), user, period)
    }
}

/// How many entries belong to `user`.
pub open spec fn count_matching(s: Seq<WrapEntry>, user: Seq<u8>) -> nat
    decreases s.len(),
{
    if s.len() == 0 {
        0
    } else {
        (if s[0].user@ == user {
            1nat
        } else {
            0nat
        }) + count_matching(s.subrange(1, s.len() as int), user)
    }
}

/// The stored counter of `user`, zero when absent, reading front to back.
pub open spec fn find_count(s: Seq<CountEntry>, user: Seq<u8>) -> u64
    decreases s.len(),
{
    if s.len() == 0 {
        0
    } else if s[0].user@ == user {
        s[0].count
    } else {
        find_count(s.subrange(1, s.len() as int), user)
    }
}

/// Whether some counter entry belongs to `user`.
pub open spec fn has_count(s: Seq<CountEntry>, user: Seq<u8>) -> bool {
    exists|j: int| 0 <= j < s.len() && s[j].user@ == user
}

/// At most one record-store entry per (user, period) key.
pub open spec fn unique_wrap_keys(s: Seq<WrapEntry>) -> bool {
    forall|i: int, j: int|
        #![trigger s[i], s[j]]
        0 <= i < j < s.len() ==> !(s[i].user@ == s[j].user@
            && s[i].record.period == s[j].record.period)
}

/// At most one counter entry per user.
pub open spec fn unique_count_users(s: Seq<CountEntry>) -> bool {
    forall|i: int, j: int| #![trigger s[i], s[j]] 0 <= i < j < s.len() ==> s[i].user@ != s[j].user@
}

/// A store holds a record under a key exactly when some entry matches it.
pub proof fn lemma_find_wrap_index(s: Seq<WrapEntry>, user: Seq<u8>, period: u64)
    ensures
        (find_wrap(s, user, period) is Some) <==> exists|i: int|
            0 <= i < s.len() && s[i].user@ == user && s[i].record.period == period,
    decreases s.len(),
{
    if s.len() == 0 {
    } else if s[0].user@ == user && s[0].record.period == period {
    } else {
        let t = s.subrange(1, s.len() as int);
        lemma_find_wrap_index(t, user, period);
        if find_wrap(s, user, period) is Some {
            let i = choose|i: int|
                0 <= i < t.len() && t[i].user@ == user && t[i].record.period == period;
            assert(s[i + 1].user@ == user && s[i + 1].record.period == period);
        }
        if exists|i: int| 0 <= i < s.len() && s[i].user@ == user && s[i].record.period == period {
            let i = choose|i: int|
                0 <= i < s.len() && s[i].user@ == user && s[i].record.period == period;
            assert(i != 0);
            assert(t[i - 1].user@ == user && t[i - 1].record.period == period);
        }
    }
}

/// The record found under a key is the one at the key's first matching
/// entry.
pub proof fn lemma_find_wrap_first(s: Seq<WrapEntry>, i: int, user: Seq<u8>, period: u64)
    requires
        0 <= i < s.len(),
        s[i].user@ == user,
        s[i].record.period == period,
        forall|j: int| 0 <= j < i ==> !(s[j].user@ == user && s[j].record.period == period),
    ensures
        find_wrap(s, user, period) == Some(s[i].record@),
    decreases s.len(),
{
    if i == 0 {
    } else {
        let t = s.subrange(1, s.len() as int);
        assert(forall|j: int| 0 <= j < i - 1 ==> t[j] == s[j + 1]);
        lemma_find_wrap_first(t, i - 1, user, period);
    }
}

/// Appending an entry leaves every present key as it was and adds exactly
/// the new entry's key when that key was absent.
pub proof fn lemma_find_wrap_push(s: Seq<WrapEntry>, e: WrapEntry, user: Seq<u8>, period: u64)
    ensures
        find_wrap(s.push(e), user, period) == (if find_wrap(s, user, period) is Some {
            find_wrap(s, user, period)
        } else if e.user@ == user && e.record.period == period {
            Some(e.record@)
        } else {
            None::<RecordModel>
        }),
    decreases s.len(),
{
    let p = s.push(e);
    if s.len() == 0 {
        assert(p[0] == e);
        assert(p.subrange(1, p.len() as int) =~= Seq::<WrapEntry>::empty());
        assert(find_wrap(Seq::<WrapEntry>::empty(), user, period) is None);
    } else {
        assert(p[0] == s[0]);
        assert(p.subrange(1, p.len() as int) =~= s.subrange(1, s.len() as int).push(e));
        lemma_find_wrap_push(s.subrange(1, s.len() as int), e, user, period);
    }
}

/// Appending an entry raises its user's entry count by one and no other's.
pub proof fn lemma_count_matching_push(s: Seq<WrapEntry>, e: WrapEntry, user: Seq<u8>)
    ensures
        count_matching(s.push(e), user) == count_matching(s, user) + (if e.user@ == user {
            1int
        } else {
            0int
        }),
    decreases s.len(),
{
    let p = s.push(e);
    if s.len() == 0 {
        assert(p[0] == e);
        assert(p.subrange(1, p.len() as int) =~= Seq::<WrapEntry>::empty());
        assert(count_matching(Seq::<WrapEntry>::empty(), user) == 0);
    } else {
        assert(p[0] == s[0]);
        assert(p.subrange(1, p.len() as int) =~= s.subrange(1, s.len() as int).push(e));
        lemma_count_matching_push(s.subrange(1, s.len() as int), e, user);
    }
}

/// The periods for which `user` holds a record.
pub open spec fn seq_periods(s: Seq<WrapEntry>, user: Seq<u8>) -> Set<u64> {
    Set::new(|p: u64| find_wrap(s, user, p) is Some)
}

/// With unique keys, a user's entry count is exactly the number of
/// distinct periods that user holds a record for.
pub proof fn lemma_count_matching_is_distinct_periods(s: Seq<WrapEntry>, user: Seq<u8>)
    requires
        unique_wrap_keys(s),
    ensures
        seq_periods(s, user).finite(),
        seq_periods(s, user).len() == count_matching(s, user),
    decreases s.len(),
{
    if s.len() == 0 {
        assert(seq_periods(s, user) =~= Set::<u64>::empty());
    } else {
        let t = s.subrange(1, s.len() as int);
        assert(forall|j: int| 0 <= j < t.len() ==> t[j] == s[j + 1]);
        assert(unique_wrap_keys(t));
        lemma_count_matching_is_distinct_periods(t, user);
        if s[0].user@ == user {
            let p0 = s[0].record.period;
            assert(!(find_wrap(t, user, p0) is Some)) by {
                lemma_find_wrap_index(t, user, p0);
                if exists|j: int| 0 <= j < t.len() && t[j].user@ == user && t[j].record.period
                    == p0 {
                    let j = choose|j: int|
                        0 <= j < t.len() && t[j].user@ == user && t[j].record.period == p0;
                    assert(s[j + 1].user@ == user && s[j + 1].record.period == p0);
                }
            }
            assert(seq_periods(s, user) =~= seq_periods(t, user).insert(p0));
            assert(seq_periods(s, user).len() == seq_periods(t, user).len() + 1);
        } else {
            assert(seq_periods(s, user) =~= seq_periods(t, user));
        }
    }
}

/// A user's entry count never exceeds the store's size.
pub proof fn lemma_count_matching_le_len(s: Seq<WrapEntry>, user: Seq<u8>)
    ensures
        count_matching(s, user) <= s.len(),
    decreases s.len(),
{
    if s.len() > 0 {
        lemma_count_matching_le_len(s.subrange(1, s.len() as int), user);
    }
}

/// The stored counter of the user whose first entry stands at `i`.
pub proof fn lemma_find_count_first(s: Seq<CountEntry>, i: int, user: Seq<u8>)
    requires
        0 <= i < s.len(),
        s[i].user@ == user,
        forall|j: int| 0 <= j < i ==> s[j].user@ != user,
    ensures
        find_count(s, user) == s[i].count,
    decreases s.len(),
{
    if i == 0 {
    } else {
        let t = s.subrange(1, s.len() as int);
        assert(forall|j: int| 0 <= j < i - 1 ==> t[j].user@ != user);
        lemma_find_count_first(t, i - 1, user);
    }
}

/// A user with no counter entry reads as zero.
pub proof fn lemma_find_count_absent(s: Seq<CountEntry>, user: Seq<u8>)
    requires
        !has_count(s, user),
    ensures
        find_count(s, user) == 0,
    decreases s.len(),
{
    if s.len() > 0 {
        let t = s.subrange(1, s.len() as int);
        assert(forall|j: int| 0 <= j < t.len() ==> t[j] == s[j + 1]);
        lemma_find_count_absent(t, user);
    }
}

/// Replacing the first entry of a user, keeping its user, changes that
/// user's reading to the new count and no other user's reading.
pub proof fn lemma_find_count_update(s: Seq<CountEntry>, i: int, e: CountEntry, user: Seq<u8>)
    requires
        0 <= i < s.len(),
        e.user@ == s[i].user@,
        forall|j: int| 0 <= j < i ==> s[j].user@ != e.user@,
    ensures
        find_count(s.update(i, e), user) == (if user == e.user@ {
            e.count
        } else {
            find_count(s, user)
        }),
    decreases s.len(),
{
    let p = s.update(i, e);
    if i == 0 {
        assert(p[0] == e);
        assert(p.subrange(1, p.len() as int) =~= s.subrange(1, s.len() as int));
    } else {
        assert(p[0] == s[0]);
        assert(p.subrange(1, p.len() as int) =~= s.subrange(1, s.len() as int).update(i - 1, e));
        let t = s.subrange(1, s.len() as int);
        assert(forall|j: int| 0 <= j < i - 1 ==> t[j].user@ != e.user@);
        lemma_find_count_update(t, i - 1, e, user);
        if s[0].user@ == user {
            assert(p[0].user@ == user);
        }
    }
}

/// Appending a counter entry for a new user changes that user's reading to
/// the new count and no other user's reading.
pub proof fn lemma_find_count_push(s: Seq<CountEntry>, e: CountEntry, user: Seq<u8>)
    requires
        !has_count(s, e.user@),
    ensures
        find_count(s.push(e), user) == (if user == e.user@ {
            e.count
        } else {
            find_count(s, user)
        }),
    decreases s.len(),
{
    let p = s.push(e);
    if s.len() == 0 {
        assert(p[0] == e);
        assert(p.subrange(1, p.len() as int) =~= Seq::<CountEntry>::empty());
        assert(find_count(Seq::<CountEntry>::empty(), user) == 0);
    } else {
        assert(p[0] == s[0]);
        assert(s[0].user@ != e.user@);
        assert(p.subrange(1, p.len() as int) =~= s.subrange(1, s.len() as int).push(e));
        let t = s.subrange(1, s.len() as int);
        assert(!has_count(t, e.user@)) by {
            if has_count(t, e.user@) {
                let j = choose|j: int| 0 <= j < t.len() && t[j].user@ == e.user@;
                assert(s[j + 1].user@ == e.user@);
            }
        }
        lemma_find_count_push(t, e, user);
    }
}

} // verus!
