//! A leaderboard of at most `capacity` records that evicts its lowest record
//! when a strictly higher score arrives at capacity.
use vstd::prelude::*;
use crate::entries::{
    AccountId, Entry, entries_view, unique_keys, upsert, remove_key, upsert_all, upsert_entry,
    remove_entry, copy_entries, entries_from,
};

verus! {

/// The position of the lowest score: among records that share it, the one
/// that stands first.
pub open spec fn min_index(s: Seq<Entry>) -> int
    decreases s.len(),
{
    if s.len() <= 1 {
        0
    } else {
        let i = min_index(s.drop_last());
        if s.last().1 < s[i].1 {
            s.len() - 1
        } else {
            i
        }
    }
}

/// The lowest score on a non-empty board.
pub open spec fn min_score(s: Seq<Entry>) -> u128 {
    s[min_index(s)].1
}

/// The board after `a` submits `v` with room for `cap` records: below
/// capacity the record is written; at capacity it replaces the lowest record
/// only when `v` is strictly higher.
pub open spec fn board_insert(s: Seq<Entry>, cap: nat, a: Seq<char>, v: u128) -> Seq<Entry> {
    if s.len() < cap {
        upsert(s, a, v)
    } else if s.len() > 0 && min_score(s) < v {
        upsert(s.remove(min_index(s)), a, v)
    } else {
        s
    }
}

/// `min_index` is the first position of the lowest score.
pub proof fn lemma_min_index(s: Seq<Entry>)
    requires
        s.len() > 0,
    ensures
        0 <= min_index(s) < s.len(),
        forall|j: int| 0 <= j < s.len() ==> s[min_index(s)].1 <= #[trigger] s[j].1,
        forall|j: int| 0 <= j < min_index(s) ==> s[min_index(s)].1 < #[trigger] s[j].1,
    decreases s.len(),
{
    if s.len() > 1 {
        let t = s.drop_last();
        lemma_min_index(t);
        assert forall|j: int| 0 <= j < t.len() implies s[j] == t[j] by {}
    }
}

/// Removing a record keeps the keys unique.
pub proof fn lemma_remove_unique(s: Seq<Entry>, i: int)
    requires
        unique_keys(s),
        0 <= i < s.len(),
    ensures
        unique_keys(s.remove(i)),
{
    let r = s.remove(i);
    assert forall|x: int, y: int| 0 <= x < r.len() && 0 <= y < r.len() && x != y implies r[x].0
        != r[y].0 by {
        let sx = if x < i { x } else { x + 1 };
        let sy = if y < i { y } else { y + 1 };
        assert(r[x] == s[sx]);
        assert(r[y] == s[sy]);
    }
}

pub struct Leaderboard {
    entries: Vec<(AccountId, u128)>,
    capacity: u8,
}

impl View for Leaderboard {
    type V = Seq<Entry>;

    closed spec fn view(&self) -> Seq<Entry> {
        entries_view(self.entries@)
    }
}

impl Leaderboard {
    /// No account holds two records.
    pub open spec fn wf(&self) -> bool {
        unique_keys(self@)
    }

    /// The configured number of records.
    pub closed spec fn limit(&self) -> u8 {
        self.capacity
    }

    /// An empty board with room for `capacity` records.
    pub fn new(capacity: u8) -> (r: Leaderboard)
        ensures
            r.wf(),
            r@ == Seq::<Entry>::empty(),
            r.limit() == capacity,
    {
        let r = Leaderboard { entries: Vec::new(), capacity };
        assert(r@ =~= Seq::<Entry>::empty());
        r
    }

    /// A board holding `records` as they are (the last given for an account
    /// counting), with room for `capacity`.
    pub fn from_entries(records: &Vec<(AccountId, u128)>, capacity: u8) -> (r: Leaderboard)
        ensures
            r.wf(),
            r@ == upsert_all(Seq::empty(), entries_view(records@)),
            r.limit() == capacity,
    {
        Leaderboard { entries: entries_from(records), capacity }
    }

    pub fn capacity(&self) -> (r: u8)
        ensures
            r == self.limit(),
    {
        self.capacity
    }

    /// Sets the capacity. Records beyond a smaller capacity stay until they
    /// are evicted.
    pub fn set_capacity(&mut self, capacity: u8)
        ensures
            final(self)@ == old(self)@,
            final(self).limit() == capacity,
            final(self).wf() == old(self).wf(),
    {
        self.capacity = capacity;
    }

    pub fn len(&self) -> (r: usize)
        ensures
            r == self@.len(),
    {
        self.entries.len()
    }

    /// The position of the lowest score, the first among equal ones.
    fn min_position(&self) -> (r: usize)
        requires
            self@.len() > 0,
        ensures
            r < self@.len(),
            r == min_index(self@),
    {
        let ghost s = self@;
        let n = self.entries.len();
        let mut best: usize = 0;
        let mut i: usize = 1;
        assert(s.take(1).drop_last() =~= s.take(0));
        while i < n
            invariant
                n == s.len(),
                1 <= i <= n,
                s == entries_view(self.entries@),
                best < i,
                best == min_index(s.take(i as int)),
            decreases n - i,
        {
            let ghost t = s.take(i as int + 1);
            assert(t.drop_last() =~= s.take(i as int));
            if self.entries[i].1 < self.entries[best].1 {
                best = i;
            }
            i = i + 1;
        }
        assert(s.take(n as int) =~= s);
        best
    }

    /// Submits `value` for `account`. Below capacity the record is written
    /// (replacing the account's earlier one). At capacity the lowest record
    /// is replaced when `value` is strictly higher; otherwise nothing changes.
    pub fn insert(&mut self, account: AccountId, value: u128)
        requires
            old(self).wf(),
        ensures
            final(self).wf(),
            final(self)@ == board_insert(old(self)@, old(self).limit() as nat, account@, value),
            final(self).limit() == old(self).limit(),
    {
        let n = self.entries.len();
        if n < self.capacity as usize {
            upsert_entry(&mut self.entries, account, value);
        } else if n > 0 {
            let m = self.min_position();
            if self.entries[m].1 < value {
                proof {
                    lemma_remove_unique(self@, m as int);
                }
                self.entries.remove(m);
                assert(entries_view(self.entries@) =~= old(self)@.remove(m as int));
                upsert_entry(&mut self.entries, account, value);
            }
        }
    }

    /// The records, in the order in which they stand.
    pub fn entries(&self) -> (r: Vec<(AccountId, u128)>)
        ensures
            entries_view(r@) == self@,
    {
        copy_entries(&self.entries)
    }

    /// Drops the record of `account`, if it has one.
    pub fn remove(&mut self, account: &AccountId)
        requires
            old(self).wf(),
        ensures
            final(self).wf(),
            final(self)@ == remove_key(old(self)@, account@),
            final(self).limit() == old(self).limit(),
    {
        remove_entry(&mut self.entries, account);
    }

    /// Drops every record.
    pub fn clear(&mut self)
        ensures
            final(self).wf(),
            final(self)@ == Seq::<Entry>::empty(),
            final(self).limit() == old(self).limit(),
    {
        self.entries.clear();
        assert(self@ =~= Seq::<Entry>::empty());
    }
}

} // verus!
