//! Each account's best score, which only rises except through a reset.
use vstd::prelude::*;
use crate::entries::{
    AccountId, Entry, entries_view, unique_keys, lookup, upsert, find_key, upsert_entry,
    lemma_found_is_key_index, upsert_all, entries_from, copy_entries,
};

verus! {

/// Whether `v` beats what `a` has recorded (any score beats no record).
pub open spec fn raises(s: Seq<Entry>, a: Seq<char>, v: u128) -> bool {
    match lookup(s, a) {
        Some(best) => best < v,
        None => true,
    }
}

/// The store after `a` submits `v`: kept only where it beats the record.
pub open spec fn store_insert(s: Seq<Entry>, a: Seq<char>, v: u128) -> Seq<Entry> {
    if raises(s, a, v) {
        upsert(s, a, v)
    } else {
        s
    }
}

/// The store after the score of `a` is forced to zero.
pub open spec fn store_reset(s: Seq<Entry>, a: Seq<char>) -> Seq<Entry> {
    upsert(s, a, 0)
}

pub struct ScoreStore {
    entries: Vec<(AccountId, u128)>,
}

impl View for ScoreStore {
    type V = Seq<Entry>;

    closed spec fn view(&self) -> Seq<Entry> {
        entries_view(self.entries@)
    }
}

impl ScoreStore {
    /// No account holds two records.
    pub open spec fn wf(&self) -> bool {
        unique_keys(self@)
    }

    pub fn new() -> (r: ScoreStore)
        ensures
            r.wf(),
            r@ == Seq::<Entry>::empty(),
    {
        let r = ScoreStore { entries: Vec::new() };
        assert(r@ =~= Seq::<Entry>::empty());
        r
    }

    /// A store of `records`, the last given for an account counting.
    pub fn from_entries(records: &Vec<(AccountId, u128)>) -> (r: ScoreStore)
        ensures
            r.wf(),
            r@ == upsert_all(Seq::empty(), entries_view(records@)),
    {
        ScoreStore { entries: entries_from(records) }
    }

    /// Every record, in order.
    pub fn entries(&self) -> (r: Vec<(AccountId, u128)>)
        ensures
            entries_view(r@) == self@,
    {
        copy_entries(&self.entries)
    }

    /// The best score of `account`, if it has submitted one.
    pub fn get(&self, account: &AccountId) -> (r: Option<u128>)
        requires
            self.wf(),
        ensures
            r == lookup(self@, account@),
    {
        match find_key(&self.entries, account) {
            Some(i) => {
                proof {
                    lemma_found_is_key_index(self@, account@, i as int);
                }
                Some(self.entries[i].1)
            },
            None => None,
        }
    }

    /// Records `value` for `account` where it beats the account's best;
    /// returns whether it did.
    pub fn insert(&mut self, account: AccountId, value: u128) -> (r: bool)
        requires
            old(self).wf(),
        ensures
            final(self).wf(),
            r == raises(old(self)@, account@, value),
            final(self)@ == store_insert(old(self)@, account@, value),
    {
        let raised = match self.get(&account) {
            Some(best) => best < value,
            None => true,
        };
        if raised {
            upsert_entry(&mut self.entries, account, value);
        }
        raised
    }

    /// Forces the score of `account` to zero, whatever it was.
    pub fn reset(&mut self, account: AccountId)
        requires
            old(self).wf(),
        ensures
            final(self).wf(),
            final(self)@ == store_reset(old(self)@, account@),
    {
        upsert_entry(&mut self.entries, account, 0);
    }
}

} // verus!
