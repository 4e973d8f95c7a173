//! Account-keyed records held in a `Vec`, with at most one record per account.
use vstd::prelude::*;

verus! {

/// A player's account, compared by its text.
pub type AccountId = String;

/// The mathematical form of a record: the account's text and its score.
pub type Entry = (Seq<char>, u128);

pub open spec fn entry_view(e: (AccountId, u128)) -> Entry {
    (e.0@, e.1)
}

/// The records of a vector, in the order in which they stand.
pub open spec fn entries_view(v: Seq<(AccountId, u128)>) -> Seq<Entry> {
    v.map_values(|e: (AccountId, u128)| entry_view(e))
}

/// No account holds two records.
pub open spec fn unique_keys(s: Seq<Entry>) -> bool {
    forall|i: int, j: int| 0 <= i < s.len() && 0 <= j < s.len() && i != j ==> s[i].0 != s[j].0
}

pub open spec fn has_key(s: Seq<Entry>, a: Seq<char>) -> bool {
    exists|i: int| 0 <= i < s.len() && s[i].0 == a
}

/// The position of the record of `a` (meaningful where `has_key(s, a)`).
pub open spec fn key_index(s: Seq<Entry>, a: Seq<char>) -> int {
    choose|i: int| 0 <= i < s.len() && s[i].0 == a
}

/// The score recorded for `a`, if any.
pub open spec fn lookup(s: Seq<Entry>, a: Seq<char>) -> Option<u128> {
    if has_key(s, a) {
        Some(s[key_index(s, a)].1)
    } else {
        None
    }
}

/// Records `v` for `a`: in place where `a` has a record, else at the end.
pub open spec fn upsert(s: Seq<Entry>, a: Seq<char>, v: u128) -> Seq<Entry> {
    if has_key(s, a) {
        s.update(key_index(s, a), (a, v))
    } else {
        s.push((a, v))
    }
}

/// Records each of `items` in turn, a later record of an account replacing
/// an earlier one.
pub open spec fn upsert_all(s: Seq<Entry>, items: Seq<Entry>) -> Seq<Entry>
    decreases items.len(),
{
    if items.len() == 0 {
        s
    } else {
        upsert(upsert_all(s, items.drop_last()), items.last().0, items.last().1)
    }
}

/// Drops the record of `a`, if there is one.
pub open spec fn remove_key(s: Seq<Entry>, a: Seq<char>) -> Seq<Entry> {
    if has_key(s, a) {
        s.remove(key_index(s, a))
    } else {
        s
    }
}

/// The position of the record of `account` in `v`, if it has one.
pub fn find_key(v: &Vec<(AccountId, u128)>, account: &AccountId) -> (r: Option<usize>)
    ensures
        match r {
            Some(i) => i < v@.len() && v@[i as int].0@ == account@,
            None => !has_key(entries_view(v@), account@),
        },
{
    let mut i: usize = 0;
    while i < v.len()
        invariant
            i <= v@.len(),
            forall|j: int| 0 <= j < i ==> v@[j].0@ != account@,
        decreases v@.len() - i,
    {
        if v[i].0 == *account {
            return Some(i);
        }
        i = i + 1;
    }
    None
}

/// Where `v` has unique keys, `find_key`'s position is `key_index`.
pub proof fn lemma_found_is_key_index(s: Seq<Entry>, a: Seq<char>, i: int)
    requires
        unique_keys(s),
        0 <= i < s.len(),
        s[i].0 == a,
    ensures
        has_key(s, a),
        key_index(s, a) == i,
{
}

/// Writing a record keeps the keys unique.
pub proof fn lemma_upsert_unique(s: Seq<Entry>, a: Seq<char>, v: u128)
    requires
        unique_keys(s),
    ensures
        unique_keys(upsert(s, a, v)),
        has_key(upsert(s, a, v), a),
        lookup(upsert(s, a, v), a) == Some(v),
{
    let r = upsert(s, a, v);
    if has_key(s, a) {
        assert(r[key_index(s, a)].0 == a);
    } else {
        assert(r[s.len() as int].0 == a);
    }
}

/// Records `value` for `account` in `v`.
pub fn upsert_entry(v: &mut Vec<(AccountId, u128)>, account: AccountId, value: u128)
    requires
        unique_keys(entries_view(old(v)@)),
    ensures
        entries_view(final(v)@) == upsert(entries_view(old(v)@), account@, value),
        unique_keys(entries_view(final(v)@)),
{
    let ghost s = entries_view(v@);
    let ghost a = account@;
    proof {
        lemma_upsert_unique(s, a, value);
    }
    match find_key(v, &account) {
        Some(i) => {
            proof {
                lemma_found_is_key_index(s, a, i as int);
            }
            v[i] = (account, value);
            assert(entries_view(v@) =~= upsert(s, a, value));
        },
        None => {
            v.push((account, value));
            assert(entries_view(v@) =~= upsert(s, a, value));
        },
    }
}

/// Drops the record of `account` from `v`, if it has one.
pub fn remove_entry(v: &mut Vec<(AccountId, u128)>, account: &AccountId)
    requires
        unique_keys(entries_view(old(v)@)),
    ensures
        entries_view(final(v)@) == remove_key(entries_view(old(v)@), account@),
        unique_keys(entries_view(final(v)@)),
{
    let ghost s = entries_view(v@);
    match find_key(v, account) {
        Some(i) => {
            proof {
                lemma_found_is_key_index(s, account@, i as int);
            }
            v.remove(i);
            assert(entries_view(v@) =~= s.remove(i as int));
        },
        None => {},
    }
}

/// A copy of the records of `v`, in the same order.
pub fn copy_entries(v: &Vec<(AccountId, u128)>) -> (r: Vec<(AccountId, u128)>)
    ensures
        entries_view(r@) == entries_view(v@),
{
    let mut r: Vec<(AccountId, u128)> = Vec::new();
    let mut i: usize = 0;
    while i < v.len()
        invariant
            i <= v@.len(),
            r@.len() == i,
            forall|j: int| 0 <= j < i ==> entry_view(#[trigger] r@[j]) == entry_view(v@[j]),
        decreases v@.len() - i,
    {
        let account = v[i].0.clone();
        r.push((account, v[i].1));
        i = i + 1;
    }
    assert(entries_view(r@) =~= entries_view(v@));
    r
}

/// The records of `v` with one record per account, the last given for each.
pub fn entries_from(v: &Vec<(AccountId, u128)>) -> (r: Vec<(AccountId, u128)>)
    ensures
        unique_keys(entries_view(r@)),
        entries_view(r@) == upsert_all(Seq::empty(), entries_view(v@)),
{
    let ghost items = entries_view(v@);
    let mut r: Vec<(AccountId, u128)> = Vec::new();
    let mut i: usize = 0;
    assert(entries_view(r@) =~= Seq::<Entry>::empty());
    assert(items.take(0) =~= Seq::<Entry>::empty());
    while i < v.len()
        invariant
            i <= v@.len(),
            items == entries_view(v@),
            unique_keys(entries_view(r@)),
            entries_view(r@) == upsert_all(Seq::empty(), items.take(i as int)),
        decreases v@.len() - i,
    {
        assert(items.take(i as int + 1).drop_last() =~= items.take(i as int));
        let account = v[i].0.clone();
        upsert_entry(&mut r, account, v[i].1);
        i = i + 1;
    }
    assert(items.take(i as int) =~= items);
    r
}

/// Records with one per account come back unchanged from `upsert_all`.
pub proof fn lemma_upsert_all_unique(s: Seq<Entry>)
    requires
        unique_keys(s),
    ensures
        upsert_all(Seq::empty(), s) == s,
    decreases s.len(),
{
    if s.len() > 0 {
        let t = s.drop_last();
        assert(unique_keys(t));
        lemma_upsert_all_unique(t);
        assert(!has_key(t, s.last().0));
        assert(t.push(s.last()) =~= s);
    }
}

} // verus!
