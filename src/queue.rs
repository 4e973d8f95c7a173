//! The set of accounts waiting for their score to be uploaded.
use vstd::prelude::*;
use crate::entries::AccountId;

verus! {

/// The queue after `a` asks to be uploaded: a repeat request changes nothing.
pub open spec fn enqueue_spec(q: Seq<Seq<char>>, a: Seq<char>) -> Seq<Seq<char>> {
    if q.contains(a) {
        q
    } else {
        q.push(a)
    }
}

/// The queue after each of `accounts` asks for an upload in turn.
pub open spec fn enqueue_all(q: Seq<Seq<char>>, accounts: Seq<Seq<char>>) -> Seq<Seq<char>>
    decreases accounts.len(),
{
    if accounts.len() == 0 {
        q
    } else {
        enqueue_spec(enqueue_all(q, accounts.drop_last()), accounts.last())
    }
}

/// A queue without repeats comes back unchanged from `enqueue_all`.
pub proof fn lemma_enqueue_all_distinct(q: Seq<Seq<char>>)
    requires
        q.no_duplicates(),
    ensures
        enqueue_all(Seq::empty(), q) == q,
    decreases q.len(),
{
    if q.len() > 0 {
        let t = q.drop_last();
        assert(t.no_duplicates());
        lemma_enqueue_all_distinct(t);
        assert(!t.contains(q.last()));
        assert(t.push(q.last()) =~= q);
    }
}

pub struct SubmissionQueue {
    pending: Vec<AccountId>,
}

impl View for SubmissionQueue {
    type V = Seq<Seq<char>>;

    closed spec fn view(&self) -> Seq<Seq<char>> {
        self.pending@.map_values(|a: AccountId| a@)
    }
}

impl SubmissionQueue {
    /// Each account waits at most once.
    pub open spec fn wf(&self) -> bool {
        self@.no_duplicates()
    }

    pub fn new() -> (r: SubmissionQueue)
        ensures
            r.wf(),
            r@ == Seq::<Seq<char>>::empty(),
    {
        let r = SubmissionQueue { pending: Vec::new() };
        assert(r@ =~= Seq::<Seq<char>>::empty());
        r
    }

    /// A queue of `accounts`, in order, each kept once.
    pub fn from_accounts(accounts: &Vec<AccountId>) -> (r: SubmissionQueue)
        ensures
            r.wf(),
            r@ == enqueue_all(Seq::empty(), accounts@.map_values(|a: AccountId| a@)),
    {
        let ghost items = accounts@.map_values(|a: AccountId| a@);
        let mut r = SubmissionQueue::new();
        let mut i: usize = 0;
        assert(items.take(0) =~= Seq::<Seq<char>>::empty());
        while i < accounts.len()
            invariant
                i <= accounts@.len(),
                items == accounts@.map_values(|a: AccountId| a@),
                r.wf(),
                r@ == enqueue_all(Seq::empty(), items.take(i as int)),
            decreases accounts@.len() - i,
        {
            assert(items.take(i as int + 1).drop_last() =~= items.take(i as int));
            r.enqueue(accounts[i].clone());
            i = i + 1;
        }
        assert(items.take(i as int) =~= items);
        r
    }

    /// The waiting accounts, in order.
    pub fn accounts(&self) -> (r: Vec<AccountId>)
        ensures
            r@.map_values(|a: AccountId| a@) == self@,
    {
        let mut r: Vec<AccountId> = Vec::new();
        let mut i: usize = 0;
        while i < self.pending.len()
            invariant
                i <= self.pending@.len(),
                r@.len() == i,
                forall|j: int| 0 <= j < i ==> (#[trigger] r@[j])@ == self.pending@[j]@,
            decreases self.pending@.len() - i,
        {
            r.push(self.pending[i].clone());
            i = i + 1;
        }
        assert(r@.map_values(|a: AccountId| a@) =~= self@);
        r
    }

    /// Adds `account` unless it is already waiting.
    pub fn enqueue(&mut self, account: AccountId)
        requires
            old(self).wf(),
        ensures
            final(self).wf(),
            final(self)@ == enqueue_spec(old(self)@, account@),
    {
        let ghost q = self@;
        let mut i: usize = 0;
        while i < self.pending.len()
            invariant
                i <= self.pending@.len(),
                q == self@,
                q.no_duplicates(),
                forall|j: int| 0 <= j < i ==> q[j] != account@,
            decreases self.pending@.len() - i,
        {
            if self.pending[i] == account {
                assert(q[i as int] == account@);
                return;
            }
            i = i + 1;
        }
        self.pending.push(account);
        assert(self@ =~= q.push(account@));
    }

    /// Whether any account is waiting.
    pub fn has_pending(&self) -> (r: bool)
        ensures
            r == (self@.len() > 0),
    {
        self.pending.len() > 0
    }

    /// Hands out every waiting account and leaves the queue empty.
    pub fn drain(&mut self) -> (r: Vec<AccountId>)
        requires
            old(self).wf(),
        ensures
            final(self).wf(),
            final(self)@ == Seq::<Seq<char>>::empty(),
            r@.map_values(|a: AccountId| a@) == old(self)@,
    {
        let mut taken: Vec<AccountId> = Vec::new();
        std::mem::swap(&mut taken, &mut self.pending);
        assert(self@ =~= Seq::<Seq<char>>::empty());
        taken
    }
}

} // verus!
