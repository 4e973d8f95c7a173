//! The game's score keeping: best scores, the leaderboard and the queue of
//! accounts waiting for an upload, behind the operations a host exposes.
use vstd::prelude::*;
use crate::entries::{
    AccountId, Entry, entries_view, lookup, remove_key, upsert_all, lemma_upsert_all_unique,
};
use crate::leaderboard::{Leaderboard, board_insert};
use crate::queue::{SubmissionQueue, enqueue_spec, enqueue_all, lemma_enqueue_all_distinct};
use crate::store::{ScoreStore, raises, store_insert, store_reset};

verus! {

/// Room on the leaderboard until it is configured otherwise.
pub const DEFAULT_LEADERBOARD_SIZE: u8 = 10;

/// The payment that asking for an upload takes: 0.01 of a token of 10^24
/// base units.
pub const SUBMISSION_FEE: u128 = 10_000_000_000_000_000_000_000;

/// Why a request for an upload was turned down.
#[derive(Clone, Copy, Debug, PartialEq, Eq, Structural)]
pub enum SubmitError {
    /// The attached payment is not the submission fee.
    WrongDeposit,
}

impl SubmitError {
    pub fn message(&self) -> (r: String)
        ensures
            r@ == "To add a score must use at least 0.01 Near to cover backend gas fees"@,
    {
        "To add a score must use at least 0.01 Near to cover backend gas fees".to_owned()
    }
}

/// Everything a `Score` holds, as plain values, for storing it between
/// calls.
pub struct ScoreState {
    pub high_scores: Vec<(AccountId, u128)>,
    pub leader_board: Vec<(AccountId, u128)>,
    pub users_to_submit: Vec<AccountId>,
    pub size_of_leaderboard: u8,
}

pub struct Score {
    high_scores: ScoreStore,
    leader_board: Leaderboard,
    users_to_submit: SubmissionQueue,
}

impl Score {
    pub closed spec fn wf(&self) -> bool {
        &&& self.high_scores.wf()
        &&& self.leader_board.wf()
        &&& self.users_to_submit.wf()
    }

    /// Each account's best score.
    pub closed spec fn scores(&self) -> Seq<Entry> {
        self.high_scores@
    }

    /// The leaderboard's records.
    pub closed spec fn board(&self) -> Seq<Entry> {
        self.leader_board@
    }

    /// The leaderboard's capacity.
    pub closed spec fn size(&self) -> u8 {
        self.leader_board.limit()
    }

    /// The accounts waiting for an upload.
    pub closed spec fn pending(&self) -> Seq<Seq<char>> {
        self.users_to_submit@
    }

    pub fn new() -> (r: Score)
        ensures
            r.wf(),
            r.scores() == Seq::<Entry>::empty(),
            r.board() == Seq::<Entry>::empty(),
            r.pending() == Seq::<Seq<char>>::empty(),
            r.size() == DEFAULT_LEADERBOARD_SIZE,
    {
        Score {
            high_scores: ScoreStore::new(),
            leader_board: Leaderboard::new(DEFAULT_LEADERBOARD_SIZE),
            users_to_submit: SubmissionQueue::new(),
        }
    }

    /// A copy of what this holds.
    pub fn to_state(&self) -> (r: ScoreState)
        ensures
            entries_view(r.high_scores@) == self.scores(),
            entries_view(r.leader_board@) == self.board(),
            r.users_to_submit@.map_values(|a: AccountId| a@) == self.pending(),
            r.size_of_leaderboard == self.size(),
    {
        ScoreState {
            high_scores: self.high_scores.entries(),
            leader_board: self.leader_board.entries(),
            users_to_submit: self.users_to_submit.accounts(),
            size_of_leaderboard: self.leader_board.capacity(),
        }
    }

    /// Rebuilds from stored values; where an account is given twice, the
    /// last record counts and a repeated queue entry is kept once.
    pub fn from_state(state: &ScoreState) -> (r: Score)
        ensures
            r.wf(),
            r.scores() == upsert_all(Seq::empty(), entries_view(state.high_scores@)),
            r.board() == upsert_all(Seq::empty(), entries_view(state.leader_board@)),
            r.pending() == enqueue_all(
                Seq::empty(),
                state.users_to_submit@.map_values(|a: AccountId| a@),
            ),
            r.size() == state.size_of_leaderboard,
    {
        Score {
            high_scores: ScoreStore::from_entries(&state.high_scores),
            leader_board: Leaderboard::from_entries(&state.leader_board, state.size_of_leaderboard),
            users_to_submit: SubmissionQueue::from_accounts(&state.users_to_submit),
        }
    }

    pub fn set_size_of_leaderboard(&mut self, size: u8)
        requires
            old(self).wf(),
        ensures
            final(self).wf(),
            final(self).size() == size,
            final(self).board() == old(self).board(),
            final(self).scores() == old(self).scores(),
            final(self).pending() == old(self).pending(),
    {
        self.leader_board.set_capacity(size);
    }

    pub fn get_size_of_leaderboard(&self) -> (r: u8)
        ensures
            r == self.size(),
    {
        self.leader_board.capacity()
    }

    /// Keeps `value` as the best score of `account_id` where it beats the
    /// one recorded.
    pub fn insert_score(&mut self, account_id: AccountId, value: u128) -> (r: String)
        requires
            old(self).wf(),
        ensures
            final(self).wf(),
            final(self).scores() == store_insert(old(self).scores(), account_id@, value),
            r@ == (if raises(old(self).scores(), account_id@, value) {
                "Highscore set!"@
            } else {
                "No increase in score."@
            }),
            final(self).board() == old(self).board(),
            final(self).size() == old(self).size(),
            final(self).pending() == old(self).pending(),
    {
        if self.high_scores.insert(account_id, value) {
            "Highscore set!".to_owned()
        } else {
            "No increase in score.".to_owned()
        }
    }

    /// Submits `value` for `account_id` to the leaderboard.
    pub fn insert_leaderboard(&mut self, account_id: AccountId, value: u128)
        requires
            old(self).wf(),
        ensures
            final(self).wf(),
            final(self).board() == board_insert(
                old(self).board(),
                old(self).size() as nat,
                account_id@,
                value,
            ),
            final(self).size() == old(self).size(),
            final(self).scores() == old(self).scores(),
            final(self).pending() == old(self).pending(),
    {
        self.leader_board.insert(account_id, value);
    }

    /// The leaderboard's records, in no particular ranking.
    pub fn get_leaderboard(&self) -> (r: Vec<(AccountId, u128)>)
        ensures
            entries_view(r@) == self.board(),
    {
        self.leader_board.entries()
    }

    /// The best score of `account_id`, if it has one.
    pub fn get_score(&self, account_id: AccountId) -> (r: Option<u128>)
        requires
            self.wf(),
        ensures
            r == lookup(self.scores(), account_id@),
    {
        self.high_scores.get(&account_id)
    }

    /// Puts `signer` in the queue for an upload, where `attached_deposit` is
    /// the submission fee; otherwise changes nothing and fails.
    pub fn add_self_to_submit(&mut self, attached_deposit: u128, signer: AccountId) -> (r: Result<
        String,
        SubmitError,
    >)
        requires
            old(self).wf(),
        ensures
            final(self).wf(),
            r is Err <==> attached_deposit != SUBMISSION_FEE,
            r is Err ==> r == Err::<String, SubmitError>(SubmitError::WrongDeposit),
            r is Ok ==> r->Ok_0@ == "The backend will upload your score to NEAR within 5 minutes."@,
            final(self).pending() == (if attached_deposit == SUBMISSION_FEE {
                enqueue_spec(old(self).pending(), signer@)
            } else {
                old(self).pending()
            }),
            final(self).scores() == old(self).scores(),
            final(self).board() == old(self).board(),
            final(self).size() == old(self).size(),
    {
        if attached_deposit != SUBMISSION_FEE {
            return Err(SubmitError::WrongDeposit);
        }
        self.users_to_submit.enqueue(signer);
        Ok("The backend will upload your score to NEAR within 5 minutes.".to_owned())
    }

    /// Whether any account waits for an upload.
    pub fn users_waiting_to_submit(&self) -> (r: bool)
        ensures
            r == (self.pending().len() > 0),
    {
        self.users_to_submit.has_pending()
    }

    /// Hands out the accounts waiting for an upload, each once, and empties
    /// the queue.
    pub fn clear_users_to_submit(&mut self) -> (r: Vec<AccountId>)
        requires
            old(self).wf(),
        ensures
            final(self).wf(),
            r@.map_values(|a: AccountId| a@) == old(self).pending(),
            final(self).pending() == Seq::<Seq<char>>::empty(),
            final(self).scores() == old(self).scores(),
            final(self).board() == old(self).board(),
            final(self).size() == old(self).size(),
    {
        self.users_to_submit.drain()
    }

    /// Forces the best score of `account_id` to zero.
    pub fn reset_user_score(&mut self, account_id: AccountId) -> (r: String)
        requires
            old(self).wf(),
        ensures
            final(self).wf(),
            final(self).scores() == store_reset(old(self).scores(), account_id@),
            r@ == "User score reset to zero"@,
            final(self).board() == old(self).board(),
            final(self).size() == old(self).size(),
            final(self).pending() == old(self).pending(),
    {
        self.high_scores.reset(account_id);
        "User score reset to zero".to_owned()
    }

    /// Drops the leaderboard record of `account_id`, if it has one.
    pub fn remove_leaderboard(&mut self, account_id: AccountId) -> (r: String)
        requires
            old(self).wf(),
        ensures
            final(self).wf(),
            final(self).board() == remove_key(old(self).board(), account_id@),
            r@ == "User removed from the leaderboard"@,
            final(self).size() == old(self).size(),
            final(self).scores() == old(self).scores(),
            final(self).pending() == old(self).pending(),
    {
        self.leader_board.remove(&account_id);
        "User removed from the leaderboard".to_owned()
    }

    /// Drops every leaderboard record.
    pub fn empty_leaderboard(&mut self) -> (r: String)
        requires
            old(self).wf(),
        ensures
            final(self).wf(),
            final(self).board() == Seq::<Entry>::empty(),
            r@ == "Leaderboard emptied!"@,
            final(self).size() == old(self).size(),
            final(self).scores() == old(self).scores(),
            final(self).pending() == old(self).pending(),
    {
        self.leader_board.clear();
        "Leaderboard emptied!".to_owned()
    }
}

/// Reading back what `Score::to_state` handed out gives the same best
/// scores, board and queue.
pub proof fn lemma_state_round_trip(s: Score, state: ScoreState)
    requires
        s.wf(),
        entries_view(state.high_scores@) == s.scores(),
        entries_view(state.leader_board@) == s.board(),
        state.users_to_submit@.map_values(|a: AccountId| a@) == s.pending(),
    ensures
        upsert_all(Seq::empty(), entries_view(state.high_scores@)) == s.scores(),
        upsert_all(Seq::empty(), entries_view(state.leader_board@)) == s.board(),
        enqueue_all(Seq::empty(), state.users_to_submit@.map_values(|a: AccountId| a@))
            == s.pending(),
{
    lemma_upsert_all_unique(s.scores());
    lemma_upsert_all_unique(s.board());
    lemma_enqueue_all_distinct(s.pending());
}

impl Default for Score {
    fn default() -> (r: Score)
        ensures
            r.wf(),
            r.scores() == Seq::<Entry>::empty(),
            r.board() == Seq::<Entry>::empty(),
            r.pending() == Seq::<Seq<char>>::empty(),
            r.size() == DEFAULT_LEADERBOARD_SIZE,
    {
        Score::new()
    }
}

} // verus!
