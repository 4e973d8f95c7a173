//! High scores, a bounded leaderboard and a queue of pending score
//! submissions for a game.

pub mod entries;
pub mod laws;
pub mod leaderboard;
pub mod queue;
pub mod store;
pub mod score;

pub use entries::AccountId;
pub use score::{Score, ScoreState, SubmitError, DEFAULT_LEADERBOARD_SIZE, SUBMISSION_FEE};
pub use leaderboard::Leaderboard;
pub use queue::SubmissionQueue;
pub use store::ScoreStore;
