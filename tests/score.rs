use highscore::{AccountId, Score, ScoreState, SubmitError, DEFAULT_LEADERBOARD_SIZE, SUBMISSION_FEE};

fn accounts(i: usize) -> AccountId {
    ["alice", "bob", "charlie", "danny", "eugene", "fargo"][i].to_string()
}

fn board_of(contract: &Score) -> Vec<(String, u128)> {
    let mut board = contract.get_leaderboard();
    board.sort();
    board
}

#[test]
fn set_get_score() {
    let mut contract = Score::default();
    // first score added
    assert_eq!("Highscore set!", contract.insert_score(accounts(1), 100));
    // same size score added
    assert_eq!("No increase in score.", contract.insert_score(accounts(1), 100));
    assert_eq!(Some(100), contract.get_score(accounts(1)));
    // increase in score with existing score
    assert_eq!("Highscore set!", contract.insert_score(accounts(1), 200));
    assert_eq!(Some(200), contract.get_score(accounts(1)));

    // reset user score
    contract.reset_user_score(accounts(1));
    assert_eq!(Some(0), contract.get_score(accounts(1)));
}

#[test]
fn get_nonexistent_score() {
    let contract = Score::default();
    assert_eq!(None, contract.get_score("francis.near".to_string()));
}

#[test]
fn set_get_leaderboard() {
    let mut contract = Score::default();

    // set leaderboard size to 4
    let to_add: u128 = 5;
    contract.set_size_of_leaderboard(4);
    assert_eq!(4, contract.get_size_of_leaderboard());

    // add scores to a leaderboard of size 4: only 4 stay on it
    for i in 0..=to_add {
        contract.insert_leaderboard(accounts(i as usize), i * 100);
    }
    let mut leader_board = contract.get_leaderboard();
    assert_eq!(leader_board.len(), 4);

    // one that got bumped comes back with a smaller amount: not added
    contract.insert_leaderboard(accounts(0), 50);
    leader_board = contract.get_leaderboard();
    assert_eq!(leader_board.len(), 4);

    // remove from the leaderboard
    contract.remove_leaderboard(accounts(3));
    leader_board = contract.get_leaderboard();
    assert_eq!(leader_board.len(), 3);
}

#[test]
fn users_to_submit_set_get() {
    let mut contract = Score::default();

    assert_eq!(
        Ok("The backend will upload your score to NEAR within 5 minutes.".to_string()),
        contract.add_self_to_submit(10000000000000000000000, accounts(2))
    );

    assert_eq!(contract.users_waiting_to_submit(), true);

    let users = contract.clear_users_to_submit();
    assert_eq!(users, vec![accounts(2)]);
    assert_eq!(contract.users_waiting_to_submit(), false);
}

#[test]
fn test_no_attached_deposit() {
    let mut contract = Score::default();
    let r = contract.add_self_to_submit(0, accounts(2));
    assert_eq!(r, Err(SubmitError::WrongDeposit));
    assert_eq!(
        "To add a score must use at least 0.01 Near to cover backend gas fees",
        SubmitError::WrongDeposit.message()
    );
    assert_eq!(contract.users_waiting_to_submit(), false);
}

#[test]
fn default_capacity_is_ten() {
    let contract = Score::default();
    assert_eq!(DEFAULT_LEADERBOARD_SIZE, 10);
    assert_eq!(contract.get_size_of_leaderboard(), 10);
    assert!(contract.get_leaderboard().is_empty());
    assert!(!contract.users_waiting_to_submit());
}

#[test]
fn best_score_is_maximum_of_submissions() {
    let mut contract = Score::new();
    let a = "a.near".to_string();
    for v in [30u128, 10, 70, 70, 20, 50] {
        contract.insert_score(a.clone(), v);
    }
    assert_eq!(contract.get_score(a.clone()), Some(70));
    assert_eq!(contract.reset_user_score(a.clone()), "User score reset to zero");
    assert_eq!(contract.get_score(a.clone()), Some(0));
    contract.reset_user_score(a.clone());
    assert_eq!(contract.get_score(a.clone()), Some(0));
    assert_eq!(contract.insert_score(a.clone(), 0), "No increase in score.");
    contract.insert_score(a.clone(), 5);
    contract.insert_score(a.clone(), 3);
    assert_eq!(contract.get_score(a.clone()), Some(5));
    assert_eq!(contract.get_score("b.near".to_string()), None);
}

#[test]
fn scores_and_leaderboard_are_independent() {
    let mut contract = Score::new();
    contract.insert_score("a".to_string(), 10);
    assert!(contract.get_leaderboard().is_empty());
    contract.insert_leaderboard("b".to_string(), 20);
    assert_eq!(contract.get_score("b".to_string()), None);
}

#[test]
fn four_places_five_players() {
    let mut contract = Score::new();
    contract.set_size_of_leaderboard(4);
    for (name, v) in [("A", 100u128), ("B", 200), ("C", 300), ("D", 400), ("E", 500)] {
        contract.insert_leaderboard(name.to_string(), v);
    }
    let expected: Vec<(String, u128)> =
        vec![("B".to_string(), 200), ("C".to_string(), 300), ("D".to_string(), 400), ("E".to_string(), 500)];
    assert_eq!(board_of(&contract), expected);

    contract.insert_leaderboard("F".to_string(), 50);
    assert_eq!(board_of(&contract), expected);

    assert_eq!(contract.remove_leaderboard("D".to_string()), "User removed from the leaderboard");
    let after: Vec<(String, u128)> =
        vec![("B".to_string(), 200), ("C".to_string(), 300), ("E".to_string(), 500)];
    assert_eq!(board_of(&contract), after);
    assert_eq!(contract.get_leaderboard().len(), 3);
}

#[test]
fn challenger_equal_to_minimum_is_rejected() {
    let mut contract = Score::new();
    contract.set_size_of_leaderboard(2);
    contract.insert_leaderboard("x".to_string(), 10);
    contract.insert_leaderboard("y".to_string(), 20);
    contract.insert_leaderboard("z".to_string(), 10);
    assert_eq!(board_of(&contract), vec![("x".to_string(), 10), ("y".to_string(), 20)]);
}

#[test]
fn challenger_above_minimum_raises_it() {
    let mut contract = Score::new();
    contract.set_size_of_leaderboard(3);
    contract.insert_leaderboard("x".to_string(), 10);
    contract.insert_leaderboard("y".to_string(), 20);
    contract.insert_leaderboard("w".to_string(), 30);
    contract.insert_leaderboard("z".to_string(), 15);
    let board = contract.get_leaderboard();
    assert_eq!(board.len(), 3);
    assert_eq!(board.iter().map(|e| e.1).min(), Some(15));
    assert!(!board.iter().any(|e| e.0 == "x"));
}

#[test]
fn tie_evicts_first_standing_minimum() {
    let mut contract = Score::new();
    contract.set_size_of_leaderboard(3);
    contract.insert_leaderboard("p".to_string(), 5);
    contract.insert_leaderboard("q".to_string(), 9);
    contract.insert_leaderboard("r".to_string(), 5);
    contract.insert_leaderboard("s".to_string(), 6);
    assert_eq!(
        contract.get_leaderboard(),
        vec![("q".to_string(), 9), ("r".to_string(), 5), ("s".to_string(), 6)]
    );
}

#[test]
fn below_capacity_overwrites_even_lower() {
    let mut contract = Score::new();
    contract.insert_leaderboard("p".to_string(), 50);
    contract.insert_leaderboard("p".to_string(), 20);
    assert_eq!(contract.get_leaderboard(), vec![("p".to_string(), 20)]);
}

#[test]
fn own_minimum_entry_is_updated() {
    let mut contract = Score::new();
    contract.set_size_of_leaderboard(2);
    contract.insert_leaderboard("p".to_string(), 1);
    contract.insert_leaderboard("q".to_string(), 8);
    contract.insert_leaderboard("p".to_string(), 4);
    assert_eq!(board_of(&contract), vec![("p".to_string(), 4), ("q".to_string(), 8)]);
}

#[test]
fn smaller_capacity_keeps_existing_entries() {
    let mut contract = Score::new();
    for (name, v) in [("a", 1u128), ("b", 2), ("c", 3)] {
        contract.insert_leaderboard(name.to_string(), v);
    }
    contract.set_size_of_leaderboard(1);
    assert_eq!(contract.get_leaderboard().len(), 3);
    contract.insert_leaderboard("d".to_string(), 10);
    assert_eq!(board_of(&contract), vec![("b".to_string(), 2), ("c".to_string(), 3), ("d".to_string(), 10)]);
    contract.insert_leaderboard("e".to_string(), 0);
    assert_eq!(contract.get_leaderboard().len(), 3);
}

#[test]
fn zero_capacity_takes_nothing() {
    let mut contract = Score::new();
    contract.set_size_of_leaderboard(0);
    contract.insert_leaderboard("a".to_string(), u128::MAX);
    assert!(contract.get_leaderboard().is_empty());
}

#[test]
fn full_capacity_of_255() {
    let mut contract = Score::new();
    contract.set_size_of_leaderboard(255);
    for i in 0..300u128 {
        contract.insert_leaderboard(format!("p{}", i), i);
    }
    let board = contract.get_leaderboard();
    assert_eq!(board.len(), 255);
    assert_eq!(board.iter().map(|e| e.1).min(), Some(45));
}

#[test]
fn remove_absent_and_empty() {
    let mut contract = Score::new();
    contract.insert_leaderboard("a".to_string(), 1);
    contract.remove_leaderboard("zz".to_string());
    assert_eq!(contract.get_leaderboard().len(), 1);
    assert_eq!(contract.empty_leaderboard(), "Leaderboard emptied!");
    assert!(contract.get_leaderboard().is_empty());
    assert_eq!(contract.get_size_of_leaderboard(), 10);
}

#[test]
fn drain_returns_each_account_once() {
    let mut contract = Score::new();
    for name in ["a", "b", "a", "c", "b"] {
        assert!(contract.add_self_to_submit(SUBMISSION_FEE, name.to_string()).is_ok());
    }
    let mut users = contract.clear_users_to_submit();
    users.sort();
    assert_eq!(users, vec!["a".to_string(), "b".to_string(), "c".to_string()]);
    assert!(!contract.users_waiting_to_submit());
    assert!(contract.clear_users_to_submit().is_empty());
    contract.add_self_to_submit(SUBMISSION_FEE, "d".to_string()).unwrap();
    assert_eq!(contract.clear_users_to_submit(), vec!["d".to_string()]);
}

#[test]
fn wrong_payment_leaves_queue_unchanged() {
    let mut contract = Score::new();
    contract.add_self_to_submit(SUBMISSION_FEE, "a".to_string()).unwrap();
    assert_eq!(SUBMISSION_FEE, 10_u128.pow(24) / 100);
    assert_eq!(
        contract.add_self_to_submit(SUBMISSION_FEE - 1, "b".to_string()),
        Err(SubmitError::WrongDeposit)
    );
    assert_eq!(
        contract.add_self_to_submit(SUBMISSION_FEE + 1, "c".to_string()),
        Err(SubmitError::WrongDeposit)
    );
    assert_eq!(contract.clear_users_to_submit(), vec!["a".to_string()]);
}

#[test]
fn state_round_trip() {
    let mut contract = Score::new();
    contract.set_size_of_leaderboard(3);
    contract.insert_score("a".to_string(), 7);
    contract.insert_score("b".to_string(), 9);
    contract.insert_leaderboard("c".to_string(), 4);
    contract.add_self_to_submit(SUBMISSION_FEE, "d".to_string()).unwrap();
    let state = contract.to_state();
    assert_eq!(state.size_of_leaderboard, 3);
    assert_eq!(state.high_scores, vec![("a".to_string(), 7), ("b".to_string(), 9)]);
    let mut back = Score::from_state(&state);
    assert_eq!(back.get_size_of_leaderboard(), 3);
    assert_eq!(back.get_score("b".to_string()), Some(9));
    assert_eq!(back.get_leaderboard(), vec![("c".to_string(), 4)]);
    assert_eq!(back.clear_users_to_submit(), vec!["d".to_string()]);
}

#[test]
fn state_with_repeats_keeps_last_record() {
    let state = ScoreState {
        high_scores: vec![("a".to_string(), 7), ("a".to_string(), 3)],
        leader_board: vec![],
        users_to_submit: vec!["x".to_string(), "x".to_string()],
        size_of_leaderboard: 5,
    };
    let mut score = Score::from_state(&state);
    assert_eq!(score.get_score("a".to_string()), Some(3));
    assert_eq!(score.clear_users_to_submit(), vec!["x".to_string()]);
}
