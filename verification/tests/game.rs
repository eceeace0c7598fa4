use guessing_game::session::{play_script, Feedback, Outcome, Session, Status};

fn lines(texts: &[&str]) -> Vec<Vec<u8>> {
    texts.iter().map(|t| t.as_bytes().to_vec()).collect()
}

#[test]
fn immediate_win_takes_one_attempt() {
    let (fbs, st) = play_script(50, &lines(&["50"]));
    assert_eq!(fbs, vec![Feedback::Correct(50)]);
    assert_eq!(st, Status::Over(Outcome::Won(1)));
}

#[test]
fn mixed_script_wins_in_three_attempts() {
    let (fbs, st) = play_script(50, &lines(&["10", "90", "abc", "50"]));
    assert_eq!(
        fbs,
        vec![
            Feedback::TooSmall(10),
            Feedback::TooBig(90),
            Feedback::NotANumber,
            Feedback::Correct(50)
        ]
    );
    assert_eq!(st, Status::Over(Outcome::Won(3)));
}

#[test]
fn ten_misses_lose_and_reveal_target() {
    let script = lines(&["1", "2", "3", "4", "5", "6", "7", "8", "9", "99"]);
    let (fbs, st) = play_script(42, &script);
    assert_eq!(fbs.len(), 10);
    assert_eq!(fbs[9], Feedback::TooBig(99));
    assert_eq!(st, Status::Over(Outcome::Lost(42)));
}

#[test]
fn win_on_last_allowed_attempt_is_a_win() {
    let script = lines(&["1", "2", "3", "4", "5", "6", "7", "8", "9", "42"]);
    let (fbs, st) = play_script(42, &script);
    assert_eq!(fbs[9], Feedback::Correct(42));
    assert_eq!(st, Status::Over(Outcome::Won(10)));
}

#[test]
fn unused_lines_after_a_win_are_not_consumed() {
    let (fbs, st) = play_script(7, &lines(&["7", "8", "9"]));
    assert_eq!(fbs, vec![Feedback::Correct(7)]);
    assert_eq!(st, Status::Over(Outcome::Won(1)));
}

#[test]
fn exhausted_script_leaves_session_in_progress() {
    let (fbs, st) = play_script(30, &lines(&["10", "oops"]));
    assert_eq!(fbs, vec![Feedback::TooSmall(10), Feedback::NotANumber]);
    assert_eq!(st, Status::InProgress);
}

#[test]
fn empty_script_plays_nothing() {
    let (fbs, st) = play_script(1, &lines(&[]));
    assert!(fbs.is_empty());
    assert_eq!(st, Status::InProgress);
}

#[test]
fn submit_counts_only_parsed_guesses() {
    let mut s = Session::new(60);
    assert_eq!(s.status(), Status::InProgress);
    assert_eq!(s.submit(b"not a number"), Feedback::NotANumber);
    assert_eq!(s.attempts(), 0);
    assert_eq!(s.status(), Status::InProgress);
    assert_eq!(s.submit(b" 59 "), Feedback::TooSmall(59));
    assert_eq!(s.attempts(), 1);
    assert_eq!(s.status(), Status::InProgress);
    assert_eq!(s.submit(b"61"), Feedback::TooBig(61));
    assert_eq!(s.attempts(), 2);
    assert_eq!(s.submit(b"60"), Feedback::Correct(60));
    assert_eq!(s.attempts(), 3);
    assert_eq!(s.status(), Status::Over(Outcome::Won(3)));
    assert!(s.is_finished());
}

#[test]
fn guesses_echo_the_parsed_value() {
    let mut s = Session::new(2);
    assert_eq!(s.submit(b"+007"), Feedback::TooBig(7));
    assert_eq!(s.submit(b"1"), Feedback::TooSmall(1));
    assert_eq!(s.target(), 2);
}

#[test]
fn random_target_is_in_range() {
    for _ in 0..100 {
        let s = Session::new_random();
        assert!(1 <= s.target && s.target <= 100);
        assert_eq!(s.attempts, 0);
        assert!(!s.won);
        assert!(!s.is_finished());
        assert!(s.is_well_formed());
    }
}
