//! The rules of a session, stated and proved as laws.

use vstd::prelude::*;
use crate::parse::{guess_value, valid_guess_text};
use crate::session::{spec_run, Feedback, Outcome, Session, Status, MAX_ATTEMPTS, MAX_TARGET, MIN_TARGET};

verus! {

/// A line whose value equals the target wins the session, and the attempt
/// count of the win equals the number of parsed guesses submitted, this
/// one included.
pub proof fn lemma_matching_guess_wins(s: Session, line: Seq<u8>)
    requires
        s.wf(),
        !s.is_over(),
        valid_guess_text(line),
        guess_value(line) == s.target,
    ensures
        s.spec_feedback(line) == Feedback::Correct(s.target),
        s.spec_step(line).won,
        s.spec_step(line).is_over(),
        s.spec_step(line).attempts == s.attempts + 1,
        s.spec_step(line).spec_status() == Status::Over(Outcome::Won((s.attempts + 1) as u32)),
{
}

/// A guess below the target is answered "too small", consumes one attempt,
/// and leaves the session running — as long as it is not the last allowed
/// attempt, which ends a session in a loss instead.
pub proof fn lemma_small_guess_continues(s: Session, line: Seq<u8>)
    requires
        s.wf(),
        !s.is_over(),
        valid_guess_text(line),
        guess_value(line) < s.target,
        s.attempts + 1 < MAX_ATTEMPTS,
    ensures
        s.spec_feedback(line) == Feedback::TooSmall(guess_value(line)),
        !s.spec_step(line).is_over(),
        s.spec_step(line).wf(),
        s.spec_step(line).attempts == s.attempts + 1,
        s.spec_step(line).target == s.target,
{
}

/// A guess above the target is answered "too big", consumes one attempt,
/// and leaves the session running — as long as it is not the last allowed
/// attempt, which ends a session in a loss instead.
pub proof fn lemma_big_guess_continues(s: Session, line: Seq<u8>)
    requires
        s.wf(),
        !s.is_over(),
        valid_guess_text(line),
        guess_value(line) > s.target,
        s.attempts + 1 < MAX_ATTEMPTS,
    ensures
        s.spec_feedback(line) == Feedback::TooBig(guess_value(line)),
        !s.spec_step(line).is_over(),
        s.spec_step(line).wf(),
        s.spec_step(line).attempts == s.attempts + 1,
        s.spec_step(line).target == s.target,
{
}

/// A line that is not a number never consumes an attempt and never ends
/// the session: the session is left exactly as it was, still running.
pub proof fn lemma_invalid_line_no_attempt(s: Session, line: Seq<u8>)
    requires
        s.wf(),
        !s.is_over(),
        !valid_guess_text(line),
    ensures
        s.spec_feedback(line) == Feedback::NotANumber,
        s.spec_step(line) == s,
        !s.spec_step(line).is_over(),
{
}

/// Feeding a run of parsed guesses that all miss the target consumes one
/// attempt per line, wins nothing, and moves neither the target nor the
/// well-formedness of the session.
pub proof fn lemma_misses_accumulate(s: Session, lines: Seq<Seq<u8>>)
    requires
        s.wf(),
        !s.won,
        s.attempts + lines.len() <= MAX_ATTEMPTS,
        forall|i: int|
            0 <= i < lines.len() ==> valid_guess_text(#[trigger] lines[i]) && guess_value(lines[i])
                != s.target,
    ensures
        spec_run(s, lines).wf(),
        !spec_run(s, lines).won,
        spec_run(s, lines).attempts == s.attempts + lines.len(),
        spec_run(s, lines).target == s.target,
    decreases lines.len(),
{
    if lines.len() > 0 {
        assert(!s.is_over());
        let s1 = s.spec_step(lines[0]);
        let rest = lines.drop_first();
        assert forall|i: int| 0 <= i < rest.len() implies valid_guess_text(#[trigger] rest[i])
            && guess_value(rest[i]) != s1.target by {
            assert(rest[i] == lines[i + 1]);
        }
        lemma_misses_accumulate(s1, rest);
    }
}

/// Feeding parsed guesses that all miss until a final one that matches
/// wins the session, and the attempt count of the win equals the number
/// of guesses submitted.
pub proof fn lemma_misses_then_match_wins(s: Session, lines: Seq<Seq<u8>>)
    requires
        s.wf(),
        !s.won,
        lines.len() >= 1,
        s.attempts + lines.len() <= MAX_ATTEMPTS,
        forall|i: int|
            0 <= i < lines.len() - 1 ==> valid_guess_text(#[trigger] lines[i]) && guess_value(
                lines[i],
            ) != s.target,
        valid_guess_text(lines.last()),
        guess_value(lines.last()) == s.target,
    ensures
        spec_run(s, lines).won,
        spec_run(s, lines).attempts == s.attempts + lines.len(),
        spec_run(s, lines).spec_status() == Status::Over(
            Outcome::Won((s.attempts + lines.len()) as u32),
        ),
    decreases lines.len(),
{
    assert(!s.is_over());
    let s1 = s.spec_step(lines[0]);
    let rest = lines.drop_first();
    assert(spec_run(s, lines) == spec_run(s1, rest));
    if lines.len() == 1 {
        assert(lines.last() == lines[0]);
        assert(s1.won);
        assert(s1.attempts == s.attempts + 1);
        assert(rest.len() == 0);
        assert(spec_run(s1, rest) == s1);
    } else {
        assert(rest.last() == lines.last());
        assert forall|i: int| 0 <= i < rest.len() - 1 implies valid_guess_text(#[trigger] rest[i])
            && guess_value(rest[i]) != s1.target by {
            assert(rest[i] == lines[i + 1]);
        }
        lemma_misses_then_match_wins(s1, rest);
    }
}

/// After exactly `MAX_ATTEMPTS` parsed guesses that all missed, a fresh
/// session is over, lost, and its outcome reveals the target.
pub proof fn lemma_all_misses_lose(target: u32, lines: Seq<Seq<u8>>)
    requires
        MIN_TARGET <= target <= MAX_TARGET,
        lines.len() == MAX_ATTEMPTS,
        forall|i: int|
            0 <= i < lines.len() ==> valid_guess_text(#[trigger] lines[i]) && guess_value(lines[i])
                != target,
    ensures
        spec_run(Session::spec_init(target), lines).is_over(),
        spec_run(Session::spec_init(target), lines).spec_status()
            == Status::Over(Outcome::Lost(target)),
{
    lemma_misses_accumulate(Session::spec_init(target), lines);
}

} // verus!
