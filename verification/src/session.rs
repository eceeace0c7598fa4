//! One game session: a secret target, an attempt counter, and the rules
//! that answer each line of input.
//!
//! The session is a state machine. Each submitted line is parsed as a
//! guess; a line that is not a number is answered without consuming an
//! attempt, a parsed guess consumes one and is compared to the target.
//! The session ends when a guess matches the target (a win) or when
//! `MAX_ATTEMPTS` parsed guesses have all missed (a loss, revealing the
//! target).

use vstd::prelude::*;
use crate::parse::{guess_value, parse_guess, valid_guess_text};

verus! {

/// Number of parsed guesses a session allows before it is lost.
pub const MAX_ATTEMPTS: u32 = 10;

/// Smallest value the target can take.
pub const MIN_TARGET: u32 = 1;

/// Largest value the target can take.
pub const MAX_TARGET: u32 = 100;

/// The answer to one submitted line.
#[derive(Clone, Copy, Debug, PartialEq, Eq, Structural)]
pub enum Feedback {
    /// The line did not parse as a number; no attempt was consumed.
    NotANumber,
    /// The guessed value is below the target.
    TooSmall(u32),
    /// The guessed value is above the target.
    TooBig(u32),
    /// The guessed value equals the target: the session is won.
    Correct(u32),
}

/// The terminal result of a session.
#[derive(Clone, Copy, Debug, PartialEq, Eq, Structural)]
pub enum Outcome {
    /// The target was guessed; carries the number of attempts taken.
    Won(u32),
    /// The attempt limit was reached; carries the revealed target.
    Lost(u32),
}

/// Whether a session still accepts guesses or has ended.
#[derive(Clone, Copy, Debug, PartialEq, Eq, Structural)]
pub enum Status {
    /// The session still accepts guesses.
    InProgress,
    /// The session has ended with the given outcome.
    Over(Outcome),
}

/// One game session.
#[derive(Clone, Copy, Debug)]
pub struct Session {
    /// The secret value to guess, in `MIN_TARGET ..= MAX_TARGET`.
    pub target: u32,
    /// How many parsed guesses have been consumed.
    pub attempts: u32,
    /// Whether a guess has matched the target.
    pub won: bool,
}

impl Session {
    /// A session is well formed when its target is in range, its attempt
    /// count is within the limit, and a win consumed at least one attempt.
    pub open spec fn wf(self) -> bool {
        &&& MIN_TARGET <= self.target <= MAX_TARGET
        &&& self.attempts <= MAX_ATTEMPTS
        &&& (self.won ==> 1 <= self.attempts)
    }

    /// A session is over once it is won or its attempts are used up.
    pub open spec fn is_over(self) -> bool {
        self.won || self.attempts >= MAX_ATTEMPTS
    }

    /// The outcome of a finished session: a win carries the attempt count,
    /// a loss reveals the target.
    pub open spec fn spec_outcome(self) -> Outcome {
        if self.won {
            Outcome::Won(self.attempts)
        } else {
            Outcome::Lost(self.target)
        }
    }

    /// The status a finished or running session reports.
    pub open spec fn spec_status(self) -> Status {
        if self.is_over() {
            Status::Over(self.spec_outcome())
        } else {
            Status::InProgress
        }
    }

    /// A fresh session on the given target.
    pub open spec fn spec_init(target: u32) -> Session {
        Session { target, attempts: 0, won: false }
    }

    /// The session after one line: a line that is not a guess changes
    /// nothing; a parsed guess consumes an attempt and wins on a match.
    pub open spec fn spec_step(self, line: Seq<u8>) -> Session {
        if !valid_guess_text(line) {
            self
        } else {
            Session {
                target: self.target,
                attempts: (self.attempts + 1) as u32,
                won: guess_value(line) == self.target,
            }
        }
    }

    /// The feedback one line earns: not a number, or the comparison of the
    /// parsed guess against the target.
    pub open spec fn spec_feedback(self, line: Seq<u8>) -> Feedback {
        if !valid_guess_text(line) {
            Feedback::NotANumber
        } else {
            let g = guess_value(line);
            if g < self.target {
                Feedback::TooSmall(g)
            } else if g > self.target {
                Feedback::TooBig(g)
            } else {
                Feedback::Correct(g)
            }
        }
    }

    /// Starts a session on the given target.
    pub fn new(target: u32) -> (s: Session)
        requires
            MIN_TARGET <= target <= MAX_TARGET,
        ensures
            s == Session::spec_init(target),
            s.wf(),
            !s.is_over(),
    {
        Session { target, attempts: 0, won: false }
    }

    /// Starts a session on a target drawn uniformly at random from
    /// `MIN_TARGET ..= MAX_TARGET`.
    pub fn new_random() -> (s: Session)
        ensures
            s.wf(),
            !s.is_over(),
            s.attempts == 0,
            !s.won,
            MIN_TARGET <= s.target <= MAX_TARGET,
    {
        Session::new(draw_in_range(MIN_TARGET, MAX_TARGET))
    }

    /// Submits one line of input and answers it: `NotANumber` leaves the
    /// session unchanged; a parsed guess consumes an attempt and is
    /// compared to the target.
    pub fn submit(&mut self, line: &[u8]) -> (fb: Feedback)
        requires
            old(self).wf(),
            !old(self).is_over(),
        ensures
            final(self).wf(),
            *final(self) == old(self).spec_step(line@),
            fb == old(self).spec_feedback(line@),
    {
        match parse_guess(line) {
            None => Feedback::NotANumber,
            Some(g) => {
                self.attempts = self.attempts + 1;
                if g < self.target {
                    Feedback::TooSmall(g)
                } else if g > self.target {
                    Feedback::TooBig(g)
                } else {
                    self.won = true;
                    Feedback::Correct(g)
                }
            },
        }
    }

    /// Reports whether the session is still running, won, or lost.
    pub fn status(&self) -> (st: Status)
        ensures
            st == self.spec_status(),
    {
        if self.won {
            Status::Over(Outcome::Won(self.attempts))
        } else if self.attempts >= MAX_ATTEMPTS {
            Status::Over(Outcome::Lost(self.target))
        } else {
            Status::InProgress
        }
    }

    /// Reports whether the session has ended.
    pub fn is_finished(&self) -> (r: bool)
        ensures
            r == self.is_over(),
    {
        self.won || self.attempts >= MAX_ATTEMPTS
    }

    /// Reports whether the session is well formed.
    pub fn is_well_formed(&self) -> (r: bool)
        ensures
            r == self.wf(),
    {
        MIN_TARGET <= self.target && self.target <= MAX_TARGET && self.attempts <= MAX_ATTEMPTS
            && (!self.won || 1 <= self.attempts)
    }

    /// The secret target of this session.
    pub fn target(&self) -> (r: u32)
        ensures
            r == self.target,
    {
        self.target
    }

    /// How many parsed guesses the session has consumed.
    pub fn attempts(&self) -> (r: u32)
        ensures
            r == self.attempts,
    {
        self.attempts
    }
}

/// The views of a list of input lines.
pub open spec fn views_of(lines: Seq<Vec<u8>>) -> Seq<Seq<u8>> {
    lines.map_values(|l: Vec<u8>| l@)
}

/// The session left after feeding lines in order, stopping once it is over.
pub open spec fn spec_run(s: Session, lines: Seq<Seq<u8>>) -> Session
    decreases lines.len(),
{
    if lines.len() == 0 || s.is_over() {
        s
    } else {
        spec_run(s.spec_step(lines[0]), lines.drop_first())
    }
}

/// The feedback each fed line earns, in order, stopping once the session
/// is over.
pub open spec fn spec_transcript(s: Session, lines: Seq<Seq<u8>>) -> Seq<Feedback>
    decreases lines.len(),
{
    if lines.len() == 0 || s.is_over() {
        Seq::empty()
    } else {
        seq![s.spec_feedback(lines[0])] + spec_transcript(s.spec_step(lines[0]), lines.drop_first())
    }
}

/// Plays one whole session on the given target against a scripted list of
/// input lines: lines are fed in order until the session ends or the
/// script runs out. Returns the feedback to each consumed line and the
/// final status.
pub fn play_script(target: u32, lines: &Vec<Vec<u8>>) -> (r: (Vec<Feedback>, Status))
    requires
        MIN_TARGET <= target <= MAX_TARGET,
    ensures
        r.0@ == spec_transcript(Session::spec_init(target), views_of(lines@)),
        r.1 == spec_run(Session::spec_init(target), views_of(lines@)).spec_status(),
{
    let ghost gl = views_of(lines@);
    let mut s = Session::new(target);
    let mut fbs: Vec<Feedback> = Vec::new();
    let mut i: usize = 0;
    let mut done = false;
    proof {
        assert(gl.skip(0) =~= gl);
        assert(fbs@ + spec_transcript(s, gl) =~= spec_transcript(s, gl));
    }
    while i < lines.len() && !done
        invariant
            s.wf(),
            0 <= i <= lines.len(),
            gl == views_of(lines@),
            gl.len() == lines@.len(),
            done == s.is_over(),
            spec_run(s, gl.skip(i as int)) == spec_run(Session::spec_init(target), gl),
            fbs@ + spec_transcript(s, gl.skip(i as int)) == spec_transcript(
                Session::spec_init(target),
                gl,
            ),
        decreases lines.len() - i,
    {
        proof {
            assert(gl[i as int] == lines@[i as int]@);
            assert(gl.skip(i as int)[0] == gl[i as int]);
            assert(gl.skip(i as int).drop_first() =~= gl.skip(i as int + 1));
        }
        let ghost pre = s;
        let fb = s.submit(lines[i].as_slice());
        fbs.push(fb);
        proof {
            assert(spec_run(pre, gl.skip(i as int)) == spec_run(s, gl.skip(i as int + 1)));
            assert(spec_transcript(pre, gl.skip(i as int)) == seq![fb] + spec_transcript(
                s,
                gl.skip(i as int + 1),
            ));
            assert(fbs@ =~= fbs@.drop_last() + seq![fb]);
            assert(fbs@ + spec_transcript(s, gl.skip(i as int + 1)) =~= fbs@.drop_last() + (
            seq![fb] + spec_transcript(s, gl.skip(i as int + 1))));
        }
        i += 1;
        done = s.is_finished();
    }
    proof {
        if i == lines.len() {
            assert(gl.skip(i as int) =~= Seq::<Seq<u8>>::empty());
        }
        assert(spec_run(s, gl.skip(i as int)) == s);
        assert(spec_transcript(s, gl.skip(i as int)) =~= Seq::<Feedback>::empty());
        assert(fbs@ + Seq::<Feedback>::empty() =~= fbs@);
    }
    let st = s.status();
    (fbs, st)
}

/// Relies on `rand::Rng::gen_range` over `rand::thread_rng()`: a draw from
/// the inclusive range `lo ..= hi`, which is nonempty when `lo <= hi`, is
/// uniform over it and in particular falls within it.
#[verifier::external_body]
fn draw_in_range(lo: u32, hi: u32) -> (r: u32)
    requires
        lo <= hi,
    ensures
        lo <= r <= hi,
{
    rand::Rng::gen_range(&mut rand::thread_rng(), lo..=hi)
}

} // verus!
