use vstd::prelude::*;
use crate::word::{Outcome, Word};

verus! {

/// Number of distinct feedback keys: one ternary digit for each of five positions.
pub const KEY_COUNT: usize = 243;

/// The ternary digit of position `i` when `guess` is laid against `candidate`:
/// two for an exact match, one for a letter found elsewhere, zero otherwise.
pub open spec fn digit_spec(guess: Word, candidate: Word, i: int) -> nat {
    if guess.letters@[i] == candidate.letters@[i] {
        2
    } else if candidate.has(guess.letters@[i]) {
        1
    } else {
        0
    }
}

/// The feedback key of `guess` against `candidate`; position `i` has weight `3^i`.
pub open spec fn key_spec(guess: Word, candidate: Word) -> nat {
    digit_spec(guess, candidate, 0) + 3 * digit_spec(guess, candidate, 1) + 9 * digit_spec(
        guess,
        candidate,
        2,
    ) + 27 * digit_spec(guess, candidate, 3) + 81 * digit_spec(guess, candidate, 4)
}

/// The outcome of position `i` when `guess` is graded against `secret`.
pub open spec fn outcome_spec(guess: Word, secret: Word, i: int) -> Outcome {
    if guess.letters@[i] == secret.letters@[i] {
        Outcome::Correct
    } else if secret.has(guess.letters@[i]) {
        Outcome::Present
    } else {
        Outcome::Absent
    }
}

/// The feedback row of `guess` against `secret`: each letter of the guess with its outcome.
pub open spec fn grade_spec(guess: Word, secret: Word) -> Seq<(char, Outcome)> {
    Seq::new(5, |i: int| (guess.letters@[i], outcome_spec(guess, secret, i)))
}

fn digit(guess: &Word, candidate: &Word, i: usize) -> (d: u32)
    requires
        i < 5,
    ensures
        d == digit_spec(*guess, *candidate, i as int),
{
    if guess.letters[i] == candidate.letters[i] {
        2
    } else if candidate.contains(guess.letters[i]) {
        1
    } else {
        0
    }
}

/// The feedback key of `guess` against `candidate`, a number below `KEY_COUNT`.
pub fn encode(guess: &Word, candidate: &Word) -> (k: u32)
    ensures
        k == key_spec(*guess, *candidate),
        k < KEY_COUNT,
{
    digit(guess, candidate, 0) + 3 * digit(guess, candidate, 1) + 9 * digit(guess, candidate, 2)
        + 27 * digit(guess, candidate, 3) + 81 * digit(guess, candidate, 4)
}

/// Grades `guess` against `secret`: a position is `Correct` when the letters
/// agree there, else `Present` when the secret holds the letter anywhere,
/// else `Absent`.
pub fn grade(guess: &Word, secret: &Word) -> (r: [(char, Outcome); 5])
    ensures
        r@ == grade_spec(*guess, *secret),
{
    let mut r: [(char, Outcome); 5] = [(' ', Outcome::Absent); 5];
    let mut i: usize = 0;
    while i < 5
        invariant
            i <= 5,
            forall|t: int| 0 <= t < i ==> #[trigger] r@[t] == grade_spec(*guess, *secret)[t],
        decreases 5 - i,
    {
        let c = guess.letters[i];
        let o = if c == secret.letters[i] {
            Outcome::Correct
        } else if secret.contains(c) {
            Outcome::Present
        } else {
            Outcome::Absent
        };
        r[i] = (c, o);
        i = i + 1;
    }
    assert(r@ =~= grade_spec(*guess, *secret));
    r
}

} // verus!
