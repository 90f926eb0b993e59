use vstd::prelude::*;
use crate::feedback::grade_spec;
use crate::solver::{
    consistent, is_first_max, reduced, suggestion_holds, SolveError, MICROBITS_PER_BIT,
};
use crate::word::{Outcome, Word};

verus! {

/// Reducing a pool by any feedback row never makes it larger.
pub proof fn reduce_never_grows(pool: Seq<Word>, row: Seq<(char, Outcome)>)
    ensures
        reduced(pool, row).len() <= pool.len(),
{
    pool.lemma_filter_len(|w: Word| consistent(w, row));
}

/// A secret is consistent with the feedback row it gives to any guess.
pub proof fn secret_fits_its_grade(guess: Word, secret: Word)
    requires
        guess.wf(),
        secret.wf(),
    ensures
        consistent(secret, grade_spec(guess, secret)),
{
    let row = grade_spec(guess, secret);
    assert forall|i: int| 0 <= i < 5 implies #[trigger] crate::solver::agrees_at(secret, row, i) by {
        assert(guess.wf() ==> crate::word::is_lower_letter(guess.letters@[i]));
        if row[i].1 == Outcome::Present {
            assert(secret.has(guess.letters@[i]));
        }
    }
    if crate::solver::is_the_guess(secret, row) {
        assert forall|i: int| 0 <= i < 5 implies #[trigger] row[i].1 == Outcome::Correct by {
            assert(secret.letters@[i] == row[i].0);
        }
    }
}

/// Reducing a pool that holds the secret by the feedback the secret gives to
/// a guess keeps the secret in the pool.
pub proof fn reduce_keeps_secret(pool: Seq<Word>, guess: Word, secret: Word)
    requires
        guess.wf(),
        secret.wf(),
        pool.contains(secret),
    ensures
        reduced(pool, grade_spec(guess, secret)).contains(secret),
{
    secret_fits_its_grade(guess, secret);
    let i = choose|i: int| 0 <= i < pool.len() && pool[i] == secret;
    pool.lemma_filter_contains(|w: Word| consistent(w, grade_spec(guess, secret)), i);
}

/// With more than one candidate, the score table names every guess exactly
/// once, in corpus order, and nothing else.
pub proof fn table_covers_every_guess(
    words: Seq<Word>,
    pool: Seq<Word>,
    scores: Seq<u64>,
    best: Word,
    table: Seq<(Word, u64)>,
)
    requires
        pool.len() > 1,
        suggestion_holds(words, pool, scores, Ok((best, table))),
    ensures
        table.map_values(|e: (Word, u64)| e.0) == words,
        table.map_values(|e: (Word, u64)| e.0).to_set() == words.to_set(),
{
    assert(table.map_values(|e: (Word, u64)| e.0) =~= words);
}

/// With a single candidate, that candidate is suggested, whatever the guesses
/// and their scores.
pub proof fn single_candidate_is_suggested(
    words: Seq<Word>,
    pool: Seq<Word>,
    scores: Seq<u64>,
    r: Result<(Word, Seq<(Word, u64)>), SolveError>,
)
    requires
        pool.len() == 1,
        suggestion_holds(words, pool, scores, r),
    ensures
        r == Ok::<(Word, Seq<(Word, u64)>), SolveError>(
            (pool[0], seq![(pool[0], MICROBITS_PER_BIT)]),
        ),
{
}

/// The same inputs always give the same suggestion: the winner and the table
/// are determined by the guesses, the candidates and the scores.
pub proof fn suggestion_is_determined(
    words: Seq<Word>,
    pool: Seq<Word>,
    scores: Seq<u64>,
    r1: Result<(Word, Seq<(Word, u64)>), SolveError>,
    r2: Result<(Word, Seq<(Word, u64)>), SolveError>,
)
    requires
        suggestion_holds(words, pool, scores, r1),
        suggestion_holds(words, pool, scores, r2),
    ensures
        r1 == r2,
{
    if pool.len() > 1 && words.len() > 0 {
        let (best1, t1) = r1->Ok_0;
        let (best2, t2) = r2->Ok_0;
        let b1 = choose|b: int| #[trigger] is_first_max(scores, b) && best1 == words[b];
        let b2 = choose|b: int| #[trigger] is_first_max(scores, b) && best2 == words[b];
        if b1 < b2 {
            assert(scores[b1] < scores[b2]);
        } else if b2 < b1 {
            assert(scores[b2] < scores[b1]);
        }
    }
}

} // verus!
