use vstd::prelude::*;
use crate::feedback::{encode, key_spec, KEY_COUNT};
use crate::word::{lower_spec, Outcome, Word};

verus! {

/// The words a player may guess, and the words that can still be the secret.
pub struct WordSet {
    pub words: Vec<Word>,
    pub answer_words: Vec<Word>,
}

/// How many words of `pool` give key `k` against `guess`.
pub open spec fn count_key(guess: Word, pool: Seq<Word>, k: int) -> nat {
    pool.filter(|w: Word| key_spec(guess, w) == k).len()
}

proof fn lemma_filter_push<A>(s: Seq<A>, x: A, p: spec_fn(A) -> bool)
    ensures
        s.push(x).filter(p) == (if p(x) {
            s.filter(p).push(x)
        } else {
            s.filter(p)
        }),
{
    reveal(Seq::filter);
    assert(s.push(x).drop_last() =~= s);
}

/// Why no suggestion can be made.
#[derive(PartialEq, Eq, Structural, Clone, Copy, Debug)]
pub enum SolveError {
    /// There are several candidates but no word to guess.
    EmptyGuessCorpus,
    /// No candidate is left: the feedback so far contradicts every word.
    ExhaustedCandidatePool,
}

/// Scores of guesses are expected information in millionths of a bit.
pub const MICROBITS_PER_BIT: u64 = 1000000;

/// `b` is the first position of a largest score.
pub open spec fn is_first_max(scores: Seq<u64>, b: int) -> bool {
    &&& 0 <= b < scores.len()
    &&& forall|i: int| 0 <= i < scores.len() ==> #[trigger] scores[i] <= scores[b]
    &&& forall|i: int| 0 <= i < b ==> #[trigger] scores[i] < scores[b]
}

/// The score table: each guess with its score, in corpus order.
pub open spec fn score_table(words: Seq<Word>, scores: Seq<u64>) -> Seq<(Word, u64)> {
    Seq::new(words.len(), |i: int| (words[i], scores[i]))
}

/// What a suggestion over the guesses `words`, the candidates `pool` and the
/// guesses' `scores` is. A single candidate is the answer, with a table of
/// itself at one bit. Otherwise the winner is the first guess of highest
/// score, beside the full score table.
pub open spec fn suggestion_holds(
    words: Seq<Word>,
    pool: Seq<Word>,
    scores: Seq<u64>,
    r: Result<(Word, Seq<(Word, u64)>), SolveError>,
) -> bool {
    match r {
        Ok((best, table)) => if pool.len() == 1 {
            best == pool[0] && table == seq![(pool[0], MICROBITS_PER_BIT)]
        } else {
            &&& pool.len() > 1
            &&& words.len() > 0
            &&& table == score_table(words, scores)
            &&& exists|b: int| #[trigger] is_first_max(scores, b) && best == words[b]
        },
        Err(SolveError::ExhaustedCandidatePool) => pool.len() == 0,
        Err(SolveError::EmptyGuessCorpus) => pool.len() > 1 && words.len() == 0,
    }
}

/// A suggestion result with its table seen as a sequence.
pub open spec fn suggestion_view(r: Result<(Word, Vec<(Word, u64)>), SolveError>) -> Result<
    (Word, Seq<(Word, u64)>),
    SolveError,
> {
    match r {
        Ok((best, table)) => Ok((best, table@)),
        Err(e) => Err(e),
    }
}

/// Whether `w` agrees with the recorded outcome at position `i` of `row`;
/// the row's letter is compared in lower case.
pub open spec fn agrees_at(w: Word, row: Seq<(char, Outcome)>, i: int) -> bool {
    let c = lower_spec(row[i].0);
    match row[i].1 {
        Outcome::Correct => w.letters@[i] == c,
        Outcome::Present => w.has(c) && w.letters@[i] != c,
        Outcome::Absent => !w.has(c),
    }
}

/// `w` spells the guessed letters of `row`, position by position.
pub open spec fn is_the_guess(w: Word, row: Seq<(char, Outcome)>) -> bool {
    forall|i: int| 0 <= i < 5 ==> #[trigger] w.letters@[i] == row[i].0
}

pub open spec fn all_correct(row: Seq<(char, Outcome)>) -> bool {
    forall|i: int| 0 <= i < 5 ==> #[trigger] row[i].1 == Outcome::Correct
}

/// Whether a candidate survives a feedback row: it agrees with every position,
/// and it is not the guess itself when that guess was shown to be wrong.
pub open spec fn consistent(w: Word, row: Seq<(char, Outcome)>) -> bool {
    &&& !(is_the_guess(w, row) && !all_correct(row))
    &&& forall|i: int| 0 <= i < 5 ==> #[trigger] agrees_at(w, row, i)
}

/// The candidates of `pool` that survive `row`, in their order.
pub open spec fn reduced(pool: Seq<Word>, row: Seq<(char, Outcome)>) -> Seq<Word> {
    pool.filter(|w: Word| consistent(w, row))
}

/// Whether `word` is still a possible secret after the feedback `row`.
pub fn consistent_with(word: &Word, row: &[(char, Outcome); 5]) -> (r: bool)
    ensures
        r == consistent(*word, row@),
{
    let mut same = true;
    let mut green = true;
    let mut i: usize = 0;
    while i < 5
        invariant
            i <= 5,
            same == forall|t: int| 0 <= t < i ==> #[trigger] word.letters@[t] == row@[t].0,
            green == forall|t: int| 0 <= t < i ==> #[trigger] row@[t].1 == Outcome::Correct,
        decreases 5 - i,
    {
        if word.letters[i] != row[i].0 {
            same = false;
        }
        if row[i].1 != Outcome::Correct {
            green = false;
        }
        i = i + 1;
    }
    if same && !green {
        return false;
    }
    let mut i: usize = 0;
    while i < 5
        invariant
            i <= 5,
            forall|t: int| 0 <= t < i ==> #[trigger] agrees_at(*word, row@, t),
        decreases 5 - i,
    {
        let c = crate::word::to_lower(row[i].0);
        let ok = match row[i].1 {
            Outcome::Correct => word.letters[i] == c,
            Outcome::Present => word.contains(c) && word.letters[i] != c,
            Outcome::Absent => !word.contains(c),
        };
        assert(ok == agrees_at(*word, row@, i as int));
        if !ok {
            return false;
        }
        i = i + 1;
    }
    true
}

impl WordSet {
    /// The pool split by feedback key: entry `k` counts the candidates that
    /// give key `k` against `guess`.
    pub fn partition(&self, guess: &Word) -> (h: Vec<usize>)
        ensures
            h@.len() == KEY_COUNT,
            forall|k: int|
                0 <= k < KEY_COUNT ==> #[trigger] h@[k] == count_key(*guess, self.answer_words@, k),
    {
        let pool = &self.answer_words;
        let mut h: Vec<usize> = Vec::new();
        let mut k: usize = 0;
        while k < KEY_COUNT
            invariant
                k <= KEY_COUNT,
                h@.len() == k,
                forall|t: int| 0 <= t < k ==> #[trigger] h@[t] == 0,
            decreases KEY_COUNT - k,
        {
            h.push(0);
            k = k + 1;
        }
        let mut j: usize = 0;
        while j < pool.len()
            invariant
                j <= pool@.len(),
                h@.len() == KEY_COUNT,
                forall|t: int|
                    0 <= t < KEY_COUNT ==> #[trigger] h@[t] == count_key(*guess, pool@.take(j as int), t),
            decreases pool@.len() - j,
        {
            let key = encode(guess, &pool[j]) as usize;
            proof {
                assert(pool@.take(j + 1) =~= pool@.take(j as int).push(pool@[j as int]));
                assert forall|t: int| 0 <= t < KEY_COUNT implies count_key(*guess, pool@.take(j + 1), t)
                    == count_key(*guess, pool@.take(j as int), t) + (if t == key { 1int } else { 0 }) by {
                    lemma_filter_push(pool@.take(j as int), pool@[j as int], |w: Word| key_spec(*guess, w) == t);
                }
                pool@.take(j as int).lemma_filter_len(|w: Word| key_spec(*guess, w) == key);
            }
            let c = h[key];
            h.set(key, c + 1);
            j = j + 1;
        }
        assert(pool@.take(pool@.len() as int) =~= pool@);
        h
    }

    /// Keeps only the candidates that are consistent with the feedback row
    /// `grade_result`; the guess corpus is left as it is.
    pub fn reduce(&mut self, grade_result: [(char, Outcome); 5])
        ensures
            final(self).words@ == old(self).words@,
            final(self).answer_words@ == reduced(old(self).answer_words@, grade_result@),
    {
        let mut answer_set: Vec<Word> = Vec::new();
        let mut j: usize = 0;
        while j < self.answer_words.len()
            invariant
                j <= self.answer_words@.len(),
                answer_set@ == reduced(self.answer_words@.take(j as int), grade_result@),
            decreases self.answer_words@.len() - j,
        {
            let word = self.answer_words[j];
            proof {
                assert(self.answer_words@.take(j + 1) =~= self.answer_words@.take(j as int).push(word));
                lemma_filter_push(self.answer_words@.take(j as int), word, |w: Word| consistent(w, grade_result@));
            }
            if consistent_with(&word, &grade_result) {
                answer_set.push(word);
            }
            j = j + 1;
        }
        assert(self.answer_words@.take(self.answer_words@.len() as int) =~= self.answer_words@);
        self.answer_words = answer_set;
    }

    /// Picks the guess to play next. `scores[i]` is the expected information of
    /// `words[i]` against the candidates, in millionths of a bit (computed from
    /// `partition`). Ties go to the earlier guess.
    pub fn suggest(&self, scores: &Vec<u64>) -> (r: Result<(Word, Vec<(Word, u64)>), SolveError>)
        requires
            scores@.len() == self.words@.len(),
        ensures
            suggestion_holds(self.words@, self.answer_words@, scores@, suggestion_view(r)),
    {
        if self.answer_words.len() == 1 {
            let answer = self.answer_words[0];
            let mut table: Vec<(Word, u64)> = Vec::new();
            table.push((answer, MICROBITS_PER_BIT));
            assert(table@ =~= seq![(answer, MICROBITS_PER_BIT)]);
            return Ok((answer, table));
        }
        if self.answer_words.len() == 0 {
            return Err(SolveError::ExhaustedCandidatePool);
        }
        if self.words.len() == 0 {
            return Err(SolveError::EmptyGuessCorpus);
        }
        let mut table: Vec<(Word, u64)> = Vec::new();
        let mut best: usize = 0;
        let mut i: usize = 0;
        while i < self.words.len()
            invariant
                i <= self.words@.len(),
                scores@.len() == self.words@.len(),
                self.words@.len() > 0,
                best < self.words@.len(),
                i == 0 ==> best == 0,
                i > 0 ==> best < i,
                forall|t: int| 0 <= t < i ==> #[trigger] scores@[t] <= scores@[best as int],
                forall|t: int| 0 <= t < best ==> #[trigger] scores@[t] < scores@[best as int],
                table@ == score_table(self.words@.take(i as int), scores@.take(i as int)),
            decreases self.words@.len() - i,
        {
            table.push((self.words[i], scores[i]));
            if scores[i] > scores[best] {
                best = i;
            }
            i = i + 1;
            assert(table@ =~= score_table(self.words@.take(i as int), scores@.take(i as int)));
        }
        assert(self.words@.take(i as int) =~= self.words@);
        assert(scores@.take(i as int) =~= scores@);
        assert(is_first_max(scores@, best as int));
        Ok((self.words[best], table))
    }
}

} // verus!
