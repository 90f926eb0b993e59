use wordle_solver::feedback::{encode, grade, KEY_COUNT};
use wordle_solver::solver::{consistent_with, SolveError, WordSet, MICROBITS_PER_BIT};
use wordle_solver::word::{Outcome, Word};

fn w(s: &str) -> Word {
    Word::parse(s).unwrap()
}

fn words(list: &[&str]) -> Vec<Word> {
    list.iter().map(|s| w(s)).collect()
}

fn spell(word: &Word) -> String {
    word.letters.iter().collect()
}

fn entropy_bits(h: &[usize]) -> f64 {
    let n: usize = h.iter().sum();
    let mut bits = 0.0;
    for &c in h {
        if c > 0 {
            let p = c as f64 / n as f64;
            bits += p * (1.0 / p).log2();
        }
    }
    bits
}

fn scores_of(set: &WordSet) -> Vec<u64> {
    set.words
        .iter()
        .map(|g| (entropy_bits(&set.partition(g)) * MICROBITS_PER_BIT as f64).round() as u64)
        .collect()
}

#[test]
fn encode_marks_exact_present_and_absent() {
    assert_eq!(encode(&w("apple"), &w("apple")), 242);
    assert_eq!(encode(&w("apple"), &w("apply")), 80);
    assert_eq!(encode(&w("apple"), &w("angle")), 218);
    assert_eq!(encode(&w("abcde"), &w("fghij")), 0);
    // every letter present elsewhere: one in each position
    assert_eq!(encode(&w("abcde"), &w("bcdea")), 121);
}

#[test]
fn encode_does_not_consume_repeated_letters() {
    // both p's of the guess count although the candidate has a single p
    assert_eq!(encode(&w("pppxx"), &w("apzzz")), 1 + 2 * 3 + 9);
}

#[test]
fn grade_apple_against_apply() {
    let row = grade(&w("apple"), &w("apply"));
    assert_eq!(row[0], ('a', Outcome::Correct));
    assert_eq!(row[3], ('l', Outcome::Correct));
    assert_eq!(row[4], ('e', Outcome::Absent));
    let row = grade(&w("lapse"), &w("apple"));
    assert_eq!(row[0], ('l', Outcome::Present));
    assert_eq!(row[1], ('a', Outcome::Present));
    assert_eq!(row[2], ('p', Outcome::Correct));
    assert_eq!(row[3], ('s', Outcome::Absent));
    assert_eq!(row[4], ('e', Outcome::Correct));
}

#[test]
fn partition_of_concrete_pool_has_three_buckets() {
    let set = WordSet { words: words(&["apple"]), answer_words: words(&["apple", "apply", "angle"]) };
    let h = set.partition(&w("apple"));
    assert_eq!(h.len(), KEY_COUNT);
    assert_eq!(h[242], 1);
    assert_eq!(h[80], 1);
    assert_eq!(h[218], 1);
    assert_eq!(h.iter().filter(|&&c| c > 0).count(), 3);
    let bits = entropy_bits(&h);
    assert!(bits > 0.0);
    assert!(bits <= 3f64.log2() + 1e-12);
}

#[test]
fn reduce_keeps_only_apply() {
    let mut set = WordSet { words: words(&["apple"]), answer_words: words(&["apple", "apply", "angle"]) };
    let row = [
        ('a', Outcome::Correct),
        ('p', Outcome::Correct),
        ('p', Outcome::Correct),
        ('l', Outcome::Correct),
        ('e', Outcome::Absent),
    ];
    set.reduce(row);
    assert_eq!(set.answer_words.len(), 1);
    assert_eq!(spell(&set.answer_words[0]), "apply");
    assert_eq!(set.words.len(), 1);
}

#[test]
fn reduce_reads_upper_case_feedback_letters() {
    let mut set = WordSet { words: vec![], answer_words: words(&["apple", "apply", "angle"]) };
    set.reduce(grade(&w("apple"), &w("apply")).map(|(c, o)| (c.to_ascii_uppercase(), o)));
    assert_eq!(set.answer_words.len(), 1);
    assert_eq!(spell(&set.answer_words[0]), "apply");
}

#[test]
fn reduce_never_grows_the_pool() {
    let pool = words(&["crane", "slate", "trace", "react", "cater", "apple"]);
    for guess in ["crane", "apple", "zzzzz", "react"] {
        for secret in ["crane", "trace", "apple"] {
            let mut set = WordSet { words: vec![], answer_words: pool.clone() };
            set.reduce(grade(&w(guess), &w(secret)));
            assert!(set.answer_words.len() <= pool.len());
        }
    }
}

#[test]
fn reduce_keeps_the_secret() {
    let pool = words(&["crane", "slate", "trace", "react", "cater", "apple", "angle"]);
    for guess in ["crane", "apple", "zzzzz", "react", "eerie"] {
        for secret in ["crane", "trace", "apple", "angle"] {
            let mut set = WordSet { words: vec![], answer_words: pool.clone() };
            set.reduce(grade(&w(guess), &w(secret)));
            assert!(set.answer_words.iter().any(|x| spell(x) == secret), "{guess} {secret}");
        }
    }
}

#[test]
fn present_letter_at_its_own_position_rules_a_word_out() {
    let row = [
        ('a', Outcome::Present),
        ('x', Outcome::Absent),
        ('y', Outcome::Absent),
        ('z', Outcome::Absent),
        ('q', Outcome::Absent),
    ];
    assert!(!consistent_with(&w("apple"), &row));
    assert!(consistent_with(&w("llama"), &row));
}

#[test]
fn winning_guess_stays_a_candidate() {
    let row = grade(&w("apple"), &w("apple"));
    assert!(consistent_with(&w("apple"), &row));
}

#[test]
fn suggest_table_lists_every_guess() {
    let set = WordSet {
        words: words(&["apple", "angle", "crane", "zzzzz"]),
        answer_words: words(&["apple", "apply", "angle"]),
    };
    let scores = scores_of(&set);
    let (best, table) = set.suggest(&scores).unwrap();
    assert_eq!(table.len(), 4);
    for (i, (g, s)) in table.iter().enumerate() {
        assert_eq!(spell(g), spell(&set.words[i]));
        assert_eq!(*s, scores[i]);
    }
    // apple and angle both split the pool into three; apple comes first
    assert_eq!(spell(&best), "apple");
    assert_eq!(table[3].1, 0);
}

#[test]
fn suggest_single_candidate_is_returned() {
    let set = WordSet { words: words(&["crane", "slate"]), answer_words: words(&["angle"]) };
    let (best, table) = set.suggest(&vec![5, 7]).unwrap();
    assert_eq!(spell(&best), "angle");
    assert_eq!(table.len(), 1);
    assert_eq!(spell(&table[0].0), "angle");
    assert_eq!(table[0].1, MICROBITS_PER_BIT);
    let empty = WordSet { words: vec![], answer_words: words(&["angle"]) };
    assert_eq!(spell(&empty.suggest(&vec![]).unwrap().0), "angle");
}

#[test]
fn suggest_is_deterministic() {
    let set = WordSet {
        words: words(&["crane", "slate", "apple", "angle", "trace"]),
        answer_words: words(&["crane", "trace", "react", "apple", "angle"]),
    };
    let scores = scores_of(&set);
    let (b1, t1) = set.suggest(&scores).unwrap();
    let (b2, t2) = set.suggest(&scores_of(&set)).unwrap();
    assert_eq!(spell(&b1), spell(&b2));
    assert_eq!(t1.len(), t2.len());
    for i in 0..t1.len() {
        assert_eq!(spell(&t1[i].0), spell(&t2[i].0));
        assert_eq!(t1[i].1, t2[i].1);
    }
}

#[test]
fn suggest_ties_go_to_the_first_guess() {
    let set = WordSet { words: words(&["crane", "slate", "trace"]), answer_words: words(&["crane", "slate"]) };
    let (best, _) = set.suggest(&vec![3, 9, 9]).unwrap();
    assert_eq!(spell(&best), "slate");
    let (best, _) = set.suggest(&vec![0, 0, 0]).unwrap();
    assert_eq!(spell(&best), "crane");
}

#[test]
fn suggest_reports_empty_guesses_and_empty_pool() {
    let set = WordSet { words: vec![], answer_words: words(&["crane", "slate"]) };
    assert_eq!(set.suggest(&vec![]).unwrap_err(), SolveError::EmptyGuessCorpus);
    let set = WordSet { words: words(&["crane"]), answer_words: vec![] };
    assert_eq!(set.suggest(&vec![1]).unwrap_err(), SolveError::ExhaustedCandidatePool);
}
