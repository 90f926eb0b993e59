use vstd::prelude::*;
use crate::word::{is_ascii_letter, lower_spec, spells_word, Word};

verus! {

pub open spec fn is_blank_char(c: char) -> bool {
    c == ' ' || c == '\t' || c == '\r' || c == '\n'
}

/// The line is empty or holds only whitespace.
pub open spec fn is_blank(s: Seq<char>) -> bool {
    forall|i: int| 0 <= i < s.len() ==> is_blank_char(#[trigger] s[i])
}

/// The line holds a word at `lo`, with only whitespace around it.
pub open spec fn word_at(s: Seq<char>, lo: int) -> bool {
    &&& 0 <= lo && lo + 5 <= s.len()
    &&& forall|i: int| 0 <= i < lo ==> is_blank_char(#[trigger] s[i])
    &&& forall|i: int| lo + 5 <= i < s.len() ==> is_blank_char(#[trigger] s[i])
    &&& spells_word(s.subrange(lo, lo + 5))
}

/// The word of a line, when the line is one word between whitespace.
pub open spec fn line_word(s: Seq<char>) -> Option<Word> {
    if exists|lo: int| #[trigger] word_at(s, lo) {
        let lo = choose|lo: int| #[trigger] word_at(s, lo);
        Some(
            Word { letters: [lower_spec(s[lo]), lower_spec(s[lo + 1]), lower_spec(s[lo + 2]), lower_spec(s[lo + 3]), lower_spec(s[lo + 4])] },
        )
    } else {
        None
    }
}

proof fn lemma_word_at_unique(s: Seq<char>, a: int, b: int)
    requires
        word_at(s, a),
        word_at(s, b),
    ensures
        a == b,
{
    if a < b {
        assert(is_blank_char(s[a]));
        assert(is_ascii_letter(s.subrange(a, a + 5)[0]));
    } else if b < a {
        assert(is_blank_char(s[b]));
        assert(is_ascii_letter(s.subrange(b, b + 5)[0]));
    }
}

fn is_blank_exec(c: char) -> (r: bool)
    ensures
        r == is_blank_char(c),
{
    c == ' ' || c == '\t' || c == '\r' || c == '\n'
}

/// Reads the word on one line of a word list: surrounding whitespace is
/// dropped, and the rest must be five ASCII letters, stored in lower case.
pub fn parse_line(s: &str) -> (r: Option<Word>)
    ensures
        r == line_word(s@),
        r is Some ==> r->Some_0.wf(),
{
    let n = s.unicode_len();
    let mut lo: usize = 0;
    while lo < n && is_blank_exec(s.get_char(lo))
        invariant
            n == s@.len(),
            lo <= n,
            forall|i: int| 0 <= i < lo ==> is_blank_char(#[trigger] s@[i]),
        decreases n - lo,
    {
        lo = lo + 1;
    }
    let mut hi: usize = n;
    while hi > lo && is_blank_exec(s.get_char(hi - 1))
        invariant
            n == s@.len(),
            lo <= hi <= n,
            forall|i: int| 0 <= i < lo ==> is_blank_char(#[trigger] s@[i]),
            lo < n ==> !is_blank_char(s@[lo as int]),
            forall|i: int| hi <= i < n ==> is_blank_char(#[trigger] s@[i]),
        decreases hi - lo,
    {
        hi = hi - 1;
    }
    if hi - lo != 5 {
        proof {
            if exists|a: int| #[trigger] word_at(s@, a) {
                let a = choose|a: int| #[trigger] word_at(s@, a);
                assert(is_ascii_letter(s@.subrange(a, a + 5)[0]));
                assert(is_ascii_letter(s@.subrange(a, a + 5)[4]));
                if lo < a {
                    assert(!is_blank_char(s@[lo as int]));
                }
                if a < lo {
                    assert(is_blank_char(s@[a]));
                }
                if hi < a + 5 {
                    assert(!is_blank_char(s@[hi - 1]));
                }
                if a + 5 < hi {
                    assert(is_blank_char(s@[a + 4]));
                }
            }
        }
        return None;
    }
    let mut letters: [char; 5] = ['a'; 5];
    let mut i: usize = 0;
    while i < 5
        invariant
            n == s@.len(),
            hi == lo + 5,
            hi <= n,
            i <= 5,
            forall|t: int| 0 <= t < lo ==> is_blank_char(#[trigger] s@[t]),
            !is_blank_char(s@[lo as int]),
            forall|t: int| hi <= t < n ==> is_blank_char(#[trigger] s@[t]),
            forall|t: int| 0 <= t < i ==> is_ascii_letter(#[trigger] s@[lo + t]),
            forall|t: int| 0 <= t < i ==> #[trigger] letters@[t] == lower_spec(s@[lo + t]),
            forall|t: int| 0 <= t < i ==> crate::word::is_lower_letter(#[trigger] letters@[t]),
        decreases 5 - i,
    {
        let c = s.get_char(lo + i);
        if !(('a' <= c && c <= 'z') || ('A' <= c && c <= 'Z')) {
            proof {
                if exists|a: int| #[trigger] word_at(s@, a) {
                    let a = choose|a: int| #[trigger] word_at(s@, a);
                    assert(is_ascii_letter(s@.subrange(a, a + 5)[0]));
                    assert(is_ascii_letter(s@.subrange(a, a + 5)[4]));
                    if lo < a {
                        assert(!is_blank_char(s@[lo as int]));
                    }
                    if a < lo {
                        assert(is_blank_char(s@[a]));
                    }
                    assert(a == lo);
                    assert(is_ascii_letter(s@.subrange(a, a + 5)[i as int]));
                }
            }
            return None;
        }
        letters[i] = crate::word::to_lower(c);
        i = i + 1;
    }
    let w = Word { letters };
    proof {
        assert forall|t: int| 0 <= t < 5 implies is_ascii_letter(#[trigger] s@.subrange(lo as int, hi as int)[t]) by {
            assert(is_ascii_letter(s@[lo + t]));
        }
        assert(word_at(s@, lo as int));
        let a = choose|a: int| #[trigger] word_at(s@, a);
        lemma_word_at_unique(s@, a, lo as int);
        let expect = line_word(s@)->Some_0;
        assert(w.letters@ =~= expect.letters@);
        assert(w.letters =~= expect.letters);
    }
    Some(w)
}

/// The words of a word list, in order: blank lines and malformed lines give none.
pub open spec fn corpus_words(lines: Seq<String>) -> Seq<Word>
    decreases lines.len(),
{
    if lines.len() == 0 {
        Seq::empty()
    } else {
        let rest = corpus_words(lines.drop_last());
        match line_word(lines.last()@) {
            Some(w) => rest.push(w),
            None => rest,
        }
    }
}

/// How many lines of a word list are neither blank nor a word.
pub open spec fn malformed_count(lines: Seq<String>) -> nat
    decreases lines.len(),
{
    if lines.len() == 0 {
        0
    } else {
        malformed_count(lines.drop_last()) + if line_word(lines.last()@) is None && !is_blank(
            lines.last()@,
        ) {
            1nat
        } else {
            0nat
        }
    }
}

fn blank_line(s: &str) -> (r: bool)
    ensures
        r == is_blank(s@),
{
    let n = s.unicode_len();
    let mut i: usize = 0;
    while i < n
        invariant
            n == s@.len(),
            i <= n,
            forall|t: int| 0 <= t < i ==> is_blank_char(#[trigger] s@[t]),
        decreases n - i,
    {
        if !is_blank_exec(s.get_char(i)) {
            return false;
        }
        i = i + 1;
    }
    true
}

/// Reads a word list given line by line. Blank lines are skipped; a line that
/// is not a word is skipped and counted. Returns the words and that count.
pub fn load_words(lines: &Vec<String>) -> (r: (Vec<Word>, usize))
    ensures
        r.0@ == corpus_words(lines@),
        r.1 == malformed_count(lines@),
        forall|i: int| 0 <= i < r.0@.len() ==> (#[trigger] r.0@[i]).wf(),
{
    let mut words: Vec<Word> = Vec::new();
    let mut skipped: usize = 0;
    let mut i: usize = 0;
    while i < lines.len()
        invariant
            i <= lines@.len(),
            words@ == corpus_words(lines@.take(i as int)),
            skipped == malformed_count(lines@.take(i as int)),
            skipped <= i,
            forall|t: int| 0 <= t < words@.len() ==> (#[trigger] words@[t]).wf(),
        decreases lines@.len() - i,
    {
        proof {
            assert(lines@.take(i + 1).drop_last() =~= lines@.take(i as int));
        }
        let line = lines[i].as_str();
        match parse_line(line) {
            Some(w) => {
                words.push(w);
            },
            None => {
                if !blank_line(line) {
                    skipped = skipped + 1;
                }
            },
        }
        i = i + 1;
    }
    assert(lines@.take(i as int) =~= lines@);
    (words, skipped)
}

} // verus!
