use vstd::prelude::*;

verus! {

/// How one letter of a guess relates to the secret word.
#[derive(PartialEq, Eq, Structural, Clone, Copy, Debug)]
pub enum Outcome {
    /// The letter stands at this very position of the secret.
    Correct,
    /// The letter occurs in the secret, at some position.
    Present,
    /// The letter does not occur in the secret.
    Absent,
}

/// A five-letter word.
#[derive(Clone, Copy, Debug)]
pub struct Word {
    pub letters: [char; 5],
}

pub open spec fn is_lower_letter(c: char) -> bool {
    'a' <= c && c <= 'z'
}

/// ASCII lower-casing of one character; any other character is kept.
pub open spec fn lower_spec(c: char) -> char {
    if 'A' <= c && c <= 'Z' {
        ((c as u32) + 32) as char
    } else {
        c
    }
}

pub fn to_lower(c: char) -> (r: char)
    ensures
        r == lower_spec(c),
{
    if 'A' <= c && c <= 'Z' {
        ((c as u8) + 32) as char
    } else {
        c
    }
}

pub open spec fn is_ascii_letter(c: char) -> bool {
    ('a' <= c && c <= 'z') || ('A' <= c && c <= 'Z')
}

/// Whether `s` is five ASCII letters, in either case.
pub open spec fn spells_word(s: Seq<char>) -> bool {
    s.len() == 5 && forall|i: int| 0 <= i < 5 ==> is_ascii_letter(#[trigger] s[i])
}

impl Word {
    /// Every letter is a lower-case ASCII letter: the canonical form of a word.
    pub open spec fn wf(&self) -> bool {
        forall|i: int| 0 <= i < 5 ==> is_lower_letter(#[trigger] self.letters@[i])
    }

    /// The letter `c` occurs somewhere in the word.
    pub open spec fn has(&self, c: char) -> bool {
        exists|j: int| 0 <= j < 5 && #[trigger] self.letters@[j] == c
    }

    pub fn contains(&self, c: char) -> (r: bool)
        ensures
            r == self.has(c),
    {
        let mut j: usize = 0;
        while j < 5
            invariant
                j <= 5,
                forall|t: int| 0 <= t < j ==> self.letters@[t] != c,
            decreases 5 - j,
        {
            if self.letters[j] == c {
                return true;
            }
            j = j + 1;
        }
        false
    }

    /// Reads a word from exactly five ASCII letters, in any case, and stores
    /// it in lower case; anything else is not a word.
    pub fn parse(s: &str) -> (r: Option<Word>)
        ensures
            match r {
                Some(w) => spells_word(s@) && w.wf() && forall|i: int|
                    0 <= i < 5 ==> #[trigger] w.letters@[i] == lower_spec(s@[i]),
                None => !spells_word(s@),
            },
    {
        if s.unicode_len() != 5 {
            return None;
        }
        let mut letters: [char; 5] = ['a'; 5];
        let mut i: usize = 0;
        while i < 5
            invariant
                s@.len() == 5,
                i <= 5,
                forall|t: int| 0 <= t < i ==> is_ascii_letter(#[trigger] s@[t]),
                forall|t: int| 0 <= t < i ==> #[trigger] letters@[t] == lower_spec(s@[t]),
                forall|t: int| 0 <= t < i ==> is_lower_letter(#[trigger] letters@[t]),
            decreases 5 - i,
        {
            let c = s.get_char(i);
            if !(('a' <= c && c <= 'z') || ('A' <= c && c <= 'Z')) {
                return None;
            }
            letters[i] = to_lower(c);
            i = i + 1;
        }
        Some(Word { letters })
    }
}

} // verus!
