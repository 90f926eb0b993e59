use vstd::prelude::*;
use crate::feedback::{grade, grade_spec};
use crate::solver::{all_correct, reduced, WordSet};
use crate::word::{is_ascii_letter, lower_spec, to_lower, Outcome, Word};

verus! {

#[derive(PartialEq, Eq, Structural, Clone, Copy, Debug)]
pub enum GameResult {
    Win,
    Lose,
}

/// What the player does to the board.
#[derive(PartialEq, Eq, Structural, Clone, Copy, Debug)]
pub enum Message {
    EnterText(char),
    DeleteText,
    Enter,
    GameOver(GameResult),
    ToggleSuggest,
}

/// The state of one letter square.
#[derive(PartialEq, Eq, Structural, Clone, Copy, Debug)]
pub enum Tile {
    /// A square of a row that is not in play.
    Idle,
    /// A square of the row being typed.
    Active,
    /// A square of a graded row.
    Marked(Outcome),
}

/// One row of the board: its letters, its squares and the typing position.
#[derive(Clone, Copy, Debug)]
pub struct Entry {
    pub chars: [char; 5],
    pub tiles: [Tile; 5],
    pub is_active: bool,
    pub cursor: usize,
}

impl Default for Entry {
    fn default() -> (r: Entry)
        ensures
            r.chars@ == seq![' '; 5],
            r.tiles@ == seq![Tile::Idle; 5],
            !r.is_active,
            r.cursor == 0,
    {
        let r = Entry { chars: [' '; 5], tiles: [Tile::Idle; 5], is_active: false, cursor: 0 };
        assert(r.chars@ =~= seq![' '; 5]);
        assert(r.tiles@ =~= seq![Tile::Idle; 5]);
        r
    }
}

impl Entry {
    pub open spec fn wf(&self) -> bool {
        self.cursor <= 5
    }

    /// A row that shows `chars`, otherwise as a fresh row.
    pub fn from_chars(chars: [char; 5]) -> (r: Entry)
        ensures
            r.chars == chars,
            r.tiles@ == seq![Tile::Idle; 5],
            !r.is_active,
            r.cursor == 0,
    {
        Entry { chars, ..Entry::default() }
    }

    /// Typing: a letter fills the next square, a deletion clears the last
    /// filled one; other messages leave the row as it is.
    pub fn update(&mut self, message: Message)
        requires
            old(self).wf(),
        ensures
            final(self).wf(),
            final(self).tiles == old(self).tiles,
            final(self).is_active == old(self).is_active,
            match message {
                Message::EnterText(c) => if is_ascii_letter(c) && old(self).cursor < 5 {
                    final(self).chars@ == old(self).chars@.update(old(self).cursor as int, c)
                        && final(self).cursor == old(self).cursor + 1
                } else {
                    *final(self) == *old(self)
                },
                Message::DeleteText => if old(self).cursor > 0 {
                    final(self).chars@ == old(self).chars@.update(old(self).cursor - 1, ' ')
                        && final(self).cursor == old(self).cursor - 1
                } else {
                    *final(self) == *old(self)
                },
                _ => *final(self) == *old(self),
            },
    {
        match message {
            Message::EnterText(c) => {
                if (('a' <= c && c <= 'z') || ('A' <= c && c <= 'Z')) && self.cursor < 5 {
                    self.chars[self.cursor] = c;
                    self.cursor = self.cursor + 1;
                }
            },
            Message::DeleteText => {
                if self.cursor > 0 {
                    self.cursor = self.cursor - 1;
                    self.chars[self.cursor] = ' ';
                }
            },
            _ => {},
        }
    }
}

/// The guess spelled by a row, in lower case.
pub open spec fn row_word(chars: [char; 5]) -> Word {
    Word { letters: [lower_spec(chars@[0]), lower_spec(chars@[1]), lower_spec(chars@[2]), lower_spec(chars@[3]), lower_spec(chars@[4])] }
}

/// The squares that show the outcomes of a feedback row.
pub open spec fn marks(row: Seq<(char, Outcome)>) -> Seq<Tile> {
    Seq::new(5, |i: int| Tile::Marked(row[i].1))
}

/// The six rows of the board, the secret, and the solver's words.
pub struct EntrySet {
    pub entries: [Entry; 6],
    pub active_entry: usize,
    pub secret_word: Word,
    pub suggestion_word_bank: WordSet,
}

impl EntrySet {
    pub open spec fn wf(&self) -> bool {
        &&& self.active_entry < 6
        &&& forall|i: int| 0 <= i < 6 ==> (#[trigger] self.entries@[i]).wf()
    }

    /// A fresh board for `secret_word`: six empty rows, the first one in play.
    pub fn new(secret_word: Word, suggestion_word_bank: WordSet) -> (r: EntrySet)
        ensures
            r.wf(),
            r.active_entry == 0,
            r.secret_word == secret_word,
            r.suggestion_word_bank == suggestion_word_bank,
            r.entries@[0].tiles@ == seq![Tile::Active; 5],
            forall|i: int| 1 <= i < 6 ==> (#[trigger] r.entries@[i]).tiles@ == seq![Tile::Idle; 5],
            forall|i: int| 0 <= i < 6 ==> (#[trigger] r.entries@[i]).chars@ == seq![' '; 5],
            forall|i: int| 0 <= i < 6 ==> (#[trigger] r.entries@[i]).cursor == 0,
    {
        let blank = Entry::default();
        let mut entries: [Entry; 6] = [blank; 6];
        entries[0].tiles = [Tile::Active; 5];
        let r = EntrySet { entries, active_entry: 0, secret_word, suggestion_word_bank };
        assert(r.entries@[0].tiles@ =~= seq![Tile::Active; 5]);
        r
    }

    /// Shows a feedback row on the row in play and narrows the candidates by it.
    pub fn grade(&mut self, grade_result: [(char, Outcome); 5])
        requires
            old(self).wf(),
        ensures
            final(self).wf(),
            final(self).active_entry == old(self).active_entry,
            final(self).secret_word == old(self).secret_word,
            final(self).entries@ == old(self).entries@.update(
                old(self).active_entry as int,
                Entry { tiles: final(self).entries@[old(self).active_entry as int].tiles, ..old(self).entries@[old(self).active_entry as int] },
            ),
            final(self).entries@[old(self).active_entry as int].tiles@ == marks(grade_result@),
            final(self).suggestion_word_bank.words@ == old(self).suggestion_word_bank.words@,
            final(self).suggestion_word_bank.answer_words@ == reduced(
                old(self).suggestion_word_bank.answer_words@,
                grade_result@,
            ),
    {
        let a = self.active_entry;
        let mut tiles: [Tile; 5] = [Tile::Idle; 5];
        let mut i: usize = 0;
        while i < 5
            invariant
                i <= 5,
                forall|t: int| 0 <= t < i ==> #[trigger] tiles@[t] == marks(grade_result@)[t],
            decreases 5 - i,
        {
            tiles[i] = Tile::Marked(grade_result[i].1);
            i = i + 1;
        }
        assert(tiles@ =~= marks(grade_result@));
        let mut e = self.entries[a];
        e.tiles = tiles;
        self.entries[a] = e;
        self.suggestion_word_bank.reduce(grade_result);
        assert(self.entries@ =~= old(self).entries@.update(a as int, e));
    }

    /// Submits the row in play. A row with an empty square is not submitted
    /// and nothing changes. Otherwise the row is graded against the secret,
    /// shown and used to narrow the candidates; the game is won when every
    /// letter is correct, lost when that was the last row, and otherwise the
    /// next row comes into play. Returns the feedback row and how the game ended.
    pub fn enter(&mut self) -> (r: Option<([(char, Outcome); 5], Option<GameResult>)>)
        requires
            old(self).wf(),
        ensures
            final(self).wf(),
            final(self).secret_word == old(self).secret_word,
            final(self).suggestion_word_bank.words@ == old(self).suggestion_word_bank.words@,
            ({
                let a = old(self).active_entry as int;
                let chars = old(self).entries@[a].chars;
                match r {
                    None => chars@.contains(' ') && *final(self) == *old(self),
                    Some((row, end)) => {
                        &&& !chars@.contains(' ')
                        &&& row@ == grade_spec(row_word(chars), old(self).secret_word)
                        &&& final(self).entries@[a].chars == chars
                        &&& final(self).entries@[a].tiles@ == marks(row@)
                        &&& final(self).suggestion_word_bank.answer_words@ == reduced(
                            old(self).suggestion_word_bank.answer_words@,
                            row@,
                        )
                        &&& end == (if all_correct(row@) {
                            Some(GameResult::Win)
                        } else if a == 5 {
                            Some(GameResult::Lose)
                        } else {
                            None
                        })
                        &&& final(self).active_entry == (if end is None {
                            a + 1
                        } else {
                            a
                        })
                        &&& end is None ==> final(self).entries@[a + 1].tiles@ == seq![Tile::Active; 5]
                    },
                }
            }),
    {
        let a = self.active_entry;
        let chars = self.entries[a].chars;
        let mut i: usize = 0;
        while i < 5
            invariant
                i <= 5,
                *self == *old(self),
                self.wf(),
                a == old(self).active_entry,
                a < 6,
                chars == old(self).entries@[a as int].chars,
                forall|t: int| 0 <= t < i ==> #[trigger] chars@[t] != ' ',
            decreases 5 - i,
        {
            if chars[i] == ' ' {
                assert(chars@[i as int] == ' ');
                assert(chars@.contains(' '));
                return None;
            }
            i = i + 1;
        }
        let guess = Word {
            letters: [to_lower(chars[0]), to_lower(chars[1]), to_lower(chars[2]), to_lower(chars[3]), to_lower(chars[4])],
        };
        assert(guess.letters =~= row_word(chars).letters);
        let row = grade(&guess, &self.secret_word);
        self.grade(row);
        let mut green = true;
        let mut i: usize = 0;
        while i < 5
            invariant
                i <= 5,
                a < 6,
                green == forall|t: int| 0 <= t < i ==> #[trigger] row@[t].1 == Outcome::Correct,
            decreases 5 - i,
        {
            if row[i].1 != Outcome::Correct {
                green = false;
            }
            i = i + 1;
        }
        let end = if green {
            Some(GameResult::Win)
        } else if a == 5 {
            Some(GameResult::Lose)
        } else {
            let mut next = self.entries[a + 1];
            next.tiles = [Tile::Active; 5];
            self.entries[a + 1] = next;
            self.active_entry = a + 1;
            assert(self.entries@[a + 1].tiles@ =~= seq![Tile::Active; 5]);
            None
        };
        Some((row, end))
    }
}

} // verus!
