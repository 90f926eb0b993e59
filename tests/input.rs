use wordle_solver::board::{Entry, EntrySet, GameResult, Message, Tile};
use wordle_solver::controls::{AnalysisButton, SuggestionBox, SuggestionButton};
use wordle_solver::corpus::{load_words, parse_line};
use wordle_solver::solver::WordSet;
use wordle_solver::word::{Outcome, Word};

fn spell(word: &Word) -> String {
    word.letters.iter().collect()
}

#[test]
fn parse_lowers_and_checks_letters() {
    assert_eq!(spell(&Word::parse("ApPlE").unwrap()), "apple");
    assert!(Word::parse("appl").is_none());
    assert!(Word::parse("apples").is_none());
    assert!(Word::parse("app1e").is_none());
    assert!(Word::parse("").is_none());
}

#[test]
fn parse_line_trims_whitespace() {
    assert_eq!(spell(&parse_line("  Crane\r").unwrap()), "crane");
    assert_eq!(spell(&parse_line("slate").unwrap()), "slate");
    assert!(parse_line("   ").is_none());
    assert!(parse_line("cr ane").is_none());
    assert!(parse_line("crane s").is_none());
}

#[test]
fn load_words_skips_blank_and_counts_malformed() {
    let lines: Vec<String> =
        ["crane", "", "  slate ", "toolong", "ab1de", "\r", "TRACE"].iter().map(|s| s.to_string()).collect();
    let (ws, skipped) = load_words(&lines);
    let spelled: Vec<String> = ws.iter().map(spell).collect();
    assert_eq!(spelled, vec!["crane", "slate", "trace"]);
    assert_eq!(skipped, 2);
}

#[test]
fn entry_typing_and_deleting() {
    let mut e = Entry::default();
    e.update(Message::EnterText('A'));
    e.update(Message::EnterText('1'));
    e.update(Message::EnterText('b'));
    assert_eq!(e.chars, ['A', 'b', ' ', ' ', ' ']);
    assert_eq!(e.cursor, 2);
    e.update(Message::DeleteText);
    assert_eq!(e.chars, ['A', ' ', ' ', ' ', ' ']);
    e.update(Message::DeleteText);
    e.update(Message::DeleteText);
    assert_eq!(e.cursor, 0);
    for c in "abcdef".chars() {
        e.update(Message::EnterText(c));
    }
    assert_eq!(e.chars, ['a', 'b', 'c', 'd', 'e']);
    assert_eq!(e.cursor, 5);
    let f = Entry::from_chars(['x'; 5]);
    assert_eq!(f.chars, ['x'; 5]);
    assert_eq!(f.tiles, [Tile::Idle; 5]);
}

fn board(secret: &str) -> EntrySet {
    let pool: Vec<Word> = ["apple", "apply", "angle"].iter().map(|s| Word::parse(s).unwrap()).collect();
    EntrySet::new(Word::parse(secret).unwrap(), WordSet { words: pool.clone(), answer_words: pool })
}

fn type_word(b: &mut EntrySet, s: &str) {
    for c in s.chars() {
        let a = b.active_entry;
        b.entries[a].update(Message::EnterText(c));
    }
}

#[test]
fn enter_needs_a_full_row() {
    let mut b = board("apply");
    type_word(&mut b, "APP");
    assert!(b.enter().is_none());
    assert_eq!(b.active_entry, 0);
    assert_eq!(b.entries[0].tiles, [Tile::Active; 5]);
}

#[test]
fn enter_grades_narrows_and_moves_on() {
    let mut b = board("apply");
    type_word(&mut b, "APPLE");
    let (row, end) = b.enter().unwrap();
    assert_eq!(end, None);
    assert_eq!(row[4], ('e', Outcome::Absent));
    assert_eq!(b.entries[0].tiles[0], Tile::Marked(Outcome::Correct));
    assert_eq!(b.entries[0].tiles[4], Tile::Marked(Outcome::Absent));
    assert_eq!(b.active_entry, 1);
    assert_eq!(b.entries[1].tiles, [Tile::Active; 5]);
    assert_eq!(b.suggestion_word_bank.answer_words.len(), 1);
    type_word(&mut b, "apply");
    let (_, end) = b.enter().unwrap();
    assert_eq!(end, Some(GameResult::Win));
    assert_eq!(b.active_entry, 1);
}

#[test]
fn enter_on_last_row_loses() {
    let mut b = board("angle");
    for _ in 0..5 {
        type_word(&mut b, "apple");
        assert_eq!(b.enter().unwrap().1, None);
    }
    type_word(&mut b, "apply");
    assert_eq!(b.enter().unwrap().1, Some(GameResult::Lose));
    assert_eq!(b.active_entry, 5);
}

#[test]
fn suggestion_button_toggles_label() {
    let mut b = SuggestionButton::default();
    assert!(!b.setting);
    b.toggle();
    assert!(b.setting);
    assert_eq!(b.text, "Hide Suggestions");
    b.toggle();
    assert_eq!(b.text, "Show Suggestions");
}

#[test]
fn analysis_button_toggles_label() {
    let mut b = AnalysisButton::default();
    assert!(b.setting);
    b.toggle();
    assert!(!b.setting);
    assert_eq!(b.text, "Show Analysis");
    b.toggle();
    assert_eq!(b.text, "Hide Analysis");
}

#[test]
fn suggestion_box_shows_or_blanks() {
    let mut b = SuggestionBox::default();
    b.suggestion = "TARES".to_string();
    b.set_box(true);
    assert_eq!(b.text, "TARES");
    b.set_box(false);
    assert_eq!(b.text, " ");
}
