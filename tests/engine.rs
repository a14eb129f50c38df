use wordle::bank::{Dictionary, StaticDict};
use wordle::game::{GameLost, Session, Turn, ATTEMPT_COUNT};
use wordle::rules::{GuessResult, InvalidWordLength, MatchResult, Word, WORD_LENGTH};

use MatchResult::{Absent, Exists, Match};

fn score(secret: &str, guess: &str) -> Vec<MatchResult> {
    Word::analyze_str(secret)
        .unwrap()
        .try_match(&String::from(guess))
        .result
}

#[test]
fn valid_word_is_kept_verbatim() {
    for w in ["crane", "aaaaa", "zebra", "héllo"] {
        let word = Word::analyze(String::from(w)).unwrap();
        assert_eq!(word.text(), w);
    }
}

#[test]
fn wrong_lengths_are_rejected() {
    for (w, n) in [("", 0usize), ("bank", 4), ("banker", 6), ("a", 1)] {
        assert_eq!(
            Word::analyze_str(w).unwrap_err(),
            InvalidWordLength { actual: n }
        );
        assert_eq!(
            Word::analyze(String::from(w)).unwrap_err(),
            InvalidWordLength { actual: n }
        );
    }
}

#[test]
fn length_counts_characters() {
    assert!(Word::analyze_str("ñandú").is_ok());
    assert_eq!(
        Word::analyze_str("ñandús").unwrap_err(),
        InvalidWordLength { actual: 6 }
    );
}

#[test]
fn secret_against_itself_is_full_match() {
    for w in ["bathe", "aaaaa", "abcab"] {
        let word = Word::analyze_str(w).unwrap();
        let result = word.try_match(word.text());
        assert_eq!(result.result, vec![Match; WORD_LENGTH]);
        assert!(result.full_match());
    }
}

#[test]
fn scoring_is_deterministic() {
    let word = Word::analyze_str("bathe").unwrap();
    let guess = String::from("heath");
    assert_eq!(word.try_match(&guess).result, word.try_match(&guess).result);
}

#[test]
fn bathe_against_braid() {
    assert_eq!(score("bathe", "braid"), vec![Match, Absent, Exists, Absent, Absent]);
}

// Scoring is uncapped: a guessed letter that occurs elsewhere in the secret
// is `Exists` however many times it is guessed, and a letter absent from the
// secret is `Absent` wherever it stands.
#[test]
fn repeated_letters_are_not_capped() {
    assert_eq!(score("aaaaa", "aabaa"), vec![Match, Match, Absent, Match, Match]);
    assert_eq!(score("abcde", "eeeee"), vec![Exists, Exists, Exists, Exists, Match]);
    assert_eq!(score("abcde", "aaxyz"), vec![Match, Exists, Absent, Absent, Absent]);
}

#[test]
fn full_match_needs_every_slot() {
    let mut g = GuessResult::new_empty();
    for _ in 0..4 {
        g.push(Match);
    }
    g.push(Exists);
    assert!(!g.full_match());
    let g = GuessResult { result: vec![Absent, Match, Match, Match, Match] };
    assert!(!g.full_match());
    assert!(GuessResult::new_all_green().full_match());
    assert!(GuessResult::new_empty().full_match());
}

#[test]
fn index_queries() {
    let word = Word::analyze_str("abcab").unwrap();
    assert_eq!(word.letter_count(), 3);
    assert!(word.is_at_position('a', 0));
    assert!(word.is_at_position('a', 3));
    assert!(!word.is_at_position('a', 1));
    assert!(!word.is_at_position('a', 7));
    assert!(word.contains_letter('c'));
    assert!(!word.contains_letter('z'));
    assert!(word.positions_of('z').is_none());
    let mut b: Vec<u8> = word.positions_of('b').unwrap().iter().copied().collect();
    b.sort_unstable();
    assert_eq!(b, vec![1, 4]);
}

#[test]
fn session_refuses_wrong_length_for_free() {
    let word = Word::analyze_str("bathe").unwrap();
    let mut s = Session::new();
    assert!(matches!(s.play(&word, &String::from("bat")), Turn::WrongLength));
    assert_eq!(s.misses(), 0);
}

#[test]
fn session_win_and_misses() {
    let word = Word::analyze_str("bathe").unwrap();
    let mut s = Session::new();
    match s.play(&word, &String::from("braid")) {
        Turn::Missed(g) => assert_eq!(g.result, vec![Match, Absent, Exists, Absent, Absent]),
        other => panic!("unexpected {:?}", other),
    }
    assert_eq!(s.misses(), 1);
    assert!(matches!(s.play(&word, &String::from("bathe")), Turn::Won { misses: 1 }));
    assert_eq!(s.misses(), 1);
}

#[test]
fn session_is_lost_after_all_attempts() {
    let word = Word::analyze_str("bathe").unwrap();
    let mut s = Session::new();
    for _ in 0..ATTEMPT_COUNT {
        assert!(!s.is_lost());
        assert!(matches!(s.play(&word, &String::from("xxxxx")), Turn::Missed(_)));
    }
    assert!(s.is_lost());
    assert_eq!(s.misses(), 6);
}

#[test]
fn lost_game_keeps_secret() {
    let word = Word::analyze_str("bathe").unwrap();
    let lost = GameLost::with_word(&word);
    assert_eq!(lost.secret(), "bathe");
}

#[test]
fn dictionary_picks_lines() {
    let dict = StaticDict::new(vec![
        String::from("apple\nbathe\nxy"),
        String::from("crane"),
    ]);
    assert_eq!(dict.part_count(), 2);
    assert_eq!(dict.word_at(0, 0).unwrap().unwrap().text(), "apple");
    assert_eq!(dict.word_at(0, 1).unwrap().unwrap().text(), "bathe");
    assert_eq!(
        dict.word_at(0, 2).unwrap().unwrap_err(),
        InvalidWordLength { actual: 2 }
    );
    assert!(dict.word_at(0, 3).is_none());
    assert_eq!(dict.word_at(1, 0).unwrap().unwrap().text(), "crane");
    assert!(dict.word_at(1, 1).is_none());
    assert!(dict.word_at(2, 0).is_none());
}

#[test]
fn dictionary_trailing_newline_gives_empty_line() {
    let dict = StaticDict::new(vec![String::from("apple\n")]);
    assert_eq!(
        dict.word_at(0, 1).unwrap().unwrap_err(),
        InvalidWordLength { actual: 0 }
    );
}

#[test]
fn dictionary_generates_from_corpus() {
    let dict = StaticDict::new(vec![
        String::from("apple\nbathe"),
        String::from("crane\ndrake\neagle"),
    ]);
    for _ in 0..50 {
        let w = dict.generate().unwrap();
        assert!(["apple", "bathe", "crane", "drake", "eagle"].contains(&w.text().as_str()));
    }
}
