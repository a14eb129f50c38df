//! Scoring engine of a five-letter word-guessing game: the secret word with
//! its letter-position index, the per-letter feedback of a guess, the
//! decisions of a game session and the choice of a secret from a corpus.

pub mod rules;
pub mod game;
pub mod bank;
