use crate::rules::{all_matched, feedback, GuessResult, Word, WORD_LENGTH};
use vstd::prelude::*;
use vstd::string::StrSliceExecFns;

verus! {

/// Number of wrong guesses after which a game is lost.
pub const ATTEMPT_COUNT: u8 = 6;

/// A lost game, carrying the secret that was not found.
#[derive(Debug)]
pub struct GameLost {
    secret: String,
}

impl View for GameLost {
    type V = Seq<char>;

    closed spec fn view(&self) -> Seq<char> {
        self.secret@
    }
}

impl GameLost {
    /// The loss of a game whose secret was `word`.
    pub fn with_word(word: &Word) -> (r: GameLost)
        ensures
            r@ == word@,
    {
        GameLost { secret: word.text().clone() }
    }

    /// The secret that was not found.
    pub fn secret(&self) -> (r: &String)
        ensures
            r@ == self@,
    {
        &self.secret
    }
}

/// What one submitted guess leads to.
#[derive(Debug)]
pub enum Turn {
    /// The guess does not have `WORD_LENGTH` letters; it costs no attempt.
    WrongLength,
    /// The guess is the secret; `misses` wrong guesses came before it.
    Won { misses: u8 },
    /// The guess is wrong; it costs one attempt.
    Missed(GuessResult),
}

/// The state of a game in progress: how many wrong guesses were made.
#[derive(Debug)]
pub struct Session {
    misses: u8,
}

impl View for Session {
    type V = nat;

    closed spec fn view(&self) -> nat {
        self.misses as nat
    }
}

impl Session {
    #[verifier::type_invariant]
    closed spec fn inv(&self) -> bool {
        self.misses <= ATTEMPT_COUNT
    }

    /// A fresh game, with no guess made.
    pub fn new() -> (r: Session)
        ensures
            r@ == 0,
    {
        Session { misses: 0 }
    }

    /// Number of wrong guesses so far.
    pub fn misses(&self) -> (r: u8)
        ensures
            r == self@,
            r <= ATTEMPT_COUNT,
    {
        proof {
            use_type_invariant(self);
        }
        self.misses
    }

    /// Whether every attempt has been spent, so that the game is lost.
    pub fn is_lost(&self) -> (r: bool)
        ensures
            r == (self@ == ATTEMPT_COUNT),
    {
        self.misses == ATTEMPT_COUNT
    }

    /// Plays `guess` against `secret`: a guess of the wrong length is
    /// refused at no cost, the secret itself wins, any other guess costs
    /// one attempt and yields its feedback.
    pub fn play(&mut self, secret: &Word, guess: &String) -> (r: Turn)
        requires
            old(self)@ < ATTEMPT_COUNT,
        ensures
            guess@.len() != WORD_LENGTH ==> r is WrongLength && final(self)@ == old(self)@,
            guess@.len() == WORD_LENGTH && all_matched(feedback(secret@, guess@)) ==> r == (Turn::Won {
                misses: old(self)@ as u8,
            }) && final(self)@ == old(self)@,
            guess@.len() == WORD_LENGTH && !all_matched(feedback(secret@, guess@)) ==> (r matches Turn::Missed(g)
                && g@ == feedback(secret@, guess@)) && final(self)@ == old(self)@ + 1,
    {
        if guess.as_str().unicode_len() != WORD_LENGTH {
            return Turn::WrongLength;
        }
        let result = secret.try_match(guess);
        if result.full_match() {
            Turn::Won { misses: self.misses }
        } else {
            self.misses = self.misses + 1;
            Turn::Missed(result)
        }
    }
}

} // verus!
