use std::collections::{HashMap, HashSet};
use vstd::prelude::*;
use vstd::string::StrSliceExecFns;

verus! {

/// Outcome of comparing one guessed letter against the secret word.
#[derive(Clone, Copy, PartialEq, Eq, Debug, Structural)]
pub enum MatchResult {
    /// The letter stands at this very position in the secret word.
    Match,
    /// The letter occurs in the secret word, but not at this position.
    Exists,
    /// The letter does not occur in the secret word.
    Absent,
}

/// Whether every slot of a feedback sequence is `Match`.
pub open spec fn all_matched(s: Seq<MatchResult>) -> bool {
    forall|i: int| 0 <= i < s.len() ==> s[i] == MatchResult::Match
}

/// Per-position feedback of one guess, in guess order.
#[derive(Debug)]
pub struct GuessResult {
    pub result: Vec<MatchResult>,
}

impl View for GuessResult {
    type V = Seq<MatchResult>;

    open spec fn view(&self) -> Seq<MatchResult> {
        self.result@
    }
}

impl GuessResult {
    /// True when every letter was guessed at its position.
    pub fn full_match(&self) -> (r: bool)
        ensures
            r == all_matched(self@),
    {
        let mut i: usize = 0;
        while i < self.result.len()
            invariant
                i <= self.result@.len(),
                forall|j: int| 0 <= j < i ==> self.result@[j] == MatchResult::Match,
            decreases self.result@.len() - i,
        {
            if self.result[i] != MatchResult::Match {
                return false;
            }
            i = i + 1;
        }
        true
    }

    /// A result with `WORD_LENGTH` slots, all `Match`.
    pub fn new_all_green() -> (r: GuessResult)
        ensures
            r@ == Seq::new(WORD_LENGTH as nat, |i: int| MatchResult::Match),
    {
        let mut result: Vec<MatchResult> = Vec::with_capacity(WORD_LENGTH);
        let mut i: usize = 0;
        while i < WORD_LENGTH
            invariant
                i <= WORD_LENGTH,
                result@ == Seq::new(i as nat, |j: int| MatchResult::Match),
            decreases WORD_LENGTH - i,
        {
            result.push(MatchResult::Match);
            i = i + 1;
            assert(result@ =~= Seq::new(i as nat, |j: int| MatchResult::Match));
        }
        GuessResult { result }
    }

    /// A result with no slot yet.
    pub fn new_empty() -> (r: GuessResult)
        ensures
            r@ == Seq::<MatchResult>::empty(),
    {
        GuessResult { result: Vec::with_capacity(WORD_LENGTH) }
    }

    /// Appends the feedback of the next letter.
    pub fn push(&mut self, r: MatchResult)
        ensures
            final(self)@ == old(self)@.push(r),
    {
        self.result.push(r);
    }
}

/// Number of letters in a secret word and in a guess.
pub const WORD_LENGTH: usize = 5;

/// Key under which a letter is filed in the position index.
pub open spec fn letter_key(c: char) -> u32 {
    c as u32
}

proof fn lemma_letter_key_injective(c: char, d: char)
    requires
        letter_key(c) == letter_key(d),
    ensures
        c == d,
{
    assert((c as u32) as int == c as int);
    assert((d as u32) as int == d as int);
}

/// Positions (below 256) at which `c` stands in `text`.
pub open spec fn positions(text: Seq<char>, c: char) -> Set<u8> {
    Set::new(|p: u8| (p as int) < text.len() && text[p as int] == c)
}

/// Feedback for guessed letter `c` at position `i` against `secret`.
pub open spec fn letter_feedback(secret: Seq<char>, c: char, i: int) -> MatchResult {
    if 0 <= i < secret.len() && secret[i] == c {
        MatchResult::Match
    } else if secret.contains(c) {
        MatchResult::Exists
    } else {
        MatchResult::Absent
    }
}

/// Feedback for a whole guess: one slot per guessed letter, in guess order.
/// A letter that occurs in the secret away from its position is `Exists`
/// however many times it is guessed.
pub open spec fn feedback(secret: Seq<char>, guess: Seq<char>) -> Seq<MatchResult> {
    Seq::new(guess.len(), |i: int| letter_feedback(secret, guess[i], i))
}

/// A word whose length is not `WORD_LENGTH`.
#[derive(Clone, Copy, PartialEq, Eq, Debug, Structural)]
pub struct InvalidWordLength {
    /// Number of characters of the rejected word.
    pub actual: usize,
}

/// The secret word, with an index from each of its letters to the set of
/// positions at which that letter stands.
#[derive(Debug)]
pub struct Word {
    val: String,
    letters: HashMap<u32, HashSet<u8>>,
}

impl View for Word {
    type V = Seq<char>;

    closed spec fn view(&self) -> Seq<char> {
        self.val@
    }
}

/// Builds the set of positions at which `c` stands in `text`.
fn positions_in(text: &str, c: char) -> (r: HashSet<u8>)
    requires
        text@.len() <= WORD_LENGTH,
    ensures
        r@ == positions(text@, c),
{
    broadcast use vstd::std_specs::hash::group_hash_axioms;

    let n = text.unicode_len();
    let mut set: HashSet<u8> = HashSet::new();
    let mut j: usize = 0;
    while j < n
        invariant
            n == text@.len() <= WORD_LENGTH,
            j <= n,
            set@ == Set::new(|p: u8| (p as int) < j && text@[p as int] == c),
        decreases n - j,
    {
        if text.get_char(j) == c {
            set.insert(j as u8);
        }
        j = j + 1;
        assert(set@ =~= Set::new(|p: u8| (p as int) < j && text@[p as int] == c));
    }
    assert(set@ =~= positions(text@, c));
    set
}

impl Word {
    #[verifier::type_invariant]
    closed spec fn inv(&self) -> bool {
        &&& self.val@.len() == WORD_LENGTH
        &&& self.letters@.dom() == self.val@.to_set().map(|c: char| letter_key(c))
        &&& forall|c: char| #[trigger]
            self.letters@.contains_key(letter_key(c)) ==> self.letters@[letter_key(c)]@
                == positions(self.val@, c)
    }

    /// Same as `analyze`, from a borrowed string.
    pub fn analyze_str(word: &str) -> (r: Result<Word, InvalidWordLength>)
        ensures
            word@.len() == WORD_LENGTH ==> (r matches Ok(w) && w@ == word@),
            word@.len() != WORD_LENGTH ==> r == Err::<Word, InvalidWordLength>(
                InvalidWordLength { actual: word@.len() as usize },
            ),
    {
        Word::analyze(word.to_owned())
    }

    /// Makes the secret word out of `word`, which must have exactly
    /// `WORD_LENGTH` characters.
    pub fn analyze(word: String) -> (r: Result<Word, InvalidWordLength>)
        ensures
            word@.len() == WORD_LENGTH ==> (r matches Ok(w) && w@ == word@),
            word@.len() != WORD_LENGTH ==> r == Err::<Word, InvalidWordLength>(
                InvalidWordLength { actual: word@.len() as usize },
            ),
    {
        broadcast use vstd::std_specs::hash::group_hash_axioms;

        let n = word.as_str().unicode_len();
        if n != WORD_LENGTH {
            return Err(InvalidWordLength { actual: n });
        }
        let ghost text = word@;
        let mut letters: HashMap<u32, HashSet<u8>> = HashMap::new();
        let mut i: usize = 0;
        while i < n
            invariant
                n == text.len() == WORD_LENGTH,
                word@ == text,
                i <= n,
                letters@.dom() == text.subrange(0, i as int).to_set().map(|c: char| letter_key(c)),
                forall|c: char| #[trigger]
                    letters@.contains_key(letter_key(c)) ==> letters@[letter_key(c)]@
                        == positions(text, c),
            decreases n - i,
        {
            let c = word.as_str().get_char(i);
            let ghost before = letters@.dom();
            if !letters.contains_key(&(c as u32)) {
                let set = positions_in(word.as_str(), c);
                letters.insert(c as u32, set);
            }
            proof {
                let f = |c: char| letter_key(c);
                let prev = text.subrange(0, i as int);
                assert(text.subrange(0, i + 1) =~= prev + seq![c]);
                Seq::<char>::lemma_to_set_insert_commutes(prev, c);
                prev.to_set().lemma_set_map_insert_commute(c, f);
                assert(letters@.dom() =~= before.insert(f(c)));
                assert forall|d: char| #[trigger]
                    letters@.contains_key(letter_key(d)) implies letters@[letter_key(d)]@
                        == positions(text, d) by {
                    if letter_key(d) == letter_key(c) {
                        lemma_letter_key_injective(d, c);
                    }
                }
            }
            i = i + 1;
        }
        assert(text.subrange(0, n as int) =~= text);
        Ok(Word { val: word, letters })
    }

    proof fn lemma_has_key(&self, c: char)
        requires
            self.inv(),
        ensures
            self.letters@.contains_key(letter_key(c)) == self@.contains(c),
    {
        let f = |c: char| letter_key(c);
        if self.letters@.contains_key(letter_key(c)) {
            let d = choose|d: char| self.val@.to_set().contains(d) && f(d) == letter_key(c);
            lemma_letter_key_injective(d, c);
        }
        if self@.contains(c) {
            assert(self.val@.to_set().contains(c));
        }
    }

    /// The word itself.
    pub fn text(&self) -> (r: &String)
        ensures
            r@ == self@,
            r@.len() == WORD_LENGTH,
    {
        proof {
            use_type_invariant(self);
        }
        &self.val
    }

    /// Whether the letter `c` occurs anywhere in the word.
    pub fn contains_letter(&self, c: char) -> (r: bool)
        ensures
            r == self@.contains(c),
    {
        broadcast use vstd::std_specs::hash::group_hash_axioms;

        proof {
            use_type_invariant(self);
            self.lemma_has_key(c);
        }
        self.letters.contains_key(&(c as u32))
    }

    /// Whether the letter `c` stands at `position` in the word.
    pub fn is_at_position(&self, c: char, position: usize) -> (r: bool)
        ensures
            r == (position < self@.len() && self@[position as int] == c),
    {
        broadcast use vstd::std_specs::hash::group_hash_axioms;

        proof {
            use_type_invariant(self);
            self.lemma_has_key(c);
        }
        if position >= WORD_LENGTH {
            return false;
        }
        match self.letters.get(&(c as u32)) {
            Some(set) => set.contains(&(position as u8)),
            None => false,
        }
    }

    /// The set of positions at which `c` stands, or `None` where `c` does
    /// not occur in the word.
    pub fn positions_of(&self, c: char) -> (r: Option<&HashSet<u8>>)
        ensures
            match r {
                Some(set) => self@.contains(c) && set@ == positions(self@, c),
                None => !self@.contains(c),
            },
    {
        broadcast use vstd::std_specs::hash::group_hash_axioms;

        proof {
            use_type_invariant(self);
            self.lemma_has_key(c);
        }
        self.letters.get(&(c as u32))
    }

    /// Number of distinct letters of the word.
    pub fn letter_count(&self) -> (r: usize)
        ensures
            r == self@.to_set().len(),
    {
        broadcast use vstd::std_specs::hash::group_hash_axioms;

        proof {
            use_type_invariant(self);
            let f = |c: char| letter_key(c);
            assert forall|a: char, b: char|
                self.val@.to_set().contains(a) && self.val@.to_set().contains(b) && #[trigger] f(a)
                    == #[trigger] f(b) implies a == b by {
                lemma_letter_key_injective(a, b);
            }
            vstd::seq_lib::seq_to_set_is_finite(self.val@);
            vstd::set_lib::lemma_map_size(self.val@.to_set(), self.letters@.dom(), f);
        }
        self.letters.len()
    }

    /// Scores `word` letter by letter against this secret.
    pub fn try_match(&self, word: &String) -> (r: GuessResult)
        ensures
            r@ == feedback(self@, word@),
    {
        proof {
            use_type_invariant(self);
        }
        if self.val.eq(word) {
            proof {
                lemma_secret_matches_itself(self@);
                assert(feedback(self@, word@) =~= Seq::new(
                    WORD_LENGTH as nat,
                    |i: int| MatchResult::Match,
                ));
            }
            return GuessResult::new_all_green();
        }
        let mut guess = GuessResult::new_empty();
        let n = word.as_str().unicode_len();
        let mut i: usize = 0;
        while i < n
            invariant
                n == word@.len(),
                i <= n,
                guess@ == feedback(self@, word@.subrange(0, i as int)),
            decreases n - i,
        {
            let c = word.as_str().get_char(i);
            let m = if self.is_at_position(c, i) {
                MatchResult::Match
            } else if self.contains_letter(c) {
                MatchResult::Exists
            } else {
                MatchResult::Absent
            };
            guess.push(m);
            i = i + 1;
            assert(guess@ =~= feedback(self@, word@.subrange(0, i as int)));
        }
        assert(word@.subrange(0, n as int) =~= word@);
        guess
    }
}

/// A guess equal to the secret gets `Match` in every slot, one slot per
/// letter, and so counts as a full match.
pub proof fn lemma_secret_matches_itself(secret: Seq<char>)
    ensures
        feedback(secret, secret) == Seq::new(secret.len(), |i: int| MatchResult::Match),
        all_matched(feedback(secret, secret)),
{
    assert(feedback(secret, secret) =~= Seq::new(secret.len(), |i: int| MatchResult::Match));
}

/// Scoring depends on the secret's text and the guess alone: equal inputs
/// give equal feedback.
pub proof fn lemma_feedback_deterministic(
    secret1: Seq<char>,
    secret2: Seq<char>,
    guess1: Seq<char>,
    guess2: Seq<char>,
)
    requires
        secret1 == secret2,
        guess1 == guess2,
    ensures
        feedback(secret1, guess1) == feedback(secret2, guess2),
{
}

/// A feedback sequence is a full match exactly when none of its slots is
/// other than `Match`.
pub proof fn lemma_full_match_iff_no_miss(s: Seq<MatchResult>)
    ensures
        all_matched(s) <==> !(exists|i: int| 0 <= i < s.len() && s[i] != MatchResult::Match),
{
}

} // verus!