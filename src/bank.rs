use crate::rules::{InvalidWordLength, Word, WORD_LENGTH};
use rand::Rng;
use vstd::prelude::*;

verus! {

/// The lines of `text`: the pieces between newline characters, in order.
/// A text without a newline is one line; each newline starts a new one.
pub open spec fn lines_of(text: Seq<char>) -> Seq<Seq<char>>
    decreases text.len(),
{
    if text.len() == 0 {
        seq![Seq::<char>::empty()]
    } else {
        let rest = lines_of(text.drop_first());
        if text[0] == '\n' {
            seq![Seq::<char>::empty()] + rest
        } else {
            rest.update(0, seq![text[0]] + rest[0])
        }
    }
}

proof fn lemma_lines_nonempty(text: Seq<char>)
    ensures
        lines_of(text).len() >= 1,
    decreases text.len(),
{
    if text.len() > 0 {
        lemma_lines_nonempty(text.drop_first());
    }
}

/// Relies on str::split with a newline pattern: the pieces of `text`
/// between newline characters, in order, the last one included.
#[verifier::external_body]
fn split_lines(text: &str) -> (r: Vec<String>)
    ensures
        r@.len() == lines_of(text@).len(),
        forall|i: int| 0 <= i < r@.len() ==> #[trigger] r@[i]@ == lines_of(text@)[i],
{
    text.split('\n').map(String::from).collect()
}

/// Relies on rand::thread_rng and Rng::gen_range: a number drawn from
/// `0..bound`; gen_range panics on an empty range.
#[verifier::external_body]
fn random_below(bound: usize) -> (r: usize)
    requires
        bound > 0,
    ensures
        r < bound,
{
    rand::thread_rng().gen_range(0..bound)
}

/// What picking line `line` of part `part` of a corpus gives: the word on
/// that line when it has `WORD_LENGTH` letters, else the length error.
pub open spec fn picked(
    parts: Seq<Seq<char>>,
    part: int,
    line: int,
    r: Result<Word, InvalidWordLength>,
) -> bool {
    &&& 0 <= part < parts.len()
    &&& 0 <= line < lines_of(parts[part]).len()
    &&& {
        let w = lines_of(parts[part])[line];
        if w.len() == WORD_LENGTH {
            r matches Ok(word) && word@ == w
        } else {
            r == Err::<Word, InvalidWordLength>(InvalidWordLength { actual: w.len() as usize })
        }
    }
}

/// A source of secret words.
pub trait Dictionary {
    /// Draws a secret word.
    fn generate(&self) -> Result<Word, InvalidWordLength>;
}

/// A dictionary over a fixed corpus, split into parts of one word per
/// line; a secret is a line drawn at random from a part drawn at random.
#[derive(Debug)]
pub struct StaticDict {
    parts: Vec<String>,
}

impl View for StaticDict {
    type V = Seq<Seq<char>>;

    closed spec fn view(&self) -> Seq<Seq<char>> {
        self.parts@.map_values(|p: String| p@)
    }
}

impl StaticDict {
    #[verifier::type_invariant]
    closed spec fn inv(&self) -> bool {
        self.parts@.len() > 0
    }

    /// A dictionary over the given parts of a corpus.
    pub fn new(parts: Vec<String>) -> (r: StaticDict)
        requires
            parts@.len() > 0,
        ensures
            r@ == parts@.map_values(|p: String| p@),
    {
        StaticDict { parts }
    }

    /// Number of parts of the corpus.
    pub fn part_count(&self) -> (r: usize)
        ensures
            r == self@.len(),
            r > 0,
    {
        proof {
            use_type_invariant(self);
        }
        self.parts.len()
    }

    /// The secret word on line `line` of part `part`, or `None` where the
    /// corpus has no such line.
    pub fn word_at(&self, part: usize, line: usize) -> (r: Option<Result<Word, InvalidWordLength>>)
        ensures
            match r {
                Some(w) => picked(self@, part as int, line as int, w),
                None => part >= self@.len() || line >= lines_of(self@[part as int]).len(),
            },
    {
        if part >= self.parts.len() {
            return None;
        }
        let lines = split_lines(self.parts[part].as_str());
        if line >= lines.len() {
            return None;
        }
        Some(Word::analyze_str(lines[line].as_str()))
    }
}

impl Dictionary for StaticDict {
    /// Draws a part, then a line of that part, and makes the secret of it.
    fn generate(&self) -> (r: Result<Word, InvalidWordLength>)
        ensures
            exists|part: int, line: int| picked(self@, part, line, r),
    {
        proof {
            use_type_invariant(self);
        }
        let part = random_below(self.parts.len());
        let lines = split_lines(self.parts[part].as_str());
        proof {
            lemma_lines_nonempty(self.parts@[part as int]@);
        }
        let line = random_below(lines.len());
        let r = Word::analyze_str(lines[line].as_str());
        assert(picked(self@, part as int, line as int, r));
        r
    }
}

} // verus!
