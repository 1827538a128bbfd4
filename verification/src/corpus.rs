//! The word corpus: an ordered, non-empty list of candidate words,
//! loaded once and immutable afterwards.  Callers must treat it as an
//! unordered bag for sampling; repeats are allowed and only raise the
//! repeated word's sampling probability.

use crate::errors::PassError;
use vstd::prelude::*;

verus! {

/// The list of candidate words.  Its view is the sequence of the words'
/// character sequences, in source order.
pub struct Corpus {
    words: Vec<String>,
}

impl View for Corpus {
    type V = Seq<Seq<char>>;

    closed spec fn view(&self) -> Seq<Seq<char>> {
        self.words.deep_view()
    }
}

impl Corpus {
    /// A corpus is well formed when it holds at least one word; a corpus
    /// of size zero is a fatal configuration error, never silently
    /// handled.
    pub open spec fn wf(&self) -> bool {
        self@.len() > 0
    }

    /// Builds the corpus from the lines of a word-list source, one word
    /// per line, preserving their order.  Fails with `CorpusEmpty` if
    /// and only if there are no lines at all.
    pub fn from_lines(lines: Vec<String>) -> (r: Result<Corpus, PassError>)
        ensures
            lines@.len() > 0 ==> (r matches Ok(c) && c@ == lines.deep_view() && c.wf()),
            lines@.len() == 0 ==> r == Err::<Corpus, PassError>(PassError::CorpusEmpty),
    {
        if lines.len() == 0 {
            Err(PassError::CorpusEmpty)
        } else {
            Ok(Corpus { words: lines })
        }
    }

    /// The number of words.
    pub fn len(&self) -> (n: usize)
        ensures
            n == self@.len(),
    {
        self.words.len()
    }

    /// The word at one index.
    pub fn word_at(&self, i: usize) -> (w: &String)
        requires
            i < self@.len(),
        ensures
            w@ == self@[i as int],
    {
        &self.words[i]
    }
}

} // verus!
