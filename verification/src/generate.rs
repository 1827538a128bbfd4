//! The passphrase generator: draws indices uniformly at random from the
//! corpus, uppercases each drawn word's first character, and assembles
//! `prefix + word1 word2 ... wordN + suffix` with no separators.

use crate::corpus::Corpus;
use crate::errors::PassError;
use crate::text::{is_lower, to_upper, upper_char};
use rand::Rng;
use vstd::prelude::*;

verus! {

/// The thread-local random number generator of the rand crate, held
/// through the generator's lifetime.  Opaque here: nothing is assumed
/// of the values it yields beyond what each drawing wrapper states.
#[verifier::external_type_specification]
#[verifier::external_body]
pub struct ExThreadRng(rand::rngs::ThreadRng);

/// Relies on `rand::thread_rng`: returns a handle to the thread-local
/// generator.  Nothing can be promised of the values it will yield.
#[verifier::external_body]
fn fresh_rng() -> rand::rngs::ThreadRng {
    rand::thread_rng()
}

/// Relies on `rand::Rng::gen_range` over `0..bound`: returns a uniformly
/// distributed index of that range.  It panics on an empty range, which
/// the precondition rules out.  Uniformity cannot be stated here — two
/// calls on the same arguments may differ — so the contract promises
/// only that the index is in range.
#[verifier::external_body]
fn draw_index(rng: &mut rand::rngs::ThreadRng, bound: usize) -> (r: usize)
    requires
        bound > 0,
    ensures
        r < bound,
{
    rng.gen_range(0..bound)
}

/// The word with only its first character mapped to ASCII uppercase;
/// the remainder, internal casing included, is untouched.
pub open spec fn capitalized(w: Seq<char>) -> Seq<char> {
    if w.len() == 0 {
        w
    } else {
        seq![to_upper(w[0])] + w.skip(1)
    }
}

/// Law: capitalizing keeps the length, uppercases exactly the first
/// character — which is never lowercase afterwards — and leaves every
/// later character unchanged from the source word.
pub proof fn lemma_capitalized_shape(w: Seq<char>)
    ensures
        capitalized(w).len() == w.len(),
        w.len() > 0 ==> capitalized(w)[0] == to_upper(w[0]),
        w.len() > 0 ==> !is_lower(capitalized(w)[0]),
        forall|i: int| 1 <= i < w.len() ==> capitalized(w)[i] == w[i],
{
}

/// The concatenation, with no separator, of the capitalized corpus
/// words at the given indices, in order.
pub open spec fn concat_caps(corpus: Seq<Seq<char>>, idxs: Seq<int>) -> Seq<char>
    decreases idxs.len(),
{
    if idxs.len() == 0 {
        Seq::empty()
    } else {
        concat_caps(corpus, idxs.drop_last()) + capitalized(corpus[idxs.last()])
    }
}

/// The word block of a generated passphrase: `n` fragments, each the
/// capitalized form of a corpus word, concatenated in draw order.
pub open spec fn generated_from(
    corpus: Seq<Seq<char>>,
    idxs: Seq<int>,
    n: nat,
    out: Seq<char>,
) -> bool {
    &&& idxs.len() == n
    &&& (forall|k: int| 0 <= k < idxs.len() ==> 0 <= #[trigger] idxs[k] < corpus.len())
    &&& out == concat_caps(corpus, idxs)
}

/// The view of an optional decoration: its characters if present,
/// nothing if absent.
pub open spec fn opt_view(o: Option<String>) -> Seq<char> {
    match o {
        Some(s) => s@,
        None => Seq::empty(),
    }
}

/// A full passphrase: prefix, then `n` capitalized corpus words, then
/// suffix.
pub open spec fn passphrase_from(
    corpus: Seq<Seq<char>>,
    idxs: Seq<int>,
    n: nat,
    pre: Seq<char>,
    suf: Seq<char>,
    out: Seq<char>,
) -> bool {
    &&& idxs.len() == n
    &&& (forall|k: int| 0 <= k < idxs.len() ==> 0 <= #[trigger] idxs[k] < corpus.len())
    &&& out == pre + concat_caps(corpus, idxs) + suf
}

/// Returns the word with its first character uppercased.
pub fn capitalize_first(w: &str) -> (r: String)
    ensures
        r@ == capitalized(w@),
{
    let n = w.unicode_len();
    if n == 0 {
        return String::new();
    }
    let mut r = String::new();
    r.push(upper_char(w.get_char(0)));
    let rest = w.substring_char(1, n);
    r.append(rest);
    proof {
        assert(r@ =~= capitalized(w@));
    }
    r
}

/// The passphrase generator: a corpus and a source of randomness.
pub struct PassGen {
    corpus: Corpus,
    rng: rand::rngs::ThreadRng,
}

impl PassGen {
    /// The words this generator draws from.
    pub closed spec fn corpus_view(&self) -> Seq<Seq<char>> {
        self.corpus@
    }

    /// A generator is well formed when its corpus is: non-empty.
    pub open spec fn wf(&self) -> bool {
        self.corpus_view().len() > 0
    }

    /// Builds a generator over the given word list.  Fails with
    /// `CorpusEmpty` if and only if the list holds no words.
    pub fn new(word_list: Vec<String>) -> (r: Result<PassGen, PassError>)
        ensures
            word_list@.len() > 0 ==> (r matches Ok(g) && g.corpus_view() == word_list.deep_view()
                && g.wf()),
            word_list@.len() == 0 ==> (r matches Err(e) && e == PassError::CorpusEmpty),
    {
        match Corpus::from_lines(word_list) {
            Ok(corpus) => Ok(PassGen { corpus, rng: fresh_rng() }),
            Err(e) => Err(e),
        }
    }

    /// Draws `n_words` indices independently and uniformly at random and
    /// concatenates the capitalized corpus words they select, with no
    /// separator.  The same word may be chosen more than once.
    pub fn generate_words(&mut self, n_words: u32) -> (r: String)
        requires
            old(self).wf(),
        ensures
            final(self).wf(),
            final(self).corpus_view() == old(self).corpus_view(),
            exists|idxs: Seq<int>|
                generated_from(old(self).corpus_view(), idxs, n_words as nat, r@),
    {
        let mut pass = String::new();
        let ghost corpus = self.corpus@;
        let ghost mut idxs: Seq<int> = Seq::empty();
        let mut k: u32 = 0;
        while k < n_words
            invariant
                self.corpus@ == corpus,
                corpus.len() > 0,
                k <= n_words,
                idxs.len() == k as int,
                forall|t: int| 0 <= t < idxs.len() ==> 0 <= #[trigger] idxs[t] < corpus.len(),
                pass@ == concat_caps(corpus, idxs),
            decreases n_words - k,
        {
            let len = self.corpus.len();
            let i = draw_index(&mut self.rng, len);
            let cap = capitalize_first(self.corpus.word_at(i).as_str());
            pass.append(cap.as_str());
            proof {
                let grown = idxs.push(i as int);
                assert(grown.drop_last() =~= idxs);
                idxs = grown;
            }
            k += 1;
        }
        proof {
            assert(generated_from(corpus, idxs, n_words as nat, pass@));
        }
        pass
    }

    /// Generates one passphrase: the optional prefix, then `n_words`
    /// capitalized words drawn uniformly at random, then the optional
    /// suffix.  With `n_words == 0` the result is exactly
    /// `prefix + suffix`.
    pub fn generate_pass(&mut self, n_words: u32, prefix: &Option<String>, suffix: &Option<
        String,
    >) -> (r: String)
        requires
            old(self).wf(),
        ensures
            final(self).wf(),
            final(self).corpus_view() == old(self).corpus_view(),
            exists|idxs: Seq<int>|
                passphrase_from(
                    old(self).corpus_view(),
                    idxs,
                    n_words as nat,
                    opt_view(*prefix),
                    opt_view(*suffix),
                    r@,
                ),
    {
        let mut pass = String::new();
        if let Some(s) = prefix {
            pass.append(s.as_str());
        }
        let words = self.generate_words(n_words);
        pass.append(words.as_str());
        if let Some(s) = suffix {
            pass.append(s.as_str());
        }
        proof {
            let idxs = choose|idxs: Seq<int>|
                generated_from(old(self).corpus_view(), idxs, n_words as nat, words@);
            assert(passphrase_from(
                old(self).corpus_view(),
                idxs,
                n_words as nat,
                opt_view(*prefix),
                opt_view(*suffix),
                pass@,
            ));
        }
        pass
    }
}

} // verus!
