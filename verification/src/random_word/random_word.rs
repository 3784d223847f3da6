//! Draws the secret word of a round from a fixed list.

use rand::seq::SliceRandom;
use vstd::prelude::*;

verus! {

/// The words a round can be played on.
pub open spec fn vocabulary() -> Seq<Seq<char>> {
    seq!["Apple"@, "World"@, "Dog"@, "Sky"@]
}

/// The generator of the crate `rand` that each thread has for itself. A
/// value of it is carried from `thread_rng` to `pick`; nothing is known of
/// what it holds.
#[verifier::external_type_specification]
#[verifier::external_body]
pub struct ExThreadRng(rand::rngs::ThreadRng);

/// `rand::thread_rng`: hands out the calling thread's generator, which the
/// system seeds on first use. Nothing is stated of the generator. (Where
/// the system has no randomness to seed it from, the call panics; no
/// argument decides that.)
pub assume_specification[ rand::thread_rng ]() -> (rng: rand::rngs::ThreadRng)
;

/// `SliceRandom::choose` of the crate `rand`: one element of `words`,
/// whichever `rng` picks, and `None` only where `words` is empty. Which
/// element comes back differs from call to call, so nothing more is stated.
#[verifier::external_body]
fn pick(words: &[&'static str], rng: &mut rand::rngs::ThreadRng) -> (word: Option<&'static str>)
    ensures
        words@.len() == 0 ==> word is None,
        words@.len() > 0 ==> word is Some && words@.contains(word->0),
{
    words.choose(rng).copied()
}

/// A word of the vocabulary, drawn at random. It is never empty.
pub fn get_random_word() -> (word: &'static str)
    ensures
        vocabulary().contains(word@),
        word@.len() > 0,
{
    let words: [&'static str; 4] = ["Apple", "World", "Dog", "Sky"];
    proof {
        reveal_strlit("Apple");
        reveal_strlit("World");
        reveal_strlit("Dog");
        reveal_strlit("Sky");
        assert(vocabulary()[0] == words@[0]@);
        assert(vocabulary()[1] == words@[1]@);
        assert(vocabulary()[2] == words@[2]@);
        assert(vocabulary()[3] == words@[3]@);
    }
    let mut rng = rand::thread_rng();
    match pick(&words, &mut rng) {
        Some(word) => {
            proof {
                let i = choose|i: int| 0 <= i < words@.len() && words@[i] == word;
                assert(vocabulary()[i] == word@);
            }
            word
        },
        None => words[0],
    }
}

} // verus!
