//! What holds of every round, proved from the model in `round`.
//!
//! The invariants of a round come first: a round at its start is well
//! formed, and a guess keeps it so. Then the laws of play: how the mistakes
//! grow, that a repeated hit changes nothing, that the case of a guess does
//! not matter, and when exactly a round is won or lost.
//!
//! Most laws hold whatever the lower case of a text is. Where one needs to
//! know it, it is stated of text of ASCII characters, whose lower case is
//! written out.

use crate::constants::attempts::MAX_MISTAKES;
use crate::game::round::{cell, found, is_letter, missed, occurs, shown, Round};
use crate::text::{ascii_lower, folded, lemma_lowercase_of_ascii, lowercase};
use crate::{blank, names, occurrences, places, shows};
use vstd::prelude::*;
use vstd::utf8::is_ascii_chars;

verus! {

/// The lower-case form of a single character is a guess as a round
/// records it.
pub proof fn lemma_guess_is_letter(input: Seq<char>)
    requires
        input.len() == 1,
    ensures
        is_letter(lowercase(input)),
{
    assert(input =~= seq![input[0]]);
}

/// On ASCII characters, to be a character case aside is what comparing
/// without regard to the case of the ASCII letters gives: `shows` and
/// `names` agree, and so do `places` and `occurrences`.
pub proof fn lemma_shows_on_ascii(letter: Seq<char>, word: Seq<char>)
    requires
        letter.len() == 1,
        is_ascii_chars(letter),
        is_ascii_chars(word),
    ensures
        forall|i: int| 0 <= i < word.len() ==> shows(letter, word[i]) == names(letter, word[i]),
        places(letter, word) == occurrences(letter, word),
    decreases word.len(),
{
    assert forall|i: int| 0 <= i < word.len() implies shows(letter, word[i]) == names(
        letter,
        word[i],
    ) by {
        let one = seq![word[i]];
        assert(is_ascii_chars(one));
        assert(folded(letter)[0] == ascii_lower(letter[0]));
        assert(folded(one)[0] == ascii_lower(word[i]));
        if names(letter, word[i]) {
            assert(folded(letter) =~= folded(one));
        }
    }
    if word.len() > 0 {
        assert(is_ascii_chars(word.drop_last()));
        lemma_shows_on_ascii(letter, word.drop_last());
        assert(word.last() == word[word.len() - 1]);
    }
}

/// The cells of a text whose cells hold one character each are its
/// characters.
pub proof fn lemma_flatten_cells(cells: Seq<Seq<char>>)
    requires
        forall|i: int| 0 <= i < cells.len() ==> (#[trigger] cells[i]).len() == 1,
    ensures
        cells.flatten().len() == cells.len(),
        forall|i: int| 0 <= i < cells.len() ==> cells.flatten()[i] == (#[trigger] cells[i])[0],
    decreases cells.len(),
{
    if cells.len() > 0 {
        let front = cells.drop_last();
        lemma_flatten_cells(front);
        front.lemma_flatten_push(cells.last());
        assert(front.push(cells.last()) =~= cells);
    }
}

/// A round at its start is well formed.
pub proof fn lemma_start_wf(secret: Seq<char>)
    ensures
        Round::start(secret).wf(),
        Round::start(secret).playable(),
{
    assert(Round::start(secret).reveal =~= shown(secret, Seq::empty()));
}

/// A well-formed round is playable.
pub proof fn lemma_wf_playable(round: Round)
    requires
        round.wf(),
    ensures
        round.playable(),
{
}

/// A guess leaves a well-formed round well formed: the cells stay those of
/// the letters found, the count of mistakes stays the number of misses and
/// stays within the limit.
pub proof fn lemma_guess_preserves_wf(round: Round, input: Seq<char>)
    requires
        round.wf(),
        input.len() == 1,
    ensures
        round.guess(input).wf(),
        round.guess(input).secret == round.secret,
{
    let letter = lowercase(input);
    let next = round.guess(input);
    lemma_guess_is_letter(input);
    if round.is_over() {
    } else if occurs(letter, round.secret) {
        assert forall|i: int| 0 <= i < round.secret.len() implies next.reveal[i] == shown(
            round.secret,
            next.hits,
        )[i] by {
            let c = round.secret[i];
            if shows(letter, c) {
                assert(shows(next.hits[round.hits.len() as int], c));
            } else if found(round.hits, c) {
                let j = choose|j: int| 0 <= j < round.hits.len() && shows(#[trigger] round.hits[j], c);
                assert(shows(next.hits[j], c));
            } else {
                if found(next.hits, c) {
                    let j = choose|j: int| 0 <= j < next.hits.len() && shows(#[trigger] next.hits[j], c);
                    if j < round.hits.len() {
                        assert(shows(round.hits[j], c));
                    }
                }
            }
        }
        assert(next.reveal =~= shown(round.secret, next.hits));
    } else {
    }
}

/// However a well-formed round is played on, it stays well formed; so
/// every round played from its start is well formed.
pub proof fn lemma_play_preserves_wf(round: Round, inputs: Seq<Seq<char>>)
    requires
        round.wf(),
        forall|k: int| 0 <= k < inputs.len() ==> (#[trigger] inputs[k]).len() == 1,
    ensures
        round.play(inputs).wf(),
        round.play(inputs).secret == round.secret,
    decreases inputs.len(),
{
    if inputs.len() > 0 {
        lemma_play_preserves_wf(round, inputs.drop_last());
        lemma_guess_preserves_wf(round.play(inputs.drop_last()), inputs.last());
    }
}

/// What a guess can do to a round in progress: a hit leaves the count of
/// mistakes alone, so it cannot lose the round; a miss leaves the cells
/// alone, so it cannot win it, and it loses the round exactly where it is
/// the miss that reaches the limit.
pub proof fn lemma_guess_on_round_in_progress(round: Round, input: Seq<char>)
    requires
        !round.is_over(),
    ensures
        occurs(lowercase(input), round.secret) ==> !round.guess(input).is_lost(),
        !occurs(lowercase(input), round.secret) ==> !round.guess(input).is_won(),
        !occurs(lowercase(input), round.secret) ==> (round.guess(input).is_lost() <==> round.mistakes
            + 1 == MAX_MISTAKES),
{
}

/// The count of mistakes never falls, and one guess raises it by one at
/// most: by one exactly where the round was in progress and the guess
/// was no character of the secret.
pub proof fn lemma_mistakes_step(round: Round, input: Seq<char>)
    ensures
        round.guess(input).mistakes >= round.mistakes,
        round.guess(input).mistakes == if !round.is_over() && !occurs(lowercase(input), round.secret) {
            round.mistakes + 1
        } else {
            round.mistakes
        },
{
}

/// The mistakes that a series of guesses adds are as many as the guesses
/// in it that are no character of the secret, as long as none of those is
/// made on a round that is over: such a guess is not taken.
pub proof fn lemma_mistakes_count(round: Round, inputs: Seq<Seq<char>>)
    requires
        forall|k: int|
            #![trigger round.play(inputs.take(k))]
            0 <= k < inputs.len() && !occurs(lowercase(inputs[k]), round.secret) ==> !round.play(
                inputs.take(k),
            ).is_over(),
    ensures
        round.play(inputs).mistakes == round.mistakes + missed(round.secret, inputs),
        round.play(inputs).secret == round.secret,
    decreases inputs.len(),
{
    if inputs.len() > 0 {
        let front = inputs.drop_last();
        assert forall|k: int|
            #![trigger round.play(front.take(k))]
            0 <= k < front.len() && !occurs(lowercase(front[k]), round.secret) implies !round.play(
            front.take(k),
        ).is_over() by {
            assert(front.take(k) =~= inputs.take(k));
            assert(front[k] == inputs[k]);
        }
        lemma_mistakes_count(round, front);
        assert(inputs.take(inputs.len() - 1) =~= front);
        if !occurs(lowercase(inputs.last()), round.secret) {
            assert(!round.play(inputs.take(inputs.len() - 1)).is_over());
        }
    }
}

/// The count of mistakes never falls in the course of a series of guesses:
/// after the first `k` of them it is no more than after all.
pub proof fn lemma_mistakes_monotonic(round: Round, inputs: Seq<Seq<char>>, k: int)
    requires
        0 <= k <= inputs.len(),
    ensures
        round.play(inputs.take(k)).mistakes <= round.play(inputs).mistakes,
    decreases inputs.len() - k,
{
    if k < inputs.len() {
        let front = inputs.drop_last();
        if k < inputs.len() - 1 {
            lemma_mistakes_monotonic(round, front, k);
            assert(front.take(k) =~= inputs.take(k));
        } else {
            assert(inputs.take(k) =~= front);
        }
    } else {
        assert(inputs.take(k) =~= inputs);
    }
}

/// A correct guess made a second time changes neither the revealed cells
/// nor the count of mistakes, and the first time it leaves that count as
/// it was.
pub proof fn lemma_hit_idempotent(round: Round, input: Seq<char>)
    requires
        occurs(lowercase(input), round.secret),
    ensures
        round.guess(input).mistakes == round.mistakes,
        round.guess(input).guess(input).mistakes == round.mistakes,
        round.guess(input).guess(input).reveal == round.guess(input).reveal,
{
    let once = round.guess(input);
    let twice = once.guess(input);
    if !round.is_over() && !once.is_over() {
        assert(twice.reveal =~= once.reveal);
    }
}

/// Two guesses that differ in case only lead to the same round.
pub proof fn lemma_case_insensitive(round: Round, a: Seq<char>, b: Seq<char>)
    requires
        lowercase(a) == lowercase(b),
    ensures
        round.guess(a) == round.guess(b),
{
}

/// A guess of ASCII characters and its lower-case form lead to the same
/// round.
pub proof fn lemma_guess_of_lower_case(round: Round, input: Seq<char>)
    requires
        is_ascii_chars(input),
    ensures
        round.guess(lowercase(input)) == round.guess(input),
{
    lemma_lowercase_of_ascii(input);
}

/// Two guesses of ASCII characters that differ in the case of ASCII
/// letters only lead to the same round.
pub proof fn lemma_case_insensitive_on_ascii(round: Round, a: Seq<char>, b: Seq<char>)
    requires
        is_ascii_chars(a),
        is_ascii_chars(b),
        folded(a) == folded(b),
    ensures
        round.guess(a) == round.guess(b),
{
}

/// The revealed cells depend on which letters were found, not on the order
/// in which they were guessed nor on how often.
pub proof fn lemma_shown_ignores_order(secret: Seq<char>, hits: Seq<Seq<char>>, other: Seq<Seq<char>>)
    requires
        hits.to_set() == other.to_set(),
    ensures
        shown(secret, hits) == shown(secret, other),
{
    assert forall|c: char| found(hits, c) == found(other, c) by {
        if found(hits, c) {
            let j = choose|j: int| 0 <= j < hits.len() && shows(#[trigger] hits[j], c);
            assert(hits.to_set().contains(hits[j]));
            assert(other.contains(hits[j]));
            let k = choose|k: int| 0 <= k < other.len() && other[k] == hits[j];
            assert(shows(other[k], c));
        }
        if found(other, c) {
            let j = choose|j: int| 0 <= j < other.len() && shows(#[trigger] other[j], c);
            assert(other.to_set().contains(other[j]));
            assert(hits.contains(other[j]));
            let k = choose|k: int| 0 <= k < hits.len() && hits[k] == other[j];
            assert(shows(hits[k], c));
        }
    }
    assert(shown(secret, hits) =~= shown(secret, other));
}

/// A well-formed round in which every character of the secret other than
/// a space is found is won, whatever the alphabet of the secret. (A space
/// in the secret reads like a blank cell, found or not.)
pub proof fn lemma_letters_found_is_won(round: Round)
    requires
        round.wf(),
        forall|i: int|
            0 <= i < round.secret.len() && round.secret[i] != ' ' ==> found(
                round.hits,
                #[trigger] round.secret[i],
            ),
    ensures
        round.is_won(),
{
    let secret = round.secret;
    let cells = round.reveal;
    assert forall|i: int| 0 <= i < cells.len() implies (#[trigger] cells[i]).len() == 1 by {}
    lemma_flatten_cells(cells);
    let text = cells.flatten();
    assert forall|i: int| 0 <= i < secret.len() implies text[i] == secret[i] by {
        if secret[i] != ' ' {
            assert(found(round.hits, secret[i]));
        }
        assert(cells[i] == cell(secret[i]) || cells[i] == blank());
    }
    assert(text =~= secret);
}

/// A well-formed round on a secret of ASCII characters is won exactly when
/// every character of the secret other than a space is found.
pub proof fn lemma_won_iff_letters_found(round: Round)
    requires
        round.wf(),
        is_ascii_chars(round.secret),
    ensures
        round.is_won() <==> forall|i: int|
            0 <= i < round.secret.len() && round.secret[i] != ' ' ==> found(
                round.hits,
                #[trigger] round.secret[i],
            ),
{
    let secret = round.secret;
    let cells = round.reveal;
    assert forall|i: int| 0 <= i < cells.len() implies (#[trigger] cells[i]).len() == 1 by {}
    lemma_flatten_cells(cells);
    let text = cells.flatten();
    assert forall|i: int| 0 <= i < text.len() implies '\0' <= #[trigger] text[i] <= '\u{7f}' by {
        assert(cells[i] == cell(secret[i]) || cells[i] == blank());
    }
    assert(is_ascii_chars(text));
    if round.is_won() {
        assert forall|i: int| 0 <= i < secret.len() && secret[i] != ' ' implies found(
            round.hits,
            #[trigger] secret[i],
        ) by {
            if !found(round.hits, secret[i]) {
                assert(cells[i] == blank());
                assert(text[i] == ' ');
                assert(folded(text)[i] == folded(secret)[i]);
            }
        }
    }
    if forall|i: int|
        0 <= i < secret.len() && secret[i] != ' ' ==> found(round.hits, #[trigger] secret[i]) {
        lemma_letters_found_is_won(round);
    }
}

/// A well-formed round on a secret of ASCII characters is won exactly when
/// every character of the secret is found, whatever the order of the hits.
/// Left out are the rounds in which a space of the secret is all that is
/// not found: they are won too.
pub proof fn lemma_won_iff_all_found(round: Round)
    requires
        round.wf(),
        is_ascii_chars(round.secret),
        round.secret.contains(' ') && !found(round.hits, ' ') ==> exists|i: int|
            0 <= i < round.secret.len() && round.secret[i] != ' ' && !found(
                round.hits,
                #[trigger] round.secret[i],
            ),
    ensures
        round.is_won() <==> forall|i: int|
            0 <= i < round.secret.len() ==> found(round.hits, #[trigger] round.secret[i]),
{
    lemma_won_iff_letters_found(round);
    let secret = round.secret;
    if round.is_won() {
        assert forall|i: int| 0 <= i < secret.len() implies found(
            round.hits,
            #[trigger] secret[i],
        ) by {
            if secret[i] == ' ' {
                assert(secret.contains(secret[i]));
            }
        }
    }
}

/// A well-formed round is lost exactly when it holds as many misses as the
/// limit allows, a repeated miss counted each time, and a guess loses a
/// round only as the miss that reaches that limit.
pub proof fn lemma_lost_at_the_limit(round: Round, input: Seq<char>)
    requires
        round.wf(),
    ensures
        round.is_lost() <==> round.misses.len() == MAX_MISTAKES,
        !round.is_lost() && round.guess(input).is_lost() ==> {
            &&& round.mistakes + 1 == MAX_MISTAKES
            &&& !occurs(lowercase(input), round.secret)
            &&& round.guess(input).misses == round.misses.push(lowercase(input))
        },
{
}

/// A well-formed round is lost exactly when its misses are as many
/// different letters as the limit allows. Left out are the lost rounds in
/// which a miss was repeated: they are lost on fewer different letters.
pub proof fn lemma_lost_at_the_sixth_distinct_miss(round: Round)
    requires
        round.wf(),
        round.is_lost() ==> round.misses.no_duplicates(),
    ensures
        round.is_lost() <==> round.misses.to_set().len() == MAX_MISTAKES,
{
    round.misses.lemma_cardinality_of_set();
    if round.is_lost() {
        round.misses.unique_seq_to_set();
    }
}

/// A wrong guess never takes the count of mistakes past the limit, and a
/// round that is lost stays as it is: nothing leaves a lost round.
pub proof fn lemma_wrong_keeps_the_limit(round: Round, letter: Seq<char>)
    ensures
        round.mistakes <= MAX_MISTAKES ==> round.wrong(letter).mistakes <= MAX_MISTAKES,
        round.is_lost() ==> round.wrong(letter) == round,
        round.playable() ==> round.wrong(letter).playable(),
        !round.is_over() && round.playable() ==> round.wrong(letter) == round.miss(letter),
{
}

/// A round that is over takes no further guess.
pub proof fn lemma_over_is_final(round: Round, input: Seq<char>)
    requires
        round.is_over(),
    ensures
        round.guess(input) == round,
{
}

} // verus!
