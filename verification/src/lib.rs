//! A word-guessing game for one player. A secret word is drawn, the player
//! names one letter per turn, and each letter that the word lacks adds a
//! part to the figure on the gibbet. The round is won when the whole word
//! stands revealed and lost at the sixth mistake.
//!
//! The functions of this file are the single steps of the game on plain
//! values; `game::game::HangmanGame` holds a round and plays it with them,
//! and `game::laws` proves what holds of every round.
//!
//! Nothing here reads or prints. The letters come in as arguments, and what
//! is shown goes to a `Logger`, of which nothing is known: each function
//! that writes states which calls of `print` it makes and with which text,
//! and the texts are computed by functions of their own.

pub mod constants;
pub mod game;
pub mod logger;
pub mod puppet;
pub mod random_word;
pub mod text;

use crate::constants::attempts::MAX_MISTAKES;
use crate::logger::logger::{hand_over, relayed, takes, Logger};
use crate::puppet::gibbet::Gibbet;
use crate::text::{ascii_lower, chars_of, contains, is_infix, joined, lower, lowercase};
use crate::text::{to_ascii_lower, to_lowercase};
use vstd::prelude::*;

verus! {

/// What a cell of the revealed word holds while its letter is unknown.
pub open spec fn blank() -> Seq<char> {
    seq![' ']
}

/// `count` blank cells.
pub open spec fn blank_cells(count: nat) -> Seq<Seq<char>> {
    Seq::new(count, |i: int| blank())
}

/// Whether `letter` is the character `c` but for its case: both are the
/// same text in lower case.
pub open spec fn shows(letter: Seq<char>, c: char) -> bool {
    lowercase(letter) == lowercase(seq![c])
}

/// The positions of `word` whose character is `letter` but for its case,
/// in rising order.
pub open spec fn places(letter: Seq<char>, word: Seq<char>) -> Seq<int>
    decreases word.len(),
{
    if word.len() == 0 {
        Seq::empty()
    } else if shows(letter, word.last()) {
        places(letter, word.drop_last()).push(word.len() - 1)
    } else {
        places(letter, word.drop_last())
    }
}

/// Whether `letter` names the character `c` as `get_occurrences` compares
/// them: it is one character, and that character is `c` but for the case
/// of the ASCII letters.
pub open spec fn names(letter: Seq<char>, c: char) -> bool {
    letter.len() == 1 && ascii_lower(letter[0]) == ascii_lower(c)
}

/// The positions of `word` whose character `letter` names, in rising order.
pub open spec fn occurrences(letter: Seq<char>, word: Seq<char>) -> Seq<int>
    decreases word.len(),
{
    if word.len() == 0 {
        Seq::empty()
    } else if names(letter, word.last()) {
        occurrences(letter, word.drop_last()).push(word.len() - 1)
    } else {
        occurrences(letter, word.drop_last())
    }
}

/// Each of `parts` followed by `separator`, all as one text.
pub open spec fn suffixed(parts: Seq<Seq<char>>, separator: Seq<char>) -> Seq<char> {
    parts.map_values(|part: Seq<char>| part + separator).flatten()
}

/// Whether `cells`, read as one text, spell `secret`, case aside.
pub open spec fn spells(cells: Seq<Seq<char>>, secret: Seq<char>) -> bool {
    lowercase(cells.flatten()) == lowercase(secret)
}

/// What is shown for `attempts` mistakes: the drawing of the stage, or the
/// word `Invalid` where no stage belongs to the number.
pub open spec fn status_text(attempts: int) -> Seq<char> {
    match Gibbet::stage(attempts) {
        Some(stage) => stage.drawing(),
        None => "Invalid"@,
    }
}

/// The two lines of the closing message: how the round ended, then the
/// word.
pub open spec fn closing_lines(status: Seq<char>, word: Seq<char>) -> Seq<Seq<char>> {
    seq!["You "@ + status, "\nThe word is: "@ + word]
}

/// How a round of `attempts` mistakes stands at its end: won where `cells`
/// spell `secret`, else lost where the mistakes are at the limit, else not
/// ended at all. A round that is both counts as won.
pub open spec fn outcome_of(cells: Seq<Seq<char>>, secret: Seq<char>, attempts: int) -> Option<
    Seq<char>,
> {
    if spells(cells, secret) {
        Some("WON"@)
    } else if attempts == MAX_MISTAKES {
        Some("LOSE"@)
    } else {
        None
    }
}

/// What is written at the end of a round of `attempts` mistakes: the
/// closing message for how it stands, and nothing while it is in progress.
pub open spec fn farewell_lines(cells: Seq<Seq<char>>, secret: Seq<char>, attempts: int) -> Seq<
    Seq<char>,
> {
    match outcome_of(cells, secret, attempts) {
        Some(status) => closing_lines(status, secret),
        None => Seq::empty(),
    }
}

/// `places` holds exactly the positions whose character is `letter` but
/// for its case, each once and in rising order.
pub proof fn lemma_places(letter: Seq<char>, word: Seq<char>)
    ensures
        forall|i: int|
            places(letter, word).contains(i) <==> 0 <= i < word.len() && shows(letter, word[i]),
        forall|j: int, k: int|
            0 <= j < k < places(letter, word).len() ==> places(letter, word)[j] < places(
                letter,
                word,
            )[k],
        places(letter, word).len() <= word.len(),
    decreases word.len(),
{
    let found = places(letter, word);
    if word.len() > 0 {
        let front = word.drop_last();
        let before = places(letter, front);
        lemma_places(letter, front);
        assert forall|i: int|
            found.contains(i) <==> 0 <= i < word.len() && shows(letter, word[i]) by {
            if 0 <= i < word.len() - 1 {
                assert(front[i] == word[i]);
            }
            if shows(letter, word.last()) {
                assert(found == before.push(word.len() - 1));
                assert(found[found.len() - 1] == word.len() - 1);
                if before.contains(i) {
                    let j = choose|j: int| 0 <= j < before.len() && before[j] == i;
                    assert(found[j] == i);
                }
                if found.contains(i) {
                    let j = choose|j: int| 0 <= j < found.len() && found[j] == i;
                    if j < before.len() {
                        assert(before[j] == i);
                    }
                }
            }
        }
        assert forall|j: int, k: int| 0 <= j < k < found.len() implies found[j] < found[k] by {
            if k == before.len() {
                assert(before.contains(before[j]));
            }
        }
    }
}

/// `occurrences` holds exactly the positions whose character `letter`
/// names, each once and in rising order.
pub proof fn lemma_occurrences(letter: Seq<char>, word: Seq<char>)
    ensures
        forall|i: int|
            occurrences(letter, word).contains(i) <==> 0 <= i < word.len() && names(
                letter,
                word[i],
            ),
        forall|j: int, k: int|
            0 <= j < k < occurrences(letter, word).len() ==> occurrences(letter, word)[j]
                < occurrences(letter, word)[k],
        occurrences(letter, word).len() <= word.len(),
    decreases word.len(),
{
    let found = occurrences(letter, word);
    if word.len() > 0 {
        let front = word.drop_last();
        let before = occurrences(letter, front);
        lemma_occurrences(letter, front);
        assert forall|i: int|
            found.contains(i) <==> 0 <= i < word.len() && names(letter, word[i]) by {
            if 0 <= i < word.len() - 1 {
                assert(front[i] == word[i]);
            }
            if names(letter, word.last()) {
                assert(found == before.push(word.len() - 1));
                assert(found[found.len() - 1] == word.len() - 1);
                if before.contains(i) {
                    let j = choose|j: int| 0 <= j < before.len() && before[j] == i;
                    assert(found[j] == i);
                }
                if found.contains(i) {
                    let j = choose|j: int| 0 <= j < found.len() && found[j] == i;
                    if j < before.len() {
                        assert(before[j] == i);
                    }
                }
            }
        }
        assert forall|j: int, k: int| 0 <= j < k < found.len() implies found[j] < found[k] by {
            if k == before.len() {
                assert(before.contains(before[j]));
            }
        }
    }
}

/// A guess of any other length than one names nothing.
pub proof fn lemma_occurrences_of_no_letter(letter: Seq<char>, word: Seq<char>)
    requires
        letter.len() != 1,
    ensures
        occurrences(letter, word) == Seq::<int>::empty(),
    decreases word.len(),
{
    if word.len() > 0 {
        lemma_occurrences_of_no_letter(letter, word.drop_last());
    }
}

/// Whether `letter` stands somewhere in `word` once `word` is put in lower
/// case. `letter` is taken as it is: a caller that wants the case of the
/// guess to be ignored hands it over in lower case.
pub fn word_contains_letter(letter: String, word: String) -> (found: bool)
    ensures
        found == is_infix(letter@, lowercase(word@)),
        found == is_infix(letter@, lower(word@)),
{
    let lowered = to_lowercase(word.as_str());
    contains(lowered.as_str(), letter.as_str())
}

/// The positions in `word`, counted in characters from zero, whose
/// character is `letter` but for its case, in rising order: those at which
/// the character and `letter` are the same text in lower case.
pub fn get_places(letter: &str, word: &str) -> (found: Vec<usize>)
    ensures
        found@.map_values(|i: usize| i as int) == places(letter@, word@),
{
    let sought = to_lowercase(letter);
    let chars = chars_of(word);
    let mut found: Vec<usize> = Vec::new();
    let mut at: usize = 0;
    assert(word@.take(0) =~= Seq::<char>::empty());
    assert(found@.map_values(|i: usize| i as int) =~= Seq::<int>::empty());
    while at < chars.len()
        invariant
            at <= chars.len(),
            chars@ == word@,
            sought@ == lowercase(letter@),
            found@.map_values(|i: usize| i as int) == places(letter@, word@.take(at as int)),
        decreases chars.len() - at,
    {
        let ghost before = found@.map_values(|i: usize| i as int);
        let ghost upto = word@.take(at + 1);
        assert(upto.drop_last() =~= word@.take(at as int));
        assert(upto.last() == word@[at as int]);
        let mut one = String::new();
        one.push(chars[at]);
        assert(one@ =~= seq![word@[at as int]]);
        let lowered = to_lowercase(one.as_str());
        if lowered == sought {
            found.push(at);
            assert(found@.map_values(|i: usize| i as int) =~= before.push(at as int));
        }
        at += 1;
    }
    assert(word@.take(chars.len() as int) =~= word@);
    found
}

/// The positions in `word`, counted in characters from zero, at which the
/// guess `letter` stands, the case of the ASCII letters aside, in rising
/// order. A guess that is not one character stands nowhere. (`get_places`
/// compares in lower case, for every alphabet.)
pub fn get_occurrences(letter: String, word: &'static str) -> (found: Vec<usize>)
    ensures
        found@.map_values(|i: usize| i as int) == occurrences(letter@, word@),
{
    let guess = chars_of(letter.as_str());
    let chars = chars_of(word);
    let mut found: Vec<usize> = Vec::new();
    if guess.len() != 1 {
        proof {
            lemma_occurrences_of_no_letter(letter@, word@);
            assert(found@.map_values(|i: usize| i as int) =~= Seq::<int>::empty());
        }
        return found;
    }
    let sought = to_ascii_lower(guess[0]);
    let mut at: usize = 0;
    assert(word@.take(0) =~= Seq::<char>::empty());
    assert(found@.map_values(|i: usize| i as int) =~= Seq::<int>::empty());
    while at < chars.len()
        invariant
            at <= chars.len(),
            chars@ == word@,
            guess@ == letter@,
            guess@.len() == 1,
            sought == ascii_lower(guess@[0]),
            found@.map_values(|i: usize| i as int) == occurrences(letter@, word@.take(at as int)),
        decreases chars.len() - at,
    {
        let ghost before = found@.map_values(|i: usize| i as int);
        let ghost upto = word@.take(at + 1);
        assert(upto.drop_last() =~= word@.take(at as int));
        assert(upto.last() == word@[at as int]);
        if to_ascii_lower(chars[at]) == sought {
            found.push(at);
            assert(found@.map_values(|i: usize| i as int) =~= before.push(at as int));
        }
        at += 1;
    }
    assert(word@.take(chars.len() as int) =~= word@);
    found
}

/// `size` cells that each hold one space: the revealed word of a round in
/// which nothing is guessed yet.
pub fn get_blank_chars(size: usize) -> (cells: Vec<String>)
    ensures
        cells.deep_view() == blank_cells(size as nat),
{
    let mut cells: Vec<String> = Vec::new();
    let mut made: usize = 0;
    while made < size
        invariant
            made <= size,
            cells@.len() == made,
            forall|i: int| 0 <= i < made ==> (#[trigger] cells@[i])@ == blank(),
        decreases size - made,
    {
        let mut cell = String::new();
        cell.push(' ');
        assert(cell@ =~= blank());
        cells.push(cell);
        made += 1;
    }
    assert(cells.deep_view() =~= blank_cells(size as nat));
    cells
}

/// Each string of `sequence` followed by `separator`, all as one text.
pub fn sequence_text(separator: &str, sequence: &Vec<String>) -> (text: String)
    ensures
        text@ == suffixed(sequence.deep_view(), separator@),
{
    let ghost parts = sequence.deep_view();
    let ghost follow = |part: Seq<char>| part + separator@;
    let mut text = String::new();
    let mut i: usize = 0;
    assert(parts.take(0).map_values(follow) =~= Seq::<Seq<char>>::empty());
    while i < sequence.len()
        invariant
            i <= sequence.len(),
            parts == sequence.deep_view(),
            follow == |part: Seq<char>| part + separator@,
            text@ == parts.take(i as int).map_values(follow).flatten(),
        decreases sequence.len() - i,
    {
        text.append(sequence[i].as_str());
        text.append(separator);
        proof {
            let done = parts.take(i as int).map_values(follow);
            done.lemma_flatten_push(follow(parts[i as int]));
            assert(parts.take(i + 1).map_values(follow) =~= done.push(follow(parts[i as int])));
            assert(text@ =~= done.flatten() + follow(parts[i as int]));
        }
        i += 1;
    }
    assert(parts.take(sequence.len() as int) =~= parts);
    text
}

/// What is shown for `attempts` mistakes: the drawing of the stage that
/// belongs to the number, or the word `Invalid` where the number is beyond
/// the limit and no stage belongs to it.
pub fn gibbet_status(attempts: u8) -> (text: &'static str)
    ensures
        text@ == status_text(attempts as int),
{
    match Gibbet::for_attempts(attempts) {
        Some(stage) => stage.as_str(),
        None => "Invalid",
    }
}

/// The closing message of a round on `word` that ended as `status` says:
/// the outcome, then the word.
pub fn closing(status: &str, word: &str) -> (lines: Vec<String>)
    ensures
        lines.deep_view() == closing_lines(status@, word@),
{
    let mut verdict = String::from_str("You ");
    verdict.append(status);
    let mut solution = String::from_str("\nThe word is: ");
    solution.append(word);
    let mut lines: Vec<String> = Vec::new();
    lines.push(verdict);
    lines.push(solution);
    assert(lines.deep_view() =~= closing_lines(status@, word@));
    lines
}

/// How the round stands at its end: `WON` where the cells spell the word,
/// else `LOSE` where the mistakes are at the limit, and `None` while the
/// round is in progress.
pub fn outcome(word: &'static str, formed_word_by_hits: &Vec<String>, attempts: u8) -> (status:
    Option<&'static str>)
    ensures
        match status {
            Some(status) => outcome_of(formed_word_by_hits.deep_view(), word@, attempts as int)
                == Some(status@),
            None => outcome_of(formed_word_by_hits.deep_view(), word@, attempts as int) is None,
        },
{
    if win(word, formed_word_by_hits) {
        Some("WON")
    } else if lost(attempts) {
        Some("LOSE")
    } else {
        None
    }
}

/// Hands each of `lines` to `logger`, first to last: the logger is left as
/// one call of `print` for each line leaves it, each call finding the
/// logger as the call before left it.
pub(crate) fn print_each<L: Logger + ?Sized>(lines: &Vec<String>, logger: &mut L)
    ensures
        exists|calls: Seq<&mut L>|
            {
                &&& #[trigger] relayed(calls, lines.deep_view())
                &&& forall|i: int|
                    0 < i < calls.len() ==> &*final(calls[i - 1]) == &*(#[trigger] calls[i])
                &&& calls.len() > 0 ==> &*calls[0] == &*old(logger) && &*final(calls.last())
                    == &*final(logger)
                &&& calls.len() == 0 ==> &*final(logger) == &*old(logger)
            },
{
    let mut i: usize = 0;
    proof {
        assert(relayed(Seq::<&mut L>::empty(), lines.deep_view().take(0)));
    }
    while i < lines.len()
        invariant
            i <= lines.len(),
            exists|calls: Seq<&mut L>|
                {
                    &&& #[trigger] relayed(calls, lines.deep_view().take(i as int))
                    &&& forall|k: int|
                        0 < k < calls.len() ==> &*final(calls[k - 1]) == &*(#[trigger] calls[k])
                    &&& calls.len() > 0 ==> &*calls[0] == &*old(logger) && &*final(calls.last())
                        == &*logger
                    &&& calls.len() == 0 ==> &*logger == &*old(logger)
                },
        decreases lines.len() - i,
    {
        let ghost before = &*logger;
        let ghost done = lines.deep_view().take(i as int);
        hand_over(logger, lines[i].as_str());
        proof {
            let earlier = choose|calls: Seq<&mut L>|
                {
                    &&& #[trigger] relayed(calls, done)
                    &&& forall|k: int|
                        0 < k < calls.len() ==> &*final(calls[k - 1]) == &*(#[trigger] calls[k])
                    &&& calls.len() > 0 ==> &*calls[0] == &*old(logger) && &*final(calls.last())
                        == before
                    &&& calls.len() == 0 ==> before == &*old(logger)
                };
            let last = choose|call: &mut L|
                &*call == before && &*final(call) == &*logger && #[trigger] takes(
                    call,
                    lines[i as int]@,
                );
            let calls = earlier.push(last);
            let texts = lines.deep_view().take(i + 1);
            assert(texts =~= done.push(lines[i as int]@));
            assert forall|k: int| 0 <= k < calls.len() implies takes(
                #[trigger] calls[k],
                texts[k],
            ) by {
                if k < earlier.len() {
                    assert(calls[k] == earlier[k]);
                }
            }
            assert(relayed(calls, texts));
            assert forall|k: int| 0 < k < calls.len() implies &*final(calls[k - 1]) == &*(
            #[trigger] calls[k]) by {
                assert(calls[k - 1] == earlier[k - 1]);
                if k < earlier.len() {
                    assert(calls[k] == earlier[k]);
                }
            }
            assert(earlier.len() > 0 ==> calls[0] == earlier[0]);
        }
        i += 1;
    }
    assert(lines.deep_view().take(lines.len() as int) =~= lines.deep_view());
}

/// Writes the strings of `sequence`, each followed by `separator`, as one
/// text: the logger is left as one call of `print` with that text leaves
/// it.
pub fn print_sequence<L: Logger + ?Sized>(separator: String, sequence: Vec<String>, logger: &mut L)
    ensures
        exists|call: &mut L|
            &*call == &*old(logger) && &*final(call) == &*final(logger) && #[trigger] takes(
                call,
                suffixed(sequence.deep_view(), separator@),
            ),
{
    let text = sequence_text(separator.as_str(), &sequence);
    hand_over(logger, text.as_str());
}

/// Writes the bare frame: one call of `print` with its drawing.
pub fn print_gibbet<L: Logger + ?Sized>(logger: &mut L)
    ensures
        exists|call: &mut L|
            &*call == &*old(logger) && &*final(call) == &*final(logger) && #[trigger] takes(
                call,
                Gibbet::Gibbet.drawing(),
            ),
{
    hand_over(logger, Gibbet::Gibbet.as_str());
}

/// Writes the frame with the head: one call of `print` with its drawing.
pub fn print_head<L: Logger + ?Sized>(logger: &mut L)
    ensures
        exists|call: &mut L|
            &*call == &*old(logger) && &*final(call) == &*final(logger) && #[trigger] takes(
                call,
                Gibbet::Head.drawing(),
            ),
{
    hand_over(logger, Gibbet::Head.as_str());
}

/// Writes the drawing with head and right arm: one call of `print` with
/// it.
pub fn print_head_and_right_arm<L: Logger + ?Sized>(logger: &mut L)
    ensures
        exists|call: &mut L|
            &*call == &*old(logger) && &*final(call) == &*final(logger) && #[trigger] takes(
                call,
                Gibbet::HeadAndRightArm.drawing(),
            ),
{
    hand_over(logger, Gibbet::HeadAndRightArm.as_str());
}

/// Writes the drawing with head and both arms: one call of `print` with
/// it.
pub fn print_head_right_arm_and_left_arm<L: Logger + ?Sized>(logger: &mut L)
    ensures
        exists|call: &mut L|
            &*call == &*old(logger) && &*final(call) == &*final(logger) && #[trigger] takes(
                call,
                Gibbet::HeadRightArmAndLeftArm.drawing(),
            ),
{
    hand_over(logger, Gibbet::HeadRightArmAndLeftArm.as_str());
}

/// Writes the drawing with head, both arms and the stem: one call of
/// `print` with it.
pub fn print_head_right_arm_left_arm_and_stem<L: Logger + ?Sized>(logger: &mut L)
    ensures
        exists|call: &mut L|
            &*call == &*old(logger) && &*final(call) == &*final(logger) && #[trigger] takes(
                call,
                Gibbet::HeadRightArmLeftArmAndStem.drawing(),
            ),
{
    hand_over(logger, Gibbet::HeadRightArmLeftArmAndStem.as_str());
}

/// Writes the drawing with head, both arms, the stem and the right leg:
/// one call of `print` with it.
pub fn print_head_right_arm_left_arm_stem_and_right_leg<L: Logger + ?Sized>(logger: &mut L)
    ensures
        exists|call: &mut L|
            &*call == &*old(logger) && &*final(call) == &*final(logger) && #[trigger] takes(
                call,
                Gibbet::HeadRightArmLeftArmStemAndRightLeg.drawing(),
            ),
{
    hand_over(logger, Gibbet::HeadRightArmLeftArmStemAndRightLeg.as_str());
}

/// Writes the whole figure: one call of `print` with its drawing.
pub fn print_head_right_arm_left_arm_stem_right_leg_and_left_leg<L: Logger + ?Sized>(
    logger: &mut L,
)
    ensures
        exists|call: &mut L|
            &*call == &*old(logger) && &*final(call) == &*final(logger) && #[trigger] takes(
                call,
                Gibbet::HeadRightArmLeftArmStemRightLegAndLeftLeg.drawing(),
            ),
{
    hand_over(logger, Gibbet::HeadRightArmLeftArmStemRightLegAndLeftLeg.as_str());
}

/// Writes the word `Invalid`, what stands in place of a drawing where the
/// number of mistakes has no stage: one call of `print` with that word.
pub fn print_default<L: Logger + ?Sized>(logger: &mut L)
    ensures
        exists|call: &mut L|
            &*call == &*old(logger) && &*final(call) == &*final(logger) && #[trigger] takes(
                call,
                "Invalid"@,
            ),
{
    hand_over(logger, "Invalid");
}

/// Writes what is shown for `attempts` mistakes: one call of `print` with
/// the drawing of the stage, or with the word `Invalid` where the number
/// is beyond the limit. Such a number is never shown as the first or the
/// last stage.
pub fn print_gibbet_status<L: Logger + ?Sized>(attempts: u8, logger: &mut L)
    ensures
        exists|call: &mut L|
            &*call == &*old(logger) && &*final(call) == &*final(logger) && #[trigger] takes(
                call,
                status_text(attempts as int),
            ),
{
    hand_over(logger, gibbet_status(attempts));
}

/// Whether the round is won: the cells of `formed_word_by_hits`, read as
/// one text in lower case, are `word` in lower case.
pub fn win(word: &'static str, formed_word_by_hits: &Vec<String>) -> (won: bool)
    ensures
        won == spells(formed_word_by_hits.deep_view(), word@),
{
    let sought = to_lowercase(word);
    let shown = to_lowercase(joined(formed_word_by_hits).as_str());
    sought == shown
}

/// Whether the round is lost: `attempts` mistakes are the limit.
pub fn lost(attempts: u8) -> (lost: bool)
    ensures
        lost == (attempts == MAX_MISTAKES),
{
    attempts == MAX_MISTAKES
}

/// Writes the closing message: two calls of `print`, the first with how
/// the round ended, the second with the word.
pub fn end<L: Logger + ?Sized>(status: &str, word: &'static str, logger: &mut L)
    ensures
        exists|calls: Seq<&mut L>|
            {
                &&& #[trigger] relayed(calls, closing_lines(status@, word@))
                &&& forall|i: int|
                    0 < i < calls.len() ==> &*final(calls[i - 1]) == &*(#[trigger] calls[i])
                &&& calls.len() > 0 ==> &*calls[0] == &*old(logger) && &*final(calls.last())
                    == &*final(logger)
                &&& calls.len() == 0 ==> &*final(logger) == &*old(logger)
            },
{
    let lines = closing(status, word);
    print_each(&lines, logger);
}

/// Closes a round: writes the closing message of a won round where the
/// cells spell the word, else that of a lost round where the mistakes are
/// at the limit, and nothing, no call of `print` at all, while the round is
/// in progress.
pub fn end_of_game<L: Logger + ?Sized>(
    word: &'static str,
    formed_word_by_hits: &Vec<String>,
    attempts: u8,
    logger: &mut L,
)
    ensures
        exists|calls: Seq<&mut L>|
            {
                &&& #[trigger] relayed(
                    calls,
                    farewell_lines(formed_word_by_hits.deep_view(), word@, attempts as int),
                )
                &&& forall|i: int|
                    0 < i < calls.len() ==> &*final(calls[i - 1]) == &*(#[trigger] calls[i])
                &&& calls.len() > 0 ==> &*calls[0] == &*old(logger) && &*final(calls.last())
                    == &*final(logger)
                &&& calls.len() == 0 ==> &*final(logger) == &*old(logger)
            },
{
    let ghost texts = farewell_lines(formed_word_by_hits.deep_view(), word@, attempts as int);
    match outcome(word, formed_word_by_hits, attempts) {
        Some(status) => {
            assert(texts == closing_lines(status@, word@));
            end(status, word, logger);
        },
        None => {
            assert(texts == Seq::<Seq<char>>::empty());
            assert(relayed(Seq::<&mut L>::empty(), texts));
        },
    }
}

} // verus!
