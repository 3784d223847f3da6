//! The type that holds a round and plays it.
//!
//! `HangmanGame` keeps a round in plain values; its view is the `Round` of
//! the model, and each of its methods is stated as what it does to that
//! view. What the game shows goes to a `Logger`, and the line the player
//! typed comes in as an argument: the reading and the screen belong to the
//! program around it.

use crate::constants::attempts::MAX_MISTAKES;
use crate::game::laws::lemma_guess_preserves_wf;
use crate::game::round::{occurs, uncovered, Round};
use crate::logger::logger::{hand_over, relayed, takes, Logger};
use crate::text::{chars_of, to_lowercase};
use crate::{closing_lines, farewell_lines, lemma_places, places, shows};
use crate::{get_blank_chars, get_places, gibbet_status, print_each, sequence_text};
use vstd::prelude::*;

verus! {

/// One round of the game: the secret word, what is revealed of it, the
/// letters guessed so far and the count of mistakes.
#[derive(Debug, Clone)]
pub struct HangmanGame {
    word: &'static str,
    formed_word_by_hits: Vec<String>,
    hits: Vec<String>,
    errors: Vec<String>,
    attempts: u8,
}

impl View for HangmanGame {
    type V = Round;

    closed spec fn view(&self) -> Round {
        Round {
            secret: self.word@,
            reveal: self.formed_word_by_hits.deep_view(),
            hits: self.hits.deep_view(),
            misses: self.errors.deep_view(),
            mistakes: self.attempts as nat,
        }
    }
}

impl HangmanGame {
    /// The secret word.
    pub fn word(&self) -> (word: &'static str)
        ensures
            word@ == self@.secret,
    {
        self.word
    }

    /// The revealed word, cell by cell.
    pub fn formed_word_by_hits(&self) -> (cells: &Vec<String>)
        ensures
            cells.deep_view() == self@.reveal,
    {
        &self.formed_word_by_hits
    }

    /// The correct guesses, oldest first.
    pub fn hits(&self) -> (hits: &Vec<String>)
        ensures
            hits.deep_view() == self@.hits,
    {
        &self.hits
    }

    /// The wrong guesses, oldest first.
    pub fn errors(&self) -> (errors: &Vec<String>)
        ensures
            errors.deep_view() == self@.misses,
    {
        &self.errors
    }

    /// The count of mistakes.
    pub fn attempts(&self) -> (attempts: u8)
        ensures
            attempts == self@.mistakes,
    {
        self.attempts
    }

    /// The row of wrong guesses, a space after each.
    pub fn errors_row(&self) -> (row: String)
        ensures
            row@ == self@.errors_row(),
    {
        sequence_text(" ", &self.errors)
    }

    /// The two rows of the word: the revealed cells with a space after
    /// each, then a blank and an underscore for each character of the
    /// secret.
    pub fn hits_rows(&self) -> (rows: Vec<String>)
        ensures
            rows.deep_view() == self@.hits_rows(),
    {
        let blank_chars: Vec<String> = get_blank_chars(self.word.unicode_len());
        let mut rows: Vec<String> = Vec::new();
        rows.push(sequence_text(" ", &self.formed_word_by_hits));
        rows.push(sequence_text("_", &blank_chars));
        assert(rows.deep_view() =~= self@.hits_rows());
        rows
    }

    /// The screen of the round, text by text: the title, the wrong
    /// guesses, what is shown for the count of mistakes and the rows of
    /// the word, with an empty line between them.
    pub fn screen(&self) -> (lines: Vec<String>)
        ensures
            lines.deep_view() == self@.screen(),
    {
        let mut rows = self.hits_rows();
        let mut lines: Vec<String> = Vec::new();
        lines.push(String::from_str("\n\t\tJogo da Forca"));
        lines.push(self.errors_row());
        lines.push(String::from_str("\n"));
        lines.push(String::from_str(gibbet_status(self.attempts)));
        lines.push(String::from_str("\n"));
        let ghost top = lines.deep_view();
        let ghost word_rows = rows.deep_view();
        lines.append(&mut rows);
        lines.push(String::from_str("\n"));
        assert(lines.deep_view() =~= top + word_rows + seq!["\n"@]);
        assert(lines.deep_view() =~= self@.screen());
        lines
    }

    /// How the round stands at its end: `WON`, `LOSE`, or `None` while it
    /// is in progress. A round both won and lost counts as won.
    pub fn outcome(&self) -> (status: Option<&'static str>)
        ensures
            match status {
                Some(status) => self@.outcome() == Some(status@),
                None => self@.outcome() is None,
            },
    {
        crate::outcome(self.word, &self.formed_word_by_hits, self.attempts)
    }

    /// Whether the round can take a guess: it has one cell for each
    /// character of the secret, and no more mistakes than the limit.
    pub fn is_playable(&self) -> (ok: bool)
        ensures
            ok == self@.playable(),
    {
        self.formed_word_by_hits.len() == self.word.unicode_len() && self.attempts
            <= MAX_MISTAKES
    }

    /// Plays one turn on the typed line `line`, its end-of-line character
    /// included, and says whether another turn is to be played: the line
    /// is taken as `prompt_user` takes it, and the game goes on as long as
    /// the round is neither won nor lost.
    pub fn turn(&mut self, line: String) -> (go_on: bool)
        requires
            old(self)@.playable(),
        ensures
            final(self)@ == old(self)@.answer(line@),
            final(self)@.playable(),
            old(self)@.wf() ==> final(self)@.wf(),
            go_on == !final(self)@.is_over(),
    {
        self.prompt_user(line);
        !self.win() && !self.lost()
    }
}

/// What a game of this kind offers: to set a round up, to take guesses and
/// to show where the round stands.
pub trait Game: View<V = Round> + Sized {
    /// A round that holds what it is given, whatever that is. `start`
    /// makes it ready for the first guess.
    fn new(
        word: &'static str,
        formed_word_by_hits: Vec<String>,
        hits: Vec<String>,
        errors: Vec<String>,
        attempts: u8,
    ) -> (game: Self)
        ensures
            game@ == (Round {
                secret: word@,
                reveal: formed_word_by_hits.deep_view(),
                hits: hits.deep_view(),
                misses: errors.deep_view(),
                mistakes: attempts as nat,
            }),
    ;

    /// Lays out one blank cell for each character of the secret. On a
    /// round without guesses and mistakes this is the start of the round.
    fn start(&mut self)
        ensures
            final(self)@ == old(self)@.laid_out(),
            old(self)@.hits.len() == 0 && old(self)@.misses.len() == 0 && old(self)@.mistakes == 0
                ==> final(self)@ == Round::start(old(self)@.secret),
    ;

    /// Writes the closing message: two calls of `print`, the first with
    /// `status`, the second with the secret.
    fn end<L: Logger + ?Sized>(&self, status: &str, logger: &mut L)
        ensures
            exists|calls: Seq<&mut L>|
                {
                    &&& #[trigger] relayed(calls, closing_lines(status@, self@.secret))
                    &&& forall|i: int|
                        0 < i < calls.len() ==> &*final(calls[i - 1]) == &*(#[trigger] calls[i])
                    &&& calls.len() > 0 ==> &*calls[0] == &*old(logger) && &*final(calls.last())
                        == &*final(logger)
                    &&& calls.len() == 0 ==> &*final(logger) == &*old(logger)
                },
    ;

    /// Records `letter` as a correct guess.
    fn add_letter_to_hits(&mut self, letter: String)
        ensures
            final(self)@ == (Round { hits: old(self)@.hits.push(letter@), ..old(self)@ }),
    ;

    /// Fills in the cell of every character of the secret that is `letter`,
    /// case aside, with that character as the secret has it.
    fn add_letter_to_empty_word(&mut self, letter: String)
        requires
            old(self)@.reveal.len() == old(self)@.secret.len(),
        ensures
            final(self)@ == (Round {
                reveal: uncovered(old(self)@.reveal, old(self)@.secret, letter@),
                ..old(self)@
            }),
    ;

    /// Records `letter` as a wrong guess, without counting it.
    fn add_letter_to_errors(&mut self, letter: String)
        ensures
            final(self)@ == (Round { misses: old(self)@.misses.push(letter@), ..old(self)@ }),
    ;

    /// Writes the revealed word, then a row of blanks as long as the
    /// secret: two calls of `print`. The round stays as it is.
    fn print_hits<L: Logger + ?Sized>(&mut self, logger: &mut L)
        ensures
            final(self)@ == old(self)@,
            exists|calls: Seq<&mut L>|
                {
                    &&& #[trigger] relayed(calls, old(self)@.hits_rows())
                    &&& forall|i: int|
                        0 < i < calls.len() ==> &*final(calls[i - 1]) == &*(#[trigger] calls[i])
                    &&& calls.len() > 0 ==> &*calls[0] == &*old(logger) && &*final(calls.last())
                        == &*final(logger)
                    &&& calls.len() == 0 ==> &*final(logger) == &*old(logger)
                },
    ;

    /// Writes the wrong guesses: one call of `print` with their row. The
    /// round stays as it is.
    fn print_errors<L: Logger + ?Sized>(&mut self, logger: &mut L)
        ensures
            final(self)@ == old(self)@,
            exists|call: &mut L|
                &*call == &*old(logger) && &*final(call) == &*final(logger) && #[trigger] takes(
                    call,
                    old(self)@.errors_row(),
                ),
    ;

    /// Takes the guess `input` as correct: records it and fills in its
    /// cells.
    fn correct_answer(&mut self, input: String)
        requires
            old(self)@.reveal.len() == old(self)@.secret.len(),
        ensures
            final(self)@ == old(self)@.hit(input@),
    ;

    /// Takes the guess `input` as wrong: counts it and records it. A
    /// round at the limit of mistakes takes no further miss and stays as it
    /// is, so the count never passes the limit and a lost round stays lost.
    fn wrong_answer(&mut self, input: String)
        ensures
            final(self)@ == old(self)@.wrong(input@),
    ;

    /// Writes the whole screen of the round, one call of `print` for each
    /// of its texts: the title, the wrong guesses, the drawing, the
    /// revealed word. The round stays as it is.
    fn print_game<L: Logger + ?Sized>(&mut self, logger: &mut L)
        ensures
            final(self)@ == old(self)@,
            exists|calls: Seq<&mut L>|
                {
                    &&& #[trigger] relayed(calls, old(self)@.screen())
                    &&& forall|i: int|
                        0 < i < calls.len() ==> &*final(calls[i - 1]) == &*(#[trigger] calls[i])
                    &&& calls.len() > 0 ==> &*calls[0] == &*old(logger) && &*final(calls.last())
                        == &*final(logger)
                    &&& calls.len() == 0 ==> &*final(logger) == &*old(logger)
                },
    ;

    /// Applies the guess `input`, a single character in any case: a hit
    /// where it is a character of the secret, case aside, a miss where it
    /// is none, and nothing at all on a round that is over.
    fn verify_answer(&mut self, input: String)
        requires
            input@.len() == 1,
            old(self)@.playable(),
        ensures
            final(self)@ == old(self)@.guess(input@),
            final(self)@.playable(),
            old(self)@.wf() ==> final(self)@.wf(),
    ;

    /// Takes the line `input` as the player typed it, its end-of-line
    /// character included: the line without its last character is applied
    /// as the guess where that is a single character, and any other line
    /// is passed over.
    fn prompt_user(&mut self, input: String)
        requires
            old(self)@.playable(),
        ensures
            final(self)@ == old(self)@.answer(input@),
            final(self)@.playable(),
            old(self)@.wf() ==> final(self)@.wf(),
    ;

    /// Whether the round is won.
    fn win(&self) -> (won: bool)
        ensures
            won == self@.is_won(),
    ;

    /// Whether the round is lost.
    fn lost(&self) -> (lost: bool)
        ensures
            lost == self@.is_lost(),
    ;

    /// Writes the closing message of a round that is over, that of a won
    /// round where it is both won and lost, and nothing while the round is
    /// in progress.
    fn end_of_game<L: Logger + ?Sized>(&self, logger: &mut L)
        ensures
            exists|calls: Seq<&mut L>|
                {
                    &&& #[trigger] relayed(calls, self@.farewell())
                    &&& forall|i: int|
                        0 < i < calls.len() ==> &*final(calls[i - 1]) == &*(#[trigger] calls[i])
                    &&& calls.len() > 0 ==> &*calls[0] == &*old(logger) && &*final(calls.last())
                        == &*final(logger)
                    &&& calls.len() == 0 ==> &*final(logger) == &*old(logger)
                },
    ;
}

impl Game for HangmanGame {
    fn new(
        word: &'static str,
        formed_word_by_hits: Vec<String>,
        hits: Vec<String>,
        errors: Vec<String>,
        attempts: u8,
    ) -> (game: HangmanGame) {
        HangmanGame { word, formed_word_by_hits, hits, errors, attempts }
    }

    fn start(&mut self) {
        self.formed_word_by_hits = get_blank_chars(self.word.unicode_len());
        proof {
            assert(final(self)@.hits.len() == 0 ==> final(self)@.hits =~= Seq::empty());
            assert(final(self)@.misses.len() == 0 ==> final(self)@.misses =~= Seq::empty());
        }
    }

    fn end<L: Logger + ?Sized>(&self, status: &str, logger: &mut L) {
        assert(closing_lines(status@, self.word@) == closing_lines(status@, self@.secret));
        crate::end(status, self.word, logger);
    }

    fn add_letter_to_hits(&mut self, letter: String) {
        self.hits.push(letter);
        assert(self.hits.deep_view() =~= old(self).hits.deep_view().push(letter@));
    }

    fn add_letter_to_empty_word(&mut self, letter: String) {
        let filled: Vec<usize> = get_places(letter.as_str(), self.word);
        let chars = chars_of(self.word);
        let ghost at = filled@.map_values(|i: usize| i as int);
        let ghost before = self.formed_word_by_hits.deep_view();
        let ghost goal = uncovered(before, self.word@, letter@);
        proof {
            lemma_places(letter@, self.word@);
        }
        let mut done: usize = 0;
        while done < filled.len()
            invariant
                done <= filled.len(),
                chars@ == self.word@,
                at == filled@.map_values(|i: usize| i as int),
                forall|i: int|
                    at.contains(i) <==> 0 <= i < self.word@.len() && shows(letter@, self.word@[i]),
                goal == uncovered(before, self.word@, letter@),
                before.len() == self.word@.len(),
                self.formed_word_by_hits@.len() == before.len(),
                self.word == old(self).word,
                self.hits == old(self).hits,
                self.errors == old(self).errors,
                self.attempts == old(self).attempts,
                forall|i: int|
                    0 <= i < before.len() ==> {
                        let shown = (#[trigger] self.formed_word_by_hits@[i])@;
                        shown == goal[i] || shown == before[i]
                    },
                forall|k: int|
                    0 <= k < done ==> self.formed_word_by_hits@[#[trigger] at[k]]@ == goal[at[k]],
            decreases filled.len() - done,
        {
            let index = filled[done];
            assert(at[done as int] == index);
            assert(at.contains(index as int));
            assert forall|k: int| 0 <= k < done implies 0 <= #[trigger] at[k] < before.len() by {
                assert(at.contains(at[k]));
            }
            let mut shown = String::new();
            shown.push(chars[index]);
            assert(shown@ =~= goal[index as int]);
            self.formed_word_by_hits.set(index, shown);
            done += 1;
        }
        proof {
            let after = self.formed_word_by_hits.deep_view();
            assert forall|i: int| 0 <= i < before.len() implies after[i] == goal[i] by {
                if shows(letter@, self.word@[i]) {
                    assert(at.contains(i));
                    let k = choose|k: int| 0 <= k < at.len() && at[k] == i;
                    assert(self.formed_word_by_hits@[at[k]]@ == goal[at[k]]);
                }
            }
            assert(after =~= goal);
        }
    }

    fn add_letter_to_errors(&mut self, letter: String) {
        self.errors.push(letter);
        assert(self.errors.deep_view() =~= old(self).errors.deep_view().push(letter@));
    }

    fn print_hits<L: Logger + ?Sized>(&mut self, logger: &mut L) {
        let rows = self.hits_rows();
        print_each(&rows, logger);
    }

    fn print_errors<L: Logger + ?Sized>(&mut self, logger: &mut L) {
        let row = self.errors_row();
        hand_over(logger, row.as_str());
    }

    fn correct_answer(&mut self, input: String) {
        self.add_letter_to_hits(input.clone());
        self.add_letter_to_empty_word(input.clone());
    }

    fn wrong_answer(&mut self, input: String) {
        if self.attempts < MAX_MISTAKES {
            self.attempts += 1;
            self.add_letter_to_errors(input);
        }
    }

    fn print_game<L: Logger + ?Sized>(&mut self, logger: &mut L) {
        let lines = self.screen();
        print_each(&lines, logger);
    }

    fn verify_answer(&mut self, input: String) {
        if self.win() || self.lost() {
            return ;
        }
        let letter = to_lowercase(input.as_str());
        let found = get_places(letter.as_str(), self.word);
        proof {
            lemma_places(letter@, self.word@);
            if found@.len() > 0 {
                assert(places(letter@, self.word@).contains(found@[0] as int)) by {
                    assert(found@.map_values(|i: usize| i as int)[0] == found@[0] as int);
                }
                assert(occurs(letter@, self.word@));
            }
            if occurs(letter@, self.word@) {
                let i = choose|i: int|
                    0 <= i < self.word@.len() && shows(letter@, #[trigger] self.word@[i]);
                assert(places(letter@, self.word@).contains(i));
            }
            if old(self)@.wf() {
                lemma_guess_preserves_wf(old(self)@, input@);
            }
        }
        if found.len() > 0 {
            self.correct_answer(letter);
        } else {
            self.wrong_answer(letter);
        }
    }

    fn prompt_user(&mut self, input: String) {
        let typed = chars_of(input.as_str());
        if typed.len() == 2 {
            let mut guess = String::new();
            guess.push(typed[0]);
            assert(guess@ =~= input@.drop_last());
            self.verify_answer(guess);
        }
    }

    fn win(&self) -> (won: bool) {
        crate::win(self.word, &self.formed_word_by_hits)
    }

    fn lost(&self) -> (lost: bool) {
        crate::lost(self.attempts)
    }

    fn end_of_game<L: Logger + ?Sized>(&self, logger: &mut L) {
        assert(self@.farewell() == farewell_lines(
            self.formed_word_by_hits.deep_view(),
            self.word@,
            self.attempts as int,
        ));
        crate::end_of_game(self.word, &self.formed_word_by_hits, self.attempts, logger);
    }
}

} // verus!
