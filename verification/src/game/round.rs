//! A round of the game as a mathematical value, and the one step that
//! changes it.
//!
//! A round is in progress until it is won or lost; a round that is over
//! takes no further guess. Letters are compared in lower case, the hit as
//! well as the cells it fills. What holds of every round that is played by
//! that step is proved in `laws`.

use crate::constants::attempts::MAX_MISTAKES;
use crate::text::lowercase;
use crate::{blank, blank_cells, farewell_lines, outcome_of, shows, spells, status_text};
use crate::suffixed;
use vstd::prelude::*;

verus! {

/// The state of one round.
#[verifier::ext_equal]
pub struct Round {
    /// The word to be found. It never changes.
    pub secret: Seq<char>,
    /// One cell for each character of the secret: the character itself once
    /// it is found, a blank until then.
    pub reveal: Seq<Seq<char>>,
    /// The guesses that were a character of the secret, case aside, in
    /// lower case, oldest first. A letter guessed twice stands twice.
    pub hits: Seq<Seq<char>>,
    /// The guesses that were no character of the secret, in lower case,
    /// oldest first.
    pub misses: Seq<Seq<char>>,
    /// How many guesses missed.
    pub mistakes: nat,
}

/// Whether `letter` is some character of `secret`, case aside.
pub open spec fn occurs(letter: Seq<char>, secret: Seq<char>) -> bool {
    exists|i: int| 0 <= i < secret.len() && shows(letter, #[trigger] secret[i])
}

/// Whether one of `hits` is the character `c`, case aside.
pub open spec fn found(hits: Seq<Seq<char>>, c: char) -> bool {
    exists|j: int| 0 <= j < hits.len() && shows(#[trigger] hits[j], c)
}

/// The cell that shows the character `c`.
pub open spec fn cell(c: char) -> Seq<char> {
    seq![c]
}

/// `cells` with the cell of every character of `secret` that is `letter`,
/// case aside, filled in, in the case in which the secret has it.
pub open spec fn uncovered(cells: Seq<Seq<char>>, secret: Seq<char>, letter: Seq<char>) -> Seq<
    Seq<char>,
> {
    Seq::new(
        cells.len(),
        |i: int|
            if i < secret.len() && shows(letter, secret[i]) {
                cell(secret[i])
            } else {
                cells[i]
            },
    )
}

/// The cells of `secret` as they stand once the letters of `hits` are
/// guessed: found characters shown, the others blank.
pub open spec fn shown(secret: Seq<char>, hits: Seq<Seq<char>>) -> Seq<Seq<char>> {
    Seq::new(
        secret.len(),
        |i: int|
            if found(hits, secret[i]) {
                cell(secret[i])
            } else {
                blank()
            },
    )
}

/// Whether `letter` is a guess as a round records it: one character, put
/// in lower case.
pub open spec fn is_letter(letter: Seq<char>) -> bool {
    exists|c: char| letter == lowercase(#[trigger] seq![c])
}

impl Round {
    /// The round on `secret` before the first guess.
    pub open spec fn start(secret: Seq<char>) -> Round {
        Round {
            secret,
            reveal: blank_cells(secret.len()),
            hits: Seq::empty(),
            misses: Seq::empty(),
            mistakes: 0,
        }
    }

    /// Whether the round is won: the revealed cells spell the secret.
    pub open spec fn is_won(self) -> bool {
        spells(self.reveal, self.secret)
    }

    /// Whether the round is lost: the mistakes have reached the limit.
    pub open spec fn is_lost(self) -> bool {
        self.mistakes == MAX_MISTAKES
    }

    /// Whether the round is over, won or lost.
    pub open spec fn is_over(self) -> bool {
        self.is_won() || self.is_lost()
    }

    /// What the stepping functions ask of a round: it has one cell for each
    /// character of the secret, and no more mistakes than the limit.
    pub open spec fn playable(self) -> bool {
        &&& self.reveal.len() == self.secret.len()
        &&& self.mistakes <= MAX_MISTAKES
    }

    /// What holds of a round from its start to its end: the revealed cells
    /// are those of the letters found so far, every hit is a letter of the
    /// secret and every miss is none, and each miss was counted once.
    pub open spec fn wf(self) -> bool {
        &&& self.reveal == shown(self.secret, self.hits)
        &&& self.mistakes == self.misses.len()
        &&& self.mistakes <= MAX_MISTAKES
        &&& forall|j: int|
            0 <= j < self.hits.len() ==> is_letter(#[trigger] self.hits[j]) && occurs(
                self.hits[j],
                self.secret,
            )
        &&& forall|j: int|
            0 <= j < self.misses.len() ==> is_letter(#[trigger] self.misses[j]) && !occurs(
                self.misses[j],
                self.secret,
            )
    }

    /// The round after the correct guess `letter`: the guess is recorded
    /// and the cell of every character it is, case aside, is filled in.
    pub open spec fn hit(self, letter: Seq<char>) -> Round {
        Round {
            hits: self.hits.push(letter),
            reveal: uncovered(self.reveal, self.secret, letter),
            ..self
        }
    }

    /// The round after the wrong guess `letter`, on a round below the
    /// limit: the guess is recorded and counted.
    pub open spec fn miss(self, letter: Seq<char>) -> Round {
        Round { misses: self.misses.push(letter), mistakes: self.mistakes + 1, ..self }
    }

    /// The round after `letter` is taken as a wrong guess: recorded and
    /// counted, but for a round that is at the limit of mistakes or beyond
    /// it, which takes no further miss and stays as it is.
    pub open spec fn wrong(self, letter: Seq<char>) -> Round {
        if self.mistakes >= MAX_MISTAKES {
            self
        } else {
            self.miss(letter)
        }
    }

    /// The round after the guess `input`, a single character in any case.
    /// A round that is over stays as it is. Else the guess, put in lower
    /// case, is a hit where it is a character of the secret, case aside,
    /// and a miss where it is none.
    pub open spec fn guess(self, input: Seq<char>) -> Round {
        if self.is_over() {
            self
        } else if occurs(lowercase(input), self.secret) {
            self.hit(lowercase(input))
        } else {
            self.miss(lowercase(input))
        }
    }

    /// The round after the typed line `line`: the line without its last
    /// character is the guess where that leaves a single character; any
    /// other line is passed over.
    pub open spec fn answer(self, line: Seq<char>) -> Round {
        if line.len() == 2 {
            self.guess(line.drop_last())
        } else {
            self
        }
    }

    /// This round with its cells laid out anew: one blank for each
    /// character of the secret.
    pub open spec fn laid_out(self) -> Round {
        Round { reveal: blank_cells(self.secret.len()), ..self }
    }

    /// How the round stands at its end: `WON`, `LOSE`, or nothing while
    /// it is in progress. A round both won and lost counts as won.
    pub open spec fn outcome(self) -> Option<Seq<char>> {
        outcome_of(self.reveal, self.secret, self.mistakes as int)
    }

    /// What is written at the end of the round: the closing message for
    /// how it stands, and nothing while it is in progress.
    pub open spec fn farewell(self) -> Seq<Seq<char>> {
        farewell_lines(self.reveal, self.secret, self.mistakes as int)
    }

    /// The row of wrong guesses, a space after each.
    pub open spec fn errors_row(self) -> Seq<char> {
        suffixed(self.misses, " "@)
    }

    /// The two rows of the word: the revealed cells with a space after
    /// each, then a blank and an underscore for each character of the
    /// secret.
    pub open spec fn hits_rows(self) -> Seq<Seq<char>> {
        seq![suffixed(self.reveal, " "@), suffixed(blank_cells(self.secret.len()), "_"@)]
    }

    /// The screen of the round, text by text: the title, the wrong
    /// guesses, the drawing for the count of mistakes and the rows of the
    /// word, with an empty line between them.
    pub open spec fn screen(self) -> Seq<Seq<char>> {
        seq![
            "\n\t\tJogo da Forca"@,
            self.errors_row(),
            "\n"@,
            status_text(self.mistakes as int),
            "\n"@,
        ] + self.hits_rows() + seq!["\n"@]
    }

    /// The round after the guesses `inputs`, taken in order.
    pub open spec fn play(self, inputs: Seq<Seq<char>>) -> Round
        decreases inputs.len(),
    {
        if inputs.len() == 0 {
            self
        } else {
            self.play(inputs.drop_last()).guess(inputs.last())
        }
    }
}

/// How many of the guesses `inputs` are no character of `secret`, case
/// aside.
pub open spec fn missed(secret: Seq<char>, inputs: Seq<Seq<char>>) -> nat
    decreases inputs.len(),
{
    if inputs.len() == 0 {
        0
    } else if occurs(lowercase(inputs.last()), secret) {
        missed(secret, inputs.drop_last())
    } else {
        missed(secret, inputs.drop_last()) + 1
    }
}

} // verus!
