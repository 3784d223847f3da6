use jogo_da_forca::constants::gibbet_phases::{
    GIBBET, HEAD_AND_RIGHT_ARM, HEAD_RIGHT_ARM_LEFT_ARM_STEM_RIGHT_LEG_AND_LEFT_LEG,
};
use jogo_da_forca::game::game::{Game, HangmanGame};
use jogo_da_forca::logger::logger::{hand_over, Logger};
use jogo_da_forca::{end, end_of_game, print_gibbet_status, print_sequence};

#[derive(Default)]
struct Recorder(Vec<String>);

impl Logger for Recorder {
    fn print(&mut self, value: &str) {
        self.0.push(value.to_string());
    }
}

fn strings(items: &[&str]) -> Vec<String> {
    items.iter().map(|item| item.to_string()).collect()
}

fn started(word: &'static str) -> HangmanGame {
    let mut game: HangmanGame = Game::new(word, Vec::new(), Vec::new(), Vec::new(), 0);
    game.start();
    game
}

#[test]
fn print_sequence_puts_the_separator_after_each_item() {
    let mut logger = Recorder::default();
    print_sequence(", ".to_string(), strings(&["a", "bc", ""]), &mut logger);
    assert_eq!(vec!["a, bc, , "], logger.0);
}

#[test]
fn print_sequence_of_nothing_writes_one_empty_text() {
    let mut logger = Recorder::default();
    print_sequence("-".to_string(), Vec::new(), &mut logger);
    assert_eq!(vec![""], logger.0);
}

#[test]
fn print_sequence_adds_to_what_was_written() {
    let mut logger = Recorder(strings(&["before"]));
    print_sequence("".to_string(), strings(&["x", "y"]), &mut logger);
    assert_eq!(vec!["before", "xy"], logger.0);
}

#[test]
fn print_gibbet_status_writes_exactly_one_text() {
    for attempts in 0..=255u8 {
        let mut logger = Recorder::default();
        print_gibbet_status(attempts, &mut logger);
        assert_eq!(1, logger.0.len());
        assert_eq!(attempts > 6, logger.0[0] == "Invalid");
    }
}

#[test]
fn print_gibbet_status_never_shows_a_stage_for_a_count_beyond_the_limit() {
    let mut logger = Recorder::default();
    print_gibbet_status(7, &mut logger);
    print_gibbet_status(255, &mut logger);
    assert_eq!(vec!["Invalid", "Invalid"], logger.0);
    assert_ne!(GIBBET, logger.0[0]);
    assert_ne!(HEAD_RIGHT_ARM_LEFT_ARM_STEM_RIGHT_LEG_AND_LEFT_LEG, logger.0[0]);
}

#[test]
fn end_writes_the_outcome_then_the_word() {
    let mut logger = Recorder::default();
    end("", "", &mut logger);
    end("DREW", "Sky", &mut logger);
    assert_eq!(vec!["You ", "\nThe word is: ", "You DREW", "\nThe word is: Sky"], logger.0);
}

#[test]
fn end_of_game_of_a_won_round() {
    let mut logger = Recorder::default();
    end_of_game("Dog", &strings(&["D", "o", "g"]), 2, &mut logger);
    assert_eq!(vec!["You WON", "\nThe word is: Dog"], logger.0);
}

#[test]
fn end_of_game_of_a_lost_round() {
    let mut logger = Recorder::default();
    end_of_game("Dog", &strings(&["D", " ", "g"]), 6, &mut logger);
    assert_eq!(vec!["You LOSE", "\nThe word is: Dog"], logger.0);
}

#[test]
fn end_of_game_of_a_round_both_won_and_lost_says_won() {
    let mut logger = Recorder::default();
    end_of_game("Dog", &strings(&["d", "o", "g"]), 6, &mut logger);
    assert_eq!(vec!["You WON", "\nThe word is: Dog"], logger.0);
}

#[test]
fn end_of_game_of_a_round_in_progress_writes_nothing() {
    let mut logger = Recorder::default();
    end_of_game("Dog", &strings(&["D", " ", "g"]), 5, &mut logger);
    end_of_game("Dog", &strings(&[" ", " ", " "]), 0, &mut logger);
    end_of_game("Dog", &strings(&["D", " ", "g"]), 7, &mut logger);
    assert!(logger.0.is_empty());
}

#[test]
fn game_end_writes_the_outcome_then_the_secret() {
    let game = started("World");
    let mut logger = Recorder::default();
    game.end("WON", &mut logger);
    assert_eq!(vec!["You WON", "\nThe word is: World"], logger.0);
}

#[test]
fn game_end_of_game_follows_the_round() {
    let mut game = started("Sky");
    let mut logger = Recorder::default();
    game.end_of_game(&mut logger);
    assert!(logger.0.is_empty());
    for letter in ["s", "k", "y"].iter() {
        game.verify_answer(letter.to_string());
    }
    game.end_of_game(&mut logger);
    assert_eq!(vec!["You WON", "\nThe word is: Sky"], logger.0);

    let mut other = started("Sky");
    for letter in ["a", "b", "c", "d", "e", "f"].iter() {
        other.verify_answer(letter.to_string());
    }
    let mut second = Recorder::default();
    other.end_of_game(&mut second);
    assert_eq!(vec!["You LOSE", "\nThe word is: Sky"], second.0);
}

#[test]
fn print_hits_writes_the_cells_then_the_row_of_blanks() {
    let mut game = started("Dog");
    game.verify_answer("o".to_string());
    let mut logger = Recorder::default();
    game.print_hits(&mut logger);
    assert_eq!(vec!["  o   ", " _ _ _"], logger.0);
    assert_eq!(strings(&[" ", "o", " "]), *game.formed_word_by_hits());
}

#[test]
fn print_errors_writes_the_misses_with_a_space_after_each() {
    let mut game = started("Dog");
    let mut logger = Recorder::default();
    game.print_errors(&mut logger);
    game.verify_answer("x".to_string());
    game.verify_answer("Y".to_string());
    game.print_errors(&mut logger);
    assert_eq!(vec!["", "x y "], logger.0);
    assert_eq!(2, game.attempts());
}

#[test]
fn print_game_writes_the_whole_screen() {
    let mut game = started("Dog");
    game.verify_answer("x".to_string());
    game.verify_answer("g".to_string());
    game.verify_answer("y".to_string());
    let mut logger = Recorder::default();
    game.print_game(&mut logger);
    assert_eq!(
        vec![
            "\n\t\tJogo da Forca",
            "x y ",
            "\n",
            HEAD_AND_RIGHT_ARM,
            "\n",
            "    g ",
            " _ _ _",
            "\n",
        ],
        logger.0
    );
    assert_eq!(2, game.attempts());
    assert_eq!(strings(&["x", "y"]), *game.errors());
}

#[test]
fn print_game_of_a_fresh_round_shows_the_bare_frame() {
    let mut game = started("Sky");
    let mut logger = Recorder::default();
    game.print_game(&mut logger);
    assert_eq!(8, logger.0.len());
    assert_eq!("", logger.0[1]);
    assert_eq!(GIBBET, logger.0[3]);
    assert_eq!("      ", logger.0[5]);
}

#[test]
fn print_game_of_a_count_without_stage_reports_it() {
    let mut game: HangmanGame = Game::new("Sky", Vec::new(), Vec::new(), Vec::new(), 9);
    let mut logger = Recorder::default();
    game.print_game(&mut logger);
    assert_eq!("Invalid", logger.0[3]);
}

#[test]
fn hand_over_makes_one_call_with_the_text() {
    let mut logger = Recorder(strings(&["before"]));
    hand_over(&mut logger, "one");
    hand_over(&mut logger, "");
    assert_eq!(vec!["before", "one", ""], logger.0);
}

#[test]
fn hand_over_takes_a_logger_behind_a_trait_object() {
    let mut recorder = Recorder::default();
    {
        let logger: &mut dyn Logger = &mut recorder;
        hand_over(logger, "text");
    }
    assert_eq!(vec!["text"], recorder.0);
}
