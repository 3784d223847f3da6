use jogo_da_forca::constants::attempts::MAX_MISTAKES;
use jogo_da_forca::game::game::{Game, HangmanGame};

fn started(word: &'static str) -> HangmanGame {
    let mut game: HangmanGame = Game::new(word, Vec::new(), Vec::new(), Vec::new(), 0);
    game.start();
    game
}

fn guess(game: &mut HangmanGame, letter: &str) {
    game.verify_answer(letter.to_string());
}

fn cells(game: &HangmanGame) -> Vec<&str> {
    game.formed_word_by_hits().iter().map(|cell| cell.as_str()).collect()
}

fn errors(game: &HangmanGame) -> Vec<&str> {
    game.errors().iter().map(|letter| letter.as_str()).collect()
}

fn hits(game: &HangmanGame) -> Vec<&str> {
    game.hits().iter().map(|letter| letter.as_str()).collect()
}

#[test]
fn new_keeps_what_it_is_given() {
    let game: HangmanGame = Game::new(
        "abc",
        vec!["a".to_string(), " ".to_string(), " ".to_string()],
        vec!["a".to_string()],
        vec!["x".to_string()],
        1,
    );
    assert_eq!("abc", game.word());
    assert_eq!(vec!["a", " ", " "], cells(&game));
    assert_eq!(vec!["a"], hits(&game));
    assert_eq!(vec!["x"], errors(&game));
    assert_eq!(1, game.attempts());
}

#[test]
fn start_lays_out_one_blank_per_character() {
    let game = started("Apple");
    assert_eq!(vec![" ", " ", " ", " ", " "], cells(&game));
    assert!(hits(&game).is_empty());
    assert!(errors(&game).is_empty());
    assert_eq!(0, game.attempts());
    assert!(!game.win());
    assert!(!game.lost());
}

#[test]
fn start_counts_characters_not_bytes() {
    let game = started("a\u{e7}\u{e3}o");
    assert_eq!(vec![" ", " ", " ", " "], cells(&game));
}

#[test]
fn start_leaves_guesses_and_mistakes_as_they_are() {
    let mut game: HangmanGame =
        Game::new("abc", Vec::new(), vec!["a".to_string()], vec!["x".to_string()], 1);
    game.start();
    assert_eq!(vec![" ", " ", " "], cells(&game));
    assert_eq!(vec!["a"], hits(&game));
    assert_eq!(vec!["x"], errors(&game));
    assert_eq!(1, game.attempts());
}

#[test]
fn three_hits_reveal_the_word_and_win_at_the_third() {
    let mut game = started("abc");
    guess(&mut game, "a");
    assert_eq!(vec!["a", " ", " "], cells(&game));
    assert!(!game.win());
    assert_eq!(0, game.attempts());
    guess(&mut game, "b");
    assert_eq!(vec!["a", "b", " "], cells(&game));
    assert!(!game.win());
    assert_eq!(0, game.attempts());
    guess(&mut game, "c");
    assert_eq!(vec!["a", "b", "c"], cells(&game));
    assert!(game.win());
    assert_eq!(0, game.attempts());
    assert_eq!(vec!["a", "b", "c"], hits(&game));
    assert!(errors(&game).is_empty());
}

#[test]
fn six_misses_lose_at_the_sixth() {
    let mut game = started("abc");
    let letters = ["x", "y", "z", "q", "r", "s"];
    for (done, letter) in letters.iter().enumerate() {
        assert!(!game.lost());
        guess(&mut game, letter);
        assert_eq!(done as u8 + 1, game.attempts());
        assert_eq!(done + 1, game.errors().len());
    }
    assert!(game.lost());
    assert!(!game.win());
    assert_eq!(vec!["x", "y", "z", "q", "r", "s"], errors(&game));
    assert_eq!(vec![" ", " ", " "], cells(&game));
    assert_eq!(MAX_MISTAKES, game.attempts());
}

#[test]
fn a_hit_in_either_case_shows_the_letter_as_the_secret_has_it() {
    let mut game = started("Dog");
    guess(&mut game, "D");
    assert_eq!(vec!["D", " ", " "], cells(&game));
    assert_eq!(0, game.attempts());
    guess(&mut game, "d");
    assert_eq!(vec!["D", " ", " "], cells(&game));
    assert_eq!(0, game.attempts());
    assert_eq!(vec!["d", "d"], hits(&game));

    let mut other = started("Dog");
    guess(&mut other, "d");
    assert_eq!(vec!["D", " ", " "], cells(&other));
    assert_eq!(0, other.attempts());
}

#[test]
fn upper_and_lower_case_guesses_lead_to_the_same_round() {
    let mut upper = started("abc");
    let mut lower = started("abc");
    guess(&mut upper, "A");
    guess(&mut lower, "a");
    assert_eq!(cells(&lower), cells(&upper));
    assert_eq!(hits(&lower), hits(&upper));
    assert_eq!(errors(&lower), errors(&upper));
    assert_eq!(lower.attempts(), upper.attempts());
    assert_eq!(vec!["a", " ", " "], cells(&upper));
    assert_eq!(vec!["a"], hits(&upper));

    guess(&mut upper, "X");
    guess(&mut lower, "x");
    assert_eq!(errors(&lower), errors(&upper));
    assert_eq!(vec!["x"], errors(&upper));
    assert_eq!(1, upper.attempts());
    assert_eq!(1, lower.attempts());
}

#[test]
fn mistakes_are_the_number_of_misses_and_never_fall() {
    let mut game = started("World");
    let letters = ["w", "x", "o", "x", "y", "d", "z"];
    let missing = [false, true, false, true, true, false, true];
    let mut expected = 0;
    for (letter, miss) in letters.iter().zip(missing.iter()) {
        let before = game.attempts();
        guess(&mut game, letter);
        if *miss {
            expected += 1;
        }
        assert!(game.attempts() >= before);
        assert_eq!(expected, game.attempts());
        assert_eq!(expected as usize, game.errors().len());
    }
    assert_eq!(4, game.attempts());
    assert_eq!(vec!["x", "x", "y", "z"], errors(&game));
}

#[test]
fn a_repeated_miss_counts_again() {
    let mut game = started("abc");
    guess(&mut game, "x");
    guess(&mut game, "x");
    assert_eq!(2, game.attempts());
    assert_eq!(vec!["x", "x"], errors(&game));
}

#[test]
fn a_repeated_hit_changes_neither_cells_nor_mistakes() {
    let mut game = started("Apple");
    guess(&mut game, "x");
    guess(&mut game, "p");
    let once = cells(&game).iter().map(|cell| cell.to_string()).collect::<Vec<String>>();
    assert_eq!(vec![" ", "p", "p", " ", " "], once);
    assert_eq!(1, game.attempts());
    guess(&mut game, "p");
    assert_eq!(once, cells(&game));
    assert_eq!(1, game.attempts());
    assert_eq!(vec!["p", "p"], hits(&game));
}

#[test]
fn the_round_is_won_in_whatever_order_the_letters_come() {
    let orders = [["s", "k", "y"], ["y", "s", "k"], ["k", "y", "s"]];
    for order in orders.iter() {
        let mut game = started("Sky");
        for (done, letter) in order.iter().enumerate() {
            assert!(!game.win());
            guess(&mut game, letter);
            assert_eq!(done + 1, game.hits().len());
        }
        assert!(game.win());
        assert_eq!(vec!["S", "k", "y"], cells(&game));
        assert_eq!(0, game.attempts());
    }
}

#[test]
fn the_round_is_not_won_while_a_cell_is_blank() {
    let mut game = started("Apple");
    for letter in ["a", "p", "l"].iter() {
        guess(&mut game, letter);
        assert!(!game.win());
    }
    assert_eq!(vec!["A", "p", "p", "l", " "], cells(&game));
    guess(&mut game, "E");
    assert!(game.win());
    assert_eq!(vec!["A", "p", "p", "l", "e"], cells(&game));
}

#[test]
fn a_won_round_takes_no_further_guess() {
    let mut game = started("Sky");
    for letter in ["s", "k", "y"].iter() {
        guess(&mut game, letter);
    }
    assert!(game.win());
    guess(&mut game, "x");
    guess(&mut game, "s");
    assert!(game.win());
    assert!(!game.lost());
    assert_eq!(0, game.attempts());
    assert!(errors(&game).is_empty());
    assert_eq!(vec!["s", "k", "y"], hits(&game));
}

#[test]
fn a_lost_round_takes_no_further_guess() {
    let mut game = started("abc");
    for letter in ["x", "y", "z", "q", "r", "s"].iter() {
        guess(&mut game, letter);
    }
    assert!(game.lost());
    guess(&mut game, "t");
    guess(&mut game, "a");
    assert!(game.lost());
    assert_eq!(6, game.attempts());
    assert_eq!(vec!["x", "y", "z", "q", "r", "s"], errors(&game));
    assert_eq!(vec![" ", " ", " "], cells(&game));
    assert!(hits(&game).is_empty());
}

#[test]
fn five_misses_do_not_lose() {
    let mut game = started("Dog");
    for letter in ["x", "y", "z", "q", "r"].iter() {
        guess(&mut game, letter);
    }
    assert_eq!(5, game.attempts());
    assert!(!game.lost());
    guess(&mut game, "g");
    assert!(!game.lost());
    assert_eq!(5, game.attempts());
    guess(&mut game, "s");
    assert!(game.lost());
}

#[test]
fn a_space_in_the_secret_reads_as_found() {
    let mut game = started("a b");
    guess(&mut game, "a");
    assert!(!game.win());
    guess(&mut game, "b");
    assert_eq!(vec!["a", " ", "b"], cells(&game));
    assert!(game.win());
    assert_eq!(vec!["a", "b"], hits(&game));
}

#[test]
fn a_round_on_the_empty_word_is_won_at_once() {
    let mut game = started("");
    assert!(cells(&game).is_empty());
    assert!(game.win());
    guess(&mut game, "a");
    assert_eq!(0, game.attempts());
    assert!(errors(&game).is_empty());
}

#[test]
fn letters_beyond_ascii_are_compared_in_lower_case() {
    let mut game = started("\u{c1}gua");
    guess(&mut game, "\u{e1}");
    assert_eq!(0, game.attempts());
    assert!(errors(&game).is_empty());
    assert_eq!(vec!["\u{c1}", " ", " ", " "], cells(&game));
    assert_eq!(vec!["\u{e1}"], hits(&game));
    guess(&mut game, "\u{c1}");
    assert_eq!(0, game.attempts());
    assert_eq!(vec!["\u{c1}", " ", " ", " "], cells(&game));
    assert_eq!(vec!["\u{e1}", "\u{e1}"], hits(&game));
    guess(&mut game, "G");
    guess(&mut game, "U");
    guess(&mut game, "A");
    assert_eq!(vec!["\u{c1}", "g", "u", "a"], cells(&game));
    assert_eq!(0, game.attempts());
    assert!(game.win());
}

#[test]
fn a_letter_of_the_secret_in_the_other_case_is_never_a_mistake() {
    let mut game = started("\u{c1}gua");
    for _ in 0..6 {
        guess(&mut game, "\u{e1}");
    }
    assert_eq!(0, game.attempts());
    assert!(!game.lost());
    assert!(errors(&game).is_empty());

    let mut kelvin = started("\u{212a}");
    guess(&mut kelvin, "k");
    assert_eq!(0, kelvin.attempts());
    assert_eq!(vec!["\u{212a}"], cells(&kelvin));
    assert!(kelvin.win());
}

#[test]
fn a_letter_beyond_ascii_that_the_secret_lacks_is_a_mistake() {
    let mut game = started("\u{c1}gua");
    guess(&mut game, "\u{e9}");
    guess(&mut game, "\u{c9}");
    assert_eq!(2, game.attempts());
    assert_eq!(vec!["\u{e9}", "\u{e9}"], errors(&game));
    assert_eq!(vec![" ", " ", " ", " "], cells(&game));
}

#[test]
fn correct_answer_records_the_letter_and_fills_its_cells() {
    let mut game = started("Apple");
    game.correct_answer("p".to_string());
    assert_eq!(vec!["p"], hits(&game));
    assert_eq!(vec![" ", "p", "p", " ", " "], cells(&game));
    assert_eq!(0, game.attempts());
    assert!(errors(&game).is_empty());
}

#[test]
fn wrong_answer_counts_and_records_the_letter() {
    let mut game = started("Apple");
    game.wrong_answer("z".to_string());
    assert_eq!(1, game.attempts());
    assert_eq!(vec!["z"], errors(&game));
    assert!(hits(&game).is_empty());
    assert_eq!(vec![" ", " ", " ", " ", " "], cells(&game));
}

#[test]
fn wrong_answer_at_the_limit_leaves_the_round_as_it_is() {
    let mut game = started("Apple");
    for letter in ["q", "r", "s", "t", "u", "v"].iter() {
        game.wrong_answer(letter.to_string());
    }
    assert_eq!(6, game.attempts());
    assert!(game.lost());
    game.wrong_answer("w".to_string());
    game.wrong_answer("x".to_string());
    assert_eq!(6, game.attempts());
    assert!(game.lost());
    assert_eq!(vec!["q", "r", "s", "t", "u", "v"], errors(&game));

    let mut beyond: HangmanGame = Game::new("abc", Vec::new(), Vec::new(), Vec::new(), 200);
    beyond.wrong_answer("x".to_string());
    assert_eq!(200, beyond.attempts());
    assert!(errors(&beyond).is_empty());
}

#[test]
fn is_playable_asks_for_the_cells_and_the_limit() {
    let fresh: HangmanGame = Game::new("abc", Vec::new(), Vec::new(), Vec::new(), 0);
    assert!(!fresh.is_playable());
    assert!(started("abc").is_playable());
    assert!(started("").is_playable());
    assert!(started("a\u{e7}\u{e3}o").is_playable());
    let cells = vec![" ".to_string(), " ".to_string(), " ".to_string()];
    let at_limit: HangmanGame = Game::new("abc", cells.clone(), Vec::new(), Vec::new(), 6);
    assert!(at_limit.is_playable());
    let beyond: HangmanGame = Game::new("abc", cells, Vec::new(), Vec::new(), 7);
    assert!(!beyond.is_playable());
}

#[test]
fn turn_plays_the_line_and_says_whether_to_go_on() {
    let mut game = started("ab");
    assert!(game.turn("x\n".to_string()));
    assert_eq!(1, game.attempts());
    assert!(game.turn("nonsense\n".to_string()));
    assert_eq!(1, game.attempts());
    assert!(game.turn("A\n".to_string()));
    assert_eq!(vec!["a", " "], cells(&game));
    assert!(!game.turn("b\n".to_string()));
    assert!(game.win());
    assert!(!game.turn("z\n".to_string()));
    assert_eq!(1, game.attempts());

    let mut losing = started("ab");
    for (done, letter) in ["q\n", "r\n", "s\n", "t\n", "u\n", "v\n"].iter().enumerate() {
        assert_eq!(done < 5, losing.turn(letter.to_string()));
    }
    assert!(losing.lost());
}

#[test]
fn add_letter_to_hits_records_only() {
    let mut game = started("abc");
    game.add_letter_to_hits("a".to_string());
    assert_eq!(vec!["a"], hits(&game));
    assert_eq!(vec![" ", " ", " "], cells(&game));
    assert_eq!(0, game.attempts());
}

#[test]
fn add_letter_to_errors_records_without_counting() {
    let mut game = started("abc");
    game.add_letter_to_errors("x".to_string());
    assert_eq!(vec!["x"], errors(&game));
    assert_eq!(0, game.attempts());
}

#[test]
fn add_letter_to_empty_word_takes_the_case_of_the_secret() {
    let mut game = started("abcDEF");
    game.add_letter_to_empty_word("d".to_string());
    assert_eq!(vec![" ", " ", " ", "D", " ", " "], cells(&game));
    game.add_letter_to_empty_word("A".to_string());
    assert_eq!(vec!["a", " ", " ", "D", " ", " "], cells(&game));
    game.add_letter_to_empty_word("ef".to_string());
    game.add_letter_to_empty_word("".to_string());
    game.add_letter_to_empty_word("x".to_string());
    assert_eq!(vec!["a", " ", " ", "D", " ", " "], cells(&game));
    assert!(hits(&game).is_empty());
}

#[test]
fn prompt_user_takes_the_letter_before_the_end_of_line() {
    let mut game = started("Dog");
    game.prompt_user("o\n".to_string());
    assert_eq!(vec![" ", "o", " "], cells(&game));
    assert_eq!(vec!["o"], hits(&game));
    game.prompt_user("X\n".to_string());
    assert_eq!(vec!["x"], errors(&game));
    assert_eq!(1, game.attempts());
}

#[test]
fn prompt_user_passes_over_a_line_that_is_no_single_letter() {
    let mut game = started("Dog");
    for line in ["", "\n", "do\n", "d", "dog\n"].iter() {
        game.prompt_user(line.to_string());
        assert_eq!(vec![" ", " ", " "], cells(&game));
        assert!(hits(&game).is_empty());
        assert!(errors(&game).is_empty());
        assert_eq!(0, game.attempts());
    }
}

#[test]
fn win_and_lost_read_the_round() {
    let won: HangmanGame = Game::new(
        "Hello",
        vec!["H".to_string(), "e".to_string(), "l".to_string(), "l".to_string(), "o".to_string()],
        Vec::new(),
        Vec::new(),
        6,
    );
    assert!(won.win());
    assert!(won.lost());
    let open: HangmanGame = Game::new(
        "Hello",
        vec!["H".to_string(), " ".to_string(), "l".to_string(), "l".to_string(), "o".to_string()],
        Vec::new(),
        Vec::new(),
        5,
    );
    assert!(!open.win());
    assert!(!open.lost());
}
