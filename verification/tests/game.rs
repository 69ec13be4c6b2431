use hangman::BlankBoard;
use hangman::GuessOutcome;
use hangman::GuessTracker;
use hangman::LoadError;
use hangman::MenuChoice;
use hangman::RoundEngine;
use hangman::RoundResult;
use hangman::RoundState;
use hangman::SampleError;
use hangman::WordBank;
use hangman::char_index;
use hangman::check_if_letter_is_picked;
use hangman::check_letter_in_word;
use hangman::check_win;
use hangman::parse_menu_choice;
use hangman::print_blanks;
use hangman::trim;
use hangman::update_blanks;
use hangman::validate_guess;

fn lines(raw: &[&str]) -> Vec<String> {
    raw.iter().map(|s| s.to_string()).collect()
}

#[test]
fn fresh_board_is_all_hidden() {
    let board = BlankBoard::new("apple");
    assert_eq!(board.render(), vec!['_', '_', '_', '_', '_']);
    assert!(!board.is_solved());
}

#[test]
fn empty_word_board_is_solved_immediately() {
    let board = BlankBoard::new("");
    assert_eq!(board.render().len(), 0);
    assert!(board.is_solved());
}

#[test]
fn reveal_counts_occurrences_and_updates_cells() {
    let mut board = BlankBoard::new("apple");
    assert_eq!(board.reveal_letter('p'), 2);
    assert_eq!(board.render(), vec!['_', 'p', 'p', '_', '_']);
}

#[test]
fn reveal_of_absent_letter_changes_nothing() {
    let mut board = BlankBoard::new("apple");
    board.reveal_letter('p');
    let before = board.render();
    assert_eq!(board.reveal_letter('z'), 0);
    assert_eq!(board.render(), before);
}

#[test]
fn fully_revealed_board_renders_the_word() {
    let mut board = BlankBoard::new("apple");
    board.reveal_letter('a');
    board.reveal_letter('p');
    board.reveal_letter('l');
    assert!(!board.is_solved());
    board.reveal_letter('e');
    assert!(board.is_solved());
    assert_eq!(board.render(), vec!['a', 'p', 'p', 'l', 'e']);
}

#[test]
fn tracker_records_and_reports_letters() {
    let mut tracker = GuessTracker::new();
    assert!(!tracker.has_guessed('a'));
    tracker.record('a');
    assert!(tracker.has_guessed('a'));
    assert!(!tracker.has_guessed('b'));
    assert!(check_if_letter_is_picked(&tracker, 'a'));
    assert!(!check_if_letter_is_picked(&tracker, 'b'));
}

#[test]
fn tracker_record_is_idempotent() {
    let mut tracker = GuessTracker::new();
    tracker.record('a');
    tracker.record('a');
    assert_eq!(tracker.letters().len(), 1);
    assert!(GuessTracker::contains_correct("apple", 'a'));
    assert!(!GuessTracker::contains_correct("apple", 'z'));
}

#[test]
fn round_solves_after_last_distinct_letter_only() {
    let mut round = RoundEngine::start("apple");
    assert_eq!(round.guess('a'), GuessOutcome::Correct);
    assert_eq!(round.guess('p'), GuessOutcome::Correct);
    assert_eq!(round.guess('l'), GuessOutcome::Correct);
    assert!(!round.board().is_solved());
    assert_eq!(round.state(), RoundState::InProgress);
    assert_eq!(round.guess('e'), GuessOutcome::Won);
    assert!(round.board().is_solved());
    assert_eq!(round.state(), RoundState::Won);
    assert_eq!(round.result(), Some(RoundResult::Win("apple".to_string())));
}

#[test]
fn duplicate_guess_changes_nothing() {
    let mut round = RoundEngine::start("apple");
    assert_eq!(round.guess('p'), GuessOutcome::Correct);
    let render = round.board().render();
    let lives = round.lives();
    assert_eq!(round.guess('p'), GuessOutcome::Duplicate);
    assert_eq!(round.board().render(), render);
    assert_eq!(round.lives(), lives);
    let mut wrong = RoundEngine::start("apple");
    assert_eq!(wrong.guess('z'), GuessOutcome::Wrong);
    assert_eq!(wrong.lives(), 5);
    assert_eq!(wrong.guess('z'), GuessOutcome::Duplicate);
    assert_eq!(wrong.lives(), 5);
}

#[test]
fn scenario_fruits_apple_round() {
    let bank = WordBank::load(&lines(&["category,word", "Fruits,apple", "Fruits,kiwi"])).unwrap();
    let categories = bank.categories();
    assert_eq!(categories.len(), 1);
    assert_eq!(categories[0], "Fruits");
    let drawn = bank.sample("Fruits").unwrap();
    assert!(drawn == "apple" || drawn == "kiwi");

    let mut round = RoundEngine::start("apple");
    assert_eq!(round.board().render(), vec!['_', '_', '_', '_', '_']);
    assert_eq!(round.lives(), 6);
    assert_eq!(round.guess('p'), GuessOutcome::Correct);
    assert_eq!(round.board().render(), vec!['_', 'p', 'p', '_', '_']);
    assert_eq!(round.lives(), 6);
    assert_eq!(round.guess('p'), GuessOutcome::Duplicate);
    assert_eq!(round.board().render(), vec!['_', 'p', 'p', '_', '_']);
    assert_eq!(round.lives(), 6);
    assert_eq!(round.guess('z'), GuessOutcome::Wrong);
    assert_eq!(round.lives(), 5);
    for (guess, lives_after) in [('q', 4usize), ('r', 3), ('s', 2), ('t', 1), ('u', 0)] {
        assert_eq!(round.guess(guess), GuessOutcome::Wrong);
        assert_eq!(round.lives(), lives_after);
        assert_eq!(round.state(), RoundState::InProgress);
    }
    assert_eq!(round.guess('v'), GuessOutcome::Lost);
    assert_eq!(round.state(), RoundState::Lost);
    assert_eq!(round.result(), Some(RoundResult::Loss("apple".to_string())));
    let word: String = round.board().word_chars().iter().collect();
    assert_eq!(word, "apple");
}

#[test]
fn empty_word_round_starts_in_progress() {
    let round = RoundEngine::start("");
    assert_eq!(round.state(), RoundState::InProgress);
    assert_eq!(round.result(), None);
    assert!(round.board().is_solved());
}

#[test]
fn load_trims_and_lowercases_words() {
    let bank = WordBank::load(&lines(&["header", "", "  Fruits ,  Apple  ", "Veg,carrot"]))
        .unwrap();
    let categories = bank.categories();
    assert_eq!(categories, vec!["Fruits".to_string(), "Veg".to_string()]);
    assert_eq!(bank.sample("Fruits").unwrap(), "apple");
    assert_eq!(bank.sample("Veg").unwrap(), "carrot");
}

#[test]
fn load_skips_whitespace_only_lines() {
    let bank = WordBank::load(&lines(&["header", "   ", "\t", "Fruits,apple"])).unwrap();
    assert_eq!(bank.categories().len(), 1);
    assert_eq!(bank.sample("Fruits").unwrap(), "apple");
}

#[test]
fn load_splits_at_the_first_comma_only() {
    let bank = WordBank::load(&lines(&["header", "Fruits,app,le"])).unwrap();
    assert_eq!(bank.sample("Fruits").unwrap(), "app,le");
}

#[test]
fn load_discards_the_header_whatever_it_holds() {
    let bank = WordBank::load(&lines(&["this line has no comma", "Fruits,kiwi"])).unwrap();
    assert_eq!(bank.sample("Fruits").unwrap(), "kiwi");
}

#[test]
fn load_rejects_a_data_line_without_comma() {
    let err = WordBank::load(&lines(&["header", "Fruits,apple", "no separator here"]));
    assert_eq!(err.unwrap_err(), LoadError::MalformedLine);
}

#[test]
fn sample_only_draws_from_the_requested_category() {
    let bank = WordBank::load(&lines(&[
        "header",
        "Fruits,apple",
        "Fruits,kiwi",
        "Veg,carrot",
    ]))
    .unwrap();
    for _ in 0..20 {
        let fruit = bank.sample("Fruits").unwrap();
        assert!(fruit == "apple" || fruit == "kiwi");
        assert_eq!(bank.sample("Veg").unwrap(), "carrot");
    }
    assert_eq!(bank.sample("Minerals").unwrap_err(), SampleError::UnknownCategory);
}

#[test]
fn category_by_choice_is_one_based() {
    let bank = WordBank::load(&lines(&["header", "Fruits,apple", "Veg,carrot"])).unwrap();
    assert_eq!(bank.category_by_choice(1).unwrap().as_str(), "Fruits");
    assert_eq!(bank.category_by_choice(2).unwrap().as_str(), "Veg");
    assert!(bank.category_by_choice(0).is_none());
    assert!(bank.category_by_choice(3).is_none());
}

#[test]
fn print_blanks_matches_word_length() {
    assert_eq!(print_blanks("apple"), vec!["_", "_", "_", "_", "_"]);
    assert_eq!(print_blanks("").len(), 0);
}

#[test]
fn char_index_lists_matching_positions() {
    assert_eq!(char_index("apple", 'p'), Some(vec![1, 2]));
    assert_eq!(char_index("apple", 'a'), Some(vec![0]));
    assert_eq!(char_index("apple", 'z'), None);
}

#[test]
fn check_letter_in_word_is_membership() {
    assert!(check_letter_in_word("apple", 'l'));
    assert!(!check_letter_in_word("apple", 'z'));
    assert!(!check_letter_in_word("", 'a'));
}

#[test]
fn update_blanks_writes_only_given_positions() {
    let mut blanks = print_blanks("apple");
    update_blanks(&mut blanks, 'p', Some(vec![1, 2]));
    assert_eq!(blanks, vec!["_", "p", "p", "_", "_"]);
    update_blanks(&mut blanks, 'z', None);
    assert_eq!(blanks, vec!["_", "p", "p", "_", "_"]);
    update_blanks(&mut blanks, 'x', Some(vec![99]));
    assert_eq!(blanks, vec!["_", "p", "p", "_", "_"]);
}

#[test]
fn check_win_requires_no_blank_left() {
    let mut blanks = print_blanks("ab");
    assert!(!check_win(&blanks));
    update_blanks(&mut blanks, 'a', Some(vec![0]));
    assert!(!check_win(&blanks));
    update_blanks(&mut blanks, 'b', Some(vec![1]));
    assert!(check_win(&blanks));
    assert!(check_win(&Vec::new()));
}

#[test]
fn validate_guess_accepts_one_ascii_letter() {
    assert_eq!(validate_guess("a"), Some('a'));
    assert_eq!(validate_guess("A"), Some('a'));
    assert_eq!(validate_guess("Z"), Some('z'));
    assert_eq!(validate_guess(""), None);
    assert_eq!(validate_guess("ab"), None);
    assert_eq!(validate_guess("1"), None);
    assert_eq!(validate_guess("!"), None);
}

#[test]
fn parse_menu_choice_knows_both_options() {
    assert_eq!(parse_menu_choice("1"), MenuChoice::Play);
    assert_eq!(parse_menu_choice("2"), MenuChoice::Quit);
    assert_eq!(parse_menu_choice(""), MenuChoice::Invalid);
    assert_eq!(parse_menu_choice("3"), MenuChoice::Invalid);
    assert_eq!(parse_menu_choice("12"), MenuChoice::Invalid);
}

#[test]
fn trim_strips_surrounding_whitespace() {
    assert_eq!(trim("  apple \t"), "apple");
    assert_eq!(trim("apple"), "apple");
    assert_eq!(trim(" \t\r\n "), "");
    assert_eq!(trim(" a b "), "a b");
}
