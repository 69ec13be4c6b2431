//! Core engine for a letter-guessing word game.
//!
//! A round draws a secret word from a category of a word bank, shows it as a
//! row of hidden cells, and accepts single-letter guesses until the word is
//! fully revealed or the player runs out of lives. This crate holds the game
//! rules: the board of cells, the tracker of attempted letters, the word bank,
//! and the round state machine. Console interaction stays outside.

mod bank;
mod blanks;
mod board;
mod engine;
mod input;
mod text;
mod tracker;

pub use bank::LoadError;
pub use bank::SampleError;
pub use bank::WordBank;
pub use bank::insert_word;
pub use bank::load_model;
pub use bank::load_model_from;
pub use bank::split_line;
pub use blanks::char_index;
pub use blanks::check_letter_in_word;
pub use blanks::check_win;
pub use blanks::print_blanks;
pub use blanks::update_blanks;
pub use board::BlankBoard;
pub use board::Cell;
pub use board::count_matches;
pub use board::lemma_render_solved;
pub use engine::GuessOutcome;
pub use engine::RoundEngine;
pub use engine::RoundResult;
pub use engine::RoundState;
pub use engine::STARTING_LIVES;
pub use engine::lemma_solved_iff_all_letters_guessed;
pub use input::MenuChoice;
pub use input::parse_menu_choice;
pub use input::validate_guess;
pub use text::first_index_of;
pub use text::is_ascii_letter;
pub use text::is_space;
pub use text::lower_char;
pub use text::lower_seq;
pub use text::str_eq;
pub use text::trim;
pub use text::trim_back;
pub use text::trim_front;
pub use text::trim_spec;
pub use tracker::GuessTracker;
pub use tracker::check_if_letter_is_picked;
