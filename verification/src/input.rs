//! Interpretation of raw console lines into game actions. The console loop
//! itself lives outside; these functions decide what a trimmed line means.

use vstd::prelude::*;

use crate::text::is_ascii_letter;
use crate::text::lower_char;
use crate::text::str_eq;
use crate::text::to_lower_char;

verus! {

/// What one top-level menu line means.
#[derive(Clone, Copy, PartialEq, Eq, Structural, Debug)]
pub enum MenuChoice {
    /// Play one round.
    Play,
    /// Leave the game.
    Quit,
    /// Anything else: report and prompt again.
    Invalid,
}

/// Interpret one trimmed menu line: `"1"` plays a round, `"2"` quits, and
/// any other line is invalid.
pub fn parse_menu_choice(s: &str) -> (r: MenuChoice)
    ensures
        r == MenuChoice::Play <==> s@ == "1"@,
        r == MenuChoice::Quit <==> s@ == "2"@,
{
    proof {
        reveal_strlit("1");
        reveal_strlit("2");
        assert("1"@[0] == '1' && "2"@[0] == '2');
    }
    if str_eq(s, "1") {
        MenuChoice::Play
    } else if str_eq(s, "2") {
        MenuChoice::Quit
    } else {
        MenuChoice::Invalid
    }
}

/// Validate one trimmed in-round line as a guess: it must be exactly one
/// character and that character an ASCII letter; the accepted letter comes
/// back folded to lowercase. Anything else is rejected and re-prompted.
pub fn validate_guess(s: &str) -> (r: Option<char>)
    ensures
        r is Some <==> (s@.len() == 1 && is_ascii_letter(s@[0])),
        r matches Some(c) ==> c == lower_char(s@[0]),
{
    let len = s.unicode_len();
    if len != 1 {
        return None;
    }
    let c = s.get_char(0);
    if ('a' <= c && c <= 'z') || ('A' <= c && c <= 'Z') {
        Some(to_lower_char(c))
    } else {
        None
    }
}

} // verus!
