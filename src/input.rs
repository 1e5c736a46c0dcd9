//! The player's commands besides guesses, read from trimmed input lines.
use vstd::prelude::*;
use vstd::string::*;

verus! {

/// The text is "quit", in any mix of letter cases.
pub open spec fn spells_quit(s: Seq<char>) -> bool {
    &&& s.len() == 4
    &&& s[0] == 'q' || s[0] == 'Q'
    &&& s[1] == 'u' || s[1] == 'U'
    &&& s[2] == 'i' || s[2] == 'I'
    &&& s[3] == 't' || s[3] == 'T'
}

/// The text is "y" or "yes", in any mix of letter cases.
pub open spec fn spells_yes(s: Seq<char>) -> bool {
    ||| s.len() == 1 && (s[0] == 'y' || s[0] == 'Y')
    ||| s.len() == 3 && (s[0] == 'y' || s[0] == 'Y') && (s[1] == 'e' || s[1] == 'E') && (s[2]
        == 's' || s[2] == 'S')
}

/// Whether the player asked to quit the game.
pub fn is_quit_command(input: &str) -> (r: bool)
    ensures
        r == spells_quit(input@),
{
    if input.unicode_len() != 4 {
        return false;
    }
    let a = input.get_char(0);
    let b = input.get_char(1);
    let c = input.get_char(2);
    let d = input.get_char(3);
    (a == 'q' || a == 'Q') && (b == 'u' || b == 'U') && (c == 'i' || c == 'I') && (d == 't' || d
        == 'T')
}

/// Whether the player answered yes.
pub fn is_yes(answer: &str) -> (r: bool)
    ensures
        r == spells_yes(answer@),
{
    let n = answer.unicode_len();
    if n == 1 {
        let a = answer.get_char(0);
        a == 'y' || a == 'Y'
    } else if n == 3 {
        let a = answer.get_char(0);
        let b = answer.get_char(1);
        let c = answer.get_char(2);
        (a == 'y' || a == 'Y') && (b == 'e' || b == 'E') && (c == 's' || c == 'S')
    } else {
        false
    }
}

} // verus!
