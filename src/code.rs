//! Codes: the palette of symbols, what makes a sequence a code, and how
//! typed text is turned into one.
use vstd::prelude::*;

verus! {

/// Number of symbols in a code.
pub const CODE_LENGTH: usize = 4;

/// Number of guesses a game allows.
pub const MAX_ATTEMPTS: usize = 10;

/// The palette in its fixed order: red, green, blue, yellow, magenta, cyan.
pub open spec fn palette_spec() -> Seq<char> {
    seq!['R', 'G', 'B', 'Y', 'M', 'C']
}

/// A symbol of the palette, in its canonical (upper-case) spelling.
pub open spec fn is_color(c: char) -> bool {
    c == 'R' || c == 'G' || c == 'B' || c == 'Y' || c == 'M' || c == 'C'
}

/// A code: exactly `CODE_LENGTH` palette symbols.
pub open spec fn is_code(s: Seq<char>) -> bool {
    s.len() == CODE_LENGTH && forall|i: int| 0 <= i < s.len() ==> is_color(#[trigger] s[i])
}

/// The palette symbol that `c` spells, in either case, if any.
pub open spec fn canonical(c: char) -> Option<char> {
    if c == 'R' || c == 'r' {
        Some('R')
    } else if c == 'G' || c == 'g' {
        Some('G')
    } else if c == 'B' || c == 'b' {
        Some('B')
    } else if c == 'Y' || c == 'y' {
        Some('Y')
    } else if c == 'M' || c == 'm' {
        Some('M')
    } else if c == 'C' || c == 'c' {
        Some('C')
    } else {
        None
    }
}

/// Why typed text is not a code.
#[derive(Debug, Clone, Copy, PartialEq, Eq, Structural)]
pub enum GuessError {
    /// The text does not hold exactly `CODE_LENGTH` characters.
    LengthMismatch,
    /// The first character, in order, that spells no palette symbol, as it
    /// reads upper-cased.
    UnknownSymbol(char),
}

/// The first `n` characters of `s` normalized to palette symbols, or the
/// first of them that spells none.
pub open spec fn normalize_upto(s: Seq<char>, n: int) -> Result<Seq<char>, char>
    decreases n,
{
    if n <= 0 {
        Ok(Seq::empty())
    } else {
        match normalize_upto(s, n - 1) {
            Err(c) => Err(c),
            Ok(p) => match canonical(s[n - 1]) {
                Some(u) => Ok(p.push(u)),
                None => Err(reported_symbol(upper_of(s[n - 1]))),
            },
        }
    }
}

/// The upper-case mapping of `c`, as `char::to_uppercase` yields it.
pub uninterp spec fn upper_of(c: char) -> Seq<char>;

/// Relies on `char::to_uppercase`: the upper-case mapping of `c`, which is
/// one or more characters.
#[verifier::external_body]
fn to_upper(c: char) -> (r: Vec<char>)
    ensures
        r@ == upper_of(c),
        r@.len() >= 1,
{
    c.to_uppercase().collect()
}

/// The symbol that an upper-cased character `u` is reported by when it is
/// rejected: its first character that is no palette symbol, or its last
/// character if all of them are.
pub open spec fn reported_symbol(u: Seq<char>) -> char
    decreases u.len(),
{
    if u.len() <= 1 || !is_color(u[0]) {
        u[0]
    } else {
        reported_symbol(u.drop_first())
    }
}

/// The symbol that rejects the upper-cased character `upper`.
pub fn unknown_symbol(upper: &Vec<char>) -> (r: char)
    requires
        upper@.len() >= 1,
    ensures
        r == reported_symbol(upper@),
{
    let last = upper.len() - 1;
    let mut i: usize = 0;
    assert(upper@.subrange(0, upper@.len() as int) =~= upper@);
    while i < last && is_color_symbol(upper[i])
        invariant
            last == upper@.len() - 1,
            i <= last,
            reported_symbol(upper@.subrange(i as int, upper@.len() as int)) == reported_symbol(
                upper@,
            ),
        decreases upper@.len() - i,
    {
        let ghost rest = upper@.subrange(i as int, upper@.len() as int);
        assert(rest[0] == upper@[i as int]);
        assert(rest.drop_first() =~= upper@.subrange(i + 1, upper@.len() as int));
        i += 1;
    }
    assert(upper@.subrange(i as int, upper@.len() as int)[0] == upper@[i as int]);
    upper[i]
}

/// The symbol that rejects the character `c`, as it reads upper-cased.
pub fn rejected_symbol(c: char) -> (r: char)
    ensures
        r == reported_symbol(upper_of(c)),
{
    let upper = to_upper(c);
    unknown_symbol(&upper)
}

/// Whether `c` is a palette symbol in its canonical spelling.
pub fn is_color_symbol(c: char) -> (r: bool)
    ensures
        r == is_color(c),
{
    c == 'R' || c == 'G' || c == 'B' || c == 'Y' || c == 'M' || c == 'C'
}

/// What validating the characters `s` yields.
pub open spec fn validated(s: Seq<char>) -> Result<Seq<char>, GuessError> {
    if s.len() != CODE_LENGTH {
        Err(GuessError::LengthMismatch)
    } else {
        match normalize_upto(s, s.len() as int) {
            Ok(p) => Ok(p),
            Err(c) => Err(GuessError::UnknownSymbol(c)),
        }
    }
}

/// The palette, in its fixed order.
pub fn palette() -> (r: Vec<char>)
    ensures
        r@ == palette_spec(),
        forall|c: char| r@.contains(c) ==> is_color(c),
{
    let r = vec!['R', 'G', 'B', 'Y', 'M', 'C'];
    assert(r@ =~= palette_spec());
    assert forall|c: char| r@.contains(c) implies is_color(c) by {
        let i = choose|i: int| 0 <= i < r@.len() && r@[i] == c;
        assert(0 <= i < 6);
    }
    r
}

/// The palette symbol that `c` spells, ignoring case.
pub fn canonical_symbol(c: char) -> (r: Option<char>)
    ensures
        r == canonical(c),
{
    if c == 'R' || c == 'r' {
        Some('R')
    } else if c == 'G' || c == 'g' {
        Some('G')
    } else if c == 'B' || c == 'b' {
        Some('B')
    } else if c == 'Y' || c == 'y' {
        Some('Y')
    } else if c == 'M' || c == 'm' {
        Some('M')
    } else if c == 'C' || c == 'c' {
        Some('C')
    } else {
        None
    }
}

proof fn lemma_normalize_code(code: Seq<char>, n: int)
    requires
        is_code(code),
        0 <= n <= code.len(),
    ensures
        normalize_upto(code, n) == Ok::<Seq<char>, char>(code.subrange(0, n)),
    decreases n,
{
    if n > 0 {
        lemma_normalize_code(code, n - 1);
        assert(is_color(code[n - 1]));
        assert(code.subrange(0, n) =~= code.subrange(0, n - 1).push(code[n - 1]));
    } else {
        assert(code.subrange(0, 0) =~= Seq::<char>::empty());
    }
}

/// A code written out as text, one character per symbol, validates to itself.
pub proof fn lemma_validate_round_trip(code: Seq<char>)
    requires
        is_code(code),
    ensures
        validated(code) == Ok::<Seq<char>, GuessError>(code),
{
    lemma_normalize_code(code, code.len() as int);
    assert(code.subrange(0, code.len() as int) =~= code);
}

/// Once normalization has failed on a prefix, it fails the same way on every
/// longer prefix.
pub proof fn lemma_normalize_error_stays(s: Seq<char>, m: int, n: int)
    requires
        0 <= m <= n,
        normalize_upto(s, m) is Err,
    ensures
        normalize_upto(s, n) == normalize_upto(s, m),
    decreases n - m,
{
    if n > m {
        lemma_normalize_error_stays(s, m, n - 1);
    }
}

/// Every successful validation yields a code.
pub proof fn lemma_validated_is_code(s: Seq<char>)
    requires
        validated(s) is Ok,
    ensures
        is_code(validated(s)->Ok_0),
{
    lemma_normalize_is_code(s, s.len() as int);
}

proof fn lemma_normalize_is_code(s: Seq<char>, n: int)
    requires
        0 <= n <= s.len(),
        normalize_upto(s, n) is Ok,
    ensures
        normalize_upto(s, n)->Ok_0.len() == n,
        forall|i: int|
            0 <= i < n ==> is_color(#[trigger] normalize_upto(s, n)->Ok_0[i]),
    decreases n,
{
    if n > 0 {
        lemma_normalize_is_code(s, n - 1);
    }
}

} // verus!
