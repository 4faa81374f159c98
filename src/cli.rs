use vstd::prelude::*;
use crate::generator::GeneratorConfig;

verus! {

/// The shortest password length that the command line accepts.
pub const MIN_LENGTH: usize = 6;

/// The options of the command line, once parsed.
pub struct Args {
    /// Enable every category.
    pub all: bool,
    /// An additional required set of characters.
    pub chars: Option<String>,
    /// How many passwords to generate.
    pub count: usize,
    /// The length of each password.
    pub length: usize,
    pub use_lower: bool,
    pub use_upper: bool,
    pub use_digits: bool,
    pub use_symbols: bool,
    /// Where to write the passwords; standard output when absent.
    pub output: Option<String>,
}

/// Why a command-line value was refused.
#[derive(Debug, PartialEq, Eq, Structural)]
pub enum ArgError {
    /// The length is not an unsigned decimal number.
    NotANumber,
    /// The length is below `minimum`.
    LengthBelowMinimum { minimum: usize },
    /// The custom set is empty.
    EmptyChars,
    /// The custom set holds a whitespace character.
    WhitespaceInChars,
    /// The custom set holds a control character.
    ControlInChars,
    /// The custom set holds a character outside ASCII.
    NonAsciiChars,
}

/// The value of a non-empty string of decimal digits.
pub open spec fn decimal_value(s: Seq<char>) -> nat
    decreases s.len(),
{
    if s.len() == 0 {
        0
    } else {
        decimal_value(s.drop_last()) * 10 + ((s.last() as u32 - '0' as u32) as nat)
    }
}

/// `s` is one or more decimal digits.
pub open spec fn is_decimal(s: Seq<char>) -> bool {
    s.len() > 0 && forall|i: int| 0 <= i < s.len() ==> '0' <= #[trigger] s[i] <= '9'
}

/// The unsigned integer that `s` writes, as std reads it: an optional `+`
/// followed by decimal digits whose value fits in a `usize`.
pub open spec fn usize_of_text(s: Seq<char>) -> Option<usize> {
    let d = if s.len() > 0 && s[0] == '+' { s.drop_first() } else { s };
    if is_decimal(d) && decimal_value(d) <= usize::MAX {
        Some(decimal_value(d) as usize)
    } else {
        None
    }
}

/// Unicode's White_Space property.
pub open spec fn is_white_space(c: char) -> bool {
    let u = c as u32;
    ||| 0x9 <= u <= 0xd
    ||| u == 0x20
    ||| u == 0x85
    ||| u == 0xa0
    ||| u == 0x1680
    ||| 0x2000 <= u <= 0x200a
    ||| u == 0x2028
    ||| u == 0x2029
    ||| u == 0x202f
    ||| u == 0x205f
    ||| u == 0x3000
}

/// Unicode's general category Cc (control codes).
pub open spec fn is_control_char(c: char) -> bool {
    let u = c as u32;
    u <= 0x1f || 0x7f <= u <= 0x9f
}

/// Some character of `s` satisfies `p`.
pub open spec fn any_char(s: Seq<char>, p: spec_fn(char) -> bool) -> bool {
    exists|i: int| 0 <= i < s.len() && p(#[trigger] s[i])
}

/// Relies on std's `FromStr` for `usize`: an optional `+` and decimal
/// digits, with no other character, whose value fits.
#[verifier::external_body]
fn parse_usize(s: &str) -> (r: Option<usize>)
    ensures
        r == usize_of_text(s@),
{
    s.parse::<usize>().ok()
}

/// Relies on std's `char::is_whitespace`: the White_Space property.
#[verifier::external_body]
fn char_is_whitespace(c: char) -> (b: bool)
    ensures
        b == is_white_space(c),
{
    c.is_whitespace()
}

/// Relies on std's `char::is_control`: the general category Cc.
#[verifier::external_body]
fn char_is_control(c: char) -> (b: bool)
    ensures
        b == is_control_char(c),
{
    c.is_control()
}

/// Reads a password length: a number no smaller than [`MIN_LENGTH`].
pub fn parse_length(s: &str) -> (r: Result<usize, ArgError>)
    ensures
        r == match usize_of_text(s@) {
            None => Err(ArgError::NotANumber),
            Some(n) => if n < MIN_LENGTH {
                Err(ArgError::LengthBelowMinimum { minimum: MIN_LENGTH })
            } else {
                Ok(n)
            },
        },
{
    match parse_usize(s) {
        None => Err(ArgError::NotANumber),
        Some(length) => {
            if length < MIN_LENGTH {
                Err(ArgError::LengthBelowMinimum { minimum: MIN_LENGTH })
            } else {
                Ok(length)
            }
        },
    }
}

/// Whether some character of `s` satisfies the White_Space property.
fn has_whitespace(s: &str) -> (b: bool)
    ensures
        b == any_char(s@, |c: char| is_white_space(c)),
{
    let n = s.unicode_len();
    let mut i: usize = 0;
    while i < n
        invariant
            n == s@.len(),
            i <= n,
            forall|j: int| 0 <= j < i ==> !is_white_space(#[trigger] s@[j]),
        decreases n - i,
    {
        if char_is_whitespace(s.get_char(i)) {
            return true;
        }
        i += 1;
    }
    false
}

/// Whether some character of `s` is a control code.
fn has_control(s: &str) -> (b: bool)
    ensures
        b == any_char(s@, |c: char| is_control_char(c)),
{
    let n = s.unicode_len();
    let mut i: usize = 0;
    while i < n
        invariant
            n == s@.len(),
            i <= n,
            forall|j: int| 0 <= j < i ==> !is_control_char(#[trigger] s@[j]),
        decreases n - i,
    {
        if char_is_control(s.get_char(i)) {
            return true;
        }
        i += 1;
    }
    false
}

/// A custom set that the command line accepts: non-empty, without
/// whitespace or control characters, and ASCII only.
pub open spec fn is_valid_custom_set(s: Seq<char>) -> bool {
    &&& s.len() > 0
    &&& !any_char(s, |c: char| is_white_space(c))
    &&& !any_char(s, |c: char| is_control_char(c))
    &&& vstd::utf8::is_ascii_chars(s)
}

/// Reads a custom set: non-empty, without whitespace or control characters,
/// and ASCII only, checked in that order. A valid set comes back unchanged.
pub fn parse_chars(s: &str) -> (r: Result<String, ArgError>)
    ensures
        r is Ok <==> is_valid_custom_set(s@),
        r matches Ok(t) ==> t@ == s@,
        s@.len() == 0 ==> r == Err::<String, ArgError>(ArgError::EmptyChars),
        s@.len() > 0 && any_char(s@, |c: char| is_white_space(c)) ==> r == Err::<
            String,
            ArgError,
        >(ArgError::WhitespaceInChars),
        s@.len() > 0 && !any_char(s@, |c: char| is_white_space(c)) && any_char(
            s@,
            |c: char| is_control_char(c),
        ) ==> r == Err::<String, ArgError>(ArgError::ControlInChars),
        s@.len() > 0 && !any_char(s@, |c: char| is_white_space(c)) && !any_char(
            s@,
            |c: char| is_control_char(c),
        ) && !vstd::utf8::is_ascii_chars(s@) ==> r == Err::<String, ArgError>(
            ArgError::NonAsciiChars,
        ),
{
    if s.is_empty() {
        return Err(ArgError::EmptyChars);
    }
    if has_whitespace(s) {
        return Err(ArgError::WhitespaceInChars);
    }
    if has_control(s) {
        return Err(ArgError::ControlInChars);
    }
    if !s.is_ascii() {
        return Err(ArgError::NonAsciiChars);
    }
    Ok(s.to_owned())
}

/// A set that was accepted is accepted again, unchanged.
pub proof fn lemma_accepted_set_accepted_again(s: Seq<char>)
    requires
        is_valid_custom_set(s),
    ensures
        forall|t: String| t@ == s ==> is_valid_custom_set(#[trigger] t@),
{
}

impl Args {
    /// No category flag and no custom set was given.
    pub open spec fn nothing_chosen(&self) -> bool {
        !(self.use_lower || self.use_upper || self.use_digits || self.use_symbols
            || self.chars is Some)
    }

    /// The generator configuration these options ask for: every category is
    /// enabled under `all`, or when nothing was chosen.
    pub fn to_config(self) -> (c: GeneratorConfig)
        ensures
            c.length == self.length,
            c.count == self.count,
            c.use_lower == (self.use_lower || self.all || self.nothing_chosen()),
            c.use_upper == (self.use_upper || self.all || self.nothing_chosen()),
            c.use_digits == (self.use_digits || self.all || self.nothing_chosen()),
            c.use_symbols == (self.use_symbols || self.all || self.nothing_chosen()),
            c.custom_chars == self.chars,
    {
        let any_flag_set = self.use_lower || self.use_upper || self.use_digits || self.use_symbols
            || self.chars.is_some();
        let use_all = self.all || !any_flag_set;
        GeneratorConfig {
            length: self.length,
            count: self.count,
            use_lower: self.use_lower || use_all,
            use_upper: self.use_upper || use_all,
            use_digits: self.use_digits || use_all,
            use_symbols: self.use_symbols || use_all,
            custom_chars: self.chars,
        }
    }
}

} // verus!
