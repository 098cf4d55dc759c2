//! A key press as the window system reports it, and text helpers on it.

use vstd::prelude::*;

verus! {

/// Modifier keys held during a keystroke.
#[derive(Debug, Clone, Copy, PartialEq, Eq, Default, Structural)]
pub struct KeystrokeModifiers {
    pub shift: bool,
    pub alt: bool,
    pub control: bool,
    pub platform: bool,
}

/// A keystroke: the key's name ("a", "enter", "f5", ...), the text it types
/// when it types one, and the modifiers held.
#[derive(Debug, Clone, PartialEq, Eq, Default)]
pub struct Keystroke {
    pub key: String,
    pub key_char: Option<String>,
    pub modifiers: KeystrokeModifiers,
}

/// `String::push` appends one character to the end of the string.
pub assume_specification[ String::push ](string: &mut String, ch: char)
    ensures
        final(string)@ == old(string)@.push(ch),
;

/// A string of the given characters, in order.
pub fn string_from_chars(chars: &Vec<char>) -> (r: String)
    ensures
        r@ == chars@,
{
    let mut s = String::new();
    let mut i: usize = 0;
    while i < chars.len()
        invariant
            i <= chars@.len(),
            s@ == chars@.take(i as int),
        decreases chars@.len() - i,
    {
        s.push(chars[i]);
        i = i + 1;
        assert(s@ =~= chars@.take(i as int));
    }
    assert(chars@.take(i as int) =~= chars@);
    s
}

/// A string of `n` spaces.
pub fn spaces(n: u16) -> (r: String)
    ensures
        r@ == Seq::new(n as nat, |_i: int| ' '),
{
    let mut s = String::new();
    let mut i: u16 = 0;
    while i < n
        invariant
            i <= n,
            s@ == Seq::new(i as nat, |_i: int| ' '),
        decreases n - i,
    {
        s.push(' ');
        i = i + 1;
        assert(s@ =~= Seq::new(i as nat, |_i: int| ' '));
    }
    s
}

/// Whether two strings hold the same characters.
pub fn str_eq(a: &str, b: &str) -> (r: bool)
    ensures
        r == (a@ == b@),
{
    let n = a.unicode_len();
    if n != b.unicode_len() {
        return false;
    }
    let mut i: usize = 0;
    while i < n
        invariant
            n == a@.len(),
            n == b@.len(),
            i <= n,
            forall|j: int| 0 <= j < i ==> a@[j] == b@[j],
        decreases n - i,
    {
        if a.get_char(i) != b.get_char(i) {
            return false;
        }
        i = i + 1;
    }
    assert(a@ =~= b@);
    true
}

/// The single character of a one-character string.
pub open spec fn single_char(s: Seq<char>) -> Option<char> {
    if s.len() == 1 {
        Some(s[0])
    } else {
        None
    }
}

/// The character of `s` when `s` holds exactly one.
pub fn only_char(s: &str) -> (r: Option<char>)
    ensures
        r == single_char(s@),
{
    if s.unicode_len() == 1 {
        Some(s.get_char(0))
    } else {
        None
    }
}

/// ASCII lower-casing of one character.
pub open spec fn ascii_lower(c: char) -> char {
    if 'A' <= c <= 'Z' {
        ((c as u32) + 32) as char
    } else {
        c
    }
}

/// Lower-cases an ASCII letter and leaves every other character alone.
pub fn to_ascii_lower(c: char) -> (r: char)
    ensures
        r == ascii_lower(c),
{
    match c {
        'A' => 'a',
        'B' => 'b',
        'C' => 'c',
        'D' => 'd',
        'E' => 'e',
        'F' => 'f',
        'G' => 'g',
        'H' => 'h',
        'I' => 'i',
        'J' => 'j',
        'K' => 'k',
        'L' => 'l',
        'M' => 'm',
        'N' => 'n',
        'O' => 'o',
        'P' => 'p',
        'Q' => 'q',
        'R' => 'r',
        'S' => 's',
        'T' => 't',
        'U' => 'u',
        'V' => 'v',
        'W' => 'w',
        'X' => 'x',
        'Y' => 'y',
        'Z' => 'z',
        _ => c,
    }
}

/// Whether two strings are equal when ASCII letters are compared without case.
pub fn eq_ignore_ascii_case(a: &str, b: &str) -> (r: bool)
    ensures
        r == (a@.len() == b@.len() && forall|j: int|
            0 <= j < a@.len() ==> ascii_lower(#[trigger] a@[j]) == ascii_lower(b@[j])),
{
    let n = a.unicode_len();
    if n != b.unicode_len() {
        return false;
    }
    let mut i: usize = 0;
    while i < n
        invariant
            n == a@.len(),
            n == b@.len(),
            i <= n,
            forall|j: int| 0 <= j < i ==> ascii_lower(#[trigger] a@[j]) == ascii_lower(b@[j]),
        decreases n - i,
    {
        if to_ascii_lower(a.get_char(i)) != to_ascii_lower(b.get_char(i)) {
            return false;
        }
        i = i + 1;
    }
    true
}

/// The decimal digits of `n`, most significant first.
pub open spec fn decimal_digits(n: nat) -> Seq<char>
    decreases n,
{
    if n < 10 {
        seq![digit_char(n)]
    } else {
        decimal_digits(n / 10).push(digit_char(n % 10))
    }
}

/// The character of a decimal digit.
pub open spec fn digit_char(d: nat) -> char {
    ((d + 48) as u32) as char
}

/// `n` written in decimal.
pub fn decimal(n: u128) -> (r: String)
    ensures
        r@ == decimal_digits(n as nat),
{
    let mut digits: Vec<char> = Vec::new();
    let mut m: u128 = n;
    while m >= 10
        invariant
            m <= n,
            decimal_digits(n as nat) == decimal_digits(m as nat) + digits@.reverse(),
        decreases m,
    {
        let c = char_of_digit(m % 10);
        let ghost old_digits = digits@;
        let ghost old_m = m;
        digits.push(c);
        m = m / 10;
        proof {
            assert(decimal_digits(old_m as nat) == decimal_digits(m as nat).push(c));
            assert(digits@.reverse() =~= seq![c] + old_digits.reverse());
            assert(decimal_digits(m as nat).push(c) + old_digits.reverse() =~= decimal_digits(
                m as nat,
            ) + digits@.reverse());
        }
    }
    let c = char_of_digit(m);
    let ghost old_digits = digits@;
    digits.push(c);
    proof {
        assert(decimal_digits(m as nat) == seq![c]);
        assert(digits@.reverse() =~= seq![c] + old_digits.reverse());
    }
    let mut s = String::new();
    let mut i: usize = digits.len();
    while i > 0
        invariant
            i <= digits@.len(),
            s@ == digits@.reverse().take((digits@.len() - i) as int),
        decreases i,
    {
        i = i - 1;
        s.push(digits[i]);
        assert(s@ =~= digits@.reverse().take((digits@.len() - i) as int));
    }
    assert(s@ =~= digits@.reverse());
    s
}

/// The character of a decimal digit.
fn char_of_digit(d: u128) -> (c: char)
    requires
        d < 10,
    ensures
        c == digit_char(d as nat),
{
    match d {
        0 => '0',
        1 => '1',
        2 => '2',
        3 => '3',
        4 => '4',
        5 => '5',
        6 => '6',
        7 => '7',
        8 => '8',
        _ => '9',
    }
}

} // verus!
