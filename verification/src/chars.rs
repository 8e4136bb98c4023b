//! Strings as sequences of characters.

use vstd::prelude::*;

verus! {

/// The characters of `s`, in order.
pub fn chars_of(s: &str) -> (out: Vec<char>)
    ensures
        out@ == s@,
{
    let mut out: Vec<char> = Vec::new();
    for c in iter: s.chars()
        invariant
            out@ == iter.seq().take(iter.index()),
            iter.seq() == s@,
    {
        out.push(c);
        proof {
            assert(out@ =~= iter.seq().take(iter.index() + 1));
        }
    }
    proof {
        assert(out@ =~= s@);
    }
    out
}

/// `c` with an ASCII capital letter replaced by its small letter.
pub open spec fn ascii_lower_char(c: char) -> char {
    if 'A' <= c <= 'Z' {
        ((c as u8) + 32) as char
    } else {
        c
    }
}

/// `text` with every ASCII capital letter replaced by its small letter.
pub open spec fn ascii_lower(text: Seq<char>) -> Seq<char> {
    text.map_values(|c: char| ascii_lower_char(c))
}

/// `c` with an ASCII capital letter replaced by its small letter.
pub fn lower_char(c: char) -> (out: char)
    ensures
        out == ascii_lower_char(c),
{
    if 'A' <= c && c <= 'Z' {
        ((c as u8) + 32) as char
    } else {
        c
    }
}

/// `text` with every ASCII capital letter replaced by its small letter.
pub fn lower_chars(text: &Vec<char>) -> (out: Vec<char>)
    ensures
        out@ == ascii_lower(text@),
{
    let mut out: Vec<char> = Vec::new();
    let mut i: usize = 0;
    while i < text.len()
        invariant
            i <= text.len(),
            out@ == ascii_lower(text@.take(i as int)),
        decreases text.len() - i,
    {
        out.push(lower_char(text[i]));
        proof {
            assert(out@ =~= ascii_lower(text@.take(i + 1)));
        }
        i = i + 1;
    }
    proof {
        assert(text@.take(i as int) =~= text@);
    }
    out
}

/// Whether two texts hold the same characters.
pub fn same_text(a: &str, b: &str) -> (same: bool)
    ensures
        same == (a@ == b@),
{
    let left: String = a.to_owned();
    let right: String = b.to_owned();
    left == right
}

/// Whether two lists hold the same characters.
pub fn same_chars(a: &Vec<char>, b: &Vec<char>) -> (same: bool)
    ensures
        same == (a@ == b@),
{
    if a.len() != b.len() {
        return false;
    }
    let mut i: usize = 0;
    while i < a.len()
        invariant
            i <= a.len(),
            a.len() == b.len(),
            forall|k: int| 0 <= k < i ==> a@[k] == b@[k],
        decreases a.len() - i,
    {
        if a[i] != b[i] {
            return false;
        }
        i = i + 1;
    }
    proof {
        assert(a@ =~= b@);
    }
    true
}

/// The string that holds the characters of `chars`, in order.
///
/// Collects the characters with `String::from_iter`. Assumed: the string
/// holds exactly these characters, as the standard library documents.
#[verifier::external_body]
pub(crate) fn string_of(chars: &Vec<char>) -> (text: String)
    ensures
        text@ == chars@,
{
    chars.iter().collect()
}

/// Whether `c` is white space, as `char::is_whitespace` of the standard
/// library decides it.
pub uninterp spec fn is_whitespace_char(c: char) -> bool;

/// Whether `c` is white space.
///
/// Calls `char::is_whitespace`. Assumed: the answer depends on the
/// character alone.
#[verifier::external_body]
pub(crate) fn char_is_whitespace(c: char) -> (yes: bool)
    ensures
        yes == is_whitespace_char(c),
{
    c.is_whitespace()
}

/// The character of the digit `d`.
pub open spec fn digit_char(d: nat) -> char {
    (('0' as u8) + (d % 10) as u8) as char
}

/// `n` written in decimal digits, without leading zeros.
pub open spec fn decimal(n: nat) -> Seq<char>
    decreases n,
{
    if n < 10 {
        seq![digit_char(n)]
    } else {
        decimal(n / 10).push(digit_char(n % 10))
    }
}

/// `n` written in decimal digits, without leading zeros.
pub fn decimal_chars(n: u128) -> (digits: Vec<char>)
    ensures
        digits@ == decimal(n as nat),
    decreases n,
{
    let last: char = (('0' as u8) + ((n % 10) as u8)) as char;
    if n < 10 {
        let mut digits: Vec<char> = Vec::new();
        digits.push(last);
        proof {
            assert(digits@ =~= seq![digit_char(n as nat)]);
        }
        digits
    } else {
        let mut digits = decimal_chars(n / 10);
        digits.push(last);
        digits
    }
}

/// `n` in decimal digits, at least two of them: a single digit gets a
/// zero in front.
pub open spec fn two_digits(n: nat) -> Seq<char> {
    if n < 10 {
        seq!['0'] + decimal(n)
    } else {
        decimal(n)
    }
}

/// `n` in decimal digits, at least two of them.
pub fn two_digit_chars(n: u128) -> (digits: Vec<char>)
    ensures
        digits@ == two_digits(n as nat),
{
    let mut digits: Vec<char> = Vec::new();
    if n < 10 {
        digits.push('0');
    }
    let mut tail = decimal_chars(n);
    let ghost head = digits@;
    digits.append(&mut tail);
    proof {
        assert(digits@ =~= head + decimal(n as nat));
        if n >= 10 {
            assert(head + decimal(n as nat) =~= decimal(n as nat));
        }
    }
    digits
}

} // verus!
