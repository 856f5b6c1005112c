use vstd::prelude::*;
use crate::text::{chars_of, slice_of};

verus! {

/// True iff `c` is one of the ten decimal digits.
pub open spec fn is_digit(c: char) -> bool {
    48 <= c as u32 <= 57
}

/// True iff `c` is a plus or a minus sign.
pub open spec fn is_sign(c: char) -> bool {
    c == '+' || c == '-'
}

/// End of the run of digits that starts at `from`.
pub open spec fn digits_end(s: Seq<char>, from: int) -> int
    decreases s.len() - from,
{
    if 0 <= from < s.len() && is_digit(s[from]) {
        digits_end(s, from + 1)
    } else {
        from
    }
}

/// True iff `c` is the lower-case letter `lower` or its capital.
pub open spec fn same_letter(c: char, lower: char) -> bool {
    c == lower || c as u32 + 32 == lower as u32
}

/// True iff `s` is `word`, whatever the case of its letters.
pub open spec fn is_word(s: Seq<char>, word: Seq<char>) -> bool {
    s.len() == word.len() && forall|i: int| 0 <= i < s.len() ==> same_letter(s[i], #[trigger] word[i])
}

/// True iff an exponent starts at `at` and runs to the end: `e` or `E`, a
/// sign or none, and at least one digit.
pub open spec fn is_exponent(s: Seq<char>, at: int) -> bool {
    let digits = if at + 1 < s.len() && is_sign(s[at + 1]) {
        at + 2
    } else {
        at + 1
    };
    &&& 0 <= at < s.len()
    &&& same_letter(s[at], 'e')
    &&& digits < s.len()
    &&& digits_end(s, digits) == s.len()
}

/// True iff `s` is a number without sign: digits with at most one point
/// among them, at least one digit in all, and an exponent or none.
pub open spec fn is_number(s: Seq<char>) -> bool {
    let whole = digits_end(s, 0);
    let point = whole < s.len() && s[whole] == '.';
    let end = if point {
        digits_end(s, whole + 1)
    } else {
        whole
    };
    let digits = if point {
        end - 1
    } else {
        end
    };
    digits >= 1 && (end == s.len() || is_exponent(s, end))
}

/// True iff `s` is written as a decimal floating-point number: a sign or
/// none, then `inf`, `infinity` or `nan` in any case, or a number.
pub open spec fn is_float_text(s: Seq<char>) -> bool {
    let body = if s.len() > 0 && is_sign(s[0]) {
        s.skip(1)
    } else {
        s
    };
    ||| is_word(body, seq!['i', 'n', 'f'])
    ||| is_word(body, seq!['i', 'n', 'f', 'i', 'n', 'i', 't', 'y'])
    ||| is_word(body, seq!['n', 'a', 'n'])
    ||| is_number(body)
}

fn digit_char(c: char) -> (r: bool)
    ensures
        r == is_digit(c),
{
    let code = c as u32;
    48 <= code && code <= 57
}

fn sign_char(c: char) -> (r: bool)
    ensures
        r == is_sign(c),
{
    c == '+' || c == '-'
}

fn letter_char(c: char, lower: char) -> (r: bool)
    ensures
        r == same_letter(c, lower),
{
    let code = c as u32;
    c == lower || (code <= 0x10FFFF && code + 32 == lower as u32)
}

fn scan_digits(s: &Vec<char>, from: usize) -> (r: usize)
    requires
        from <= s.len(),
    ensures
        r == digits_end(s@, from as int),
        from <= r <= s.len(),
{
    let mut i: usize = from;
    while i < s.len() && digit_char(s[i])
        invariant
            from <= i <= s.len(),
            digits_end(s@, from as int) == digits_end(s@, i as int),
        decreases s.len() - i,
    {
        i += 1;
    }
    i
}

fn word_chars(s: &Vec<char>, word: &Vec<char>) -> (r: bool)
    ensures
        r == is_word(s@, word@),
{
    if s.len() != word.len() {
        return false;
    }
    let mut i: usize = 0;
    while i < s.len()
        invariant
            i <= s.len() == word.len(),
            forall|k: int| 0 <= k < i ==> same_letter(s@[k], #[trigger] word@[k]),
        decreases s.len() - i,
    {
        if !letter_char(s[i], word[i]) {
            return false;
        }
        i += 1;
    }
    true
}

fn exponent_chars(s: &Vec<char>, at: usize) -> (r: bool)
    requires
        at < s.len(),
    ensures
        r == is_exponent(s@, at as int),
{
    if !letter_char(s[at], 'e') {
        return false;
    }
    let digits = if s.len() - at > 1 && sign_char(s[at + 1]) {
        at + 2
    } else {
        at + 1
    };
    if digits >= s.len() {
        return false;
    }
    scan_digits(s, digits) == s.len()
}

fn number_chars(s: &Vec<char>) -> (r: bool)
    ensures
        r == is_number(s@),
{
    let whole = scan_digits(s, 0);
    let point = whole < s.len() && s[whole] == '.';
    let end = if point {
        scan_digits(s, whole + 1)
    } else {
        whole
    };
    let digits = if point {
        end - 1
    } else {
        end
    };
    if digits < 1 {
        return false;
    }
    end == s.len() || exponent_chars(s, end)
}

/// True iff `s` is written as a decimal floating-point number.
pub fn is_numeric(s: &str) -> (r: bool)
    ensures
        r == is_float_text(s@),
{
    let chars = chars_of(s);
    let from: usize = if chars.len() > 0 && sign_char(chars[0]) {
        1
    } else {
        0
    };
    let body = slice_of(&chars, from, chars.len());
    assert(body@ == if s@.len() > 0 && is_sign(s@[0]) {
        s@.skip(1)
    } else {
        s@
    });
    let inf = vec!['i', 'n', 'f'];
    let infinity = vec!['i', 'n', 'f', 'i', 'n', 'i', 't', 'y'];
    let nan = vec!['n', 'a', 'n'];
    assert(inf@ == seq!['i', 'n', 'f']);
    assert(infinity@ == seq!['i', 'n', 'f', 'i', 'n', 'i', 't', 'y']);
    assert(nan@ == seq!['n', 'a', 'n']);
    word_chars(&body, &inf) || word_chars(&body, &infinity) || word_chars(&body, &nan)
        || number_chars(&body)
}

} // verus!
