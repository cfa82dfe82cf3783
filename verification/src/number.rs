use vstd::prelude::*;
use vstd::string::StrSliceExecFns;

verus! {

/// Whether `c` is one of the ten decimal digits.
pub open spec fn is_digit(c: char) -> bool {
    0x30 <= c as u32 <= 0x39
}

/// The number that a decimal digit stands for.
pub open spec fn digit_value(c: char) -> nat {
    (c as u32 - 0x30) as nat
}

/// Whether `c` is a plus or a minus sign.
pub open spec fn is_sign(c: char) -> bool {
    c == '+' || c == '-'
}

/// Whether `c` is the lower-case letter `l` or its upper-case form.
pub open spec fn same_letter(c: char, l: char) -> bool {
    c as u32 == l as u32 || c as u32 + 32 == l as u32
}

/// The first index at or after `i` that holds no digit, or the length of `s`
/// where the digits run to its end.
pub open spec fn digits_end(s: Seq<char>, i: int) -> int
    decreases s.len() - i,
{
    if i < 0 || i >= s.len() || !is_digit(s[i]) {
        i
    } else {
        digits_end(s, i + 1)
    }
}

/// The value of a sequence of digits read as a decimal number.
pub open spec fn decimal(s: Seq<char>) -> nat
    decreases s.len(),
{
    if s.len() == 0 {
        0
    } else {
        decimal(s.drop_last()) * 10 + digit_value(s.last())
    }
}

/// The text without the plus sign that may lead it.
pub open spec fn without_plus(s: Seq<char>) -> Seq<char> {
    if s.len() > 0 && s[0] == '+' {
        s.drop_first()
    } else {
        s
    }
}

/// The text without the sign that may lead it.
pub open spec fn without_sign(s: Seq<char>) -> Seq<char> {
    if s.len() > 0 && is_sign(s[0]) {
        s.drop_first()
    } else {
        s
    }
}

/// The index that a token denotes: an optional plus sign, then one or more
/// decimal digits whose value fits the machine's word. Any other token denotes
/// none. These are the texts that the standard library reads as a `usize`.
pub open spec fn index_of(s: Seq<char>) -> Option<usize> {
    let d = without_plus(s);
    if d.len() > 0 && digits_end(d, 0) == d.len() && decimal(d) <= usize::MAX {
        Some(decimal(d) as usize)
    } else {
        None
    }
}

/// Whether `s` spells `inf`, `infinity` or `nan`, in either case of each letter.
pub open spec fn is_special(s: Seq<char>) -> bool {
    ||| s.len() == 3 && same_letter(s[0], 'i') && same_letter(s[1], 'n') && same_letter(s[2], 'f')
    ||| s.len() == 3 && same_letter(s[0], 'n') && same_letter(s[1], 'a') && same_letter(s[2], 'n')
    ||| s.len() == 8 && same_letter(s[0], 'i') && same_letter(s[1], 'n') && same_letter(s[2], 'f')
        && same_letter(s[3], 'i') && same_letter(s[4], 'n') && same_letter(s[5], 'i')
        && same_letter(s[6], 't') && same_letter(s[7], 'y')
}

/// Whether an exponent starts at `b` and runs to the end of `s`: the letter
/// `e`, an optional sign, then one or more digits.
pub open spec fn is_exponent(s: Seq<char>, b: int) -> bool {
    let k = if b + 1 < s.len() && is_sign(s[b + 1]) {
        b + 2
    } else {
        b + 1
    };
    &&& 0 <= b < s.len()
    &&& same_letter(s[b], 'e')
    &&& k < s.len()
    &&& digits_end(s, k) == s.len()
}

/// Whether `s` is an unsigned decimal number: digits with at most one point
/// among them, at least one digit in all, and an optional exponent.
pub open spec fn is_number(s: Seq<char>) -> bool {
    let a = digits_end(s, 0);
    let point = a < s.len() && s[a] == '.';
    let b = if point {
        digits_end(s, a + 1)
    } else {
        a
    };
    let digits = if point {
        b - 1
    } else {
        a
    };
    &&& digits > 0
    &&& (b == s.len() || is_exponent(s, b))
}

/// Whether `s` is a base-10 floating-point literal: an optional sign, then
/// either a decimal number or one of the words for infinity and not-a-number.
/// These are the texts that the standard library reads as a floating-point
/// number, so a token that passes can be turned into one without failure.
pub open spec fn is_float_literal(s: Seq<char>) -> bool {
    let t = without_sign(s);
    is_special(t) || is_number(t)
}

/// The digits that start at `i` end inside the text, and only digits lie
/// between.
pub proof fn lemma_digits_end(s: Seq<char>, i: int)
    requires
        0 <= i <= s.len(),
    ensures
        i <= digits_end(s, i) <= s.len(),
        digits_end(s, i) < s.len() ==> !is_digit(s[digits_end(s, i)]),
        forall|k: int| i <= k < digits_end(s, i) ==> is_digit(#[trigger] s[k]),
    decreases s.len() - i,
{
    if i < s.len() && is_digit(s[i]) {
        lemma_digits_end(s, i + 1);
    }
}

/// A prefix of a digit sequence has no greater value than the whole.
pub proof fn lemma_decimal_prefix(s: Seq<char>, k: int)
    requires
        0 <= k <= s.len(),
    ensures
        decimal(s.take(k)) <= decimal(s),
    decreases s.len(),
{
    if k == s.len() {
        assert(s.take(k) =~= s);
    } else {
        lemma_decimal_prefix(s.drop_last(), k);
        assert(s.drop_last().take(k) =~= s.take(k));
    }
}

/// The index after the digits that start at `i`.
fn scan_digits(s: &str, n: usize, i: usize) -> (j: usize)
    requires
        n == s@.len(),
        i <= n,
    ensures
        j == digits_end(s@, i as int),
        i <= j <= n,
{
    let mut j: usize = i;
    while j < n && is_decimal_digit(s.get_char(j))
        invariant
            n == s@.len(),
            i <= j <= n,
            digits_end(s@, i as int) == digits_end(s@, j as int),
        decreases n - j,
    {
        j = j + 1;
    }
    j
}

/// Whether `c` is a decimal digit.
pub fn is_decimal_digit(c: char) -> (r: bool)
    ensures
        r == is_digit(c),
{
    let u: u32 = c as u32;
    0x30 <= u && u <= 0x39
}

/// Whether the character at `i` is the lower-case letter `l` in either case.
fn letter_at(s: &str, i: usize, l: char) -> (r: bool)
    requires
        i < s@.len(),
        l as u32 >= 32,
    ensures
        r == same_letter(s@[i as int], l),
{
    let c: u32 = s.get_char(i) as u32;
    let w: u32 = l as u32;
    c == w || c == w - 32
}

/// Reads a token as an index: an optional plus sign and decimal digits. Gives
/// `None` for any other text and for a value that does not fit.
pub fn parse_index(s: &str) -> (r: Option<usize>)
    ensures
        r == index_of(s@),
{
    let len: usize = s.unicode_len();
    let d: &str = if len > 0 && s.get_char(0) == '+' {
        s.substring_char(1, len)
    } else {
        s
    };
    assert(d@ =~= without_plus(s@));
    let n: usize = d.unicode_len();
    if n == 0 {
        return None;
    }
    let e: usize = scan_digits(d, n, 0);
    if e != n {
        return None;
    }
    proof {
        lemma_digits_end(d@, 0);
    }
    let mut value: usize = 0;
    let mut k: usize = 0;
    assert(d@.take(0) =~= Seq::<char>::empty());
    while k < n
        invariant
            n == d@.len(),
            0 <= k <= n,
            d@ == without_plus(s@),
            digits_end(d@, 0) == n,
            forall|i: int| 0 <= i < n ==> is_digit(#[trigger] d@[i]),
            value == decimal(d@.take(k as int)),
        decreases n - k,
    {
        let digit: usize = (d.get_char(k) as u32 - 0x30) as usize;
        proof {
            assert(d@.take(k + 1).drop_last() =~= d@.take(k as int));
            assert(d@.take(k + 1).last() == d@[k as int]);
            lemma_decimal_prefix(d@, k + 1);
        }
        if value > (usize::MAX - digit) / 10 {
            assert(decimal(d@.take(k + 1)) > usize::MAX);
            return None;
        }
        value = value * 10 + digit;
        k = k + 1;
    }
    assert(d@.take(n as int) =~= d@);
    Some(value)
}

/// Whether the exponent that starts at `b` is well formed and ends the text.
fn exponent_at(s: &str, n: usize, b: usize) -> (r: bool)
    requires
        n == s@.len(),
        b < n,
    ensures
        r == is_exponent(s@, b as int),
{
    if !letter_at(s, b, 'e') {
        return false;
    }
    let k: usize = if b + 1 < n && (s.get_char(b + 1) == '+' || s.get_char(b + 1) == '-') {
        b + 2
    } else {
        b + 1
    };
    if k >= n {
        return false;
    }
    scan_digits(s, n, k) == n
}

/// Whether the text spells one of the words for infinity and not-a-number.
fn special_word(s: &str, n: usize) -> (r: bool)
    requires
        n == s@.len(),
    ensures
        r == is_special(s@),
{
    if n == 3 {
        (letter_at(s, 0, 'i') && letter_at(s, 1, 'n') && letter_at(s, 2, 'f')) || (letter_at(
            s,
            0,
            'n',
        ) && letter_at(s, 1, 'a') && letter_at(s, 2, 'n'))
    } else if n == 8 {
        letter_at(s, 0, 'i') && letter_at(s, 1, 'n') && letter_at(s, 2, 'f') && letter_at(s, 3, 'i')
            && letter_at(s, 4, 'n') && letter_at(s, 5, 'i') && letter_at(s, 6, 't') && letter_at(
            s,
            7,
            'y',
        )
    } else {
        false
    }
}

/// Whether a token is a base-10 floating-point literal.
pub fn is_float(s: &str) -> (r: bool)
    ensures
        r == is_float_literal(s@),
{
    let len: usize = s.unicode_len();
    let t: &str = if len > 0 && (s.get_char(0) == '+' || s.get_char(0) == '-') {
        s.substring_char(1, len)
    } else {
        s
    };
    assert(t@ =~= without_sign(s@));
    let n: usize = t.unicode_len();
    if special_word(t, n) {
        return true;
    }
    let a: usize = scan_digits(t, n, 0);
    if a < n && t.get_char(a) == '.' {
        let b: usize = scan_digits(t, n, a + 1);
        if b - 1 == 0 {
            return false;
        }
        b == n || exponent_at(t, n, b)
    } else {
        if a == 0 {
            return false;
        }
        a == n || exponent_at(t, n, a)
    }
}

} // verus!
