//! Character classes and low-level text scanning: whitespace and digit
//! predicates, decimal-literal parsing with overflow handling, maximal-run
//! boundaries, and the identifier validator.

use vstd::prelude::*;

verus! {

/// The Unicode white-space characters (the `White_Space` property): the
/// ASCII spaces and controls together with the dedicated space code points.
pub open spec fn is_space(c: char) -> bool {
    let u = c as u32;
    u == 0x20 || (0x09 <= u && u <= 0x0D) || u == 0x85 || u == 0xA0 || u == 0x1680 || (0x2000
        <= u && u <= 0x200A) || u == 0x2028 || u == 0x2029 || u == 0x202F || u == 0x205F || u
        == 0x3000
}

/// An ASCII decimal digit.
pub open spec fn is_digit(c: char) -> bool {
    0x30 <= c as u32 && c as u32 <= 0x39
}

/// An ASCII letter.
pub open spec fn is_letter(c: char) -> bool {
    let u = c as u32;
    (0x41 <= u && u <= 0x5A) || (0x61 <= u && u <= 0x7A)
}

/// A character allowed after the first one of an identifier: an ASCII
/// letter, an ASCII digit, or an underscore.
pub open spec fn is_ident_char(c: char) -> bool {
    is_letter(c) || is_digit(c) || c == '_'
}

/// The numeric value of an ASCII digit.
pub open spec fn digit_val(c: char) -> int {
    c as u32 - 0x30
}

/// Every character of `s` is an ASCII digit.
pub open spec fn all_digits(s: Seq<char>) -> bool {
    forall|i: int| 0 <= i < s.len() ==> is_digit(#[trigger] s[i])
}

/// The value of `s` read as a decimal numeral, most significant digit
/// first.
pub open spec fn digits_val(s: Seq<char>) -> int
    decreases s.len(),
{
    if s.len() == 0 {
        0
    } else {
        digits_val(s.drop_last()) * 10 + digit_val(s.last())
    }
}

/// A valid identifier: non-empty, starting with an ASCII letter, every
/// later character an ASCII letter, ASCII digit, or underscore.
pub open spec fn is_identifier(s: Seq<char>) -> bool {
    s.len() > 0 && is_letter(s[0]) && forall|i: int|
        1 <= i < s.len() ==> is_ident_char(#[trigger] s[i])
}

/// Index of the sign character of a would-be integer literal, if any.
pub open spec fn i32_body_start(s: Seq<char>) -> int {
    if s.len() > 0 && (s[0] == '+' || s[0] == '-') {
        1
    } else {
        0
    }
}

/// `s` spells a signed 32-bit integer: an optional single sign followed by
/// at least one digit, with the signed value within the 32-bit range.
pub open spec fn is_i32_literal(s: Seq<char>) -> bool {
    let b = s.subrange(i32_body_start(s), s.len() as int);
    b.len() > 0 && all_digits(b) && (if s.len() > 0 && s[0] == '-' {
        digits_val(b) <= 0x8000_0000
    } else {
        digits_val(b) <= 0x7FFF_FFFF
    })
}

/// The signed value spelled by an integer literal.
pub open spec fn i32_lit_val(s: Seq<char>) -> int {
    let b = s.subrange(i32_body_start(s), s.len() as int);
    if s.len() > 0 && s[0] == '-' {
        -digits_val(b)
    } else {
        digits_val(b)
    }
}

/// The first index at or after `i` holding a white-space character, or the
/// length of `s` if there is none.
pub open spec fn first_space_at(s: Seq<char>, i: int) -> int
    decreases s.len() - i when 0 <= i <= s.len()
{
    if i >= s.len() {
        s.len() as int
    } else if is_space(s[i]) {
        i
    } else {
        first_space_at(s, i + 1)
    }
}

/// The first index at or after `i` holding a double quote, or the length of
/// `s` if there is none.
pub open spec fn first_quote_at(s: Seq<char>, i: int) -> int
    decreases s.len() - i when 0 <= i <= s.len()
{
    if i >= s.len() {
        s.len() as int
    } else if s[i] == '"' {
        i
    } else {
        first_quote_at(s, i + 1)
    }
}

/// The first index at or after `i` that ends a maximal token run: a
/// white-space character or a closing parenthesis, or the length of `s`.
pub open spec fn run_end_at(s: Seq<char>, i: int) -> int
    decreases s.len() - i when 0 <= i <= s.len()
{
    if i >= s.len() {
        s.len() as int
    } else if is_space(s[i]) || s[i] == ')' {
        i
    } else {
        run_end_at(s, i + 1)
    }
}

/// A scan boundary lies between its starting index and the end of the text.
pub proof fn lemma_first_space_at_bounds(s: Seq<char>, i: int)
    requires
        0 <= i <= s.len(),
    ensures
        i <= first_space_at(s, i) <= s.len(),
    decreases s.len() - i,
{
    if i < s.len() && !is_space(s[i]) {
        lemma_first_space_at_bounds(s, i + 1);
    }
}

/// A scan boundary lies between its starting index and the end of the text.
pub proof fn lemma_first_quote_at_bounds(s: Seq<char>, i: int)
    requires
        0 <= i <= s.len(),
    ensures
        i <= first_quote_at(s, i) <= s.len(),
    decreases s.len() - i,
{
    if i < s.len() && s[i] != '"' {
        lemma_first_quote_at_bounds(s, i + 1);
    }
}

/// A scan boundary lies between its starting index and the end of the text.
pub proof fn lemma_run_end_at_bounds(s: Seq<char>, i: int)
    requires
        0 <= i <= s.len(),
    ensures
        i <= run_end_at(s, i) <= s.len(),
    decreases s.len() - i,
{
    if i < s.len() && !(is_space(s[i]) || s[i] == ')') {
        lemma_run_end_at_bounds(s, i + 1);
    }
}

/// Whether `c` is a white-space character.
pub fn space_char(c: char) -> (r: bool)
    ensures
        r == is_space(c),
{
    let u = c as u32;
    u == 0x20 || (0x09 <= u && u <= 0x0D) || u == 0x85 || u == 0xA0 || u == 0x1680 || (0x2000
        <= u && u <= 0x200A) || u == 0x2028 || u == 0x2029 || u == 0x202F || u == 0x205F || u
        == 0x3000
}

/// Whether `c` is an ASCII decimal digit.
pub fn digit_char(c: char) -> (r: bool)
    ensures
        r == is_digit(c),
{
    let u = c as u32;
    0x30 <= u && u <= 0x39
}

/// Whether `c` is an ASCII letter.
pub fn letter_char(c: char) -> (r: bool)
    ensures
        r == is_letter(c),
{
    let u = c as u32;
    (0x41 <= u && u <= 0x5A) || (0x61 <= u && u <= 0x7A)
}

/// The first index at or after `start` holding a white-space character, or
/// the length of `s`.
pub fn find_space_from(s: &str, start: usize) -> (r: usize)
    requires
        start <= s@.len(),
    ensures
        r == first_space_at(s@, start as int),
        start <= r <= s@.len(),
{
    let n = s.unicode_len();
    let mut j = start;
    while j < n
        invariant
            start <= j <= n,
            n == s@.len(),
            first_space_at(s@, start as int) == first_space_at(s@, j as int),
        decreases n - j,
    {
        if space_char(s.get_char(j)) {
            return j;
        }
        j = j + 1;
    }
    n
}

/// The first index at or after `start` holding a double quote, or the
/// length of `s`.
pub fn find_quote_from(s: &str, start: usize) -> (r: usize)
    requires
        start <= s@.len(),
    ensures
        r == first_quote_at(s@, start as int),
        start <= r <= s@.len(),
{
    let n = s.unicode_len();
    let mut j = start;
    while j < n
        invariant
            start <= j <= n,
            n == s@.len(),
            first_quote_at(s@, start as int) == first_quote_at(s@, j as int),
        decreases n - j,
    {
        if s.get_char(j) == '"' {
            return j;
        }
        j = j + 1;
    }
    n
}

/// The first index at or after `start` that ends a maximal token run, or
/// the length of `s`.
pub fn find_run_end_from(s: &str, start: usize) -> (r: usize)
    requires
        start <= s@.len(),
    ensures
        r == run_end_at(s@, start as int),
        start <= r <= s@.len(),
{
    let n = s.unicode_len();
    let mut j = start;
    while j < n
        invariant
            start <= j <= n,
            n == s@.len(),
            run_end_at(s@, start as int) == run_end_at(s@, j as int),
        decreases n - j,
    {
        let c = s.get_char(j);
        if space_char(c) || c == ')' {
            return j;
        }
        j = j + 1;
    }
    n
}

/// A string of digits has a non-negative value.
pub proof fn lemma_digits_val_nonneg(s: Seq<char>)
    requires
        all_digits(s),
    ensures
        digits_val(s) >= 0,
    decreases s.len(),
{
    if s.len() > 0 {
        assert(all_digits(s.drop_last()));
        lemma_digits_val_nonneg(s.drop_last());
    }
}

/// Reading one more digit multiplies the value so far by ten and adds the
/// digit.
pub proof fn lemma_digits_val_step(s: Seq<char>, j: int)
    requires
        0 <= j < s.len(),
    ensures
        digits_val(s.subrange(0, j + 1)) == 10 * digits_val(s.subrange(0, j)) + digit_val(s[j]),
{
    let a = s.subrange(0, j + 1);
    assert(a.drop_last() =~= s.subrange(0, j));
    assert(a.last() == s[j]);
}

/// The value of a digit string is at least the value of any of its
/// prefixes.
pub proof fn lemma_digits_val_prefix_le(s: Seq<char>, m: int)
    requires
        all_digits(s),
        0 <= m <= s.len(),
    ensures
        digits_val(s.subrange(0, m)) <= digits_val(s),
    decreases s.len() - m,
{
    if m == s.len() {
        assert(s.subrange(0, m) =~= s);
    } else {
        let t = s.drop_last();
        assert(all_digits(t));
        assert(t.subrange(0, m) =~= s.subrange(0, m));
        lemma_digits_val_prefix_le(t, m);
        lemma_digits_val_nonneg(t);
    }
}

/// Reads `s` as an unsigned decimal numeral. Returns its value when `s` is
/// non-empty, all digits, and the value fits in 32 bits; fails otherwise.
pub fn parse_digits(s: &str) -> (r: Option<u32>)
    ensures
        match r {
            Some(n) => s@.len() > 0 && all_digits(s@) && digits_val(s@) == n as int,
            None => s@.len() == 0 || !all_digits(s@) || digits_val(s@) > 0xFFFF_FFFF,
        },
{
    let n = s.unicode_len();
    if n == 0 {
        return None;
    }
    let mut acc: u64 = 0;
    let mut j: usize = 0;
    while j < n
        invariant
            0 <= j <= n,
            n == s@.len(),
            all_digits(s@.subrange(0, j as int)),
            acc as int == digits_val(s@.subrange(0, j as int)),
            acc <= 0xFFFF_FFFF,
        decreases n - j,
    {
        let c = s.get_char(j);
        if !digit_char(c) {
            assert(!is_digit(s@[j as int]));
            return None;
        }
        let d: u64 = (c as u32) as u64 - 0x30;
        let next: u64 = acc * 10 + d;
        proof {
            lemma_digits_val_step(s@, j as int);
            assert(all_digits(s@.subrange(0, j as int + 1))) by {
                let a = s@.subrange(0, j as int + 1);
                assert(forall|i: int| 0 <= i < a.len() ==> a[i] == s@[i]);
            }
        }
        if next > 0xFFFF_FFFF {
            proof {
                if all_digits(s@) {
                    lemma_digits_val_prefix_le(s@, j as int + 1);
                }
            }
            return None;
        }
        acc = next;
        j = j + 1;
    }
    proof {
        assert(s@.subrange(0, n as int) =~= s@);
    }
    Some(acc as u32)
}

/// Reads `s` as a signed 32-bit decimal literal: an optional single `+` or
/// `-` sign followed by digits. Returns its value exactly when `s` has that
/// shape and the value is within the 32-bit range.
pub fn parse_i32(s: &str) -> (r: Option<i32>)
    ensures
        match r {
            Some(v) => is_i32_literal(s@) && v as int == i32_lit_val(s@),
            None => !is_i32_literal(s@),
        },
{
    let n = s.unicode_len();
    if n == 0 {
        return None;
    }
    let c0 = s.get_char(0);
    let neg = c0 == '-';
    let start: usize = if c0 == '-' || c0 == '+' {
        1
    } else {
        0
    };
    let body = s.substring_char(start, n);
    assert(body@ == s@.subrange(i32_body_start(s@), s@.len() as int));
    let mag = match parse_digits(body) {
        Some(m) => m,
        None => {
            return None;
        },
    };
    if neg {
        if mag > 0x8000_0000u32 {
            return None;
        }
        if mag == 0x8000_0000u32 {
            Some(i32::MIN)
        } else {
            Some(-(mag as i32))
        }
    } else {
        if mag > 0x7FFF_FFFFu32 {
            return None;
        }
        Some(mag as i32)
    }
}

/// Whether `token_str` has the shape of an identifier: it starts with an
/// ASCII letter and continues with ASCII letters, ASCII digits, or
/// underscores only.
pub fn is_valid_identifier(token_str: &str) -> (r: bool)
    ensures
        r == is_identifier(token_str@),
{
    let n = token_str.unicode_len();
    if n == 0 {
        return false;
    }
    if !letter_char(token_str.get_char(0)) {
        return false;
    }
    let mut j: usize = 1;
    while j < n
        invariant
            1 <= j <= n,
            n == token_str@.len(),
            is_letter(token_str@[0]),
            forall|i: int| 1 <= i < j ==> is_ident_char(#[trigger] token_str@[i]),
        decreases n - j,
    {
        let c = token_str.get_char(j);
        if !(letter_char(c) || digit_char(c) || c == '_') {
            return false;
        }
        j = j + 1;
    }
    true
}

} // verus!
