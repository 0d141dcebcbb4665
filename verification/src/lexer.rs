//! The lexical layer of the Mojom grammar: what is skipped between tokens
//! and where each kind of token ends.
//!
//! Every rule is a spec function from the source bytes and a start offset to
//! the offset just past the token (`None` where no such token starts there),
//! paired with an executable scanner proved to compute it.
use vstd::prelude::*;
use vstd::string::StringSliceAdditionalSpecFns;

verus! {

pub const TAB: u8 = 9;
pub const LF: u8 = 10;
pub const CR: u8 = 13;
pub const SPACE: u8 = 32;
pub const QUOTE: u8 = 34;
pub const AMP: u8 = 38;
pub const LPAREN: u8 = 40;
pub const RPAREN: u8 = 41;
pub const STAR: u8 = 42;
pub const PLUS: u8 = 43;
pub const COMMA: u8 = 44;
pub const MINUS: u8 = 45;
pub const DOT: u8 = 46;
pub const SLASH: u8 = 47;
pub const SEMICOLON: u8 = 59;
pub const LANGLE: u8 = 60;
pub const EQUAL: u8 = 61;
pub const RANGLE: u8 = 62;
pub const QUESTION: u8 = 63;
pub const AT: u8 = 64;
pub const LBRACKET: u8 = 91;
pub const BACKSLASH: u8 = 92;
pub const RBRACKET: u8 = 93;
pub const UNDERSCORE: u8 = 95;
pub const LBRACE: u8 = 123;
pub const RBRACE: u8 = 125;

/// Space, tab, line feed or carriage return.
pub open spec fn is_space(b: u8) -> bool {
    b == SPACE || b == TAB || b == LF || b == CR
}

/// `0` to `9`.
pub open spec fn is_digit(b: u8) -> bool {
    48 <= b <= 57
}

/// A digit or a letter `a` to `f` in either case.
pub open spec fn is_hex_digit(b: u8) -> bool {
    is_digit(b) || 65 <= b <= 70 || 97 <= b <= 102
}

/// An ASCII letter.
pub open spec fn is_alpha(b: u8) -> bool {
    65 <= b <= 90 || 97 <= b <= 122
}

/// A byte that may start a name: a letter or an underscore.
pub open spec fn is_name_start(b: u8) -> bool {
    is_alpha(b) || b == UNDERSCORE
}

/// A byte that may continue a name: a letter, a digit or an underscore.
pub open spec fn is_name_char(b: u8) -> bool {
    is_alpha(b) || is_digit(b) || b == UNDERSCORE
}

/// The two bytes at `p` are `a` then `b`.
pub open spec fn pair_at(s: Seq<u8>, p: int, a: u8, b: u8) -> bool {
    0 <= p && p + 1 < s.len() && s[p] == a && s[p + 1] == b
}

/// The byte at `p` is `b`.
pub open spec fn byte_at(s: Seq<u8>, p: int, b: u8) -> bool {
    0 <= p < s.len() && s[p] == b
}

/// Where a line comment that is being read at `p` ends: at the next line
/// feed or carriage return, which is not part of it, or at the end of `s`.
pub open spec fn line_comment_end(s: Seq<u8>, p: int) -> int
    decreases s.len() - p,
{
    if 0 <= p < s.len() && s[p] != LF && s[p] != CR {
        line_comment_end(s, p + 1)
    } else {
        p
    }
}

/// Where a block comment that is being read at `p` ends: just past the
/// first `*/` at or after `p`. `None` when the comment is never closed.
pub open spec fn block_comment_end(s: Seq<u8>, p: int) -> Option<int>
    decreases s.len() - p,
{
    if p < 0 || p + 1 >= s.len() {
        None
    } else if s[p] == STAR && s[p + 1] == SLASH {
        Some(p + 2)
    } else {
        block_comment_end(s, p + 1)
    }
}

/// The first offset at or after `p` that is neither white space nor inside a
/// comment. A block comment that is never closed is not a comment.
pub open spec fn skip_trivia(s: Seq<u8>, p: int) -> int
    decreases s.len() - p,
{
    if p < 0 || p >= s.len() {
        p
    } else if is_space(s[p]) {
        skip_trivia(s, p + 1)
    } else if pair_at(s, p, SLASH, SLASH) {
        let e = line_comment_end(s, p + 2);
        if p < e <= s.len() {
            skip_trivia(s, e)
        } else {
            p
        }
    } else if pair_at(s, p, SLASH, STAR) {
        match block_comment_end(s, p + 2) {
            Some(e) => if p < e <= s.len() {
                skip_trivia(s, e)
            } else {
                p
            },
            None => p,
        }
    } else {
        p
    }
}

/// The end of the longest run of name bytes that starts at `p`.
pub open spec fn name_chars_end(s: Seq<u8>, p: int) -> int
    decreases s.len() - p,
{
    if 0 <= p < s.len() && is_name_char(s[p]) {
        name_chars_end(s, p + 1)
    } else {
        p
    }
}

/// A name: a letter or underscore, then letters, digits and underscores.
pub open spec fn name_end(s: Seq<u8>, p: int) -> Option<int> {
    if 0 <= p < s.len() && is_name_start(s[p]) {
        Some(name_chars_end(s, p + 1))
    } else {
        None
    }
}

/// The end of the `.name` parts that follow a name ending at `p`.
pub open spec fn dotted_tail_end(s: Seq<u8>, p: int) -> int
    decreases s.len() - p,
{
    if byte_at(s, p, DOT) {
        match name_end(s, p + 1) {
            Some(e) => if p < e <= s.len() {
                dotted_tail_end(s, e)
            } else {
                p
            },
            None => p,
        }
    } else {
        p
    }
}

/// An identifier: names joined by single dots.
pub open spec fn identifier_end(s: Seq<u8>, p: int) -> Option<int> {
    match name_end(s, p) {
        Some(e) => Some(dotted_tail_end(s, e)),
        None => None,
    }
}

/// The end of the longest run of digits that starts at `p`.
pub open spec fn digits_end(s: Seq<u8>, p: int) -> int
    decreases s.len() - p,
{
    if 0 <= p < s.len() && is_digit(s[p]) {
        digits_end(s, p + 1)
    } else {
        p
    }
}

/// The end of the longest run of hexadecimal digits that starts at `p`.
pub open spec fn hex_digits_end(s: Seq<u8>, p: int) -> int
    decreases s.len() - p,
{
    if 0 <= p < s.len() && is_hex_digit(s[p]) {
        hex_digits_end(s, p + 1)
    } else {
        p
    }
}

/// The offset after an optional `+` or `-` at `p`.
pub open spec fn sign_end(s: Seq<u8>, p: int) -> int {
    if byte_at(s, p, PLUS) || byte_at(s, p, MINUS) {
        p + 1
    } else {
        p
    }
}

/// The byte at `p` is a digit.
pub open spec fn digit_at(s: Seq<u8>, p: int) -> bool {
    0 <= p < s.len() && is_digit(s[p])
}

/// `0x` or `0X` at `p`, followed by a hexadecimal digit.
pub open spec fn hex_prefix_at(s: Seq<u8>, p: int) -> bool {
    &&& byte_at(s, p, 48)
    &&& (byte_at(s, p + 1, 120) || byte_at(s, p + 1, 88))
    &&& 0 <= p + 2 < s.len()
    &&& is_hex_digit(s[p + 2])
}

/// An integer: an optional sign, then `0x` and hexadecimal digits, or
/// decimal digits.
pub open spec fn integer_end(s: Seq<u8>, p: int) -> Option<int> {
    let q = sign_end(s, p);
    if hex_prefix_at(s, q) {
        Some(hex_digits_end(s, q + 2))
    } else if digit_at(s, q) {
        Some(digits_end(s, q))
    } else {
        None
    }
}

/// An exponent: `e` or `E`, an optional sign, digits.
pub open spec fn exponent_end(s: Seq<u8>, p: int) -> Option<int> {
    if byte_at(s, p, 101) || byte_at(s, p, 69) {
        let q = sign_end(s, p + 1);
        if digit_at(s, q) {
            Some(digits_end(s, q))
        } else {
            None
        }
    } else {
        None
    }
}

/// A float: an optional sign and digits, then a fraction, an exponent, or
/// a fraction and an exponent.
pub open spec fn float_end(s: Seq<u8>, p: int) -> Option<int> {
    let q = sign_end(s, p);
    if digit_at(s, q) {
        let d = digits_end(s, q);
        if byte_at(s, d, DOT) && digit_at(s, d + 1) {
            let f = digits_end(s, d + 1);
            match exponent_end(s, f) {
                Some(e) => Some(e),
                None => Some(f),
            }
        } else {
            exponent_end(s, d)
        }
    } else {
        None
    }
}

/// A number: a float where one starts at `p`, else an integer.
pub open spec fn number_end(s: Seq<u8>, p: int) -> Option<int> {
    match float_end(s, p) {
        Some(e) => Some(e),
        None => integer_end(s, p),
    }
}

/// Where the string literal whose inside is being read at `p` ends: just
/// past the first `"` that no `\` stands directly before.
pub open spec fn string_body_end(s: Seq<u8>, p: int) -> Option<int>
    decreases s.len() - p,
{
    if p < 0 || p >= s.len() {
        None
    } else if s[p] == QUOTE {
        Some(p + 1)
    } else if pair_at(s, p, BACKSLASH, QUOTE) {
        string_body_end(s, p + 2)
    } else {
        string_body_end(s, p + 1)
    }
}

/// A string literal in double quotes, in which `\"` stands for a quote.
pub open spec fn string_end(s: Seq<u8>, p: int) -> Option<int> {
    if byte_at(s, p, QUOTE) {
        string_body_end(s, p + 1)
    } else {
        None
    }
}

/// An ordinal: `@` and digits.
pub open spec fn ordinal_end(s: Seq<u8>, p: int) -> Option<int> {
    if byte_at(s, p, AT) && digit_at(s, p + 1) {
        Some(digits_end(s, p + 1))
    } else {
        None
    }
}

/// A value: a number, a string literal or an identifier (which takes in
/// `true`, `false` and `default`).
pub open spec fn value_end(s: Seq<u8>, p: int) -> Option<int> {
    match number_end(s, p) {
        Some(e) => Some(e),
        None => match string_end(s, p) {
            Some(e) => Some(e),
            None => identifier_end(s, p),
        },
    }
}

/// The value of an enumerator: an integer or an identifier.
pub open spec fn enum_value_end(s: Seq<u8>, p: int) -> Option<int> {
    match integer_end(s, p) {
        Some(e) => Some(e),
        None => identifier_end(s, p),
    }
}

/// The name that starts at `p` is exactly the word `kw`.
pub open spec fn keyword_at(s: Seq<u8>, p: int, kw: Seq<u8>) -> bool {
    &&& name_end(s, p) == Some(p + kw.len())
    &&& s.subrange(p, p + kw.len()) == kw
}

pub fn is_space_byte(b: u8) -> (r: bool)
    ensures
        r == is_space(b),
{
    b == SPACE || b == TAB || b == LF || b == CR
}

pub fn is_digit_byte(b: u8) -> (r: bool)
    ensures
        r == is_digit(b),
{
    48 <= b && b <= 57
}

pub fn is_hex_digit_byte(b: u8) -> (r: bool)
    ensures
        r == is_hex_digit(b),
{
    (48 <= b && b <= 57) || (65 <= b && b <= 70) || (97 <= b && b <= 102)
}

pub fn is_name_start_byte(b: u8) -> (r: bool)
    ensures
        r == is_name_start(b),
{
    (65 <= b && b <= 90) || (97 <= b && b <= 122) || b == UNDERSCORE
}

pub fn is_name_byte(b: u8) -> (r: bool)
    ensures
        r == is_name_char(b),
{
    (65 <= b && b <= 90) || (97 <= b && b <= 122) || (48 <= b && b <= 57) || b == UNDERSCORE
}

/// Tells whether the byte at `pos` is `b`.
pub fn has_byte(s: &[u8], pos: usize, b: u8) -> (r: bool)
    ensures
        r == byte_at(s@, pos as int, b),
        r ==> pos < usize::MAX,
{
    pos < s.len() && s[pos] == b
}

/// Tells whether the two bytes at `pos` are `a` then `b`.
pub fn has_pair(s: &[u8], pos: usize, a: u8, b: u8) -> (r: bool)
    ensures
        r == pair_at(s@, pos as int, a, b),
        r ==> pos + 2 <= usize::MAX,
{
    pos < s.len() && s.len() - pos >= 2 && s[pos] == a && s[pos + 1] == b
}

/// Tells whether the byte at `pos` is a digit.
pub fn has_digit(s: &[u8], pos: usize) -> (r: bool)
    ensures
        r == digit_at(s@, pos as int),
        r ==> pos < usize::MAX,
{
    pos < s.len() && is_digit_byte(s[pos])
}

pub fn scan_line_comment(s: &[u8], pos: usize) -> (end: usize)
    requires
        pos <= s@.len(),
    ensures
        end == line_comment_end(s@, pos as int),
        pos <= end <= s@.len(),
{
    let mut i: usize = pos;
    while i < s.len() && s[i] != LF && s[i] != CR
        invariant
            pos <= i <= s@.len(),
            line_comment_end(s@, pos as int) == line_comment_end(s@, i as int),
        decreases s@.len() - i,
    {
        i += 1;
    }
    i
}

pub fn scan_block_comment(s: &[u8], pos: usize) -> (end: Option<usize>)
    requires
        pos <= s@.len(),
    ensures
        match end {
            Some(e) => block_comment_end(s@, pos as int) == Some(e as int) && pos + 2 <= e
                <= s@.len(),
            None => block_comment_end(s@, pos as int).is_none(),
        },
{
    let mut i: usize = pos;
    while i < s.len() && s.len() - i >= 2
        invariant
            pos <= i <= s@.len(),
            block_comment_end(s@, pos as int) == block_comment_end(s@, i as int),
        decreases s@.len() - i,
    {
        if s[i] == STAR && s[i + 1] == SLASH {
            return Some(i + 2);
        }
        i += 1;
    }
    None
}

/// Skips white space and comments from `pos` on.
pub fn trivia(s: &[u8], pos: usize) -> (next: usize)
    requires
        pos <= s@.len(),
    ensures
        next == skip_trivia(s@, pos as int),
        pos <= next <= s@.len(),
{
    let mut i: usize = pos;
    loop
        invariant
            pos <= i <= s@.len(),
            skip_trivia(s@, pos as int) == skip_trivia(s@, i as int),
        decreases s@.len() - i,
    {
        if i >= s.len() {
            return i;
        }
        if is_space_byte(s[i]) {
            i += 1;
        } else if has_pair(s, i, SLASH, SLASH) {
            i = scan_line_comment(s, i + 2);
        } else if has_pair(s, i, SLASH, STAR) {
            match scan_block_comment(s, i + 2) {
                Some(e) => {
                    i = e;
                },
                None => {
                    return i;
                },
            }
        } else {
            return i;
        }
    }
}

pub fn scan_name_chars(s: &[u8], pos: usize) -> (end: usize)
    requires
        pos <= s@.len(),
    ensures
        end == name_chars_end(s@, pos as int),
        pos <= end <= s@.len(),
{
    let mut i: usize = pos;
    while i < s.len() && is_name_byte(s[i])
        invariant
            pos <= i <= s@.len(),
            name_chars_end(s@, pos as int) == name_chars_end(s@, i as int),
        decreases s@.len() - i,
    {
        i += 1;
    }
    i
}

/// Scans a name at `pos`.
pub fn scan_name(s: &[u8], pos: usize) -> (end: Option<usize>)
    ensures
        match end {
            Some(e) => name_end(s@, pos as int) == Some(e as int) && pos < e <= s@.len(),
            None => name_end(s@, pos as int).is_none(),
        },
{
    if pos < s.len() && is_name_start_byte(s[pos]) {
        Some(scan_name_chars(s, pos + 1))
    } else {
        None
    }
}

/// Scans a dotted identifier at `pos`.
pub fn scan_identifier(s: &[u8], pos: usize) -> (end: Option<usize>)
    ensures
        match end {
            Some(e) => identifier_end(s@, pos as int) == Some(e as int) && pos < e <= s@.len(),
            None => identifier_end(s@, pos as int).is_none(),
        },
{
    let first = match scan_name(s, pos) {
        Some(e) => e,
        None => {
            return None;
        },
    };
    let mut i: usize = first;
    loop
        invariant
            pos < i <= s@.len(),
            name_end(s@, pos as int) == Some(first as int),
            dotted_tail_end(s@, first as int) == dotted_tail_end(s@, i as int),
        decreases s@.len() - i,
    {
        if !has_byte(s, i, DOT) {
            return Some(i);
        }
        match scan_name(s, i + 1) {
            Some(e) => {
                i = e;
            },
            None => {
                return Some(i);
            },
        }
    }
}

pub fn scan_digits(s: &[u8], pos: usize) -> (end: usize)
    requires
        pos <= s@.len(),
    ensures
        end == digits_end(s@, pos as int),
        pos <= end <= s@.len(),
        digit_at(s@, pos as int) ==> pos < end,
{
    let mut i: usize = pos;
    while i < s.len() && is_digit_byte(s[i])
        invariant
            pos <= i <= s@.len(),
            digits_end(s@, pos as int) == digits_end(s@, i as int),
        decreases s@.len() - i,
    {
        i += 1;
    }
    i
}

pub fn scan_hex_digits(s: &[u8], pos: usize) -> (end: usize)
    requires
        pos <= s@.len(),
    ensures
        end == hex_digits_end(s@, pos as int),
        pos <= end <= s@.len(),
{
    let mut i: usize = pos;
    while i < s.len() && is_hex_digit_byte(s[i])
        invariant
            pos <= i <= s@.len(),
            hex_digits_end(s@, pos as int) == hex_digits_end(s@, i as int),
        decreases s@.len() - i,
    {
        i += 1;
    }
    i
}

pub fn scan_sign(s: &[u8], pos: usize) -> (end: usize)
    requires
        pos <= s@.len(),
    ensures
        end == sign_end(s@, pos as int),
        pos <= end <= s@.len(),
{
    if has_byte(s, pos, PLUS) || has_byte(s, pos, MINUS) {
        pos + 1
    } else {
        pos
    }
}

/// Scans an integer at `pos`.
pub fn scan_integer(s: &[u8], pos: usize) -> (end: Option<usize>)
    requires
        pos <= s@.len(),
    ensures
        match end {
            Some(e) => integer_end(s@, pos as int) == Some(e as int) && pos < e <= s@.len(),
            None => integer_end(s@, pos as int).is_none(),
        },
{
    let q = scan_sign(s, pos);
    if has_byte(s, q, 48) && (has_byte(s, q + 1, 120) || has_byte(s, q + 1, 88)) && q + 2
        < s.len() && is_hex_digit_byte(s[q + 2]) {
        Some(scan_hex_digits(s, q + 2))
    } else if has_digit(s, q) {
        Some(scan_digits(s, q))
    } else {
        None
    }
}

pub fn scan_exponent(s: &[u8], pos: usize) -> (end: Option<usize>)
    requires
        pos <= s@.len(),
    ensures
        match end {
            Some(e) => exponent_end(s@, pos as int) == Some(e as int) && pos < e <= s@.len(),
            None => exponent_end(s@, pos as int).is_none(),
        },
{
    if has_byte(s, pos, 101) || has_byte(s, pos, 69) {
        let q = scan_sign(s, pos + 1);
        if has_digit(s, q) {
            Some(scan_digits(s, q))
        } else {
            None
        }
    } else {
        None
    }
}

/// Scans a float at `pos`.
pub fn scan_float(s: &[u8], pos: usize) -> (end: Option<usize>)
    requires
        pos <= s@.len(),
    ensures
        match end {
            Some(e) => float_end(s@, pos as int) == Some(e as int) && pos < e <= s@.len(),
            None => float_end(s@, pos as int).is_none(),
        },
{
    let q = scan_sign(s, pos);
    if !has_digit(s, q) {
        return None;
    }
    let d = scan_digits(s, q);
    if has_byte(s, d, DOT) && has_digit(s, d + 1) {
        let f = scan_digits(s, d + 1);
        match scan_exponent(s, f) {
            Some(e) => Some(e),
            None => Some(f),
        }
    } else {
        scan_exponent(s, d)
    }
}

/// Scans a number at `pos`.
pub fn scan_number(s: &[u8], pos: usize) -> (end: Option<usize>)
    requires
        pos <= s@.len(),
    ensures
        match end {
            Some(e) => number_end(s@, pos as int) == Some(e as int) && pos < e <= s@.len(),
            None => number_end(s@, pos as int).is_none(),
        },
{
    match scan_float(s, pos) {
        Some(e) => Some(e),
        None => scan_integer(s, pos),
    }
}

/// Scans a string literal at `pos`.
pub fn scan_string(s: &[u8], pos: usize) -> (end: Option<usize>)
    requires
        pos <= s@.len(),
    ensures
        match end {
            Some(e) => string_end(s@, pos as int) == Some(e as int) && pos + 2 <= e <= s@.len(),
            None => string_end(s@, pos as int).is_none(),
        },
{
    if !has_byte(s, pos, QUOTE) {
        return None;
    }
    let mut i: usize = pos + 1;
    while i < s.len()
        invariant
            pos < i <= s@.len(),
            byte_at(s@, pos as int, QUOTE),
            string_body_end(s@, pos + 1) == string_body_end(s@, i as int),
        decreases s@.len() - i,
    {
        if s[i] == QUOTE {
            return Some(i + 1);
        }
        if has_pair(s, i, BACKSLASH, QUOTE) {
            i += 2;
        } else {
            i += 1;
        }
    }
    None
}

/// Scans an ordinal at `pos`.
pub fn scan_ordinal(s: &[u8], pos: usize) -> (end: Option<usize>)
    requires
        pos <= s@.len(),
    ensures
        match end {
            Some(e) => ordinal_end(s@, pos as int) == Some(e as int) && pos < e <= s@.len(),
            None => ordinal_end(s@, pos as int).is_none(),
        },
{
    if has_byte(s, pos, AT) && has_digit(s, pos + 1) {
        Some(scan_digits(s, pos + 1))
    } else {
        None
    }
}

/// Scans a value at `pos`.
pub fn scan_value(s: &[u8], pos: usize) -> (end: Option<usize>)
    requires
        pos <= s@.len(),
    ensures
        match end {
            Some(e) => value_end(s@, pos as int) == Some(e as int) && pos < e <= s@.len(),
            None => value_end(s@, pos as int).is_none(),
        },
{
    match scan_number(s, pos) {
        Some(e) => Some(e),
        None => match scan_string(s, pos) {
            Some(e) => Some(e),
            None => scan_identifier(s, pos),
        },
    }
}

/// Scans the value of an enumerator at `pos`.
pub fn scan_enum_value(s: &[u8], pos: usize) -> (end: Option<usize>)
    requires
        pos <= s@.len(),
    ensures
        match end {
            Some(e) => enum_value_end(s@, pos as int) == Some(e as int) && pos < e <= s@.len(),
            None => enum_value_end(s@, pos as int).is_none(),
        },
{
    match scan_integer(s, pos) {
        Some(e) => Some(e),
        None => scan_identifier(s, pos),
    }
}

/// Scans the keyword `kw` at `pos`: a name that is exactly that word.
pub fn scan_keyword(s: &[u8], pos: usize, kw: &str) -> (end: Option<usize>)
    ensures
        end is Some == keyword_at(s@, pos as int, kw.spec_bytes()),
        end matches Some(e) ==> e == pos + kw.spec_bytes().len() && pos < e <= s@.len(),
{
    let word = kw.as_bytes();
    let end = match scan_name(s, pos) {
        Some(e) => e,
        None => {
            return None;
        },
    };
    if end - pos != word.len() {
        return None;
    }
    let mut i: usize = 0;
    while i < word.len()
        invariant
            pos + word@.len() == end <= s@.len(),
            name_end(s@, pos as int) == Some(end as int),
            word@ == kw.spec_bytes(),
            i <= word@.len(),
            forall|j: int| 0 <= j < i ==> s@[pos + j] == word@[j],
        decreases word@.len() - i,
    {
        if s[pos + i] != word[i] {
            return None;
        }
        i += 1;
    }
    assert(s@.subrange(pos as int, pos + word@.len()) =~= word@);
    Some(end)
}

/// Tells whether the name at `pos` is exactly the word `kw`.
pub fn has_keyword(s: &[u8], pos: usize, kw: &str) -> (r: bool)
    ensures
        r == keyword_at(s@, pos as int, kw.spec_bytes()),
{
    scan_keyword(s, pos, kw).is_some()
}

} // verus!
