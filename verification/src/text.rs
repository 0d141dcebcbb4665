//! Slices of a text by byte offsets, and why the offsets that the lexer
//! finds may cut a `str`.
use vstd::prelude::*;
use vstd::string::StringExecFns;
use vstd::string::StringSliceAdditionalSpecFns;
use vstd::utf8::{
    is_char_boundary, is_char_boundary_iff_not_is_continuation_byte,
    is_char_boundary_start_end_of_seq, is_continuation_byte, valid_utf8, valid_utf8_split,
};

use crate::lexer::{
    byte_at, dotted_tail_end, identifier_end, is_name_char, name_chars_end, name_end, DOT,
};

verus! {

/// Every byte of `s` from `from` up to `to` is ASCII.
pub open spec fn all_ascii(s: Seq<u8>, from: int, to: int) -> bool {
    forall|j: int| from <= j < to ==> #[trigger] s[j] < 128
}

/// A run of name bytes ends inside the text and is ASCII.
pub proof fn lemma_name_chars_ascii(s: Seq<u8>, p: int)
    requires
        0 <= p <= s.len(),
    ensures
        p <= name_chars_end(s, p) <= s.len(),
        all_ascii(s, p, name_chars_end(s, p)),
    decreases s.len() - p,
{
    if p < s.len() && is_name_char(s[p]) {
        lemma_name_chars_ascii(s, p + 1);
    }
}

/// A name is not empty, ends inside the text and is ASCII.
pub proof fn lemma_name_ascii(s: Seq<u8>, p: int)
    requires
        name_end(s, p) is Some,
    ensures
        p < name_end(s, p)->0 <= s.len(),
        all_ascii(s, p, name_end(s, p)->0),
{
    lemma_name_chars_ascii(s, p + 1);
}

/// The dotted tail of an identifier ends inside the text and is ASCII.
pub proof fn lemma_dotted_tail_ascii(s: Seq<u8>, p: int)
    requires
        0 <= p <= s.len(),
    ensures
        p <= dotted_tail_end(s, p) <= s.len(),
        all_ascii(s, p, dotted_tail_end(s, p)),
    decreases s.len() - p,
{
    if byte_at(s, p, DOT) {
        if let Some(e) = name_end(s, p + 1) {
            lemma_name_ascii(s, p + 1);
            lemma_dotted_tail_ascii(s, e);
        }
    }
}

/// An identifier is not empty, ends inside the text and is ASCII.
pub proof fn lemma_identifier_ascii(s: Seq<u8>, p: int)
    requires
        identifier_end(s, p) is Some,
    ensures
        p < identifier_end(s, p)->0 <= s.len(),
        all_ascii(s, p, identifier_end(s, p)->0),
{
    lemma_name_ascii(s, p);
    lemma_dotted_tail_ascii(s, name_end(s, p)->0);
}

/// In well-formed UTF-8 a character starts at an ASCII byte, and another
/// starts right after it.
pub proof fn lemma_ascii_boundaries(bytes: Seq<u8>, i: int)
    requires
        valid_utf8(bytes),
        0 <= i < bytes.len(),
        bytes[i] < 128,
    ensures
        is_char_boundary(bytes, i),
        is_char_boundary(bytes, i + 1),
{
    is_char_boundary_iff_not_is_continuation_byte(bytes, i);
    if i + 1 == bytes.len() {
        is_char_boundary_start_end_of_seq(bytes);
    } else {
        valid_utf8_split(bytes, i);
        let tail = bytes.subrange(i, bytes.len() as int);
        let rest = tail.subrange(1, tail.len() as int);
        assert(valid_utf8(rest));
        is_char_boundary_iff_not_is_continuation_byte(bytes, i + 1);
    }
}

/// A range of ASCII bytes starts and ends between characters.
pub proof fn lemma_ascii_range_boundaries(bytes: Seq<u8>, start: int, end: int)
    requires
        valid_utf8(bytes),
        0 <= start < end <= bytes.len(),
        all_ascii(bytes, start, end),
    ensures
        is_char_boundary(bytes, start),
        is_char_boundary(bytes, end),
{
    lemma_ascii_boundaries(bytes, start);
    lemma_ascii_boundaries(bytes, end - 1);
}

/// The part of `text` from byte `start` up to byte `end`.
pub fn substring<'a>(text: &'a str, start: usize, end: usize) -> (r: &'a str)
    requires
        start <= end <= text.spec_bytes().len(),
        is_char_boundary(text.spec_bytes(), start as int),
        is_char_boundary(text.spec_bytes(), end as int),
    ensures
        r.spec_bytes() == text.spec_bytes().subrange(start as int, end as int),
{
    broadcast use vstd::utf8::encode_utf8_valid_utf8;

    let ghost bytes = text.spec_bytes();
    let (head, _) = text.split_at(end);
    proof {
        valid_utf8_split(bytes, end as int);
        if start == end {
            is_char_boundary_start_end_of_seq(head.spec_bytes());
        } else {
            is_char_boundary_iff_not_is_continuation_byte(bytes, start as int);
            is_char_boundary_iff_not_is_continuation_byte(head.spec_bytes(), start as int);
        }
    }
    let (_, part) = head.split_at(start);
    part
}

/// Appends the bytes of `src` to `out`.
pub fn append_bytes(out: &mut Vec<u8>, src: &[u8])
    ensures
        final(out)@ == old(out)@ + src@,
{
    let ghost before = out@;
    let mut i: usize = 0;
    while i < src.len()
        invariant
            i <= src@.len(),
            out@ == before + src@.take(i as int),
        decreases src@.len() - i,
    {
        out.push(src[i]);
        i += 1;
    }
}

/// Tells whether two byte strings are the same.
pub fn bytes_eq(a: &[u8], b: &[u8]) -> (r: bool)
    ensures
        r == (a@ == b@),
{
    if a.len() != b.len() {
        return false;
    }
    let mut i: usize = 0;
    while i < a.len()
        invariant
            a@.len() == b@.len(),
            i <= a@.len(),
            forall|j: int| 0 <= j < i ==> a@[j] == b@[j],
        decreases a@.len() - i,
    {
        if a[i] != b[i] {
            return false;
        }
        i += 1;
    }
    assert(a@ =~= b@);
    true
}

/// Tells whether two strings are the same.
pub fn str_eq(a: &str, b: &str) -> (r: bool)
    ensures
        r == (a@ == b@),
{
    proof {
        vstd::utf8::encode_utf8_decode_utf8(a@);
        vstd::utf8::encode_utf8_decode_utf8(b@);
    }
    bytes_eq(a.as_bytes(), b.as_bytes())
}

/// The digit `d` as a character.
pub open spec fn digit_char(d: int) -> char
    recommends
        0 <= d < 10,
{
    if d == 0 {
        '0'
    } else if d == 1 {
        '1'
    } else if d == 2 {
        '2'
    } else if d == 3 {
        '3'
    } else if d == 4 {
        '4'
    } else if d == 5 {
        '5'
    } else if d == 6 {
        '6'
    } else if d == 7 {
        '7'
    } else if d == 8 {
        '8'
    } else {
        '9'
    }
}

/// The decimal digits that write `n`, without leading zeros.
pub open spec fn decimal_chars(n: nat) -> Seq<char>
    decreases n,
{
    if n < 10 {
        seq![digit_char(n as int)]
    } else {
        decimal_chars(n / 10).push(digit_char((n % 10) as int))
    }
}

/// The digit `d` as a string.
fn digit_str(d: u64) -> (r: &'static str)
    requires
        d < 10,
    ensures
        r@ == seq![digit_char(d as int)],
{
    proof {
        reveal_strlit("0");
        reveal_strlit("1");
        reveal_strlit("2");
        reveal_strlit("3");
        reveal_strlit("4");
        reveal_strlit("5");
        reveal_strlit("6");
        reveal_strlit("7");
        reveal_strlit("8");
        reveal_strlit("9");
    }
    let r = if d == 0 {
        "0"
    } else if d == 1 {
        "1"
    } else if d == 2 {
        "2"
    } else if d == 3 {
        "3"
    } else if d == 4 {
        "4"
    } else if d == 5 {
        "5"
    } else if d == 6 {
        "6"
    } else if d == 7 {
        "7"
    } else if d == 8 {
        "8"
    } else {
        "9"
    };
    r
}

/// Writes `n` in decimal digits.
pub fn decimal_string(n: u64) -> (r: String)
    ensures
        r@ == decimal_chars(n as nat),
    decreases n,
{
    if n < 10 {
        String::from_str(digit_str(n))
    } else {
        let r = decimal_string(n / 10).concat(digit_str(n % 10));
        r
    }
}

} // verus!
