//! A plain identifier: a run of letters and digits between white space.
use vstd::prelude::*;
use vstd::string::StringSliceAdditionalSpecFns;
use vstd::utf8::encode_utf8;

use crate::lexer::{is_alpha, is_digit, is_space, is_space_byte};
use crate::text::{all_ascii, lemma_ascii_range_boundaries, substring};

verus! {

/// An identifier that was read from a text.
#[derive(Debug, PartialEq, Eq)]
pub struct Identifier {
    value: String,
}

impl View for Identifier {
    type V = Seq<char>;

    closed spec fn view(&self) -> Seq<char> {
        self.value@
    }
}

impl Identifier {
    /// The text of the identifier.
    pub fn value(&self) -> (r: &str)
        ensures
            r@ == self@,
    {
        self.value.as_str()
    }
}

/// A letter or a digit.
pub open spec fn is_alphanumeric(b: u8) -> bool {
    is_alpha(b) || is_digit(b)
}

/// The end of the longest run of white space that starts at `p`.
pub open spec fn spaces_end(s: Seq<u8>, p: int) -> int
    decreases s.len() - p,
{
    if 0 <= p < s.len() && is_space(s[p]) {
        spaces_end(s, p + 1)
    } else {
        p
    }
}

/// The end of the longest run of letters and digits that starts at `p`.
pub open spec fn alphanumeric_end(s: Seq<u8>, p: int) -> int
    decreases s.len() - p,
{
    if 0 <= p < s.len() && is_alphanumeric(s[p]) {
        alphanumeric_end(s, p + 1)
    } else {
        p
    }
}

fn scan_spaces(s: &[u8], pos: usize) -> (end: usize)
    requires
        pos <= s@.len(),
    ensures
        end == spaces_end(s@, pos as int),
        pos <= end <= s@.len(),
{
    let mut i: usize = pos;
    while i < s.len() && is_space_byte(s[i])
        invariant
            pos <= i <= s@.len(),
            spaces_end(s@, pos as int) == spaces_end(s@, i as int),
        decreases s@.len() - i,
    {
        i += 1;
    }
    i
}

fn scan_alphanumeric(s: &[u8], pos: usize) -> (end: usize)
    requires
        pos <= s@.len(),
    ensures
        end == alphanumeric_end(s@, pos as int),
        pos <= end <= s@.len(),
        all_ascii(s@, pos as int, end as int),
{
    let mut i: usize = pos;
    while i < s.len() && ((65 <= s[i] && s[i] <= 90) || (97 <= s[i] && s[i] <= 122) || (48
        <= s[i] && s[i] <= 57))
        invariant
            pos <= i <= s@.len(),
            alphanumeric_end(s@, pos as int) == alphanumeric_end(s@, i as int),
            all_ascii(s@, pos as int, i as int),
        decreases s@.len() - i,
    {
        i += 1;
    }
    i
}

/// Reads an identifier at the start of `input`: white space is skipped, then
/// the letters and digits that follow are the identifier, then white space
/// is skipped again. Gives the identifier and the offset at which the rest
/// of the input starts; `None` when no letter or digit follows the white
/// space.
pub fn identifier(input: &str) -> (r: Option<(Identifier, usize)>)
    ensures
        ({
            let s = input.spec_bytes();
            let start = spaces_end(s, 0);
            let end = alphanumeric_end(s, start);
            match r {
                Some((id, rest)) => start < end && encode_utf8(id@) == s.subrange(start, end)
                    && rest == spaces_end(s, end),
                None => start == end,
            }
        }),
{
    broadcast use vstd::utf8::encode_utf8_valid_utf8;

    let s = input.as_bytes();
    let start = scan_spaces(s, 0);
    let end = scan_alphanumeric(s, start);
    if start == end {
        return None;
    }
    proof {
        lemma_ascii_range_boundaries(s@, start as int, end as int);
    }
    let value = substring(input, start, end).to_owned();
    Some((Identifier { value }, scan_spaces(s, end)))
}

} // verus!
