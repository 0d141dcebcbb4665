//! The framing of JSON-RPC messages: the header block that stands before
//! each message, the kinds of message, and the error codes.
use vstd::prelude::*;
use vstd::string::StringExecFns;
use vstd::string::StringSliceAdditionalSpecFns;
use vstd::utf8::{encode_utf8, is_ascii_chars, is_ascii_chars_encode_utf8};

use crate::grammar::decimal_value;
use crate::lexer::{is_digit, is_digit_byte, pair_at, CR, LF, PLUS, SPACE};
use crate::parser::lemma_decimal_prefix;
use crate::text::{decimal_chars, decimal_string};

verus! {

pub const COLON: u8 = 58;

/// An error of the transport: the stream does not hold what the protocol
/// asks for.
#[derive(Debug, Clone, PartialEq, Eq)]
pub struct ProtocolError(pub String);

/// The error codes of JSON-RPC and of the language server protocol.
#[derive(Debug, Clone, Copy, PartialEq, Eq)]
pub enum ErrorCodes {
    ParseError,
    InvalidRequest,
    MethodNotFound,
    InvalidParams,
    InternalError,
    ServerErrorStart,
    ServerErrorEnd,
    ServerNotInitialized,
    UnknownErrorCode,
    RequestCancelled,
    ContentModified,
}

/// The number that stands for an error code on the wire.
pub open spec fn code_number(code: ErrorCodes) -> int {
    match code {
        ErrorCodes::ParseError => -32700,
        ErrorCodes::InvalidRequest => -32600,
        ErrorCodes::MethodNotFound => -32601,
        ErrorCodes::InvalidParams => -32602,
        ErrorCodes::InternalError => -32603,
        ErrorCodes::ServerErrorStart => -32099,
        ErrorCodes::ServerErrorEnd => -32000,
        ErrorCodes::ServerNotInitialized => -32002,
        ErrorCodes::UnknownErrorCode => -32001,
        ErrorCodes::RequestCancelled => -32800,
        ErrorCodes::ContentModified => -32801,
    }
}

impl ErrorCodes {
    /// The number that stands for the code on the wire.
    pub fn code(self) -> (r: i32)
        ensures
            r == code_number(self),
    {
        match self {
            ErrorCodes::ParseError => -32700,
            ErrorCodes::InvalidRequest => -32600,
            ErrorCodes::MethodNotFound => -32601,
            ErrorCodes::InvalidParams => -32602,
            ErrorCodes::InternalError => -32603,
            ErrorCodes::ServerErrorStart => -32099,
            ErrorCodes::ServerErrorEnd => -32000,
            ErrorCodes::ServerNotInitialized => -32002,
            ErrorCodes::UnknownErrorCode => -32001,
            ErrorCodes::RequestCancelled => -32800,
            ErrorCodes::ContentModified => -32801,
        }
    }
}

/// The error of a response.
#[derive(Debug, Clone, PartialEq, Eq)]
pub struct ResponseError {
    pub code: i32,
    pub message: String,
}

impl ResponseError {
    pub fn new(code: ErrorCodes, message: String) -> (r: ResponseError)
        ensures
            r.code == code_number(code),
            r.message == message,
    {
        ResponseError { code: code.code(), message }
    }
}

/// The members of a JSON-RPC message that tell its kind: the `id` where it
/// is an unsigned integer, the `method` where it is a string, and whether
/// `result` and `error` are there.
#[derive(Debug, Clone, PartialEq, Eq)]
pub struct Envelope {
    pub id: Option<u64>,
    pub method: Option<String>,
    pub has_result: bool,
    pub has_error: bool,
}

/// The kind of a message.
#[derive(Debug, Clone, Copy, PartialEq, Eq)]
pub enum MessageKind {
    Request,
    Response,
    Notification,
}

/// The kind of the message that has the members of `e`: a request has an
/// `id` and a `method`; a response an `id` and a `result` or an `error`; a
/// notification a `method` and no `id`. Anything else is no message.
pub open spec fn kind_of(e: Envelope) -> Option<MessageKind> {
    if e.id is Some && e.method is Some {
        Some(MessageKind::Request)
    } else if e.id is Some && (e.has_result || e.has_error) {
        Some(MessageKind::Response)
    } else if e.id is None && e.method is Some {
        Some(MessageKind::Notification)
    } else {
        None
    }
}

/// Tells the kind of a message from its members.
pub fn classify(e: &Envelope) -> (r: Option<MessageKind>)
    ensures
        r == kind_of(*e),
{
    if e.id.is_some() {
        if e.method.is_some() {
            Some(MessageKind::Request)
        } else if e.has_result || e.has_error {
            Some(MessageKind::Response)
        } else {
            None
        }
    } else if e.method.is_some() {
        Some(MessageKind::Notification)
    } else {
        None
    }
}

/// The header block of a message.
#[derive(Debug, Clone, Copy, PartialEq, Eq)]
pub struct Header {
    pub content_length: usize,
}

/// Why a header block is refused.
#[derive(Debug, Clone, Copy, PartialEq, Eq)]
pub enum HeaderError {
    /// The input ends before the empty line that closes the block.
    NoHeader,
    /// A line is not a name and a value with one `: ` between them.
    InvalidHeader,
    /// The value of `Content-Length` is not a number that fits.
    InvalidLength,
    /// The block has no `Content-Length`.
    NoContentLength,
}

/// ASCII white space: tab, line feed, vertical tab, form feed, carriage
/// return, space.
pub open spec fn is_blank(b: u8) -> bool {
    b == SPACE || 9 <= b <= 13
}

/// The three bytes write a white-space character: U+1680, U+2000 to
/// U+200A, U+2028, U+2029, U+202F, U+205F or U+3000.
pub open spec fn is_wide_space(a: u8, b: u8, c: u8) -> bool {
    ||| a == 0xE1 && b == 0x9A && c == 0x80
    ||| a == 0xE2 && b == 0x80 && (0x80 <= c <= 0x8A || c == 0xA8 || c == 0xA9 || c == 0xAF)
    ||| a == 0xE2 && b == 0x81 && c == 0x9F
    ||| a == 0xE3 && b == 0x80 && c == 0x80
}

/// The two bytes write a white-space character: U+0085 or U+00A0.
pub open spec fn is_narrow_space(a: u8, b: u8) -> bool {
    a == 0xC2 && (b == 0x85 || b == 0xA0)
}

/// The number of bytes of the white-space character that starts at `p` and
/// ends at or before `e`; 0 where none does.
pub open spec fn space_width(s: Seq<u8>, p: int, e: int) -> int {
    if !(0 <= p < e <= s.len()) {
        0
    } else if is_blank(s[p]) {
        1
    } else if p + 2 <= e && is_narrow_space(s[p], s[p + 1]) {
        2
    } else if p + 3 <= e && is_wide_space(s[p], s[p + 1], s[p + 2]) {
        3
    } else {
        0
    }
}

/// The number of bytes of the white-space character that ends at `e` and
/// starts at or after `p`; 0 where none does.
pub open spec fn space_width_before(s: Seq<u8>, p: int, e: int) -> int {
    if !(0 <= p < e <= s.len()) {
        0
    } else if is_blank(s[e - 1]) {
        1
    } else if p + 2 <= e && is_narrow_space(s[e - 2], s[e - 1]) {
        2
    } else if p + 3 <= e && is_wide_space(s[e - 3], s[e - 2], s[e - 1]) {
        3
    } else {
        0
    }
}

/// The offset just past the line that starts at `p`: past its line feed,
/// or the end of `s` where no line feed follows.
pub open spec fn line_end(s: Seq<u8>, p: int) -> int
    decreases s.len() - p,
{
    if p < 0 || p >= s.len() {
        p
    } else if s[p] == LF {
        p + 1
    } else {
        line_end(s, p + 1)
    }
}

/// The first offset from `p` up to `e` at which no white space starts, or
/// `e`.
pub open spec fn trim_start(s: Seq<u8>, p: int, e: int) -> int
    decreases e - p,
{
    if space_width(s, p, e) > 0 {
        trim_start(s, p + space_width(s, p, e), e)
    } else {
        p
    }
}

/// The offset just past the last character from `p` up to `e` that is no
/// white space, or `p`.
pub open spec fn trim_end(s: Seq<u8>, p: int, e: int) -> int
    decreases e - p,
{
    if space_width_before(s, p, e) > 0 {
        trim_end(s, p, e - space_width_before(s, p, e))
    } else {
        e
    }
}

/// The offset of the first `: ` that starts at or after `p` and ends at or
/// before `e`.
pub open spec fn find_separator(s: Seq<u8>, p: int, e: int) -> Option<int>
    decreases e - p,
{
    if p < 0 || p + 2 > e || e > s.len() {
        None
    } else if s[p] == COLON && s[p + 1] == SPACE {
        Some(p)
    } else {
        find_separator(s, p + 1, e)
    }
}

/// Every byte from `p` up to `e` is a digit.
pub open spec fn all_digits(s: Seq<u8>, p: int, e: int) -> bool {
    forall|j: int| p <= j < e ==> is_digit(#[trigger] s[j])
}

/// The number that the bytes from `p` up to `e` write, as `usize` reads
/// it: a `+` may stand first, digits must follow, and the number must fit.
pub open spec fn parse_length(s: Seq<u8>, p: int, e: int) -> Option<usize> {
    let d = if p < e && s[p] == PLUS {
        p + 1
    } else {
        p
    };
    if d < e && all_digits(s, d, e) && decimal_value(s.subrange(d, e)) <= usize::MAX {
        Some(decimal_value(s.subrange(d, e)) as usize)
    } else {
        None
    }
}

/// An ASCII capital letter becomes the small letter, anything else stays.
pub open spec fn lower(b: u8) -> u8 {
    if 65 <= b <= 90 {
        (b + 32) as u8
    } else {
        b
    }
}

/// The bytes from `p` up to `e` are `word`, whatever the case of their
/// letters. `word` holds no capital letters.
pub open spec fn is_word(s: Seq<u8>, p: int, e: int, word: Seq<u8>) -> bool {
    s.subrange(p, e).map_values(|b: u8| lower(b)) == word
}

/// What one line of a header block says.
#[derive(Debug, Clone, Copy, PartialEq, Eq)]
pub enum LineOutcome {
    /// The line is not a name and a value with one `: ` between them.
    Invalid,
    /// The line is a `Content-Length` whose value is not a number that
    /// fits.
    InvalidLength,
    /// The line is a header that the server does not read.
    Other,
    /// The line is a `Content-Length` with this value.
    Length(usize),
}

/// What the line from `p` up to `e` says. White space at both ends of the
/// line does not count; the line must hold `: ` exactly once, between the
/// name and the value.
pub open spec fn header_line(s: Seq<u8>, p: int, e: int) -> LineOutcome {
    let a = trim_start(s, p, e);
    let b = trim_end(s, a, e);
    match find_separator(s, a, b) {
        Some(i) => if find_separator(s, i + 2, b) is Some {
            LineOutcome::Invalid
        } else if is_word(s, a, i, "content-length".spec_bytes()) {
            match parse_length(s, i + 2, b) {
                Some(n) => LineOutcome::Length(n),
                None => LineOutcome::InvalidLength,
            }
        } else {
            LineOutcome::Other
        },
        None => LineOutcome::Invalid,
    }
}

/// What the header block that is read from `p` on gives, when the lines
/// before gave the length `found`: the header and the offset just past the
/// block, or the first error.
pub open spec fn header_from(s: Seq<u8>, p: int, found: Option<usize>) -> Result<
    (Header, int),
    HeaderError,
>
    decreases s.len() - p,
{
    let e = line_end(s, p);
    if p < 0 || p >= s.len() || !(p < e <= s.len()) {
        Err(HeaderError::NoHeader)
    } else if s.subrange(p, e) == seq![CR, LF] {
        match found {
            Some(n) => Ok((Header { content_length: n }, e)),
            None => Err(HeaderError::NoContentLength),
        }
    } else {
        match header_line(s, p, e) {
            LineOutcome::Invalid => Err(HeaderError::InvalidHeader),
            LineOutcome::InvalidLength => Err(HeaderError::InvalidLength),
            LineOutcome::Other => header_from(s, e, found),
            LineOutcome::Length(n) => header_from(s, e, Some(n)),
        }
    }
}

fn scan_line(s: &[u8], pos: usize) -> (end: usize)
    requires
        pos < s@.len(),
    ensures
        end == line_end(s@, pos as int),
        pos < end <= s@.len(),
{
    let mut i: usize = pos;
    while i < s.len() && s[i] != LF
        invariant
            pos <= i <= s@.len(),
            line_end(s@, pos as int) == line_end(s@, i as int),
        decreases s@.len() - i,
    {
        i += 1;
    }
    if i < s.len() {
        i + 1
    } else {
        i
    }
}

fn is_blank_byte(b: u8) -> (r: bool)
    ensures
        r == is_blank(b),
{
    b == SPACE || (9 <= b && b <= 13)
}

fn is_narrow_space_bytes(a: u8, b: u8) -> (r: bool)
    ensures
        r == is_narrow_space(a, b),
{
    a == 0xC2 && (b == 0x85 || b == 0xA0)
}

fn is_wide_space_bytes(a: u8, b: u8, c: u8) -> (r: bool)
    ensures
        r == is_wide_space(a, b, c),
{
    (a == 0xE1 && b == 0x9A && c == 0x80) || (a == 0xE2 && b == 0x80 && ((0x80 <= c && c <= 0x8A)
        || c == 0xA8 || c == 0xA9 || c == 0xAF)) || (a == 0xE2 && b == 0x81 && c == 0x9F) || (a
        == 0xE3 && b == 0x80 && c == 0x80)
}

fn scan_space(s: &[u8], pos: usize, end: usize) -> (r: usize)
    requires
        pos <= end <= s@.len(),
    ensures
        r == space_width(s@, pos as int, end as int),
        pos + r <= end,
{
    if pos >= end {
        0
    } else if is_blank_byte(s[pos]) {
        1
    } else if end - pos >= 2 && is_narrow_space_bytes(s[pos], s[pos + 1]) {
        2
    } else if end - pos >= 3 && is_wide_space_bytes(s[pos], s[pos + 1], s[pos + 2]) {
        3
    } else {
        0
    }
}

fn scan_space_before(s: &[u8], pos: usize, end: usize) -> (r: usize)
    requires
        pos <= end <= s@.len(),
    ensures
        r == space_width_before(s@, pos as int, end as int),
        pos + r <= end,
{
    if pos >= end {
        0
    } else if is_blank_byte(s[end - 1]) {
        1
    } else if end - pos >= 2 && is_narrow_space_bytes(s[end - 2], s[end - 1]) {
        2
    } else if end - pos >= 3 && is_wide_space_bytes(s[end - 3], s[end - 2], s[end - 1]) {
        3
    } else {
        0
    }
}

fn scan_trim_start(s: &[u8], pos: usize, end: usize) -> (r: usize)
    requires
        pos <= end <= s@.len(),
    ensures
        r == trim_start(s@, pos as int, end as int),
        pos <= r <= end,
{
    let mut i: usize = pos;
    loop
        invariant
            pos <= i <= end <= s@.len(),
            trim_start(s@, pos as int, end as int) == trim_start(s@, i as int, end as int),
        decreases end - i,
    {
        let width = scan_space(s, i, end);
        if width == 0 {
            return i;
        }
        i += width;
    }
}

fn scan_trim_end(s: &[u8], pos: usize, end: usize) -> (r: usize)
    requires
        pos <= end <= s@.len(),
    ensures
        r == trim_end(s@, pos as int, end as int),
        pos <= r <= end,
{
    let mut i: usize = end;
    loop
        invariant
            pos <= i <= end <= s@.len(),
            trim_end(s@, pos as int, end as int) == trim_end(s@, pos as int, i as int),
        decreases i - pos,
    {
        let width = scan_space_before(s, pos, i);
        if width == 0 {
            return i;
        }
        i -= width;
    }
}

fn scan_separator(s: &[u8], pos: usize, end: usize) -> (r: Option<usize>)
    requires
        pos <= s@.len(),
        end <= s@.len(),
    ensures
        match r {
            Some(i) => find_separator(s@, pos as int, end as int) == Some(i as int) && pos <= i
                && i + 2 <= end,
            None => find_separator(s@, pos as int, end as int) is None,
        },
{
    let mut i: usize = pos;
    while i < end && end - i >= 2
        invariant
            pos <= i <= s@.len(),
            end <= s@.len(),
            find_separator(s@, pos as int, end as int) == find_separator(
                s@,
                i as int,
                end as int,
            ),
        decreases end - i,
    {
        if s[i] == COLON && s[i + 1] == SPACE {
            return Some(i);
        }
        i += 1;
    }
    None
}

/// Reads the number that the bytes from `pos` up to `end` write.
pub fn scan_length(s: &[u8], pos: usize, end: usize) -> (r: Option<usize>)
    requires
        pos <= end <= s@.len(),
    ensures
        r == parse_length(s@, pos as int, end as int),
{
    let first = if pos < end && s[pos] == PLUS {
        pos + 1
    } else {
        pos
    };
    if first >= end {
        return None;
    }
    let mut v: usize = 0;
    let mut i: usize = first;
    while i < end
        invariant
            first <= i <= end <= s@.len(),
            first == if pos < end && s@[pos as int] == PLUS {
                pos + 1
            } else {
                pos as int
            },
            all_digits(s@, first as int, i as int),
            v == decimal_value(s@.subrange(first as int, i as int)),
        decreases end - i,
    {
        if !is_digit_byte(s[i]) {
            return None;
        }
        let d: usize = (s[i] - 48) as usize;
        proof {
            let upto = s@.subrange(first as int, i + 1);
            assert(upto.drop_last() =~= s@.subrange(first as int, i as int));
        }
        if v > (usize::MAX - d) / 10 {
            proof {
                if all_digits(s@, first as int, end as int) {
                    lemma_decimal_prefix(s@.subrange(first as int, end as int), i + 1 - first);
                    assert(s@.subrange(first as int, end as int).take(i + 1 - first)
                        =~= s@.subrange(first as int, i + 1));
                }
            }
            return None;
        }
        v = v * 10 + d;
        i += 1;
    }
    Some(v)
}

fn to_lower(b: u8) -> (r: u8)
    ensures
        r == lower(b),
{
    if 65 <= b && b <= 90 {
        b + 32
    } else {
        b
    }
}

fn has_word(s: &[u8], pos: usize, end: usize, word: &str) -> (r: bool)
    requires
        pos <= end <= s@.len(),
    ensures
        r == is_word(s@, pos as int, end as int, word.spec_bytes()),
{
    let w = word.as_bytes();
    let ghost lowered = s@.subrange(pos as int, end as int).map_values(|b: u8| lower(b));
    if end - pos != w.len() {
        return false;
    }
    let mut i: usize = 0;
    while i < w.len()
        invariant
            pos + w@.len() == end <= s@.len(),
            w@ == word.spec_bytes(),
            lowered == s@.subrange(pos as int, end as int).map_values(|b: u8| lower(b)),
            i <= w@.len(),
            forall|j: int| 0 <= j < i ==> lowered[j] == w@[j],
        decreases w@.len() - i,
    {
        if to_lower(s[pos + i]) != w[i] {
            return false;
        }
        i += 1;
    }
    assert(lowered =~= w@);
    true
}

/// Reads one line of a header block.
pub fn read_header_line(s: &[u8], pos: usize, end: usize) -> (r: LineOutcome)
    requires
        pos <= end <= s@.len(),
    ensures
        r == header_line(s@, pos as int, end as int),
{
    let a = scan_trim_start(s, pos, end);
    let b = scan_trim_end(s, a, end);
    let i = match scan_separator(s, a, b) {
        Some(i) => i,
        None => {
            return LineOutcome::Invalid;
        },
    };
    if scan_separator(s, i + 2, b).is_some() {
        return LineOutcome::Invalid;
    }
    if has_word(s, a, i, "content-length") {
        match scan_length(s, i + 2, b) {
            Some(n) => LineOutcome::Length(n),
            None => LineOutcome::InvalidLength,
        }
    } else {
        LineOutcome::Other
    }
}

/// Reads the header block that `input` starts with: lines of `Name: value`
/// up to an empty line. Gives the header and the offset at which the
/// content starts.
///
/// Names are read without regard to case. A line whose white space at the
/// ends is left out must hold `: ` exactly once. The block must give a
/// `Content-Length`; where it gives several, the last counts.
pub fn read_header(input: &[u8]) -> (r: Result<(Header, usize), HeaderError>)
    ensures
        match r {
            Ok((h, n)) => header_from(input@, 0, None) == Ok::<(Header, int), HeaderError>(
                (h, n as int),
            ) && n <= input@.len(),
            Err(e) => header_from(input@, 0, None) == Err::<(Header, int), HeaderError>(e),
        },
{
    let mut content_length: Option<usize> = None;
    let mut p: usize = 0;
    loop
        invariant
            p <= input@.len(),
            header_from(input@, 0, None) == header_from(input@, p as int, content_length),
        decreases input@.len() - p,
    {
        if p >= input.len() {
            return Err(HeaderError::NoHeader);
        }
        let e = scan_line(input, p);
        if e - p == 2 && input[p] == CR && input[p + 1] == LF {
            assert(input@.subrange(p as int, e as int) =~= seq![CR, LF]);
            return match content_length {
                Some(n) => Ok((Header { content_length: n }, e)),
                None => Err(HeaderError::NoContentLength),
            };
        }
        assert(input@.subrange(p as int, e as int) != seq![CR, LF]) by {
            let line = input@.subrange(p as int, e as int);
            if line == seq![CR, LF] {
                assert(line.len() == 2);
            }
        }
        match read_header_line(input, p, e) {
            LineOutcome::Invalid => {
                return Err(HeaderError::InvalidHeader);
            },
            LineOutcome::InvalidLength => {
                return Err(HeaderError::InvalidLength);
            },
            LineOutcome::Other => {},
            LineOutcome::Length(n) => {
                content_length = Some(n);
            },
        }
        p = e;
    }
}

/// The header block that stands before a message of `length` bytes: its
/// `Content-Length` and the empty line.
pub open spec fn written_header(length: nat) -> Seq<char> {
    "Content-Length: "@ + decimal_chars(length) + "\r\n\r\n"@
}

/// Writes the header block that stands before a message of `length` bytes.
pub fn write_header(length: usize) -> (r: String)
    ensures
        r@ == written_header(length as nat),
{
    String::from_str("Content-Length: ").concat(decimal_string(length as u64).as_str()).concat(
        "\r\n\r\n",
    )
}

/// A line that has its first line feed at `e` ends just past `e`.
proof fn lemma_line_end(s: Seq<u8>, p: int, e: int)
    requires
        0 <= p <= e < s.len(),
        forall|j: int| p <= j < e ==> s[j] != LF,
        s[e] == LF,
    ensures
        line_end(s, p) == e + 1,
    decreases e - p,
{
    if p < e {
        lemma_line_end(s, p + 1, e);
    }
}

/// Where no colon stands, no separator is found.
proof fn lemma_no_separator(s: Seq<u8>, p: int, e: int)
    requires
        0 <= p,
        e <= s.len(),
        forall|j: int| p <= j < e ==> s[j] != COLON,
    ensures
        find_separator(s, p, e) is None,
    decreases e - p,
{
    if p + 2 <= e {
        lemma_no_separator(s, p + 1, e);
    }
}

/// The separator is found at the first colon, where a space follows it.
proof fn lemma_separator(s: Seq<u8>, p: int, e: int, i: int)
    requires
        0 <= p <= i,
        i + 2 <= e <= s.len(),
        s[i] == COLON,
        s[i + 1] == SPACE,
        forall|j: int| p <= j < i ==> s[j] != COLON,
    ensures
        find_separator(s, p, e) == Some(i),
    decreases i - p,
{
    if p < i {
        lemma_separator(s, p + 1, e, i);
    }
}

/// The digits that write `n` are digits, at least one, and write `n`.
proof fn lemma_decimal_chars(n: nat)
    ensures
        decimal_chars(n).len() >= 1,
        forall|i: int|
            0 <= i < decimal_chars(n).len() ==> 48 <= #[trigger] decimal_chars(n)[i] as int <= 57,
        decimal_value(decimal_chars(n).map_values(|c: char| c as u8)) == n,
    decreases n,
{
    let digits = decimal_chars(n).map_values(|c: char| c as u8);
    if n < 10 {
        assert(digits.drop_last() =~= Seq::<u8>::empty());
        assert(decimal_value(digits.drop_last()) == 0);
    } else {
        lemma_decimal_chars(n / 10);
        let front = decimal_chars(n / 10).map_values(|c: char| c as u8);
        assert(digits.drop_last() =~= front);
    }
}

/// What `write_header` writes, `read_header` reads: the header block that
/// is written for a length gives that length back, whatever follows it,
/// and the content starts right after the block.
pub proof fn lemma_written_header_is_read(length: usize, content: Seq<u8>)
    ensures
        header_from(encode_utf8(written_header(length as nat)) + content, 0, None) == Ok::<
            (Header, int),
            HeaderError,
        >((Header { content_length: length }, written_header(length as nat).len() as int)),
{
    reveal_strlit("Content-Length: ");
    reveal_strlit("content-length");
    reveal_strlit("\r\n\r\n");
    let name = "Content-Length: "@;
    let digits = decimal_chars(length as nat);
    let chars = written_header(length as nat);
    let k = digits.len() as int;
    lemma_decimal_chars(length as nat);
    assert(is_ascii_chars(chars)) by {
        assert forall|i: int| 0 <= i < chars.len() implies '\0' <= #[trigger] chars[i]
            <= '\u{7f}' by {
            if 16 <= i < 16 + k {
                assert(chars[i] == digits[i - 16]);
            }
        }
    }
    is_ascii_chars_encode_utf8(chars);
    assert(is_ascii_chars("content-length"@));
    is_ascii_chars_encode_utf8("content-length"@);
    let header = encode_utf8(chars);
    let s = header + content;
    let e = 16 + k + 2;
    assert forall|j: int| 0 <= j < 16 + k + 4 implies s[j] == chars[j] as u8 by {
        assert(s[j] == header[j]);
    }
    assert forall|j: int| 16 <= j < 16 + k implies is_digit(#[trigger] s[j]) by {
        assert(chars[j] == digits[j - 16]);
    }
    assert(s[16 + k] == CR && s[16 + k + 1] == LF && s[16 + k + 2] == CR && s[16 + k + 3] == LF)
        by {
        assert(chars[16 + k] == "\r\n\r\n"@[0]);
        assert(chars[16 + k + 1] == "\r\n\r\n"@[1]);
        assert(chars[16 + k + 2] == "\r\n\r\n"@[2]);
        assert(chars[16 + k + 3] == "\r\n\r\n"@[3]);
    }
    assert forall|j: int| 0 <= j < 16 implies s[j] == name[j] as u8 by {
        assert(chars[j] == name[j]);
    }
    // The first line is the `Content-Length`.
    lemma_line_end(s, 0, 16 + k + 1);
    assert(s.subrange(0, e) != seq![CR, LF]) by {
        assert(s.subrange(0, e).len() == e);
    }
    assert(trim_start(s, 0, e) == 0);
    assert(trim_end(s, 0, e) == 16 + k) by {
        assert(space_width_before(s, 0, e) == 1);
        assert(space_width_before(s, 0, e - 1) == 1);
        assert(space_width_before(s, 0, e - 2) == 0);
        assert(trim_end(s, 0, e - 2) == e - 2);
        assert(trim_end(s, 0, e - 1) == e - 2);
    }
    lemma_separator(s, 0, 16 + k, 14);
    lemma_no_separator(s, 16, 16 + k);
    assert(is_word(s, 0, 14, "content-length".spec_bytes())) by {
        let lowered = s.subrange(0, 14).map_values(|b: u8| lower(b));
        let word = "content-length".spec_bytes();
        assert(lowered =~= word);
    }
    assert(parse_length(s, 16, 16 + k) == Some(length)) by {
        assert(s.subrange(16, 16 + k) =~= digits.map_values(|c: char| c as u8)) by {
            assert forall|j: int| 0 <= j < k implies s.subrange(16, 16 + k)[j] == digits[j] as u8 by {
                assert(chars[16 + j] == digits[j]);
            }
        }
    }
    assert(header_line(s, 0, e) == LineOutcome::Length(length));
    // The second line is empty.
    lemma_line_end(s, e, e + 1);
    assert(s.subrange(e, e + 2) =~= seq![CR, LF]);
    assert(header_from(s, e, Some(length)) == Ok::<(Header, int), HeaderError>(
        (Header { content_length: length }, e + 2),
    ));
}

} // verus!
