//! The Content-Length wire framing (the convention the Language Server
//! Protocol uses): a message is a header block `Content-Length: <n>\r\n\r\n`
//! followed by exactly `n` bytes of body.

use vstd::prelude::*;
use vstd::string::*;
use vstd::utf8::{encode_utf8, is_ascii_chars, is_ascii_chars_encode_utf8};
use vstd::arithmetic::div_mod::lemma_fundamental_div_mod;
use crate::text::{dec_digits, digit_char, u64_to_string, lemma_dec_digits_ascii};

verus! {

/// The characters of the header block that declares a body of `len` bytes.
pub open spec fn frame_header(len: nat) -> Seq<char> {
    "Content-Length: "@ + dec_digits(len) + "\r\n\r\n"@
}

/// The same header, as the bytes that go on the wire (the header is ASCII).
pub open spec fn frame_header_bytes(len: nat) -> Seq<u8> {
    encode_utf8(frame_header(len))
}

/// A whole framed message: the header declaring the body's exact byte
/// length, then the body itself, with no trailing delimiter.
pub open spec fn framed(body: Seq<u8>) -> Seq<u8> {
    frame_header_bytes(body.len()) + body
}

/// The header block is pure ASCII, so its bytes are its characters.
pub proof fn lemma_frame_header_ascii(len: nat)
    ensures
        is_ascii_chars(frame_header(len)),
        frame_header_bytes(len).len() == frame_header(len).len(),
        forall|i: int|
            0 <= i < frame_header(len).len() ==> frame_header_bytes(len)[i] == (
            #[trigger] frame_header(len)[i]) as u8,
{
    reveal_strlit("Content-Length: ");
    reveal_strlit("\r\n\r\n");
    lemma_dec_digits_ascii(len);
    assert(is_ascii_chars(frame_header(len)));
    is_ascii_chars_encode_utf8(frame_header(len));
}

/// Frames a serialized message body for the wire. The declared length is the
/// exact byte length of the body (not its character count).
pub fn encode_message(content: &str) -> (r: Vec<u8>)
    ensures
        r@ == framed(content.spec_bytes()),
{
    let mut body = content.as_bytes_vec();
    let len_str = u64_to_string(body.len() as u64);
    let mut header = String::from_str("Content-Length: ");
    header.append(len_str.as_str());
    header.append("\r\n\r\n");
    proof {
        assert(header@ =~= frame_header(content.spec_bytes().len()));
    }
    let mut out = header.as_str().as_bytes_vec();
    out.append(&mut body);
    proof {
        assert(out@ =~= framed(content.spec_bytes()));
    }
    out
}

// ---------------------------------------------------------------------------
// Decoding: reading a framed message back from a prefix of the byte stream.
// ---------------------------------------------------------------------------

/// Why a read attempt failed for good (more input cannot help).
#[derive(Clone, Copy, PartialEq, Eq, Structural, Debug)]
pub enum FrameError {
    /// The stream closed before the header block's terminating blank line.
    ConnectionClosed,
    /// The header block ended without any Content-Length header.
    MissingContentLength,
    /// A Content-Length header whose value is not a plain decimal number
    /// that fits in a machine word.
    InvalidContentLength,
    /// The stream closed before the declared body had fully arrived.
    BodyClosed,
}

/// The outcome of trying to read one framed message from the input gathered
/// so far. `eof` in the functions below says whether the stream has ended,
/// that is, whether the input is all there will ever be.
pub enum DecodeStep {
    /// A complete message: its body, and how many input bytes the message
    /// (header and body) occupied. Later bytes belong to the next message.
    Message { body: Vec<u8>, consumed: usize },
    /// The input so far is a prefix of a well-formed frame; more is needed.
    Incomplete,
    Fail(FrameError),
}

/// ASCII whitespace, the characters a header line is trimmed of.
pub open spec fn is_space_byte(b: u8) -> bool {
    b == 32 || (9 <= b && b <= 13)
}

pub open spec fn is_digit_byte(b: u8) -> bool {
    48 <= b <= 57
}

/// Index of the first non-whitespace byte at or after `i`, or the length.
pub open spec fn first_non_space(s: Seq<u8>, i: int) -> int
    decreases s.len() - i when 0 <= i <= s.len()
{
    if i >= s.len() {
        i
    } else if is_space_byte(s[i]) {
        first_non_space(s, i + 1)
    } else {
        i
    }
}

/// One past the last non-whitespace byte, or 0 if there is none.
pub open spec fn after_last_non_space(s: Seq<u8>) -> int
    decreases s.len(),
{
    if s.len() == 0 {
        0
    } else if is_space_byte(s.last()) {
        after_last_non_space(s.drop_last())
    } else {
        s.len() as int
    }
}

/// The sequence with leading and trailing whitespace dropped.
pub open spec fn trim_spaces(s: Seq<u8>) -> Seq<u8> {
    let t = s.subrange(first_non_space(s, 0), s.len() as int);
    t.subrange(0, after_last_non_space(t))
}

/// A line that is empty once trimmed; such a line ends the header block.
pub open spec fn blank_line(line: Seq<u8>) -> bool {
    forall|i: int| 0 <= i < line.len() ==> is_space_byte(#[trigger] line[i])
}

pub open spec fn all_digits(s: Seq<u8>) -> bool {
    forall|i: int| 0 <= i < s.len() ==> is_digit_byte(#[trigger] s[i])
}

/// The value of a decimal digit string, most significant digit first.
pub open spec fn dec_value(s: Seq<u8>) -> nat
    decreases s.len(),
{
    if s.len() == 0 {
        0
    } else {
        dec_value(s.drop_last()) * 10 + (s.last() - 48) as nat
    }
}

/// The bytes of the header name this framing recognizes (case-sensitive).
pub open spec fn cl_prefix() -> Seq<u8> {
    encode_utf8("Content-Length:"@)
}

/// What a single header line means.
pub enum LineKind {
    Blank,
    /// A Content-Length line; None stands for a malformed value.
    Length(Option<nat>),
    /// Any other header line; such lines are ignored.
    Other,
}

pub open spec fn line_kind(line: Seq<u8>) -> LineKind {
    if blank_line(line) {
        LineKind::Blank
    } else {
        let t = line.subrange(first_non_space(line, 0), line.len() as int);
        if t.len() >= 15 && t.subrange(0, 15) == cl_prefix() {
            let v = trim_spaces(t.subrange(15, t.len() as int));
            if v.len() > 0 && all_digits(v) && dec_value(v) <= usize::MAX as nat {
                LineKind::Length(Some(dec_value(v)))
            } else {
                LineKind::Length(None)
            }
        } else {
            LineKind::Other
        }
    }
}

/// Index of the first occurrence of `b` at or after `i`, if any.
pub open spec fn find_byte(s: Seq<u8>, i: int, b: u8) -> Option<int>
    decreases s.len() - i when 0 <= i <= s.len()
{
    if i >= s.len() {
        None
    } else if s[i] == b {
        Some(i)
    } else {
        find_byte(s, i + 1, b)
    }
}

pub proof fn lemma_find_byte(s: Seq<u8>, i: int, b: u8)
    requires
        0 <= i <= s.len(),
    ensures
        match find_byte(s, i, b) {
            Some(j) => i <= j < s.len() && s[j] == b && (forall|k: int|
                i <= k < j ==> s[k] != b),
            None => forall|k: int| i <= k < s.len() ==> s[k] != b,
        },
    decreases s.len() - i,
{
    if i < s.len() && s[i] != b {
        lemma_find_byte(s, i + 1, b);
    }
}

/// The result of walking the header block, line by line.
pub enum HeaderScan {
    /// The blank line was seen: the body begins at `start`, and `len` is the
    /// last declared Content-Length, if any line declared one.
    Body { start: int, len: Option<nat> },
    /// No blank line yet, and the stream is still open.
    More,
    /// The stream closed before the blank line.
    Closed,
    /// A Content-Length line with a malformed value.
    BadLength,
}

/// Reads header lines from `pos` on, as a line-by-line reader would: each
/// line runs to a newline (tolerating the carriage return that precedes it);
/// a trimmed-empty line ends the block; a Content-Length line (after any
/// leading whitespace) sets the declared length, the last one winning; other
/// lines are ignored. At end of input, a closed stream means the final
/// partial line is still processed once, and then the read fails.
pub open spec fn scan_headers(s: Seq<u8>, eof: bool, pos: int, len: Option<nat>) -> HeaderScan
    decreases s.len() - pos when 0 <= pos <= s.len() via scan_headers_decreases
{
    match find_byte(s, pos, 10) {
        Some(nl) => {
            let line = s.subrange(pos, nl);
            match line_kind(line) {
                LineKind::Blank => HeaderScan::Body { start: nl + 1, len },
                LineKind::Length(v) => match v {
                    Some(n) => scan_headers(s, eof, nl + 1, Some(n)),
                    None => HeaderScan::BadLength,
                },
                LineKind::Other => scan_headers(s, eof, nl + 1, len),
            }
        },
        None => {
            if !eof {
                HeaderScan::More
            } else if pos >= s.len() {
                HeaderScan::Closed
            } else {
                let line = s.subrange(pos, s.len() as int);
                match line_kind(line) {
                    LineKind::Blank => HeaderScan::Body { start: s.len() as int, len },
                    LineKind::Length(v) => match v {
                        Some(_) => HeaderScan::Closed,
                        None => HeaderScan::BadLength,
                    },
                    LineKind::Other => HeaderScan::Closed,
                }
            }
        },
    }
}

#[via_fn]
proof fn scan_headers_decreases(s: Seq<u8>, eof: bool, pos: int, len: Option<nat>) {
    lemma_find_byte(s, pos, 10);
}

/// The meaning of the input gathered so far, as a whole.
pub enum FrameStep {
    Msg { body: Seq<u8>, used: int },
    More,
    Bad(FrameError),
}

/// What reading one framed message from `s` yields. After the header block,
/// exactly the declared number of body bytes is taken; a declared length of
/// zero still stands for an exact, empty read.
pub open spec fn spec_decode(s: Seq<u8>, eof: bool) -> FrameStep {
    match scan_headers(s, eof, 0, None) {
        HeaderScan::More => FrameStep::More,
        HeaderScan::Closed => FrameStep::Bad(FrameError::ConnectionClosed),
        HeaderScan::BadLength => FrameStep::Bad(FrameError::InvalidContentLength),
        HeaderScan::Body { start, len } => match len {
            None => FrameStep::Bad(FrameError::MissingContentLength),
            Some(n) => {
                if start + n <= s.len() {
                    FrameStep::Msg { body: s.subrange(start, start + n), used: start + n }
                } else if eof {
                    FrameStep::Bad(FrameError::BodyClosed)
                } else {
                    FrameStep::More
                }
            },
        },
    }
}

// ---------------------------------------------------------------------------
// Executable decoding helpers.
// ---------------------------------------------------------------------------

proof fn lemma_first_non_space_char(s: Seq<u8>, i: int, j: int)
    requires
        0 <= i <= j <= s.len(),
        forall|k: int| i <= k < j ==> is_space_byte(#[trigger] s[k]),
        j < s.len() ==> !is_space_byte(s[j as int]),
    ensures
        first_non_space(s, i) == j,
    decreases j - i,
{
    if i < j {
        lemma_first_non_space_char(s, i + 1, j);
    }
}

proof fn lemma_after_last_char(s: Seq<u8>, j: int)
    requires
        0 <= j <= s.len(),
        forall|k: int| j <= k < s.len() ==> is_space_byte(#[trigger] s[k]),
        j > 0 ==> !is_space_byte(s[j - 1]),
    ensures
        after_last_non_space(s) == j,
    decreases s.len(),
{
    if s.len() > 0 && is_space_byte(s.last()) {
        lemma_after_last_char(s.drop_last(), j);
    }
}

/// If a prefix already exceeds the largest machine word, so does the whole.
proof fn lemma_dec_value_prefix_le(s: Seq<u8>, j: int)
    requires
        0 <= j <= s.len(),
    ensures
        dec_value(s.take(j)) <= dec_value(s),
    decreases s.len() - j,
{
    if j < s.len() {
        lemma_dec_value_prefix_le(s, j + 1);
        assert(s.take(j + 1).drop_last() =~= s.take(j));
        assert(dec_value(s.take(j + 1)) == dec_value(s.take(j)) * 10 + (s.take(j + 1).last()
            - 48) as nat);
        assert(dec_value(s.take(j)) <= dec_value(s.take(j)) * 10) by (nonlinear_arith);
    }
    assert(s.take(s.len() as int) =~= s);
}

fn is_space(b: u8) -> (r: bool)
    ensures
        r == is_space_byte(b),
{
    b == 32 || (9 <= b && b <= 13)
}

fn find_newline(input: &Vec<u8>, from: usize) -> (r: Option<usize>)
    requires
        from <= input.len(),
    ensures
        match r {
            Some(j) => from <= j < input.len() && find_byte(input@, from as int, 10) == Some(
                j as int,
            ),
            None => find_byte(input@, from as int, 10) is None,
        },
{
    let mut i = from;
    while i < input.len()
        invariant
            from <= i <= input.len(),
            find_byte(input@, from as int, 10) == find_byte(input@, i as int, 10),
        decreases input.len() - i,
    {
        if input[i] == 10 {
            return Some(i);
        }
        i = i + 1;
    }
    None
}

/// Parses the decimal digit run `input[from..to]`; `None` means the value
/// does not fit in a machine word.
fn parse_decimal(input: &Vec<u8>, from: usize, to: usize) -> (r: Option<usize>)
    requires
        from < to <= input.len(),
        all_digits(input@.subrange(from as int, to as int)),
    ensures
        match r {
            Some(v) => v as nat == dec_value(input@.subrange(from as int, to as int)),
            None => dec_value(input@.subrange(from as int, to as int)) > usize::MAX as nat,
        },
{
    let ghost v = input@.subrange(from as int, to as int);
    let mut acc: usize = 0;
    let mut j = from;
    while j < to
        invariant
            from <= j <= to <= input.len(),
            v == input@.subrange(from as int, to as int),
            all_digits(v),
            acc as nat == dec_value(v.take(j - from)),
        decreases to - j,
    {
        let d = input[j];
        assert(v[j - from] == d);
        assert(is_digit_byte(d));
        let dv = (d - 48) as usize;
        proof {
            assert(v.take(j - from + 1).drop_last() =~= v.take(j - from));
            assert(dec_value(v.take(j - from + 1)) == dec_value(v.take(j - from)) * 10 + dv);
        }
        let limit = (usize::MAX - dv) / 10;
        if acc > limit {
            proof {
                lemma_fundamental_div_mod((usize::MAX - dv) as int, 10);
                assert(acc as int * 10 >= (limit + 1) * 10) by (nonlinear_arith)
                    requires acc as int >= limit as int + 1;
                assert(acc as nat * 10 + dv > usize::MAX as nat);
                lemma_dec_value_prefix_le(v, j - from + 1);
            }
            return None;
        }
        proof {
            lemma_fundamental_div_mod((usize::MAX - dv) as int, 10);
            assert(acc as int * 10 <= limit as int * 10) by (nonlinear_arith)
                requires acc as int <= limit as int;
        }
        acc = acc * 10 + dv;
        j = j + 1;
    }
    proof {
        assert(v.take(to - from) =~= v);
    }
    Some(acc)
}

fn cl_prefix_bytes() -> (r: Vec<u8>)
    ensures
        r@ == cl_prefix(),
        r@.len() == 15,
{
    let v = "Content-Length:".as_bytes_vec();
    proof {
        reveal_strlit("Content-Length:");
        assert(is_ascii_chars("Content-Length:"@));
        is_ascii_chars_encode_utf8("Content-Length:"@);
    }
    v
}

enum LineClass {
    Blank,
    LengthVal(usize),
    LengthBad,
    Other,
}

#[verifier::loop_isolation(false)]
fn classify_line(input: &Vec<u8>, from: usize, to: usize) -> (r: LineClass)
    requires
        from <= to <= input.len(),
    ensures
        ({
            let line = input@.subrange(from as int, to as int);
            match r {
                LineClass::Blank => line_kind(line) == LineKind::Blank,
                LineClass::LengthVal(n) => line_kind(line) == LineKind::Length(Some(n as nat)),
                LineClass::LengthBad => line_kind(line) == LineKind::Length(None),
                LineClass::Other => line_kind(line) == LineKind::Other,
            }
        }),
{
    let ghost line = input@.subrange(from as int, to as int);
    let mut i = from;
    while i < to && is_space(input[i])
        invariant
            from <= i <= to <= input.len(),
            forall|k: int| from <= k < i ==> is_space_byte(#[trigger] input@[k]),
        decreases to - i,
    {
        i = i + 1;
    }
    proof {
        lemma_first_non_space_char(line, 0, i - from);
    }
    if i == to {
        proof {
            assert(blank_line(line));
        }
        return LineClass::Blank;
    }
    proof {
        assert(!is_space_byte(line[i - from]));
        assert(!blank_line(line));
    }
    let ghost t = line.subrange((i - from) as int, line.len() as int);
    proof {
        assert(t =~= input@.subrange(i as int, to as int));
    }
    if to - i < 15 {
        return LineClass::Other;
    }
    let prefix = cl_prefix_bytes();
    let mut k: usize = 0;
    while k < 15
        invariant
            0 <= k <= 15,
            from <= i,
            i + 15 <= to <= input.len(),
            prefix@ == cl_prefix(),
            prefix@.len() == 15,
            t == input@.subrange(i as int, to as int),
            forall|m: int| 0 <= m < k ==> t[m] == cl_prefix()[m],
        decreases 15 - k,
    {
        if input[i + k] != prefix[k] {
            proof {
                assert(t[k as int] == input@[i + k]);
                assert(t.subrange(0, 15) != cl_prefix()) by {
                    assert(t.subrange(0, 15)[k as int] == t[k as int]);
                }
            }
            return LineClass::Other;
        }
        k = k + 1;
    }
    proof {
        assert(t.subrange(0, 15) =~= cl_prefix());
    }
    let vstart0 = i + 15;
    let ghost tail = t.subrange(15, t.len() as int);
    proof {
        assert(tail =~= input@.subrange(vstart0 as int, to as int));
    }
    let mut vs = vstart0;
    while vs < to && is_space(input[vs])
        invariant
            vstart0 <= vs <= to <= input.len(),
            forall|k2: int| vstart0 <= k2 < vs ==> is_space_byte(#[trigger] input@[k2]),
        decreases to - vs,
    {
        vs = vs + 1;
    }
    proof {
        lemma_first_non_space_char(tail, 0, vs - vstart0);
    }
    let ghost t2 = tail.subrange((vs - vstart0) as int, tail.len() as int);
    proof {
        assert(t2 =~= input@.subrange(vs as int, to as int));
    }
    if vs == to {
        proof {
            lemma_after_last_char(t2, 0);
            assert(trim_spaces(tail).len() == 0);
        }
        return LineClass::LengthBad;
    }
    let mut ve = to;
    while ve > vs && is_space(input[ve - 1])
        invariant
            vs <= ve <= to <= input.len(),
            forall|k2: int| ve <= k2 < to ==> is_space_byte(#[trigger] input@[k2]),
        decreases ve,
    {
        ve = ve - 1;
    }
    proof {
        assert(!is_space_byte(input@[vs as int]));
        assert(ve > vs);
        lemma_after_last_char(t2, ve - vs);
        assert(trim_spaces(tail) =~= input@.subrange(vs as int, ve as int));
    }
    let ghost v = input@.subrange(vs as int, ve as int);
    let mut j = vs;
    while j < ve
        invariant
            vs <= j <= ve <= input.len(),
            v == input@.subrange(vs as int, ve as int),
            forall|k2: int| vs <= k2 < j ==> is_digit_byte(#[trigger] input@[k2]),
        decreases ve - j,
    {
        let d = input[j];
        if d < 48 || d > 57 {
            proof {
                assert(!is_digit_byte(v[j - vs]));
                assert(!all_digits(v));
            }
            return LineClass::LengthBad;
        }
        j = j + 1;
    }
    proof {
        assert(all_digits(v));
    }
    match parse_decimal(input, vs, ve) {
        Some(n) => LineClass::LengthVal(n),
        None => LineClass::LengthBad,
    }
}

pub open spec fn opt_nat(o: Option<usize>) -> Option<nat> {
    match o {
        Some(n) => Some(n as nat),
        None => None,
    }
}

enum HeaderOutcome {
    Body { start: usize, len: Option<usize> },
    More,
    Closed,
    BadLength,
}

fn scan_from(input: &Vec<u8>, eof: bool, pos: usize, declared: Option<usize>) -> (r: HeaderOutcome)
    requires
        pos <= input.len(),
    ensures
        match r {
            HeaderOutcome::Body { start, len } => start <= input.len() && scan_headers(
                input@,
                eof,
                pos as int,
                opt_nat(declared),
            ) == (HeaderScan::Body { start: start as int, len: opt_nat(len) }),
            HeaderOutcome::More => scan_headers(input@, eof, pos as int, opt_nat(declared))
                == HeaderScan::More,
            HeaderOutcome::Closed => scan_headers(input@, eof, pos as int, opt_nat(declared))
                == HeaderScan::Closed,
            HeaderOutcome::BadLength => scan_headers(input@, eof, pos as int, opt_nat(declared))
                == HeaderScan::BadLength,
        },
    decreases input.len() - pos,
{
    match find_newline(input, pos) {
        Some(nl) => {
            match classify_line(input, pos, nl) {
                LineClass::Blank => HeaderOutcome::Body { start: nl + 1, len: declared },
                LineClass::LengthVal(n) => scan_from(input, eof, nl + 1, Some(n)),
                LineClass::LengthBad => HeaderOutcome::BadLength,
                LineClass::Other => scan_from(input, eof, nl + 1, declared),
            }
        },
        None => {
            if !eof {
                HeaderOutcome::More
            } else if pos == input.len() {
                HeaderOutcome::Closed
            } else {
                match classify_line(input, pos, input.len()) {
                    LineClass::Blank => HeaderOutcome::Body { start: input.len(), len: declared },
                    LineClass::LengthVal(_) => HeaderOutcome::Closed,
                    LineClass::LengthBad => HeaderOutcome::BadLength,
                    LineClass::Other => HeaderOutcome::Closed,
                }
            }
        },
    }
}

fn copy_range(input: &Vec<u8>, from: usize, to: usize) -> (r: Vec<u8>)
    requires
        from <= to <= input.len(),
    ensures
        r@ == input@.subrange(from as int, to as int),
{
    let mut out: Vec<u8> = Vec::new();
    let mut j = from;
    while j < to
        invariant
            from <= j <= to <= input.len(),
            out@ == input@.subrange(from as int, j as int),
        decreases to - j,
    {
        out.push(input[j]);
        proof {
            assert(out@ =~= input@.subrange(from as int, (j + 1) as int));
        }
        j = j + 1;
    }
    out
}

/// Tries to read one framed message from the input gathered so far; `eof`
/// says whether the stream has ended. The outcome is exactly what
/// `spec_decode` says of the input.
pub fn decode_message(input: &Vec<u8>, eof: bool) -> (r: DecodeStep)
    ensures
        match r {
            DecodeStep::Message { body, consumed } => spec_decode(input@, eof) == (FrameStep::Msg {
                body: body@,
                used: consumed as int,
            }),
            DecodeStep::Incomplete => spec_decode(input@, eof) == FrameStep::More,
            DecodeStep::Fail(e) => spec_decode(input@, eof) == FrameStep::Bad(e),
        },
{
    match scan_from(input, eof, 0, None) {
        HeaderOutcome::More => DecodeStep::Incomplete,
        HeaderOutcome::Closed => DecodeStep::Fail(FrameError::ConnectionClosed),
        HeaderOutcome::BadLength => DecodeStep::Fail(FrameError::InvalidContentLength),
        HeaderOutcome::Body { start, len } => {
            match len {
                None => DecodeStep::Fail(FrameError::MissingContentLength),
                Some(n) => {
                    if n <= input.len() - start {
                        let body = copy_range(input, start, start + n);
                        DecodeStep::Message { body, consumed: start + n }
                    } else if eof {
                        DecodeStep::Fail(FrameError::BodyClosed)
                    } else {
                        DecodeStep::Incomplete
                    }
                },
            }
        },
    }
}

// ---------------------------------------------------------------------------
// Laws of the framing.
// ---------------------------------------------------------------------------

proof fn lemma_find_byte_unique(s: Seq<u8>, i: int, b: u8, j: int)
    requires
        0 <= i <= j < s.len(),
        s[j] == b,
        forall|k: int| i <= k < j ==> s[k] != b,
    ensures
        find_byte(s, i, b) == Some(j),
{
    lemma_find_byte(s, i, b);
    match find_byte(s, i, b) {
        Some(m) => {
            if m < j {
                assert(s[m] == b);
            }
            if m > j {
                assert(s[j] != b);
            }
        },
        None => {
            assert(s[j] != b);
        },
    }
}

proof fn lemma_digit_char_byte(m: nat)
    requires
        m < 10,
    ensures
        digit_char(m) as u8 == 48 + m,
{
}

/// The decimal digits of `n`, as bytes.
pub open spec fn dec_digit_bytes(n: nat) -> Seq<u8> {
    Seq::new(dec_digits(n).len(), |i: int| dec_digits(n)[i] as u8)
}

/// Rendering a number in decimal and reading the digits back yields the
/// number itself.
pub proof fn lemma_dec_value_digits(n: nat)
    ensures
        all_digits(dec_digit_bytes(n)),
        dec_value(dec_digit_bytes(n)) == n,
    decreases n,
{
    lemma_dec_digits_ascii(n);
    assert forall|i: int| 0 <= i < dec_digit_bytes(n).len() implies is_digit_byte(
        #[trigger] dec_digit_bytes(n)[i],
    ) by {
        assert('0' <= dec_digits(n)[i] <= '9');
    }
    if n < 10 {
        lemma_digit_char_byte(n);
        assert(dec_digit_bytes(n) =~= seq![(48 + n) as u8]);
        assert(dec_value(seq![(48 + n) as u8].drop_last()) == 0);
    } else {
        lemma_dec_value_digits(n / 10);
        lemma_digit_char_byte(n % 10);
        assert(dec_digit_bytes(n).drop_last() =~= dec_digit_bytes(n / 10));
        assert(dec_digit_bytes(n).last() == (48 + n % 10) as u8);
        assert(dec_value(dec_digit_bytes(n)) == dec_value(dec_digit_bytes(n / 10)) * 10 + n % 10);
        lemma_fundamental_div_mod(n as int, 10);
    }
}

/// Everything the proofs below need about the bytes of the header block.
proof fn lemma_header_bytes_facts(n: nat)
    ensures
        ({
            let hb = frame_header_bytes(n);
            let d = dec_digits(n).len() as int;
            &&& hb.len() == 20 + d
            &&& (forall|i: int| 0 <= i < 15 ==> hb[i] == #[trigger] cl_prefix()[i])
            &&& cl_prefix().len() == 15
            &&& hb[0] == 67
            &&& hb[15] == 32
            &&& (forall|i: int| 0 <= i < d ==> hb[16 + i] == #[trigger] dec_digit_bytes(n)[i])
            &&& hb[16 + d] == 13
            &&& hb[17 + d] == 10
            &&& hb[18 + d] == 13
            &&& hb[19 + d] == 10
            &&& (forall|i: int| 0 <= i < 17 + d && i != 16 + d + 1 ==> #[trigger] hb[i] != 10)
        }),
{
    let h = frame_header(n);
    let hb = frame_header_bytes(n);
    let d = dec_digits(n).len() as int;
    reveal_strlit("Content-Length: ");
    reveal_strlit("Content-Length:");
    reveal_strlit("\r\n\r\n");
    lemma_dec_digits_ascii(n);
    lemma_frame_header_ascii(n);
    assert(h.len() == 20 + d);
    assert(is_ascii_chars("Content-Length:"@));
    is_ascii_chars_encode_utf8("Content-Length:"@);
    assert forall|i: int| 0 <= i < 15 implies hb[i] == #[trigger] cl_prefix()[i] by {
        assert(h[i] == "Content-Length: "@[i]);
        assert(cl_prefix()[i] == "Content-Length:"@[i] as u8);
    }
    assert forall|i: int| 0 <= i < d implies hb[16 + i] == #[trigger] dec_digit_bytes(n)[i] by {
        assert(h[16 + i] == dec_digits(n)[i]);
    }
    assert forall|i: int| 0 <= i < 17 + d && i != 16 + d + 1 implies #[trigger] hb[i] != 10 by {
        if i < 16 {
            assert(h[i] == "Content-Length: "@[i]);
        } else if i < 16 + d {
            assert(h[i] == dec_digits(n)[i - 16]);
            assert('0' <= h[i] <= '9');
        } else {
            assert(h[i] == '\r');
        }
    }
    assert(hb.len() == 20 + d);
    assert(cl_prefix().len() == 15);
    assert(h[0] == 'C');
    assert(h[15] == ' ');
    assert(h[16 + d] == "\r\n\r\n"@[0] && h[16 + d] == '\r');
    assert(h[17 + d] == "\r\n\r\n"@[1] && h[17 + d] == '\n');
    assert(h[18 + d] == "\r\n\r\n"@[2] && h[18 + d] == '\r');
    assert(h[19 + d] == "\r\n\r\n"@[3] && h[19 + d] == '\n');
    assert(hb[0] == 67);
    assert(hb[15] == 32);
    assert(hb[16 + d] == 13);
    assert(hb[17 + d] == 10);
    assert(hb[18 + d] == 13);
    assert(hb[19 + d] == 10);
}

/// Framing round-trip: decoding an encoded message yields exactly the
/// original body, however the body reads (empty, or containing header-like
/// byte runs), whatever follows on the stream, and whether or not the stream
/// has closed. The whole frame, and nothing more, is consumed.
pub proof fn lemma_decode_encode(body: Seq<u8>, rest: Seq<u8>, eof: bool)
    requires
        body.len() <= usize::MAX,
    ensures
        spec_decode(framed(body) + rest, eof) == (FrameStep::Msg {
            body,
            used: framed(body).len() as int,
        }),
{
    let n = body.len();
    let hb = frame_header_bytes(n);
    let d = dec_digits(n).len() as int;
    let s = framed(body) + rest;
    lemma_header_bytes_facts(n);
    lemma_dec_digits_ascii(n);
    lemma_dec_value_digits(n);
    assert(forall|i: int| 0 <= i < hb.len() ==> s[i] == hb[i]);
    assert forall|i: int| 0 <= i < d implies is_digit_byte(#[trigger] s[16 + i]) && s[16 + i]
        == dec_digit_bytes(n)[i] by {
        assert(hb[16 + i] == dec_digit_bytes(n)[i]);
        assert(is_digit_byte(dec_digit_bytes(n)[i]));
    }
    // The first line runs up to the newline after the digits.
    let l1 = 17 + d;
    lemma_find_byte_unique(s, 0, 10, l1);
    let line = s.subrange(0, l1);
    assert(line.len() == 17 + d);
    // It is a well-formed Content-Length line declaring exactly n.
    assert(!is_space_byte(line[0]));
    assert(!blank_line(line));
    lemma_first_non_space_char(line, 0, 0);
    let t = line.subrange(first_non_space(line, 0), line.len() as int);
    assert(t =~= line);
    assert(t.subrange(0, 15) =~= cl_prefix());
    let tail = t.subrange(15, t.len() as int);
    assert(tail.len() == 2 + d);
    assert(is_space_byte(tail[0]));
    assert(tail[1] == s[16int]);
    assert(is_digit_byte(tail[1]));
    lemma_first_non_space_char(tail, 0, 1);
    let t2 = tail.subrange(1, tail.len() as int);
    assert(t2.len() == 1 + d);
    assert(is_space_byte(t2[d as int]));
    assert(t2[d - 1] == s[16 + (d - 1)]);
    assert(is_digit_byte(t2[d - 1]));
    lemma_after_last_char(t2, d as int);
    let v = t2.subrange(0, d as int);
    assert(trim_spaces(tail) == v);
    assert forall|i: int| 0 <= i < d implies v[i] == dec_digit_bytes(n)[i] by {
        assert(v[i] == s[16 + i]);
    }
    assert(v =~= dec_digit_bytes(n));
    assert(line_kind(line) == LineKind::Length(Some(n)));
    // The second line is the bare carriage return: the blank line.
    lemma_find_byte_unique(s, l1 + 1, 10, l1 + 2);
    let line2 = s.subrange(l1 + 1, l1 + 2);
    assert(forall|i: int| 0 <= i < line2.len() ==> is_space_byte(#[trigger] line2[i]));
    assert(scan_headers(s, eof, 0, None) == scan_headers(s, eof, l1 + 1, Some(n)));
    assert(scan_headers(s, eof, l1 + 1, Some(n)) == (HeaderScan::Body {
        start: l1 + 3,
        len: Some(n),
    }));
    // The body is the declared number of bytes that follow.
    assert(l1 + 3 == hb.len());
    assert(s.subrange(hb.len() as int, hb.len() as int + n as int) =~= body);
}

/// If the stream closes after a Content-Length line alone, before the blank
/// line that ends a header block, decoding fails: it neither hangs nor
/// invents a body.
pub proof fn lemma_close_after_header_line(n: nat, eof: bool)
    requires
        n <= usize::MAX,
    ensures
        !eof ==> spec_decode(
            encode_utf8("Content-Length: "@ + dec_digits(n) + "\r\n"@),
            false,
        ) == FrameStep::More,
        eof ==> spec_decode(encode_utf8("Content-Length: "@ + dec_digits(n) + "\r\n"@), true)
            == FrameStep::Bad(FrameError::ConnectionClosed),
{
    let h = frame_header(n);
    let hb = frame_header_bytes(n);
    let d = dec_digits(n).len() as int;
    let h2 = "Content-Length: "@ + dec_digits(n) + "\r\n"@;
    let s = encode_utf8(h2);
    lemma_header_bytes_facts(n);
    lemma_dec_digits_ascii(n);
    lemma_dec_value_digits(n);
    reveal_strlit("Content-Length: ");
    reveal_strlit("\r\n");
    reveal_strlit("\r\n\r\n");
    lemma_frame_header_ascii(n);
    assert(h2 =~= h.subrange(0, 18 + d));
    assert(is_ascii_chars(h2));
    is_ascii_chars_encode_utf8(h2);
    assert(s.len() == 18 + d);
    assert forall|i: int| 0 <= i < s.len() implies s[i] == hb[i] by {
        assert(h2[i] == h[i]);
    }
    assert forall|i: int| 0 <= i < d implies is_digit_byte(#[trigger] s[16 + i]) && s[16 + i]
        == dec_digit_bytes(n)[i] by {
        assert(hb[16 + i] == dec_digit_bytes(n)[i]);
        assert(is_digit_byte(dec_digit_bytes(n)[i]));
    }
    let l1 = 17 + d;
    lemma_find_byte_unique(s, 0, 10, l1);
    let line = s.subrange(0, l1);
    // The first line is the same Content-Length line as in a whole frame.
    assert(!is_space_byte(line[0]));
    assert(!blank_line(line));
    lemma_first_non_space_char(line, 0, 0);
    let t = line.subrange(first_non_space(line, 0), line.len() as int);
    assert(t =~= line);
    assert(t.subrange(0, 15) =~= cl_prefix());
    let tail = t.subrange(15, t.len() as int);
    assert(tail.len() == 2 + d);
    assert(is_space_byte(tail[0]));
    assert(tail[1] == s[16int]);
    assert(is_digit_byte(tail[1]));
    lemma_first_non_space_char(tail, 0, 1);
    let t2 = tail.subrange(1, tail.len() as int);
    assert(t2.len() == 1 + d);
    assert(is_space_byte(t2[d as int]));
    assert(t2[d - 1] == s[16 + (d - 1)]);
    assert(is_digit_byte(t2[d - 1]));
    lemma_after_last_char(t2, d as int);
    let v = t2.subrange(0, d as int);
    assert(trim_spaces(tail) == v);
    assert forall|i: int| 0 <= i < d implies v[i] == dec_digit_bytes(n)[i] by {
        assert(v[i] == s[16 + i]);
    }
    assert(v =~= dec_digit_bytes(n));
    assert(line_kind(line) == LineKind::Length(Some(n)));
    // After that line the input ends without a blank line.
    lemma_find_byte(s, l1 + 1, 10);
    assert(find_byte(s, l1 + 1, 10) is None);
    assert(scan_headers(s, eof, 0, None) == scan_headers(s, eof, l1 + 1, Some(n)));
}

/// A header block that ends (blank line) without ever declaring a
/// Content-Length fails before any body byte is touched, whatever follows
/// and whether or not the stream is still open.
pub proof fn lemma_missing_content_length(rest: Seq<u8>, eof: bool)
    ensures
        spec_decode(encode_utf8("\r\n"@) + rest, eof) == FrameStep::Bad(
            FrameError::MissingContentLength,
        ),
{
    reveal_strlit("\r\n");
    let h = "\r\n"@;
    assert(is_ascii_chars(h));
    is_ascii_chars_encode_utf8(h);
    let s = encode_utf8(h) + rest;
    assert(s[0] == 13);
    assert(s[1] == 10);
    lemma_find_byte_unique(s, 0, 10, 1);
    let line = s.subrange(0, 1);
    assert(forall|i: int| 0 <= i < line.len() ==> is_space_byte(#[trigger] line[i]));
    assert(scan_headers(s, eof, 0, None) == (HeaderScan::Body { start: 2, len: None }));
}

} // verus!
