//! Character and string utilities shared by the wire-format modules:
//! decimal rendering and parsing, and a few character classifications.

use vstd::prelude::*;
use vstd::string::*;

verus! {

/// Relies on String::push: appends exactly the given character to the string.
#[verifier::external_body]
pub fn push_char(s: &mut String, c: char)
    ensures
        final(s)@ == old(s)@.push(c),
{
    s.push(c);
}

/// Relies on String::from_utf8: it succeeds exactly on valid UTF-8 input,
/// and returns the string those bytes spell.
#[verifier::external_body]
pub fn bytes_to_string(v: Vec<u8>) -> (r: Option<String>)
    ensures
        (r is Some) == vstd::utf8::valid_utf8(v@),
        r matches Some(s) ==> vstd::utf8::encode_utf8(s@) == v@,
{
    match String::from_utf8(v) {
        Ok(s) => Some(s),
        Err(_) => None,
    }
}

/// The character for a single decimal digit.
pub open spec fn digit_char(d: nat) -> char {
    if d == 0 {
        '0'
    } else if d == 1 {
        '1'
    } else if d == 2 {
        '2'
    } else if d == 3 {
        '3'
    } else if d == 4 {
        '4'
    } else if d == 5 {
        '5'
    } else if d == 6 {
        '6'
    } else if d == 7 {
        '7'
    } else if d == 8 {
        '8'
    } else {
        '9'
    }
}

/// The usual decimal rendering of a natural number, most significant digit
/// first, with no leading zeros (except for the number 0 itself).
pub open spec fn dec_digits(n: nat) -> Seq<char>
    decreases n,
{
    if n < 10 {
        seq![digit_char(n)]
    } else {
        dec_digits(n / 10).push(digit_char(n % 10))
    }
}

/// Decimal rendering of a possibly negative integer: a leading minus sign
/// for negative values, then the digits of the magnitude.
pub open spec fn int_digits(n: int) -> Seq<char> {
    if n < 0 {
        seq!['-'] + dec_digits((-n) as nat)
    } else {
        dec_digits(n as nat)
    }
}

pub proof fn lemma_dec_digits_ascii(n: nat)
    ensures
        dec_digits(n).len() >= 1,
        forall|i: int| 0 <= i < dec_digits(n).len() ==> '0' <= #[trigger] dec_digits(n)[i] <= '9',
    decreases n,
{
    if n >= 10 {
        lemma_dec_digits_ascii(n / 10);
    }
}

fn digit_of(d: u64) -> (c: char)
    requires
        d < 10,
    ensures
        c == digit_char(d as nat),
{
    if d == 0 {
        '0'
    } else if d == 1 {
        '1'
    } else if d == 2 {
        '2'
    } else if d == 3 {
        '3'
    } else if d == 4 {
        '4'
    } else if d == 5 {
        '5'
    } else if d == 6 {
        '6'
    } else if d == 7 {
        '7'
    } else if d == 8 {
        '8'
    } else {
        '9'
    }
}

/// Renders a number in decimal, matching `dec_digits`.
pub fn u64_to_string(n: u64) -> (r: String)
    ensures
        r@ == dec_digits(n as nat),
    decreases n,
{
    if n < 10 {
        let mut s = String::new();
        push_char(&mut s, digit_of(n));
        proof {
            assert(s@ =~= dec_digits(n as nat));
        }
        s
    } else {
        let mut s = u64_to_string(n / 10);
        push_char(&mut s, digit_of(n % 10));
        proof {
            assert(s@ =~= dec_digits(n as nat));
        }
        s
    }
}

/// Renders a signed number in decimal, matching `int_digits`.
pub fn i64_to_string(n: i64) -> (r: String)
    ensures
        r@ == int_digits(n as int),
{
    if n >= 0 {
        u64_to_string(n as u64)
    } else {
        let m: u64 = if n == i64::MIN {
            9223372036854775808
        } else {
            (-n) as u64
        };
        let mut s = String::new();
        push_char(&mut s, '-');
        let digits = u64_to_string(m);
        s.append(digits.as_str());
        proof {
            assert(s@ =~= int_digits(n as int));
        }
        s
    }
}

/// Whether two pieces of text read the same.
pub fn str_eq(a: &str, b: &str) -> (r: bool)
    ensures
        r == (a@ == b@),
{
    let sa = String::from_str(a);
    let sb = String::from_str(b);
    sa.eq(&sb)
}

/// The views of a list of strings.
pub open spec fn texts_of(items: Seq<String>) -> Seq<Seq<char>> {
    Seq::new(items.len(), |i: int| items[i]@)
}

/// The pieces joined with a separator between neighbours.
pub open spec fn join_with(parts: Seq<Seq<char>>, sep: Seq<char>) -> Seq<char>
    decreases parts.len(),
{
    if parts.len() == 0 {
        Seq::empty()
    } else if parts.len() == 1 {
        parts[0]
    } else {
        parts[0] + sep + join_with(parts.drop_first(), sep)
    }
}

pub proof fn lemma_join_with_push(parts: Seq<Seq<char>>, sep: Seq<char>, x: Seq<char>)
    ensures
        parts.len() == 0 ==> join_with(parts.push(x), sep) == x,
        parts.len() > 0 ==> join_with(parts.push(x), sep) == join_with(parts, sep) + sep + x,
    decreases parts.len(),
{
    if parts.len() == 0 {
        assert(join_with(parts.push(x), sep) == parts.push(x)[0]);
        assert(parts.push(x)[0] == x);
    } else if parts.len() == 1 {
        assert(parts.push(x).drop_first() =~= parts.drop_first().push(x));
        assert(parts.push(x)[0] == parts[0]);
        assert(join_with(parts.drop_first().push(x), sep) == x) by {
            lemma_join_with_push(parts.drop_first(), sep, x);
        }
        assert(join_with(parts, sep) + sep + x =~= parts[0] + sep + x);
    } else {
        assert(parts.push(x).drop_first() =~= parts.drop_first().push(x));
        assert(parts.push(x)[0] == parts[0]);
        lemma_join_with_push(parts.drop_first(), sep, x);
        assert(join_with(parts.push(x), sep) =~= join_with(parts, sep) + sep + x);
    }
}

/// Joins the strings with the separator between neighbours.
#[verifier::loop_isolation(false)]
pub fn join_strings(items: &Vec<String>, sep: &str) -> (r: String)
    ensures
        r@ == join_with(texts_of(items@), sep@),
{
    let ghost parts = texts_of(items@);
    let mut out = String::new();
    let mut j: usize = 0;
    while j < items.len()
        invariant
            0 <= j <= items@.len(),
            out@ == join_with(parts.take(j as int), sep@),
        decreases items@.len() - j,
    {
        if j > 0 {
            out.append(sep);
        }
        out.append(items[j].as_str());
        proof {
            lemma_join_with_push(parts.take(j as int), sep@, parts[j as int]);
            assert(parts.take(j + 1) =~= parts.take(j as int).push(parts[j as int]));
        }
        j = j + 1;
    }
    proof {
        assert(parts.take(items@.len() as int) =~= parts);
    }
    out
}

/// A decimal digit character.
pub open spec fn is_digit_char(c: char) -> bool {
    '0' <= c && c <= '9'
}

pub open spec fn all_digit_chars(s: Seq<char>) -> bool {
    forall|i: int| 0 <= i < s.len() ==> is_digit_char(#[trigger] s[i])
}

/// The value of a decimal digit string, most significant digit first.
pub open spec fn dec_chars_value(s: Seq<char>) -> nat
    decreases s.len(),
{
    if s.len() == 0 {
        0
    } else {
        dec_chars_value(s.drop_last()) * 10 + (s.last() as nat - '0' as nat) as nat
    }
}

proof fn lemma_dec_chars_prefix_le(s: Seq<char>, j: int)
    requires
        0 <= j <= s.len(),
        all_digit_chars(s),
    ensures
        dec_chars_value(s.take(j)) <= dec_chars_value(s),
    decreases s.len() - j,
{
    if j < s.len() {
        lemma_dec_chars_prefix_le(s, j + 1);
        assert(s.take(j + 1).drop_last() =~= s.take(j));
        assert(dec_chars_value(s.take(j + 1)) == dec_chars_value(s.take(j)) * 10 + (s.take(j + 1).last() as nat - '0' as nat));
        assert(is_digit_char(s[j as int]));
        assert(dec_chars_value(s.take(j)) <= dec_chars_value(s.take(j)) * 10) by (nonlinear_arith);
    }
    assert(s.take(s.len() as int) =~= s);
}

/// Reads a port number: a nonempty run of decimal digits whose value fits.
#[verifier::loop_isolation(false)]
pub fn parse_u16(s: &str) -> (r: Option<u16>)
    ensures
        match r {
            Some(v) => s@.len() > 0 && all_digit_chars(s@) && v as nat == dec_chars_value(s@),
            None => !(s@.len() > 0 && all_digit_chars(s@) && dec_chars_value(s@)
                <= u16::MAX as nat),
        },
{
    let n = s.unicode_len();
    if n == 0 {
        return None;
    }
    let mut acc: u32 = 0;
    let mut j: usize = 0;
    while j < n
        invariant
            0 <= j <= n == s@.len(),
            acc <= 65535,
            all_digit_chars(s@.take(j as int)),
            acc as nat == dec_chars_value(s@.take(j as int)),
        decreases n - j,
    {
        let c = s.get_char(j);
        if !('0' <= c && c <= '9') {
            proof {
                assert(s@.take(n as int) =~= s@);
                assert(!is_digit_char(s@[j as int]));
            }
            return None;
        }
        let d: u32 = (c as u32) - 48;
        proof {
            assert(s@.take(j + 1).drop_last() =~= s@.take(j as int));
            assert(s@.take(j + 1).last() == s@[j as int]);
            assert(d as nat == s@[j as int] as nat - '0' as nat);
        }
        let next = acc * 10 + d;
        if next > 65535 {
            proof {
                assert(forall|k: int|
                    0 <= k < j + 1 ==> is_digit_char(#[trigger] s@.take(j + 1)[k]));
                if all_digit_chars(s@) {
                    lemma_dec_chars_prefix_le(s@, j + 1);
                }
            }
            return None;
        }
        acc = next;
        j = j + 1;
    }
    proof {
        assert(s@.take(n as int) =~= s@);
    }
    Some(acc as u16)
}

} // verus!
