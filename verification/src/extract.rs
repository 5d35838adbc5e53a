//! Recovering a JSON document from free text: the remote AI is asked for
//! pure JSON but may wrap it in commentary or a markdown fence. Three paths
//! are tried in order: a brace-balanced object at the start of the trimmed
//! text, a ```json fenced block, and finally the loose span from the first
//! opening to the last closing brace.

use vstd::prelude::*;
use vstd::string::*;
use crate::rpc::McpError;
use crate::json::{JsonValue, spec_lookup, json_pretty_chars, json_text_pretty};

verus! {

/// ASCII whitespace, what the text is trimmed of.
pub open spec fn is_space_char(c: char) -> bool {
    c == ' ' || ('\u{9}' <= c && c <= '\u{d}')
}

pub open spec fn first_non_space_c(s: Seq<char>, i: int) -> int
    decreases s.len() - i when 0 <= i <= s.len()
{
    if i >= s.len() {
        i
    } else if is_space_char(s[i]) {
        first_non_space_c(s, i + 1)
    } else {
        i
    }
}

pub open spec fn after_last_non_space_c(s: Seq<char>) -> int
    decreases s.len(),
{
    if s.len() == 0 {
        0
    } else if is_space_char(s.last()) {
        after_last_non_space_c(s.drop_last())
    } else {
        s.len() as int
    }
}

/// The text with leading and trailing whitespace dropped.
pub open spec fn trim_chars(s: Seq<char>) -> Seq<char> {
    let t = s.subrange(first_non_space_c(s, 0), s.len() as int);
    t.subrange(0, after_last_non_space_c(t))
}

/// Whether `pat` occurs in `s` starting at `i`.
pub open spec fn match_at(s: Seq<char>, pat: Seq<char>, i: int) -> bool {
    0 <= i && i + pat.len() <= s.len() && s.subrange(i, i + pat.len()) == pat
}

/// The first occurrence of `pat` at or after `i`.
pub open spec fn find_sub(s: Seq<char>, pat: Seq<char>, i: int) -> Option<int>
    decreases s.len() - i when 0 <= i <= s.len()
{
    if i + pat.len() > s.len() {
        None
    } else if pat.len() == 0 {
        Some(i)
    } else if match_at(s, pat, i) {
        Some(i)
    } else {
        find_sub(s, pat, i + 1)
    }
}

/// The last occurrence of `pat` at or before `i`.
pub open spec fn rfind_sub(s: Seq<char>, pat: Seq<char>, i: int) -> Option<int>
    decreases i + 1 when i >= -1
{
    if i < 0 {
        None
    } else if match_at(s, pat, i) {
        Some(i)
    } else {
        rfind_sub(s, pat, i - 1)
    }
}

/// The first occurrence of the character at or after `i`.
pub open spec fn find_cchar(s: Seq<char>, i: int, c: char) -> Option<int>
    decreases s.len() - i when 0 <= i <= s.len()
{
    if i >= s.len() {
        None
    } else if s[i] == c {
        Some(i)
    } else {
        find_cchar(s, i + 1, c)
    }
}

/// The last occurrence of the character at or before `i`.
pub open spec fn rfind_cchar(s: Seq<char>, i: int, c: char) -> Option<int>
    decreases i + 1 when i >= -1
{
    if i < 0 {
        None
    } else if i < s.len() && s[i] == c {
        Some(i)
    } else {
        rfind_cchar(s, i - 1, c)
    }
}

/// One past the closing brace that brings the running depth back to zero:
/// depth rises on `{`, falls on `}`, starting from `depth` at position `i`.
/// Braces inside string literals are not treated specially; the remote is
/// asked for plain object fields, where this cannot arise.
pub open spec fn brace_end(s: Seq<char>, i: int, depth: int) -> Option<int>
    decreases s.len() - i when 0 <= i <= s.len()
{
    if i >= s.len() {
        None
    } else {
        let d2 = if s[i] == '{' {
            depth + 1
        } else if s[i] == '}' {
            depth - 1
        } else {
            depth
        };
        if s[i] == '}' && d2 == 0 {
            Some(i + 1)
        } else {
            brace_end(s, i + 1, d2)
        }
    }
}

/// The last resort: the span from the first `{` to the last `}`, if the
/// first precedes the last.
pub open spec fn loose_span(t: Seq<char>) -> Option<Seq<char>> {
    match (find_cchar(t, 0, '{'), rfind_cchar(t, t.len() - 1, '}')) {
        (Some(a), Some(b)) => if b > a {
            Some(t.subrange(a, b + 1))
        } else {
            None
        },
        _ => None,
    }
}

/// What extraction yields on the already-trimmed text: a leading
/// brace-balanced object, else a ```json fenced block (closed by the first
/// fence-then-newline, or failing that the last fence), else the loose span.
pub open spec fn extract_from_trimmed(t: Seq<char>) -> Option<Seq<char>> {
    let path1 = if t.len() > 0 && t[0] == '{' {
        brace_end(t, 0, 0)
    } else {
        None
    };
    match path1 {
        Some(e) => Some(t.subrange(0, e)),
        None => match find_sub(t, "```json"@, 0) {
            Some(start) => {
                let seg = t.subrange(start, t.len() as int);
                let end = match find_sub(seg, "```\n"@, 0) {
                    Some(e) => Some(e),
                    None => rfind_sub(seg, "```"@, seg.len() - 3),
                };
                match end {
                    Some(e) => if e > 7 {
                        Some(trim_chars(t.subrange(start + 7, start + e)))
                    } else {
                        loose_span(t)
                    },
                    None => loose_span(t),
                }
            },
            None => loose_span(t),
        },
    }
}

/// What extraction yields on the raw reply text.
pub open spec fn spec_extract_json(s: Seq<char>) -> Option<Seq<char>> {
    extract_from_trimmed(trim_chars(s))
}

// ---------------------------------------------------------------------------
// Executable search helpers.
// ---------------------------------------------------------------------------

proof fn lemma_first_non_space_c_char(s: Seq<char>, i: int, j: int)
    requires
        0 <= i <= j <= s.len(),
        forall|k: int| i <= k < j ==> is_space_char(#[trigger] s[k]),
        j < s.len() ==> !is_space_char(s[j as int]),
    ensures
        first_non_space_c(s, i) == j,
    decreases j - i,
{
    if i < j {
        lemma_first_non_space_c_char(s, i + 1, j);
    }
}

proof fn lemma_after_last_c_char(s: Seq<char>, j: int)
    requires
        0 <= j <= s.len(),
        forall|k: int| j <= k < s.len() ==> is_space_char(#[trigger] s[k]),
        j > 0 ==> !is_space_char(s[j - 1]),
    ensures
        after_last_non_space_c(s) == j,
    decreases s.len(),
{
    if s.len() > 0 && is_space_char(s.last()) {
        lemma_after_last_c_char(s.drop_last(), j);
    }
}

fn is_space(c: char) -> (r: bool)
    ensures
        r == is_space_char(c),
{
    c == ' ' || ('\u{9}' <= c && c <= '\u{d}')
}

/// Whether `pat` occurs in `s` at position `i` (character positions).
#[verifier::loop_isolation(false)]
fn match_at_exec(s: &str, pat: &str, i: usize, m: usize) -> (r: bool)
    requires
        m == pat@.len(),
        i + m <= s@.len(),
        i + m <= usize::MAX,
    ensures
        r == match_at(s@, pat@, i as int),
{
    let mut k: usize = 0;
    while k < m
        invariant
            0 <= k <= m == pat@.len(),
            i + m <= s@.len(),
            forall|t: int| 0 <= t < k ==> s@[i + t] == #[trigger] pat@[t],
        decreases m - k,
    {
        if s.get_char(i + k) != pat.get_char(k) {
            proof {
                assert(s@.subrange(i as int, i + m)[k as int] == s@[i + k]);
            }
            return false;
        }
        k = k + 1;
    }
    proof {
        assert(s@.subrange(i as int, i + m) =~= pat@);
    }
    true
}

/// The first occurrence of `pat` in `s`, by character position.
#[verifier::loop_isolation(false)]
fn find_str(s: &str, pat: &str) -> (r: Option<usize>)
    ensures
        match r {
            Some(j) => find_sub(s@, pat@, 0) == Some(j as int) && j + pat@.len() <= s@.len(),
            None => find_sub(s@, pat@, 0) is None,
        },
{
    let n = s.unicode_len();
    let m = pat.unicode_len();
    if m > n {
        return None;
    }
    if m == 0 {
        return Some(0);
    }
    let mut i: usize = 0;
    while i <= n - m
        invariant
            0 <= i <= n - m + 1,
            find_sub(s@, pat@, 0) == find_sub(s@, pat@, i as int),
        decreases n - i,
    {
        if match_at_exec(s, pat, i, m) {
            return Some(i);
        }
        i = i + 1;
    }
    None
}

/// The last occurrence of `pat` in `s`, by character position.
#[verifier::loop_isolation(false)]
fn rfind_str(s: &str, pat: &str) -> (r: Option<usize>)
    requires
        pat@.len() <= s@.len(),
    ensures
        match r {
            Some(j) => rfind_sub(s@, pat@, s@.len() - pat@.len()) == Some(j as int) && j
                + pat@.len() <= s@.len(),
            None => rfind_sub(s@, pat@, s@.len() - pat@.len()) is None,
        },
{
    let n = s.unicode_len();
    let m = pat.unicode_len();
    let mut i: usize = n - m;
    loop
        invariant
            0 <= i <= n - m,
            rfind_sub(s@, pat@, (n - m) as int) == rfind_sub(s@, pat@, i as int),
        decreases i + 1,
    {
        if match_at_exec(s, pat, i, m) {
            return Some(i);
        }
        if i == 0 {
            proof {
                assert(rfind_sub(s@, pat@, 0) == rfind_sub(s@, pat@, -1));
                assert(rfind_sub(s@, pat@, -1) is None);
            }
            return None;
        }
        i = i - 1;
    }
}

/// The first occurrence of the character, at or after `from`.
#[verifier::loop_isolation(false)]
fn find_char_at(s: &str, from: usize, c: char) -> (r: Option<usize>)
    requires
        from <= s@.len(),
    ensures
        match r {
            Some(j) => find_cchar(s@, from as int, c) == Some(j as int) && from <= j < s@.len(),
            None => find_cchar(s@, from as int, c) is None,
        },
{
    let n = s.unicode_len();
    let mut i = from;
    while i < n
        invariant
            from <= i <= n,
            find_cchar(s@, from as int, c) == find_cchar(s@, i as int, c),
        decreases n - i,
    {
        if s.get_char(i) == c {
            return Some(i);
        }
        i = i + 1;
    }
    None
}

/// The last occurrence of the character in the whole text.
#[verifier::loop_isolation(false)]
fn rfind_char(s: &str, c: char) -> (r: Option<usize>)
    ensures
        match r {
            Some(j) => rfind_cchar(s@, s@.len() - 1, c) == Some(j as int) && j < s@.len(),
            None => rfind_cchar(s@, s@.len() - 1, c) is None,
        },
{
    let n = s.unicode_len();
    if n == 0 {
        return None;
    }
    let mut i: usize = n - 1;
    loop
        invariant
            0 <= i <= n - 1,
            n == s@.len(),
            rfind_cchar(s@, (n - 1) as int, c) == rfind_cchar(s@, i as int, c),
        decreases i + 1,
    {
        if s.get_char(i) == c {
            return Some(i);
        }
        if i == 0 {
            proof {
                assert(rfind_cchar(s@, 0, c) == rfind_cchar(s@, -1, c));
                assert(rfind_cchar(s@, -1, c) is None);
            }
            return None;
        }
        i = i - 1;
    }
}

/// Scans a brace-balanced object from the start: one past the `}` at which
/// the depth first returns to zero.
#[verifier::loop_isolation(false)]
fn brace_scan(s: &str) -> (r: Option<usize>)
    ensures
        match r {
            Some(e) => brace_end(s@, 0, 0) == Some(e as int) && 0 < e <= s@.len(),
            None => brace_end(s@, 0, 0) is None,
        },
{
    let n = s.unicode_len();
    let mut i: usize = 0;
    let mut depth: i128 = 0;
    while i < n
        invariant
            0 <= i <= n == s@.len(),
            -(i as int) <= depth as int <= i as int,
            brace_end(s@, 0, 0) == brace_end(s@, i as int, depth as int),
        decreases n - i,
    {
        let c = s.get_char(i);
        let d2: i128 = if c == '{' {
            depth + 1
        } else if c == '}' {
            depth - 1
        } else {
            depth
        };
        if c == '}' && d2 == 0 {
            return Some(i + 1);
        }
        depth = d2;
        i = i + 1;
    }
    None
}

// ---------------------------------------------------------------------------
// The extraction function itself.
// ---------------------------------------------------------------------------

/// The trimmed span of `s[from..to]`, as character positions into `s`.
#[verifier::loop_isolation(false)]
fn trim_bounds(s: &str, from: usize, to: usize) -> (r: (usize, usize))
    requires
        from <= to <= s@.len(),
    ensures
        ({
            let (lo, hi) = r;
            &&& from <= lo <= hi <= to
            &&& trim_chars(s@.subrange(from as int, to as int)) == s@.subrange(
                lo as int,
                hi as int,
            )
        }),
{
    let ghost seg = s@.subrange(from as int, to as int);
    let mut lo = from;
    while lo < to && is_space(s.get_char(lo))
        invariant
            from <= lo <= to,
            forall|k: int| from <= k < lo ==> is_space_char(#[trigger] s@[k]),
        decreases to - lo,
    {
        lo = lo + 1;
    }
    proof {
        lemma_first_non_space_c_char(seg, 0, lo - from);
    }
    let ghost t2 = seg.subrange((lo - from) as int, seg.len() as int);
    proof {
        assert(t2 =~= s@.subrange(lo as int, to as int));
    }
    if lo == to {
        proof {
            lemma_after_last_c_char(t2, 0);
            assert(trim_chars(seg) =~= s@.subrange(lo as int, lo as int));
        }
        return (lo, lo);
    }
    let mut hi = to;
    while hi > lo && is_space(s.get_char(hi - 1))
        invariant
            lo <= hi <= to,
            forall|k: int| hi <= k < to ==> is_space_char(#[trigger] s@[k]),
        decreases hi,
    {
        hi = hi - 1;
    }
    proof {
        assert(!is_space_char(s@[lo as int]));
        assert(hi > lo);
        lemma_after_last_c_char(t2, hi - lo);
        assert(trim_chars(seg) =~= s@.subrange(lo as int, hi as int));
    }
    (lo, hi)
}

/// Locates a JSON document inside free text, as `spec_extract_json` says;
/// where none can be found, the error embeds the whole reply for diagnosis.
#[verifier::loop_isolation(false)]
pub fn extract_json_from_response(response: &str) -> (r: Result<String, McpError>)
    ensures
        match r {
            Ok(t) => spec_extract_json(response@) == Some(t@),
            Err(e) => spec_extract_json(response@) is None && (e matches McpError::Extraction(m)
                && m@ == "No JSON found in response: "@ + response@),
        },
{
    let n = response.unicode_len();
    let (ts, te) = trim_bounds(response, 0, n);
    proof {
        assert(response@.subrange(0, n as int) =~= response@);
    }
    let trimmed = response.substring_char(ts, te);
    let ghost t = trim_chars(response@);
    let tn = te - ts;
    // A brace-balanced object at the very start.
    if tn > 0 && trimmed.get_char(0) == '{' {
        match brace_scan(trimmed) {
            Some(e) => {
                let piece = trimmed.substring_char(0, e);
                return Ok(piece.to_owned());
            },
            None => {},
        }
    }
    // A markdown-fenced block.
    proof {
        reveal_strlit("```json");
        reveal_strlit("```\n");
        reveal_strlit("```");
    }
    match find_str(trimmed, "```json") {
        Some(start) => {
            let seg = trimmed.substring_char(start, tn);
            let end_opt: Option<usize> = match find_str(seg, "```\n") {
                Some(e) => Some(e),
                None => rfind_str(seg, "```"),
            };
            match end_opt {
                Some(end) => {
                    if end > 7 {
                        let (lo, hi) = trim_bounds(trimmed, start + 7, start + end);
                        let piece = trimmed.substring_char(lo, hi);
                        return Ok(piece.to_owned());
                    }
                },
                None => {},
            }
        },
        None => {},
    }
    // The loose span from the first `{` to the last `}`.
    match find_char_at(trimmed, 0, '{') {
        Some(a) => {
            match rfind_char(trimmed, '}') {
                Some(b) => {
                    if b > a {
                        let piece = trimmed.substring_char(a, b + 1);
                        return Ok(piece.to_owned());
                    }
                },
                None => {},
            }
        },
        None => {},
    }
    let mut m = String::from_str("No JSON found in response: ");
    m.append(response);
    Err(McpError::Extraction(m))
}

// ---------------------------------------------------------------------------
// A law of extraction.
// ---------------------------------------------------------------------------

proof fn lemma_first_non_space_c_bounds(s: Seq<char>, i: int)
    requires
        0 <= i <= s.len(),
    ensures
        i <= first_non_space_c(s, i) <= s.len(),
    decreases s.len() - i,
{
    if i < s.len() && is_space_char(s[i]) {
        lemma_first_non_space_c_bounds(s, i + 1);
    }
}

proof fn lemma_after_last_bounds(s: Seq<char>)
    ensures
        0 <= after_last_non_space_c(s) <= s.len(),
    decreases s.len(),
{
    if s.len() > 0 && is_space_char(s.last()) {
        lemma_after_last_bounds(s.drop_last());
    }
}

proof fn lemma_find_sub_found(s: Seq<char>, pat: Seq<char>, i: int)
    requires
        0 <= i <= s.len(),
        find_sub(s, pat, i) is Some,
    ensures
        match_at(s, pat, find_sub(s, pat, i)->Some_0) || pat.len() == 0,
    decreases s.len() - i,
{
    if i + pat.len() <= s.len() && pat.len() > 0 && !match_at(s, pat, i) {
        lemma_find_sub_found(s, pat, i + 1);
    }
}

proof fn lemma_find_cchar_found(s: Seq<char>, i: int, c: char)
    requires
        0 <= i <= s.len(),
        find_cchar(s, i, c) is Some,
    ensures
        ({
            let j = find_cchar(s, i, c)->Some_0;
            0 <= j < s.len() && s[j] == c
        }),
    decreases s.len() - i,
{
    if i < s.len() && s[i] != c {
        lemma_find_cchar_found(s, i + 1, c);
    }
}

/// Where the text holds no opening brace at all, and no ```json fence
/// either, extraction finds nothing, and so fails with the error that embeds
/// the text. (With a fence, a brace is not needed: the fenced content is
/// returned whatever it holds.)
pub proof fn lemma_extraction_needs_a_brace(s: Seq<char>)
    requires
        forall|i: int| 0 <= i < s.len() ==> s[i] != '{',
        forall|i: int| !match_at(s, "```json"@, i),
    ensures
        spec_extract_json(s) is None,
{
    let f = first_non_space_c(s, 0);
    lemma_first_non_space_c_bounds(s, 0);
    let t0 = s.subrange(f, s.len() as int);
    lemma_after_last_bounds(t0);
    let a = after_last_non_space_c(t0);
    let t = t0.subrange(0, a);
    assert(t == trim_chars(s));
    assert(forall|i: int| 0 <= i < t.len() ==> t[i] == s[f + i]);
    reveal_strlit("```json");
    // No fence can start inside the trimmed text: it would start in `s` too.
    assert forall|i: int| 0 <= i < t.len() implies !match_at(t, "```json"@, i) by {
        if match_at(t, "```json"@, i) {
            assert(forall|k: int|
                0 <= k < 7 ==> #[trigger] "```json"@[k] == t.subrange(i, i + 7)[k]);
            assert(s.subrange(f + i, f + i + 7) =~= t.subrange(i, i + 7));
            assert(match_at(s, "```json"@, f + i));
        }
    }
    if t.len() > 0 {
        assert(t[0] == s[f as int]);
        assert(t[0] != '{');
    }
    match find_sub(t, "```json"@, 0) {
        Some(start) => {
            lemma_find_sub_found(t, "```json"@, 0);
            assert(false);
        },
        None => {},
    }
    match find_cchar(t, 0, '{') {
        Some(b) => {
            lemma_find_cchar_found(t, 0, '{');
            assert(t[find_cchar(t, 0, '{')->Some_0] == s[f + find_cchar(t, 0, '{')->Some_0]);
            assert(false);
        },
        None => {},
    }
    assert(loose_span(t) is None);
}

// ---------------------------------------------------------------------------
// The textual reply inside a tool-call result.
// ---------------------------------------------------------------------------

/// The first content block that carries a string under `text`, if any.
pub open spec fn first_block_text(items: Seq<JsonValue>) -> Option<String>
    decreases items.len(),
{
    if items.len() == 0 {
        None
    } else {
        match spec_lookup(items[0], "text"@) {
            Some(JsonValue::Str(s)) => Some(s),
            _ => first_block_text(items.drop_first()),
        }
    }
}

/// Where no content member helps: a string under `text`, else the whole
/// result, pretty-printed as a last resort.
pub open spec fn reply_fallback(v: JsonValue) -> Seq<char> {
    match spec_lookup(v, "text"@) {
        Some(JsonValue::Str(s)) => s@,
        _ => json_pretty_chars(v),
    }
}

/// The text a tool-call result carries: the first text block under a
/// `content` array, else `content` itself when it is a string, else a
/// top-level `text` member, and as a last resort the whole result,
/// pretty-printed.
pub open spec fn spec_reply_text(v: JsonValue) -> Seq<char> {
    match spec_lookup(v, "content"@) {
        Some(JsonValue::Arr(items)) => match first_block_text(items@) {
            Some(s) => s@,
            None => reply_fallback(v),
        },
        Some(JsonValue::Str(s)) => s@,
        _ => reply_fallback(v),
    }
}

/// Recovers the textual reply from the heterogeneous shapes a tool-call
/// result takes, `spec_reply_text`.
#[verifier::loop_isolation(false)]
pub fn extract_text_from_result(result: &JsonValue) -> (r: String)
    ensures
        r@ == spec_reply_text(*result),
{
    match result.lookup("content") {
        Some(content) => {
            match content.as_array() {
                Some(items) => {
                    proof {
                        assert(items@.skip(0) =~= items@);
                    }
                    let mut j: usize = 0;
                    while j < items.len()
                        invariant
                            0 <= j <= items@.len(),
                            first_block_text(items@) == first_block_text(items@.skip(j as int)),
                        decreases items@.len() - j,
                    {
                        let has_text = match items[j].lookup("text") {
                            Some(tv) => match tv.as_str() {
                                Some(s) => Some(s.clone()),
                                None => None,
                            },
                            None => None,
                        };
                        proof {
                            assert(items@.skip(j as int)[0] == items@[j as int]);
                            assert(items@.skip(j as int).drop_first() =~= items@.skip(j + 1));
                        }
                        match has_text {
                            Some(s) => {
                                return s;
                            },
                            None => {},
                        }
                        j = j + 1;
                    }
                    proof {
                        assert(items@.skip(j as int).len() == 0);
                        assert(first_block_text(items@) is None);
                    }
                },
                None => {
                    match content.as_str() {
                        Some(s) => {
                            return s.clone();
                        },
                        None => {},
                    }
                },
            }
        },
        None => {},
    }
    match result.lookup("text") {
        Some(tv) => {
            match tv.as_str() {
                Some(s) => {
                    return s.clone();
                },
                None => {},
            }
        },
        None => {},
    }
    json_text_pretty(result)
}

} // verus!
