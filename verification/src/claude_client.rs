//! The HTTP variant of the remote-AI client: the same domain operations over
//! a JSON-over-HTTP transport. The transport itself lives outside the
//! library; here are the exact request payloads, and the decisions over the
//! parsed reply documents.

use vstd::prelude::*;
use vstd::string::*;
use base64::Engine;
use crate::json::{
    JsonValue,
    spec_lookup,
    quoted,
    comma_join,
    push_quoted,
    json_pretty_chars,
    json_text_pretty,
    lemma_comma_join_push,
};
use crate::fields::{
    string_member,
    opt_string_member,
    u32_member,
    opt_u32_member,
    all_strings,
    string_values,
    strings_member,
};

verus! {

/// Everything that can go wrong in the HTTP client.
#[derive(Debug)]
pub enum ClaudeError {
    /// The HTTP exchange itself failed.
    Http(String),
    /// Text that should have been JSON was not.
    Json(String),
    /// The server answered, but with an error or an unusable document.
    Api(String),
    Connection(String),
}

/// The rendered form of an error, one line per variant.
pub open spec fn claude_error_chars(e: ClaudeError) -> Seq<char> {
    match e {
        ClaudeError::Http(m) => "HTTP error: "@ + m@,
        ClaudeError::Json(m) => "JSON error: "@ + m@,
        ClaudeError::Api(m) => "API error: "@ + m@,
        ClaudeError::Connection(m) => "Connection error: "@ + m@,
    }
}

impl ClaudeError {
    /// The error as one line of text, `claude_error_chars`.
    pub fn message(&self) -> (r: String)
        ensures
            r@ == claude_error_chars(*self),
    {
        match self {
            ClaudeError::Http(m) => {
                let mut s = String::from_str("HTTP error: ");
                s.append(m.as_str());
                s
            },
            ClaudeError::Json(m) => {
                let mut s = String::from_str("JSON error: ");
                s.append(m.as_str());
                s
            },
            ClaudeError::Api(m) => {
                let mut s = String::from_str("API error: ");
                s.append(m.as_str());
                s
            },
            ClaudeError::Connection(m) => {
                let mut s = String::from_str("Connection error: ");
                s.append(m.as_str());
                s
            },
        }
    }
}

/// The base address without its trailing slashes, so paths can be appended.
pub open spec fn without_trailing_slashes(s: Seq<char>) -> Seq<char>
    decreases s.len(),
{
    if s.len() > 0 && s.last() == '/' {
        without_trailing_slashes(s.drop_last())
    } else {
        s
    }
}

proof fn lemma_without_trailing_slashes(s: Seq<char>, k: int)
    requires
        0 <= k <= s.len(),
        forall|i: int| k <= i < s.len() ==> s[i] == '/',
        k > 0 ==> s[k - 1] != '/',
    ensures
        without_trailing_slashes(s) == s.take(k),
    decreases s.len(),
{
    if s.len() > 0 && s.last() == '/' {
        lemma_without_trailing_slashes(s.drop_last(), k);
        assert(s.drop_last().take(k) =~= s.take(k));
    } else {
        assert(s.take(k) =~= s);
    }
}

/// The base address used where the environment names none.
pub fn default_base_url() -> (r: String)
    ensures
        r@ == "http://claudecode:8080"@,
{
    String::from_str("http://claudecode:8080")
}

/// Normalizes a configured base address: trailing slashes are dropped.
#[verifier::loop_isolation(false)]
pub fn normalize_base_url(s: &str) -> (r: String)
    ensures
        r@ == without_trailing_slashes(s@),
{
    let n = s.unicode_len();
    let mut k = n;
    while k > 0 && s.get_char(k - 1) == '/'
        invariant
            0 <= k <= n == s@.len(),
            forall|i: int| k <= i < n ==> s@[i] == '/',
        decreases k,
    {
        k = k - 1;
    }
    proof {
        lemma_without_trailing_slashes(s@, k as int);
    }
    let cut = s.substring_char(0, k);
    cut.to_owned()
}

// ---------------------------------------------------------------------------
// The exact request payloads.
// ---------------------------------------------------------------------------

/// The quoted form of each string, ready to be joined into a JSON array.
pub open spec fn quoted_each(parts: Seq<Seq<char>>) -> Seq<Seq<char>> {
    Seq::new(parts.len(), |i: int| quoted(parts[i]))
}

/// A JSON array of strings.
pub open spec fn json_string_list(parts: Seq<Seq<char>>) -> Seq<char> {
    seq!['['] + comma_join(quoted_each(parts)) + seq![']']
}

/// Writes a JSON array of the given strings.
#[verifier::loop_isolation(false)]
pub fn push_string_list(out: &mut String, items: &Vec<String>)
    ensures
        final(out)@ == old(out)@ + json_string_list(crate::text::texts_of(items@)),
{
    let ghost parts = quoted_each(crate::text::texts_of(items@));
    crate::text::push_char(out, '[');
    let mut j: usize = 0;
    while j < items.len()
        invariant
            0 <= j <= items@.len(),
            out@ == old(out)@ + seq!['['] + comma_join(parts.take(j as int)),
        decreases items@.len() - j,
    {
        if j > 0 {
            crate::text::push_char(out, ',');
        }
        push_quoted(out, items[j].as_str());
        proof {
            lemma_comma_join_push(parts.take(j as int), parts[j as int]);
            assert(parts.take(j + 1) =~= parts.take(j as int).push(parts[j as int]));
            assert(out@ =~= old(out)@ + seq!['['] + comma_join(parts.take(j + 1)));
        }
        j = j + 1;
    }
    crate::text::push_char(out, ']');
    proof {
        assert(parts.take(items@.len() as int) =~= parts);
        assert(out@ =~= old(out)@ + (seq!['['] + comma_join(parts) + seq![']']));
    }
}

pub open spec fn prompt_payload_chars(prompt: Seq<char>) -> Seq<char> {
    "{\"prompt\":"@ + quoted(prompt) + "}"@
}

/// The body of a generic prompt request.
pub fn prompt_payload(prompt: &str) -> (r: String)
    ensures
        r@ == prompt_payload_chars(prompt@),
{
    let mut out = String::from_str("{\"prompt\":");
    push_quoted(&mut out, prompt);
    out.append("}");
    out
}

pub open spec fn synthesize_payload_chars(job_description: Seq<char>) -> Seq<char> {
    "{\"job_description\":"@ + quoted(job_description) + "}"@
}

/// The body of a job-synthesis request.
pub fn synthesize_payload(job_description: &str) -> (r: String)
    ensures
        r@ == synthesize_payload_chars(job_description@),
{
    let mut out = String::from_str("{\"job_description\":");
    push_quoted(&mut out, job_description);
    out.append("}");
    out
}

pub open spec fn match_skills_payload_chars(
    job_description: Seq<char>,
    cv_content: Seq<char>,
) -> Seq<char> {
    "{\"job_description\":"@ + quoted(job_description) + ",\"cv_content\":"@ + quoted(cv_content)
        + "}"@
}

/// The body of a skills-match request.
pub fn match_skills_payload(job_description: &str, cv_content: &str) -> (r: String)
    ensures
        r@ == match_skills_payload_chars(job_description@, cv_content@),
{
    let mut out = String::from_str("{\"job_description\":");
    push_quoted(&mut out, job_description);
    out.append(",\"cv_content\":");
    push_quoted(&mut out, cv_content);
    out.append("}");
    out
}

pub open spec fn salary_payload_chars(
    job_description: Seq<char>,
    location: Option<Seq<char>>,
) -> Seq<char> {
    let loc = match location {
        Some(l) => l,
        None => "France"@,
    };
    "{\"job_description\":"@ + quoted(job_description) + ",\"location\":"@ + quoted(loc) + "}"@
}

/// The body of a salary-analysis request; without a location, France.
pub fn salary_payload(job_description: &str, location: Option<&str>) -> (r: String)
    ensures
        r@ == salary_payload_chars(
            job_description@,
            match location {
                Some(l) => Some(l@),
                None => None,
            },
        ),
{
    let mut out = String::from_str("{\"job_description\":");
    push_quoted(&mut out, job_description);
    out.append(",\"location\":");
    match location {
        Some(l) => {
            push_quoted(&mut out, l);
        },
        None => {
            push_quoted(&mut out, "France");
        },
    }
    out.append("}");
    out
}

pub open spec fn generate_cv_payload_chars(
    cv_content: Seq<char>,
    job_title: Seq<char>,
    company: Seq<char>,
    requirements: Seq<Seq<char>>,
    highlights: Seq<Seq<char>>,
) -> Seq<char> {
    "{\"cv_content\":"@ + quoted(cv_content) + ",\"job_title\":"@ + quoted(job_title)
        + ",\"company\":"@ + quoted(company) + ",\"requirements\":"@ + json_string_list(
        requirements,
    ) + ",\"highlights\":"@ + json_string_list(highlights) + "}"@
}

/// The body of a tailored-CV request, drawn from the synthesized offer and
/// the skills match.
pub fn generate_cv_payload(
    cv_content: &str,
    job_title: &str,
    company: &str,
    requirements: &Vec<String>,
    highlights: &Vec<String>,
) -> (r: String)
    ensures
        r@ == generate_cv_payload_chars(
            cv_content@,
            job_title@,
            company@,
            crate::text::texts_of(requirements@),
            crate::text::texts_of(highlights@),
        ),
{
    let mut out = String::from_str("{\"cv_content\":");
    push_quoted(&mut out, cv_content);
    out.append(",\"job_title\":");
    push_quoted(&mut out, job_title);
    out.append(",\"company\":");
    push_quoted(&mut out, company);
    out.append(",\"requirements\":");
    push_string_list(&mut out, requirements);
    out.append(",\"highlights\":");
    push_string_list(&mut out, highlights);
    out.append("}");
    out
}

pub open spec fn generate_pdf_payload_chars(
    cv_content: Seq<char>,
    name: Seq<char>,
    job_title: Seq<char>,
    company: Seq<char>,
) -> Seq<char> {
    "{\"cv_content\":"@ + quoted(cv_content) + ",\"name\":"@ + quoted(name) + ",\"job_title\":"@
        + quoted(job_title) + ",\"company\":"@ + quoted(company) + "}"@
}

/// The body of a PDF-generation request.
pub fn generate_pdf_payload(cv_content: &str, name: &str, job_title: &str, company: &str) -> (r:
    String)
    ensures
        r@ == generate_pdf_payload_chars(cv_content@, name@, job_title@, company@),
{
    let mut out = String::from_str("{\"cv_content\":");
    push_quoted(&mut out, cv_content);
    out.append(",\"name\":");
    push_quoted(&mut out, name);
    out.append(",\"job_title\":");
    push_quoted(&mut out, job_title);
    out.append(",\"company\":");
    push_quoted(&mut out, company);
    out.append("}");
    out
}

pub open spec fn pdf_payload_chars(pdf_base64: Seq<char>) -> Seq<char> {
    "{\"pdf_base64\":"@ + quoted(pdf_base64) + "}"@
}

/// The body of a PDF-extraction request.
pub fn pdf_payload(pdf_base64: &str) -> (r: String)
    ensures
        r@ == pdf_payload_chars(pdf_base64@),
{
    let mut out = String::from_str("{\"pdf_base64\":");
    push_quoted(&mut out, pdf_base64);
    out.append("}");
    out
}

// ---------------------------------------------------------------------------
// Domain results, as the HTTP server sends them. Unlike the framed client's,
// several members here are optional with defaults: a missing list reads as
// empty, a missing text as empty, a missing currency as EUR.
// ---------------------------------------------------------------------------

/// A job offer, synthesized from its free-text description.
pub struct JobSynthesis {
    pub title: String,
    pub company: String,
    pub location: String,
    pub contract_type: String,
    pub key_requirements: Vec<String>,
    pub responsibilities: Vec<String>,
    pub benefits: Vec<String>,
    pub salary_range: Option<String>,
    pub summary: String,
}

pub struct MatchedSkill {
    pub skill: String,
    pub cv_level: String,
    pub required: String,
    pub is_match: bool,
}

pub struct MissingSkill {
    pub skill: String,
    pub importance: String,
}

pub struct SkillsMatch {
    pub match_score: u32,
    pub matched_skills: Vec<MatchedSkill>,
    pub missing_skills: Vec<MissingSkill>,
    pub highlights: Vec<String>,
    pub recommendations: Vec<String>,
}

pub struct SalaryAnalysis {
    pub offered_min: Option<u32>,
    pub offered_max: Option<u32>,
    pub market_low: u32,
    pub market_median: u32,
    pub market_high: u32,
    pub currency: String,
    pub analysis: String,
    pub negotiation_tips: Vec<String>,
}

/// The default currency where the server names none.
pub fn default_currency() -> (r: String)
    ensures
        r@ == "EUR"@,
{
    String::from_str("EUR")
}

pub struct GeneratedCv {
    pub latex_content: String,
    pub cv_text: String,
    pub adaptations: Vec<String>,
    pub summary: String,
}

impl GeneratedCv {
    /// The CV content: the plain text when there is any, else the LaTeX.
    pub fn get_content(&self) -> (r: &str)
        ensures
            r@ == if self.cv_text@.len() > 0 {
                self.cv_text@
            } else {
                self.latex_content@
            },
    {
        if !self.cv_text.as_str().is_empty() {
            self.cv_text.as_str()
        } else {
            self.latex_content.as_str()
        }
    }
}

// ---------------------------------------------------------------------------
// Reading the documents into those types, member by member.
// ---------------------------------------------------------------------------

/// A list member with a default: missing reads as the empty list, present
/// must be an array of strings.
pub open spec fn def_strings_wf(v: JsonValue, key: Seq<char>) -> bool {
    match spec_lookup(v, key) {
        None => true,
        Some(JsonValue::Arr(items)) => all_strings(items@),
        Some(_) => false,
    }
}

pub open spec fn def_strings_are(v: JsonValue, key: Seq<char>, out: Seq<String>) -> bool {
    match spec_lookup(v, key) {
        None => out.len() == 0,
        Some(JsonValue::Arr(items)) => all_strings(items@) && out == string_values(items@),
        Some(_) => false,
    }
}

/// A text member with a default: missing reads as the empty text.
pub open spec fn def_string_wf(v: JsonValue, key: Seq<char>) -> bool {
    match spec_lookup(v, key) {
        None => true,
        Some(JsonValue::Str(_)) => true,
        Some(_) => false,
    }
}

pub open spec fn def_string_is(v: JsonValue, key: Seq<char>, out: String) -> bool {
    match spec_lookup(v, key) {
        None => out@.len() == 0,
        Some(JsonValue::Str(s)) => out == s,
        Some(_) => false,
    }
}

/// A number member with a default: missing reads as zero.
pub open spec fn def_u32_wf(v: JsonValue, key: Seq<char>) -> bool {
    match spec_lookup(v, key) {
        None => true,
        Some(JsonValue::UInt(n)) => n <= u32::MAX,
        Some(_) => false,
    }
}

pub open spec fn def_u32_is(v: JsonValue, key: Seq<char>, out: u32) -> bool {
    match spec_lookup(v, key) {
        None => out == 0,
        Some(JsonValue::UInt(n)) => n <= u32::MAX && out == n,
        Some(_) => false,
    }
}

/// Reads a list of strings with the empty default.
fn get_def_strings(v: &JsonValue, key: &str) -> (r: Option<Vec<String>>)
    ensures
        match r {
            Some(out) => def_strings_wf(*v, key@) && def_strings_are(*v, key@, out@),
            None => !def_strings_wf(*v, key@),
        },
{
    match v.lookup(key) {
        None => Some(Vec::new()),
        Some(_) => v.get_strings(key),
    }
}

/// Reads a text with the empty default.
fn get_def_string(v: &JsonValue, key: &str) -> (r: Option<String>)
    ensures
        match r {
            Some(out) => def_string_wf(*v, key@) && def_string_is(*v, key@, out),
            None => !def_string_wf(*v, key@),
        },
{
    match v.lookup(key) {
        None => Some(String::new()),
        Some(_) => v.get_string(key),
    }
}

/// Reads a number with the zero default.
fn get_def_u32(v: &JsonValue, key: &str) -> (r: Option<u32>)
    ensures
        match r {
            Some(out) => def_u32_wf(*v, key@) && def_u32_is(*v, key@, out),
            None => !def_u32_wf(*v, key@),
        },
{
    match v.lookup(key) {
        None => Some(0),
        Some(_) => v.get_u32(key),
    }
}

pub open spec fn c_job_synthesis_wf(v: JsonValue) -> bool {
    &&& string_member(v, "title"@) is Some
    &&& string_member(v, "company"@) is Some
    &&& string_member(v, "location"@) is Some
    &&& string_member(v, "contract_type"@) is Some
    &&& strings_member(v, "key_requirements"@) is Some
    &&& def_strings_wf(v, "responsibilities"@)
    &&& def_strings_wf(v, "benefits"@)
    &&& opt_string_member(v, "salary_range"@) is Some
    &&& string_member(v, "summary"@) is Some
}

pub open spec fn is_c_job_synthesis_of(v: JsonValue, j: JobSynthesis) -> bool {
    &&& string_member(v, "title"@) == Some(j.title)
    &&& string_member(v, "company"@) == Some(j.company)
    &&& string_member(v, "location"@) == Some(j.location)
    &&& string_member(v, "contract_type"@) == Some(j.contract_type)
    &&& strings_member(v, "key_requirements"@) == Some(j.key_requirements@)
    &&& def_strings_are(v, "responsibilities"@, j.responsibilities@)
    &&& def_strings_are(v, "benefits"@, j.benefits@)
    &&& opt_string_member(v, "salary_range"@) == Some(j.salary_range)
    &&& string_member(v, "summary"@) == Some(j.summary)
}

/// Reads a synthesized job offer out of a server document.
pub fn c_job_synthesis_from_json(v: &JsonValue) -> (r: Option<JobSynthesis>)
    ensures
        match r {
            Some(j) => c_job_synthesis_wf(*v) && is_c_job_synthesis_of(*v, j),
            None => !c_job_synthesis_wf(*v),
        },
{
    let title = match v.get_string("title") {
        Some(x) => x,
        None => {
            return None;
        },
    };
    let company = match v.get_string("company") {
        Some(x) => x,
        None => {
            return None;
        },
    };
    let location = match v.get_string("location") {
        Some(x) => x,
        None => {
            return None;
        },
    };
    let contract_type = match v.get_string("contract_type") {
        Some(x) => x,
        None => {
            return None;
        },
    };
    let key_requirements = match v.get_strings("key_requirements") {
        Some(x) => x,
        None => {
            return None;
        },
    };
    let responsibilities = match get_def_strings(v, "responsibilities") {
        Some(x) => x,
        None => {
            return None;
        },
    };
    let benefits = match get_def_strings(v, "benefits") {
        Some(x) => x,
        None => {
            return None;
        },
    };
    let salary_range = match v.get_opt_string("salary_range") {
        Some(x) => x,
        None => {
            return None;
        },
    };
    let summary = match v.get_string("summary") {
        Some(x) => x,
        None => {
            return None;
        },
    };
    Some(
        JobSynthesis {
            title,
            company,
            location,
            contract_type,
            key_requirements,
            responsibilities,
            benefits,
            salary_range,
            summary,
        },
    )
}

/// One matched skill: the name is required, the levels default to empty and
/// the match flag to false.
pub open spec fn c_matched_skill_wf(x: JsonValue) -> bool {
    &&& string_member(x, "skill"@) is Some
    &&& def_string_wf(x, "cv_level"@)
    &&& def_string_wf(x, "required"@)
    &&& (match spec_lookup(x, "match"@) {
        None => true,
        Some(JsonValue::Bool(_)) => true,
        Some(_) => false,
    })
}

pub open spec fn is_c_matched_skill_of(x: JsonValue, m: MatchedSkill) -> bool {
    &&& string_member(x, "skill"@) == Some(m.skill)
    &&& def_string_is(x, "cv_level"@, m.cv_level)
    &&& def_string_is(x, "required"@, m.required)
    &&& (match spec_lookup(x, "match"@) {
        None => m.is_match == false,
        Some(JsonValue::Bool(b)) => m.is_match == b,
        Some(_) => false,
    })
}

fn c_matched_skill_from_json(x: &JsonValue) -> (r: Option<MatchedSkill>)
    ensures
        match r {
            Some(m) => c_matched_skill_wf(*x) && is_c_matched_skill_of(*x, m),
            None => !c_matched_skill_wf(*x),
        },
{
    let skill = match x.get_string("skill") {
        Some(s) => s,
        None => {
            return None;
        },
    };
    let cv_level = match get_def_string(x, "cv_level") {
        Some(s) => s,
        None => {
            return None;
        },
    };
    let required = match get_def_string(x, "required") {
        Some(s) => s,
        None => {
            return None;
        },
    };
    let is_match = match x.lookup("match") {
        None => false,
        Some(mv) => match mv {
            JsonValue::Bool(b) => *b,
            _ => {
                return None;
            },
        },
    };
    Some(MatchedSkill { skill, cv_level, required, is_match })
}

/// One missing skill: the name is required, the importance defaults empty.
pub open spec fn c_missing_skill_wf(x: JsonValue) -> bool {
    &&& string_member(x, "skill"@) is Some
    &&& def_string_wf(x, "importance"@)
}

pub open spec fn is_c_missing_skill_of(x: JsonValue, m: MissingSkill) -> bool {
    &&& string_member(x, "skill"@) == Some(m.skill)
    &&& def_string_is(x, "importance"@, m.importance)
}

fn c_missing_skill_from_json(x: &JsonValue) -> (r: Option<MissingSkill>)
    ensures
        match r {
            Some(m) => c_missing_skill_wf(*x) && is_c_missing_skill_of(*x, m),
            None => !c_missing_skill_wf(*x),
        },
{
    let skill = match x.get_string("skill") {
        Some(s) => s,
        None => {
            return None;
        },
    };
    let importance = match get_def_string(x, "importance") {
        Some(s) => s,
        None => {
            return None;
        },
    };
    Some(MissingSkill { skill, importance })
}

pub open spec fn c_all_matched(items: Seq<JsonValue>) -> bool {
    forall|i: int| 0 <= i < items.len() ==> c_matched_skill_wf(#[trigger] items[i])
}

pub open spec fn c_matched_list_is(items: Seq<JsonValue>, out: Seq<MatchedSkill>) -> bool {
    out.len() == items.len() && forall|i: int|
        0 <= i < items.len() ==> is_c_matched_skill_of(#[trigger] items[i], out[i])
}

pub open spec fn c_all_missing(items: Seq<JsonValue>) -> bool {
    forall|i: int| 0 <= i < items.len() ==> c_missing_skill_wf(#[trigger] items[i])
}

pub open spec fn c_missing_list_is(items: Seq<JsonValue>, out: Seq<MissingSkill>) -> bool {
    out.len() == items.len() && forall|i: int|
        0 <= i < items.len() ==> is_c_missing_skill_of(#[trigger] items[i], out[i])
}

/// The matched-skills list member: missing reads as empty.
pub open spec fn c_matched_member_wf(v: JsonValue, key: Seq<char>) -> bool {
    match spec_lookup(v, key) {
        None => true,
        Some(JsonValue::Arr(items)) => c_all_matched(items@),
        Some(_) => false,
    }
}

pub open spec fn c_matched_member_is(v: JsonValue, key: Seq<char>, out: Seq<MatchedSkill>) -> bool {
    match spec_lookup(v, key) {
        None => out.len() == 0,
        Some(JsonValue::Arr(items)) => c_matched_list_is(items@, out),
        Some(_) => false,
    }
}

pub open spec fn c_missing_member_wf(v: JsonValue, key: Seq<char>) -> bool {
    match spec_lookup(v, key) {
        None => true,
        Some(JsonValue::Arr(items)) => c_all_missing(items@),
        Some(_) => false,
    }
}

pub open spec fn c_missing_member_is(v: JsonValue, key: Seq<char>, out: Seq<MissingSkill>) -> bool {
    match spec_lookup(v, key) {
        None => out.len() == 0,
        Some(JsonValue::Arr(items)) => c_missing_list_is(items@, out),
        Some(_) => false,
    }
}

pub open spec fn c_skills_match_wf(v: JsonValue) -> bool {
    &&& u32_member(v, "match_score"@) is Some
    &&& c_matched_member_wf(v, "matched_skills"@)
    &&& c_missing_member_wf(v, "missing_skills"@)
    &&& def_strings_wf(v, "highlights"@)
    &&& def_strings_wf(v, "recommendations"@)
}

pub open spec fn is_c_skills_match_of(v: JsonValue, j: SkillsMatch) -> bool {
    &&& u32_member(v, "match_score"@) == Some(j.match_score)
    &&& c_matched_member_is(v, "matched_skills"@, j.matched_skills@)
    &&& c_missing_member_is(v, "missing_skills"@, j.missing_skills@)
    &&& def_strings_are(v, "highlights"@, j.highlights@)
    &&& def_strings_are(v, "recommendations"@, j.recommendations@)
}

/// Reads a skills match out of a server document.
#[verifier::loop_isolation(false)]
pub fn c_skills_match_from_json(v: &JsonValue) -> (r: Option<SkillsMatch>)
    ensures
        match r {
            Some(j) => c_skills_match_wf(*v) && is_c_skills_match_of(*v, j),
            None => !c_skills_match_wf(*v),
        },
{
    let match_score = match v.get_u32("match_score") {
        Some(x) => x,
        None => {
            return None;
        },
    };
    let matched_skills: Vec<MatchedSkill> = match v.lookup("matched_skills") {
        None => Vec::new(),
        Some(m) => match m.as_array() {
            Some(items) => {
                let mut out: Vec<MatchedSkill> = Vec::new();
                let mut j: usize = 0;
                while j < items.len()
                    invariant
                        0 <= j <= items@.len(),
                        out@.len() == j,
                        forall|k: int|
                            0 <= k < j ==> c_matched_skill_wf(#[trigger] items@[k])
                                && is_c_matched_skill_of(items@[k], out@[k]),
                    decreases items@.len() - j,
                {
                    match c_matched_skill_from_json(&items[j]) {
                        Some(ms) => {
                            out.push(ms);
                        },
                        None => {
                            return None;
                        },
                    }
                    j = j + 1;
                }
                out
            },
            None => {
                return None;
            },
        },
    };
    let missing_skills: Vec<MissingSkill> = match v.lookup("missing_skills") {
        None => Vec::new(),
        Some(m) => match m.as_array() {
            Some(items) => {
                let mut out: Vec<MissingSkill> = Vec::new();
                let mut j: usize = 0;
                while j < items.len()
                    invariant
                        0 <= j <= items@.len(),
                        out@.len() == j,
                        forall|k: int|
                            0 <= k < j ==> c_missing_skill_wf(#[trigger] items@[k])
                                && is_c_missing_skill_of(items@[k], out@[k]),
                    decreases items@.len() - j,
                {
                    match c_missing_skill_from_json(&items[j]) {
                        Some(ms) => {
                            out.push(ms);
                        },
                        None => {
                            return None;
                        },
                    }
                    j = j + 1;
                }
                out
            },
            None => {
                return None;
            },
        },
    };
    let highlights = match get_def_strings(v, "highlights") {
        Some(x) => x,
        None => {
            return None;
        },
    };
    let recommendations = match get_def_strings(v, "recommendations") {
        Some(x) => x,
        None => {
            return None;
        },
    };
    Some(SkillsMatch { match_score, matched_skills, missing_skills, highlights, recommendations })
}

pub open spec fn c_salary_analysis_wf(v: JsonValue) -> bool {
    &&& opt_u32_member(v, "offered_min"@) is Some
    &&& opt_u32_member(v, "offered_max"@) is Some
    &&& def_u32_wf(v, "market_low"@)
    &&& def_u32_wf(v, "market_median"@)
    &&& def_u32_wf(v, "market_high"@)
    &&& def_string_wf(v, "currency"@)
    &&& def_string_wf(v, "analysis"@)
    &&& def_strings_wf(v, "negotiation_tips"@)
}

pub open spec fn is_c_salary_analysis_of(v: JsonValue, j: SalaryAnalysis) -> bool {
    &&& opt_u32_member(v, "offered_min"@) == Some(j.offered_min)
    &&& opt_u32_member(v, "offered_max"@) == Some(j.offered_max)
    &&& def_u32_is(v, "market_low"@, j.market_low)
    &&& def_u32_is(v, "market_median"@, j.market_median)
    &&& def_u32_is(v, "market_high"@, j.market_high)
    &&& (match spec_lookup(v, "currency"@) {
        None => j.currency@ == "EUR"@,
        Some(JsonValue::Str(s)) => j.currency == s,
        Some(_) => false,
    })
    &&& def_string_is(v, "analysis"@, j.analysis)
    &&& def_strings_are(v, "negotiation_tips"@, j.negotiation_tips@)
}

/// Reads a salary analysis out of a server document.
pub fn c_salary_analysis_from_json(v: &JsonValue) -> (r: Option<SalaryAnalysis>)
    ensures
        match r {
            Some(j) => c_salary_analysis_wf(*v) && is_c_salary_analysis_of(*v, j),
            None => !c_salary_analysis_wf(*v),
        },
{
    let offered_min = match v.get_opt_u32("offered_min") {
        Some(x) => x,
        None => {
            return None;
        },
    };
    let offered_max = match v.get_opt_u32("offered_max") {
        Some(x) => x,
        None => {
            return None;
        },
    };
    let market_low = match get_def_u32(v, "market_low") {
        Some(x) => x,
        None => {
            return None;
        },
    };
    let market_median = match get_def_u32(v, "market_median") {
        Some(x) => x,
        None => {
            return None;
        },
    };
    let market_high = match get_def_u32(v, "market_high") {
        Some(x) => x,
        None => {
            return None;
        },
    };
    let currency = match v.lookup("currency") {
        None => default_currency(),
        Some(cv) => match cv.as_str() {
            Some(s) => s.clone(),
            None => {
                return None;
            },
        },
    };
    let analysis = match get_def_string(v, "analysis") {
        Some(x) => x,
        None => {
            return None;
        },
    };
    let negotiation_tips = match get_def_strings(v, "negotiation_tips") {
        Some(x) => x,
        None => {
            return None;
        },
    };
    Some(
        SalaryAnalysis {
            offered_min,
            offered_max,
            market_low,
            market_median,
            market_high,
            currency,
            analysis,
            negotiation_tips,
        },
    )
}

pub open spec fn c_generated_cv_wf(v: JsonValue) -> bool {
    &&& def_string_wf(v, "latex_content"@)
    &&& def_string_wf(v, "cv_text"@)
    &&& def_strings_wf(v, "adaptations"@)
    &&& def_string_wf(v, "summary"@)
}

pub open spec fn is_c_generated_cv_of(v: JsonValue, j: GeneratedCv) -> bool {
    &&& def_string_is(v, "latex_content"@, j.latex_content)
    &&& def_string_is(v, "cv_text"@, j.cv_text)
    &&& def_strings_are(v, "adaptations"@, j.adaptations@)
    &&& def_string_is(v, "summary"@, j.summary)
}

/// Reads a generated CV out of a server document; every member defaults.
pub fn c_generated_cv_from_json(v: &JsonValue) -> (r: Option<GeneratedCv>)
    ensures
        match r {
            Some(j) => c_generated_cv_wf(*v) && is_c_generated_cv_of(*v, j),
            None => !c_generated_cv_wf(*v),
        },
{
    let latex_content = match get_def_string(v, "latex_content") {
        Some(x) => x,
        None => {
            return None;
        },
    };
    let cv_text = match get_def_string(v, "cv_text") {
        Some(x) => x,
        None => {
            return None;
        },
    };
    let adaptations = match get_def_strings(v, "adaptations") {
        Some(x) => x,
        None => {
            return None;
        },
    };
    let summary = match get_def_string(v, "summary") {
        Some(x) => x,
        None => {
            return None;
        },
    };
    Some(GeneratedCv { latex_content, cv_text, adaptations, summary })
}

// ---------------------------------------------------------------------------
// Deciding the server's reply documents. An `error` member that is a string
// is the server reporting failure; a `raw_response` member means the server
// could not produce the structured document.
// ---------------------------------------------------------------------------

/// Decides a generic prompt reply: a reported error fails, a `response`
/// string is the answer, and anything else is handed back pretty-printed.
pub fn prompt_reply(data: &JsonValue) -> (r: Result<String, ClaudeError>)
    ensures
        match r {
            Ok(s) => string_member(*data, "error"@) is None && (match string_member(
                *data,
                "response"@,
            ) {
                Some(x) => s == x,
                None => s@ == json_pretty_chars(*data),
            }),
            Err(e) => (e matches ClaudeError::Api(m) && string_member(*data, "error"@) == Some(m)),
        },
{
    match data.get_string("error") {
        Some(e) => {
            return Err(ClaudeError::Api(e));
        },
        None => {},
    }
    match data.get_string("response") {
        Some(s) => Ok(s),
        None => Ok(json_text_pretty(data)),
    }
}

/// Decides a job-synthesis reply: a reported error fails with it; a raw
/// fallback fails as unparsed; otherwise the document must have the demanded
/// shape.
pub fn http_synthesis_reply(data: &JsonValue) -> (r: Result<JobSynthesis, ClaudeError>)
    ensures
        match r {
            Ok(j) => string_member(*data, "error"@) is None && spec_lookup(*data, "raw_response"@)
                is None && is_c_job_synthesis_of(*data, j),
            Err(e) => match string_member(*data, "error"@) {
                Some(m) => e == ClaudeError::Api(m),
                None => {
                    if spec_lookup(*data, "raw_response"@) is Some {
                        e matches ClaudeError::Api(m) && m@ == "Failed to parse job synthesis"@
                    } else {
                        e is Json && !c_job_synthesis_wf(*data)
                    }
                },
            },
        },
{
    match data.get_string("error") {
        Some(e) => {
            return Err(ClaudeError::Api(e));
        },
        None => {},
    }
    match data.lookup("raw_response") {
        Some(_) => {
            return Err(ClaudeError::Api(String::from_str("Failed to parse job synthesis")));
        },
        None => {},
    }
    match c_job_synthesis_from_json(data) {
        Some(j) => Ok(j),
        None => Err(
            ClaudeError::Json(String::from_str("job synthesis document of unexpected shape")),
        ),
    }
}

/// Decides a skills-match reply, as `http_synthesis_reply` decides its own.
pub fn http_skills_reply(data: &JsonValue) -> (r: Result<SkillsMatch, ClaudeError>)
    ensures
        match r {
            Ok(j) => string_member(*data, "error"@) is None && spec_lookup(*data, "raw_response"@)
                is None && is_c_skills_match_of(*data, j),
            Err(e) => match string_member(*data, "error"@) {
                Some(m) => e == ClaudeError::Api(m),
                None => {
                    if spec_lookup(*data, "raw_response"@) is Some {
                        e matches ClaudeError::Api(m) && m@ == "Failed to parse skills match"@
                    } else {
                        e is Json && !c_skills_match_wf(*data)
                    }
                },
            },
        },
{
    match data.get_string("error") {
        Some(e) => {
            return Err(ClaudeError::Api(e));
        },
        None => {},
    }
    match data.lookup("raw_response") {
        Some(_) => {
            return Err(ClaudeError::Api(String::from_str("Failed to parse skills match")));
        },
        None => {},
    }
    match c_skills_match_from_json(data) {
        Some(j) => Ok(j),
        None => Err(
            ClaudeError::Json(String::from_str("skills match document of unexpected shape")),
        ),
    }
}

/// Decides a salary-analysis reply, the same way.
pub fn http_salary_reply(data: &JsonValue) -> (r: Result<SalaryAnalysis, ClaudeError>)
    ensures
        match r {
            Ok(j) => string_member(*data, "error"@) is None && spec_lookup(*data, "raw_response"@)
                is None && is_c_salary_analysis_of(*data, j),
            Err(e) => match string_member(*data, "error"@) {
                Some(m) => e == ClaudeError::Api(m),
                None => {
                    if spec_lookup(*data, "raw_response"@) is Some {
                        e matches ClaudeError::Api(m) && m@ == "Failed to parse salary analysis"@
                    } else {
                        e is Json && !c_salary_analysis_wf(*data)
                    }
                },
            },
        },
{
    match data.get_string("error") {
        Some(e) => {
            return Err(ClaudeError::Api(e));
        },
        None => {},
    }
    match data.lookup("raw_response") {
        Some(_) => {
            return Err(ClaudeError::Api(String::from_str("Failed to parse salary analysis")));
        },
        None => {},
    }
    match c_salary_analysis_from_json(data) {
        Some(j) => Ok(j),
        None => Err(
            ClaudeError::Json(String::from_str("salary analysis document of unexpected shape")),
        ),
    }
}

/// Decides a tailored-CV reply. Here a raw fallback is not a failure: the
/// raw text becomes the CV content, marked as unparsed.
pub fn http_cv_reply(data: &JsonValue) -> (r: Result<GeneratedCv, ClaudeError>)
    ensures
        match r {
            Ok(j) => string_member(*data, "error"@) is None && (match string_member(
                *data,
                "raw_response"@,
            ) {
                Some(raw) => j.latex_content@.len() == 0 && j.cv_text == raw
                    && j.adaptations@.len() == 1 && j.adaptations@[0]@ == "CV généré (format brut)"@
                    && j.summary@ == "Le CV a été généré mais le parsing a échoué."@,
                None => is_c_generated_cv_of(*data, j),
            }),
            Err(e) => match string_member(*data, "error"@) {
                Some(m) => e == ClaudeError::Api(m),
                None => e is Json && string_member(*data, "raw_response"@) is None
                    && !c_generated_cv_wf(*data),
            },
        },
{
    match data.get_string("error") {
        Some(e) => {
            return Err(ClaudeError::Api(e));
        },
        None => {},
    }
    match data.get_string("raw_response") {
        Some(raw) => {
            let mut adaptations: Vec<String> = Vec::new();
            adaptations.push(String::from_str("CV généré (format brut)"));
            return Ok(
                GeneratedCv {
                    latex_content: String::new(),
                    cv_text: raw,
                    adaptations,
                    summary: String::from_str("Le CV a été généré mais le parsing a échoué."),
                },
            );
        },
        None => {},
    }
    match c_generated_cv_from_json(data) {
        Some(j) => Ok(j),
        None => Err(
            ClaudeError::Json(String::from_str("generated CV document of unexpected shape")),
        ),
    }
}

/// Decides a PDF-extraction reply: a reported non-empty error fails; the
/// success flag (absent or non-boolean reads as false) must be set; the
/// extracted text defaults to empty.
pub fn extract_pdf_reply(data: &JsonValue) -> (r: Result<String, ClaudeError>)
    ensures
        ({
            let err = string_member(*data, "error"@);
            let success = match spec_lookup(*data, "success"@) {
                Some(JsonValue::Bool(b)) => b,
                _ => false,
            };
            match r {
                Ok(s) => (err is None || (err matches Some(m) && m@.len() == 0)) && success && (
                match string_member(*data, "text"@) {
                    Some(t) => s == t,
                    None => s@.len() == 0,
                }),
                Err(e) => match err {
                    Some(m) => (m@.len() > 0 || !success) && e == ClaudeError::Api(m),
                    None => !success && (e matches ClaudeError::Api(m2) && m2@
                        == "Unknown error"@),
                },
            }
        }),
{
    match data.get_string("error") {
        Some(e) => {
            if !e.as_str().is_empty() {
                return Err(ClaudeError::Api(e));
            }
        },
        None => {},
    }
    let success = match data.lookup("success") {
        Some(sv) => match sv {
            JsonValue::Bool(b) => *b,
            _ => false,
        },
        None => false,
    };
    if !success {
        let msg = match data.get_string("error") {
            Some(e) => e,
            None => String::from_str("Unknown error"),
        };
        return Err(ClaudeError::Api(msg));
    }
    match data.get_string("text") {
        Some(t) => Ok(t),
        None => Ok(String::new()),
    }
}

// ---------------------------------------------------------------------------
// PDF bytes come base64-encoded.
// ---------------------------------------------------------------------------

/// What the standard base64 alphabet (strict, with padding) decodes a text
/// to; None where the text is not valid base64. This is the outside
/// decoder's behaviour, named rather than restated.
pub uninterp spec fn base64_decoded(s: Seq<char>) -> Option<Seq<u8>>;

/// Relies on base64's STANDARD engine: strict decoding of the standard
/// alphabet with padding, a function of the text alone.
#[verifier::external_body]
fn decode_base64(s: &str) -> (r: Result<Vec<u8>, String>)
    ensures
        (r is Ok) == (base64_decoded(s@) is Some),
        r matches Ok(v) ==> base64_decoded(s@) == Some(v@),
{
    match base64::engine::general_purpose::STANDARD.decode(s) {
        Ok(v) => Ok(v),
        Err(e) => Err(e.to_string()),
    }
}

/// How a PDF-generation reply fails once the error and success checks have
/// passed: the member holding the PDF is missing, or its text does not
/// decode as base64.
pub open spec fn pdf_member_failure(data: JsonValue, e: ClaudeError) -> bool {
    match string_member(data, "pdf_base64"@) {
        None => e matches ClaudeError::Api(m) && m@ == "Missing pdf_base64 in response"@,
        Some(p) => base64_decoded(p@) is None && (e matches ClaudeError::Api(m) && m@.len() >= 22
            && m@.subrange(0, 22) == "Failed to decode PDF: "@),
    }
}

/// Decides a PDF-generation reply: a reported non-empty error fails with it;
/// the success flag (absent or non-boolean reads as false) must be set; the
/// document must carry the PDF as base64, which is decoded to the bytes.
pub fn generate_pdf_reply(data: &JsonValue) -> (r: Result<Vec<u8>, ClaudeError>)
    ensures
        ({
            let err = string_member(*data, "error"@);
            let success = match spec_lookup(*data, "success"@) {
                Some(JsonValue::Bool(b)) => b,
                _ => false,
            };
            match r {
                Ok(bytes) => (err is None || (err matches Some(m) && m@.len() == 0)) && success && (
                string_member(*data, "pdf_base64"@) matches Some(p) && base64_decoded(p@) == Some(
                    bytes@,
                )),
                Err(e) => match err {
                    Some(m0) => {
                        if m0@.len() > 0 || !success {
                            e == ClaudeError::Api(m0)
                        } else {
                            pdf_member_failure(*data, e)
                        }
                    },
                    None => {
                        if !success {
                            (e matches ClaudeError::Api(m2) && m2@ == "PDF generation failed"@)
                        } else {
                            pdf_member_failure(*data, e)
                        }
                    },
                },
            }
        }),
{
    match data.get_string("error") {
        Some(e) => {
            if !e.as_str().is_empty() {
                return Err(ClaudeError::Api(e));
            }
        },
        None => {},
    }
    let success = match data.lookup("success") {
        Some(sv) => match sv {
            JsonValue::Bool(b) => *b,
            _ => false,
        },
        None => false,
    };
    if !success {
        let msg = match data.get_string("error") {
            Some(e) => e,
            None => String::from_str("PDF generation failed"),
        };
        return Err(ClaudeError::Api(msg));
    }
    let pdf_base64 = match data.get_string("pdf_base64") {
        Some(p) => p,
        None => {
            return Err(ClaudeError::Api(String::from_str("Missing pdf_base64 in response")));
        },
    };
    match decode_base64(pdf_base64.as_str()) {
        Ok(bytes) => Ok(bytes),
        Err(e) => {
            let mut m = String::from_str("Failed to decode PDF: ");
            m.append(e.as_str());
            proof {
                reveal_strlit("Failed to decode PDF: ");
                assert(m@.subrange(0, 22) =~= "Failed to decode PDF: "@);
            }
            Err(ClaudeError::Api(m))
        },
    }
}

} // verus!
