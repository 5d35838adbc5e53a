//! The protocol client: a session over one framed JSON-RPC connection to a
//! remote AI-agent process. The client itself is a state machine that
//! allocates request ids and produces the exact bytes to write; the caller
//! owns the transport, writes what the client hands it, and feeds read
//! replies back in.

use vstd::prelude::*;
use vstd::string::*;
use vstd::utf8::encode_utf8;
use crate::frame::{encode_message, framed};
use crate::json::quoted;
use crate::rpc::{request_chars, notification_chars, request_text, notification_text, McpError};
use crate::extract::{extract_json_from_response, spec_extract_json};
use crate::json::{parse_json, json_document_of};
use crate::text::{join_strings, join_with, texts_of};
use crate::text::push_char;
use crate::json::{JsonValue, spec_lookup};
use crate::fields::{string_member, opt_string_member, u32_member, opt_u32_member, bool_member, strings_member, array_member};

verus! {

// ---------------------------------------------------------------------------
// Escaping a prompt into a remote shell command.
// ---------------------------------------------------------------------------

/// The characters the remote shell would interpret inside double quotes.
pub open spec fn shell_special(c: char) -> bool {
    c == '\\' || c == '"' || c == '$' || c == '`'
}

/// One character as it reads inside the double-quoted remote command: a
/// backslash before backslash, double quote, dollar sign and backtick.
pub open spec fn shell_escaped_char(c: char) -> Seq<char> {
    if shell_special(c) {
        seq!['\\', c]
    } else {
        seq![c]
    }
}

pub open spec fn shell_escape_chars(s: Seq<char>) -> Seq<char>
    decreases s.len(),
{
    if s.len() == 0 {
        Seq::empty()
    } else {
        shell_escaped_char(s[0]) + shell_escape_chars(s.drop_first())
    }
}

proof fn lemma_shell_escape_push(t: Seq<char>, c: char)
    ensures
        shell_escape_chars(t.push(c)) == shell_escape_chars(t) + shell_escaped_char(c),
    decreases t.len(),
{
    if t.len() == 0 {
        assert(t.push(c)[0] == c);
        assert(t.push(c).drop_first() =~= Seq::<char>::empty());
        assert(shell_escape_chars(t.push(c)) =~= shell_escaped_char(c) + shell_escape_chars(
            Seq::<char>::empty(),
        ));
        assert(shell_escaped_char(c) + Seq::<char>::empty() =~= shell_escaped_char(c));
        assert(shell_escape_chars(t) =~= Seq::<char>::empty());
        assert(Seq::<char>::empty() + shell_escaped_char(c) =~= shell_escaped_char(c));
    } else {
        assert(t.push(c).drop_first() =~= t.drop_first().push(c));
        lemma_shell_escape_push(t.drop_first(), c);
        assert(shell_escape_chars(t.push(c)) =~= shell_escape_chars(t) + shell_escaped_char(c));
    }
}

/// Escapes a prompt for safe embedding inside the double-quoted remote shell
/// command: `shell_escape_chars`.
#[verifier::loop_isolation(false)]
pub fn escape_prompt(s: &str) -> (r: String)
    ensures
        r@ == shell_escape_chars(s@),
{
    let n = s.unicode_len();
    let mut out = String::new();
    let mut i: usize = 0;
    while i < n
        invariant
            0 <= i <= n == s@.len(),
            out@ == shell_escape_chars(s@.take(i as int)),
        decreases n - i,
    {
        let c = s.get_char(i);
        if c == '\\' || c == '"' || c == '$' || c == '`' {
            push_char(&mut out, '\\');
        }
        push_char(&mut out, c);
        proof {
            assert(s@.take(i + 1) =~= s@.take(i as int).push(c));
            lemma_shell_escape_push(s@.take(i as int), c);
            assert(out@ =~= shell_escape_chars(s@.take(i + 1)));
        }
        i = i + 1;
    }
    proof {
        assert(s@.take(n as int) =~= s@);
    }
    out
}

// ---------------------------------------------------------------------------
// The remote command and the tool-call params.
// ---------------------------------------------------------------------------

/// The remote shell command that runs the deployment's AI command-line
/// client — `cli` names its binary — on the escaped prompt, falling back to
/// plain output when JSON output fails.
pub open spec fn prompt_command_chars(cli: Seq<char>, prompt: Seq<char>) -> Seq<char> {
    let e = shell_escape_chars(prompt);
    cli + " -p \""@ + e + "\" --output-format json 2>/dev/null || "@ + cli + " -p \""@ + e + "\""@
}

/// Writes the remote shell command for a prompt.
pub fn prompt_command(cli: &str, prompt: &str) -> (r: String)
    ensures
        r@ == prompt_command_chars(cli@, prompt@),
{
    let escaped = escape_prompt(prompt);
    let mut out = cli.to_owned();
    out.append(" -p \"");
    out.append(escaped.as_str());
    out.append("\" --output-format json 2>/dev/null || ");
    out.append(cli);
    out.append(" -p \"");
    out.append(escaped.as_str());
    out.append("\"");
    out
}

/// The params document of a tools/call request: the tool's name, and its
/// arguments document.
pub open spec fn tool_call_params_chars(name: Seq<char>, arguments: Seq<char>) -> Seq<char> {
    "{\"name\":"@ + quoted(name) + ",\"arguments\":"@ + arguments + "}"@
}

/// Writes tools/call params; `arguments` is the arguments document, already
/// serialized.
pub fn tool_call_params(name: &str, arguments: &str) -> (r: String)
    ensures
        r@ == tool_call_params_chars(name@, arguments@),
{
    let mut out = String::from_str("{\"name\":");
    crate::json::push_quoted(&mut out, name);
    out.append(",\"arguments\":");
    out.append(arguments);
    out.append("}");
    out
}

/// The arguments document that hands the remote Bash tool one command.
pub open spec fn bash_arguments_chars(command: Seq<char>) -> Seq<char> {
    "{\"command\":"@ + quoted(command) + "}"@
}

pub fn bash_arguments(command: &str) -> (r: String)
    ensures
        r@ == bash_arguments_chars(command@),
{
    let mut out = String::from_str("{\"command\":");
    crate::json::push_quoted(&mut out, command);
    out.append("}");
    out
}

/// The params of the initialize request: the protocol version this client
/// speaks, its (empty) tool capabilities, and its name.
pub open spec fn initialize_params_chars() -> Seq<char> {
    "{\"protocolVersion\":\"2024-11-05\",\"capabilities\":{\"tools\":{}},\"clientInfo\":{\"name\":\"discord-cv-bot\",\"version\":\"0.1.0\"}}"@
}

pub fn initialize_params() -> (r: String)
    ensures
        r@ == initialize_params_chars(),
{
    String::from_str(
        "{\"protocolVersion\":\"2024-11-05\",\"capabilities\":{\"tools\":{}},\"clientInfo\":{\"name\":\"discord-cv-bot\",\"version\":\"0.1.0\"}}",
    )
}

// ---------------------------------------------------------------------------
// The session state machine.
// ---------------------------------------------------------------------------

/// Where the session stands. Domain requests may only be built when the
/// session is ready, which the step functions' contracts enforce.
#[derive(Clone, Copy, PartialEq, Eq, Structural, Debug)]
pub enum SessionState {
    /// No usable connection: nothing may be sent until a transport is opened
    /// and the handshake redone.
    Disconnected,
    /// A transport is open and the initialize request is on the wire.
    InitializeSent,
    /// The initialize response has arrived; the initialized notification is
    /// owed before anything else.
    NotifyDue,
    /// The handshake is complete.
    Ready,
}

/// What the caller reports having done or seen on the wire.
pub enum WireEvent {
    SentInitialize,
    InitializeReplyOk,
    InitializeReplyErr,
    SentInitialized,
    SentDomainRequest,
    ConnectionLost,
}

/// The session's transition relation; None is a protocol-order violation,
/// which the step functions below make unreachable.
pub open spec fn session_step(s: SessionState, e: WireEvent) -> Option<SessionState> {
    match (s, e) {
        (SessionState::Disconnected, WireEvent::SentInitialize) => Some(
            SessionState::InitializeSent,
        ),
        (SessionState::InitializeSent, WireEvent::InitializeReplyOk) => Some(
            SessionState::NotifyDue,
        ),
        (SessionState::InitializeSent, WireEvent::InitializeReplyErr) => Some(
            SessionState::Disconnected,
        ),
        (SessionState::NotifyDue, WireEvent::SentInitialized) => Some(SessionState::Ready),
        (SessionState::Ready, WireEvent::SentDomainRequest) => Some(SessionState::Ready),
        (_, WireEvent::ConnectionLost) => Some(SessionState::Disconnected),
        _ => None,
    }
}

/// The protocol client: host and port it was configured with, the monotonic
/// request id counter (starting at 1, never reused), and where the session
/// stands.
pub struct McpClient {
    pub host: String,
    pub port: u16,
    pub next_id: u64,
    pub state: SessionState,
}

/// The endpoint host used where the environment names none.
pub fn default_host() -> (r: String)
    ensures
        r@ == "claudecode"@,
{
    String::from_str("claudecode")
}

/// The port a configuration text names — a plain decimal number that fits —
/// or the default 8080 where the text is missing or unreadable.
pub fn port_or_default(text: Option<&String>) -> (r: u16)
    ensures
        match text {
            None => r == 8080,
            Some(t) => {
                if t@.len() > 0 && crate::text::all_digit_chars(t@) && crate::text::dec_chars_value(
                    t@,
                ) <= u16::MAX {
                    r as nat == crate::text::dec_chars_value(t@)
                } else {
                    r == 8080
                }
            },
        },
{
    match text {
        None => 8080,
        Some(t) => match crate::text::parse_u16(t.as_str()) {
            Some(p) => p,
            None => 8080,
        },
    }
}

/// One request id allocation: `id` is taken and the counter moves past it.
pub open spec fn takes_id(pre: McpClient, post: McpClient, id: u64) -> bool {
    &&& id == pre.next_id
    &&& post.next_id == pre.next_id + 1
    &&& post.host == pre.host
    &&& post.port == pre.port
}

impl McpClient {
    /// A fresh client for the given endpoint: ids start at 1, no connection.
    pub fn new(host: &str, port: u16) -> (r: McpClient)
        ensures
            r.host@ == host@,
            r.port == port,
            r.next_id == 1,
            r.state == SessionState::Disconnected,
    {
        McpClient { host: host.to_owned(), port, next_id: 1, state: SessionState::Disconnected }
    }

    /// Whether a domain call must first connect and shake hands.
    pub fn needs_connect(&self) -> (r: bool)
        ensures
            r == (self.state != SessionState::Ready),
    {
        !matches!(self.state, SessionState::Ready)
    }

    /// Starts the handshake on a freshly opened transport: hands back the
    /// framed initialize request, to be written to the stream.
    pub fn begin_handshake(&mut self) -> (msg: Vec<u8>)
        requires
            old(self).state == SessionState::Disconnected,
            old(self).next_id < u64::MAX,
        ensures
            takes_id(*old(self), *final(self), old(self).next_id),
            session_step(old(self).state, WireEvent::SentInitialize) == Some(final(self).state),
            msg@ == framed(
                encode_utf8(
                    request_chars(
                        old(self).next_id,
                        "initialize"@,
                        Some(initialize_params_chars()),
                    ),
                ),
            ),
    {
        let id = self.next_id;
        self.next_id = self.next_id + 1;
        self.state = SessionState::InitializeSent;
        let params = initialize_params();
        let text = request_text(id, "initialize", Some(&params));
        encode_message(text.as_str())
    }

    /// Feeds back the initialize response's outcome: on success the
    /// initialized notification is owed; on failure the session stays
    /// unusable and the next call must redo the whole handshake.
    pub fn handshake_reply(&mut self, ok: bool)
        requires
            old(self).state == SessionState::InitializeSent,
        ensures
            final(self).next_id == old(self).next_id,
            final(self).host == old(self).host,
            final(self).port == old(self).port,
            session_step(
                old(self).state,
                if ok {
                    WireEvent::InitializeReplyOk
                } else {
                    WireEvent::InitializeReplyErr
                },
            ) == Some(final(self).state),
    {
        if ok {
            self.state = SessionState::NotifyDue;
        } else {
            self.state = SessionState::Disconnected;
        }
    }

    /// The framed initialized notification, owed right after the initialize
    /// response; once it is written the session is ready.
    pub fn initialized_notification(&mut self) -> (msg: Vec<u8>)
        requires
            old(self).state == SessionState::NotifyDue,
        ensures
            final(self).next_id == old(self).next_id,
            final(self).host == old(self).host,
            final(self).port == old(self).port,
            session_step(old(self).state, WireEvent::SentInitialized) == Some(final(self).state),
            msg@ == framed(
                encode_utf8(notification_chars("notifications/initialized"@, None)),
            ),
    {
        self.state = SessionState::Ready;
        let text = notification_text("notifications/initialized", None);
        encode_message(text.as_str())
    }

    /// The stream failed or was found closed: the session is unusable until
    /// a new transport is opened and the handshake redone.
    pub fn connection_lost(&mut self)
        ensures
            final(self).next_id == old(self).next_id,
            final(self).host == old(self).host,
            final(self).port == old(self).port,
            session_step(old(self).state, WireEvent::ConnectionLost) == Some(final(self).state),
    {
        self.state = SessionState::Disconnected;
    }

    /// Builds one domain request: allocates the next id and hands back the
    /// framed envelope. Only a ready session may send domain requests.
    pub fn next_request(&mut self, method: &str, params: Option<&String>) -> (r: (u64, Vec<u8>))
        requires
            old(self).state == SessionState::Ready,
            old(self).next_id < u64::MAX,
        ensures
            takes_id(*old(self), *final(self), r.0),
            session_step(old(self).state, WireEvent::SentDomainRequest) == Some(
                final(self).state,
            ),
            r.1@ == framed(
                encode_utf8(
                    request_chars(
                        r.0,
                        method@,
                        match params {
                            Some(p) => Some(p@),
                            None => None,
                        },
                    ),
                ),
            ),
    {
        let id = self.next_id;
        self.next_id = self.next_id + 1;
        let text = request_text(id, method, params);
        (id, encode_message(text.as_str()))
    }

    /// The tools/list request.
    pub fn list_tools_request(&mut self) -> (r: (u64, Vec<u8>))
        requires
            old(self).state == SessionState::Ready,
            old(self).next_id < u64::MAX,
        ensures
            takes_id(*old(self), *final(self), r.0),
            session_step(old(self).state, WireEvent::SentDomainRequest) == Some(
                final(self).state,
            ),
            r.1@ == framed(encode_utf8(request_chars(r.0, "tools/list"@, None))),
    {
        self.next_request("tools/list", None)
    }

    /// The tools/call request for a named tool with serialized arguments.
    pub fn call_tool_request(&mut self, name: &str, arguments: &str) -> (r: (u64, Vec<u8>))
        requires
            old(self).state == SessionState::Ready,
            old(self).next_id < u64::MAX,
        ensures
            takes_id(*old(self), *final(self), r.0),
            session_step(old(self).state, WireEvent::SentDomainRequest) == Some(
                final(self).state,
            ),
            r.1@ == framed(
                encode_utf8(
                    request_chars(
                        r.0,
                        "tools/call"@,
                        Some(tool_call_params_chars(name@, arguments@)),
                    ),
                ),
            ),
    {
        let params = tool_call_params(name, arguments);
        self.next_request("tools/call", Some(&params))
    }

    /// The tools/call request that runs the deployment's AI command line —
    /// `cli` names its binary — on a prompt, through the remote Bash tool.
    pub fn send_prompt_request(&mut self, cli: &str, prompt: &str) -> (r: (u64, Vec<u8>))
        requires
            old(self).state == SessionState::Ready,
            old(self).next_id < u64::MAX,
        ensures
            takes_id(*old(self), *final(self), r.0),
            session_step(old(self).state, WireEvent::SentDomainRequest) == Some(
                final(self).state,
            ),
            r.1@ == framed(
                encode_utf8(
                    request_chars(
                        r.0,
                        "tools/call"@,
                        Some(
                            tool_call_params_chars(
                                "Bash"@,
                                bash_arguments_chars(prompt_command_chars(cli@, prompt@)),
                            ),
                        ),
                    ),
                ),
            ),
    {
        let command = prompt_command(cli, prompt);
        let arguments = bash_arguments(command.as_str());
        self.call_tool_request("Bash", arguments.as_str())
    }
}

// ---------------------------------------------------------------------------
// Laws of the session.
// ---------------------------------------------------------------------------

/// Request id monotonicity: across any two successive allocations — whatever
/// happened to the session in between, as long as the counter was not
/// touched — the second id is strictly greater than the first. Ids are never
/// reused.
pub proof fn lemma_request_ids_strictly_increase(
    c0: McpClient,
    c1: McpClient,
    c2: McpClient,
    c3: McpClient,
    id1: u64,
    id2: u64,
)
    requires
        takes_id(c0, c1, id1),
        c2.next_id == c1.next_id,
        takes_id(c2, c3, id2),
    ensures
        id2 > id1,
{
}

/// Running a session trace from the start: the state after the events, or
/// None if some event was out of protocol order.
pub open spec fn run_session(events: Seq<WireEvent>) -> Option<SessionState>
    decreases events.len(),
{
    if events.len() == 0 {
        Some(SessionState::Disconnected)
    } else {
        match run_session(events.drop_last()) {
            Some(s) => session_step(s, events.last()),
            None => None,
        }
    }
}

/// What each session state says about the events that led to it: past the
/// initialize request, a state remembers the request; past the response, the
/// response after the request; ready, the notification after both.
pub proof fn lemma_session_history(events: Seq<WireEvent>)
    requires
        run_session(events) is Some,
    ensures
        ({
            let s = run_session(events).unwrap();
            &&& ((s == SessionState::InitializeSent || s == SessionState::NotifyDue || s
                == SessionState::Ready) ==> exists|k: int|
                0 <= k < events.len() && events[k] is SentInitialize)
            &&& ((s == SessionState::NotifyDue || s == SessionState::Ready) ==> exists|j: int|
                0 <= j < events.len() && events[j] is InitializeReplyOk && (exists|k: int|
                    0 <= k < j && events[k] is SentInitialize))
            &&& (s == SessionState::Ready ==> exists|i: int|
                0 <= i < events.len() && events[i] is SentInitialized && (exists|j: int|
                    0 <= j < i && events[j] is InitializeReplyOk && (exists|k: int|
                        0 <= k < j && events[k] is SentInitialize)))
        }),
    decreases events.len(),
{
    if events.len() > 0 {
        let prior = events.drop_last();
        lemma_session_history(prior);
        assert(forall|k: int| 0 <= k < prior.len() ==> prior[k] == events[k]);
    }
}

/// Handshake ordering: in any session that follows the protocol, the
/// initialized notification is sent only after the initialize request was
/// sent and its response received, and a domain request only after the whole
/// handshake — initialize request, its response, the notification — is done,
/// in that order.
pub proof fn lemma_handshake_ordering(events: Seq<WireEvent>, i: int)
    requires
        0 <= i < events.len(),
        run_session(events.take(i)) is Some,
        session_step(run_session(events.take(i)).unwrap(), events[i]) is Some,
        events[i] is SentInitialized || events[i] is SentDomainRequest,
    ensures
        events[i] is SentInitialized ==> exists|j: int|
            0 <= j < i && events[j] is InitializeReplyOk && (exists|k: int|
                0 <= k < j && events[k] is SentInitialize),
        events[i] is SentDomainRequest ==> exists|m: int|
            0 <= m < i && events[m] is SentInitialized && (exists|j: int|
                0 <= j < m && events[j] is InitializeReplyOk && (exists|k: int|
                    0 <= k < j && events[k] is SentInitialize)),
{
    let pre = events.take(i);
    let s = run_session(pre).unwrap();
    lemma_session_history(pre);
    assert(forall|k: int| 0 <= k < i ==> pre[k] == events[k]);
    if events[i] is SentInitialized {
        assert(s == SessionState::NotifyDue);
    } else {
        assert(s == SessionState::Ready);
    }
}

// ---------------------------------------------------------------------------
// Domain results: the typed values recovered from the remote tool's replies.
// ---------------------------------------------------------------------------

/// A job offer, synthesized from its free-text description.
pub struct JobSynthesis {
    pub title: String,
    pub company: String,
    pub location: String,
    pub contract_type: String,
    pub key_requirements: Vec<String>,
    pub responsibilities: Vec<String>,
    pub benefits: Vec<String>,
    pub salary_range: Option<String>,
    pub summary: String,
}

pub struct MatchedSkill {
    pub skill: String,
    pub cv_level: String,
    pub required: String,
    pub is_match: bool,
}

pub struct MissingSkill {
    pub skill: String,
    pub importance: String,
}

pub struct SkillsMatch {
    pub match_score: u32,
    pub matched_skills: Vec<MatchedSkill>,
    pub missing_skills: Vec<MissingSkill>,
    pub highlights: Vec<String>,
    pub recommendations: Vec<String>,
}

pub struct SalaryAnalysis {
    pub offered_min: Option<u32>,
    pub offered_max: Option<u32>,
    pub market_low: u32,
    pub market_median: u32,
    pub market_high: u32,
    pub currency: String,
    pub analysis: String,
    pub negotiation_tips: Vec<String>,
}

pub struct GeneratedCv {
    pub latex_content: String,
    pub adaptations: Vec<String>,
    pub summary: String,
}

// ---------------------------------------------------------------------------
// Reading the recovered JSON documents into those types. Every member the
// type requires must be present with the right shape; `salary_range` and the
// offered salary bounds are optional.
// ---------------------------------------------------------------------------

pub open spec fn job_synthesis_wf(v: JsonValue) -> bool {
    &&& string_member(v, "title"@) is Some
    &&& string_member(v, "company"@) is Some
    &&& string_member(v, "location"@) is Some
    &&& string_member(v, "contract_type"@) is Some
    &&& strings_member(v, "key_requirements"@) is Some
    &&& strings_member(v, "responsibilities"@) is Some
    &&& strings_member(v, "benefits"@) is Some
    &&& opt_string_member(v, "salary_range"@) is Some
    &&& string_member(v, "summary"@) is Some
}

pub open spec fn is_job_synthesis_of(v: JsonValue, j: JobSynthesis) -> bool {
    &&& string_member(v, "title"@) == Some(j.title)
    &&& string_member(v, "company"@) == Some(j.company)
    &&& string_member(v, "location"@) == Some(j.location)
    &&& string_member(v, "contract_type"@) == Some(j.contract_type)
    &&& strings_member(v, "key_requirements"@) == Some(j.key_requirements@)
    &&& strings_member(v, "responsibilities"@) == Some(j.responsibilities@)
    &&& strings_member(v, "benefits"@) == Some(j.benefits@)
    &&& opt_string_member(v, "salary_range"@) == Some(j.salary_range)
    &&& string_member(v, "summary"@) == Some(j.summary)
}

/// Reads a synthesized job offer out of its JSON document.
pub fn job_synthesis_from_json(v: &JsonValue) -> (r: Option<JobSynthesis>)
    ensures
        match r {
            Some(j) => job_synthesis_wf(*v) && is_job_synthesis_of(*v, j),
            None => !job_synthesis_wf(*v),
        },
{
    let title = match v.get_string("title") {
        Some(x) => x,
        None => {
            return None;
        },
    };
    let company = match v.get_string("company") {
        Some(x) => x,
        None => {
            return None;
        },
    };
    let location = match v.get_string("location") {
        Some(x) => x,
        None => {
            return None;
        },
    };
    let contract_type = match v.get_string("contract_type") {
        Some(x) => x,
        None => {
            return None;
        },
    };
    let key_requirements = match v.get_strings("key_requirements") {
        Some(x) => x,
        None => {
            return None;
        },
    };
    let responsibilities = match v.get_strings("responsibilities") {
        Some(x) => x,
        None => {
            return None;
        },
    };
    let benefits = match v.get_strings("benefits") {
        Some(x) => x,
        None => {
            return None;
        },
    };
    let salary_range = match v.get_opt_string("salary_range") {
        Some(x) => x,
        None => {
            return None;
        },
    };
    let summary = match v.get_string("summary") {
        Some(x) => x,
        None => {
            return None;
        },
    };
    Some(
        JobSynthesis {
            title,
            company,
            location,
            contract_type,
            key_requirements,
            responsibilities,
            benefits,
            salary_range,
            summary,
        },
    )
}

pub open spec fn spec_matched_skill(x: JsonValue) -> Option<MatchedSkill> {
    match (string_member(x, "skill"@), string_member(x, "cv_level"@), string_member(
        x,
        "required"@,
    ), bool_member(x, "match"@)) {
        (Some(skill), Some(cv_level), Some(required), Some(is_match)) => Some(
            MatchedSkill { skill, cv_level, required, is_match },
        ),
        _ => None,
    }
}

pub open spec fn spec_missing_skill(x: JsonValue) -> Option<MissingSkill> {
    match (string_member(x, "skill"@), string_member(x, "importance"@)) {
        (Some(skill), Some(importance)) => Some(MissingSkill { skill, importance }),
        _ => None,
    }
}

fn matched_skill_from_json(x: &JsonValue) -> (r: Option<MatchedSkill>)
    ensures
        r == spec_matched_skill(*x),
{
    let skill = match x.get_string("skill") {
        Some(s) => s,
        None => {
            return None;
        },
    };
    let cv_level = match x.get_string("cv_level") {
        Some(s) => s,
        None => {
            return None;
        },
    };
    let required = match x.get_string("required") {
        Some(s) => s,
        None => {
            return None;
        },
    };
    let is_match = match x.get_bool("match") {
        Some(b) => b,
        None => {
            return None;
        },
    };
    Some(MatchedSkill { skill, cv_level, required, is_match })
}

fn missing_skill_from_json(x: &JsonValue) -> (r: Option<MissingSkill>)
    ensures
        r == spec_missing_skill(*x),
{
    let skill = match x.get_string("skill") {
        Some(s) => s,
        None => {
            return None;
        },
    };
    let importance = match x.get_string("importance") {
        Some(s) => s,
        None => {
            return None;
        },
    };
    Some(MissingSkill { skill, importance })
}

pub open spec fn all_matched(items: Seq<JsonValue>) -> bool {
    forall|i: int| 0 <= i < items.len() ==> spec_matched_skill(#[trigger] items[i]) is Some
}

pub open spec fn matched_values(items: Seq<JsonValue>) -> Seq<MatchedSkill> {
    Seq::new(items.len(), |i: int| spec_matched_skill(items[i])->Some_0)
}

pub open spec fn all_missing(items: Seq<JsonValue>) -> bool {
    forall|i: int| 0 <= i < items.len() ==> spec_missing_skill(#[trigger] items[i]) is Some
}

pub open spec fn missing_values(items: Seq<JsonValue>) -> Seq<MissingSkill> {
    Seq::new(items.len(), |i: int| spec_missing_skill(items[i])->Some_0)
}

#[verifier::loop_isolation(false)]
fn matched_skills_from_json(items: &Vec<JsonValue>) -> (r: Option<Vec<MatchedSkill>>)
    ensures
        match r {
            Some(out) => all_matched(items@) && out@ == matched_values(items@),
            None => !all_matched(items@),
        },
{
    let mut out: Vec<MatchedSkill> = Vec::new();
    let mut j: usize = 0;
    while j < items.len()
        invariant
            0 <= j <= items@.len(),
            out@.len() == j,
            forall|k: int|
                0 <= k < j ==> spec_matched_skill(#[trigger] items@[k]) is Some && out@[k]
                    == spec_matched_skill(items@[k])->Some_0,
        decreases items@.len() - j,
    {
        match matched_skill_from_json(&items[j]) {
            Some(m) => {
                out.push(m);
            },
            None => {
                return None;
            },
        }
        j = j + 1;
    }
    proof {
        assert(out@ =~= matched_values(items@));
    }
    Some(out)
}

#[verifier::loop_isolation(false)]
fn missing_skills_from_json(items: &Vec<JsonValue>) -> (r: Option<Vec<MissingSkill>>)
    ensures
        match r {
            Some(out) => all_missing(items@) && out@ == missing_values(items@),
            None => !all_missing(items@),
        },
{
    let mut out: Vec<MissingSkill> = Vec::new();
    let mut j: usize = 0;
    while j < items.len()
        invariant
            0 <= j <= items@.len(),
            out@.len() == j,
            forall|k: int|
                0 <= k < j ==> spec_missing_skill(#[trigger] items@[k]) is Some && out@[k]
                    == spec_missing_skill(items@[k])->Some_0,
        decreases items@.len() - j,
    {
        match missing_skill_from_json(&items[j]) {
            Some(m) => {
                out.push(m);
            },
            None => {
                return None;
            },
        }
        j = j + 1;
    }
    proof {
        assert(out@ =~= missing_values(items@));
    }
    Some(out)
}

pub open spec fn skills_match_wf(v: JsonValue) -> bool {
    &&& u32_member(v, "match_score"@) is Some
    &&& (array_member(v, "matched_skills"@) matches Some(items) && all_matched(items))
    &&& (array_member(v, "missing_skills"@) matches Some(items) && all_missing(items))
    &&& strings_member(v, "highlights"@) is Some
    &&& strings_member(v, "recommendations"@) is Some
}

pub open spec fn is_skills_match_of(v: JsonValue, j: SkillsMatch) -> bool {
    &&& u32_member(v, "match_score"@) == Some(j.match_score)
    &&& (array_member(v, "matched_skills"@) matches Some(items) && j.matched_skills@
        == matched_values(items))
    &&& (array_member(v, "missing_skills"@) matches Some(items) && j.missing_skills@
        == missing_values(items))
    &&& strings_member(v, "highlights"@) == Some(j.highlights@)
    &&& strings_member(v, "recommendations"@) == Some(j.recommendations@)
}

/// Reads a skills-match analysis out of its JSON document.
pub fn skills_match_from_json(v: &JsonValue) -> (r: Option<SkillsMatch>)
    ensures
        match r {
            Some(j) => skills_match_wf(*v) && is_skills_match_of(*v, j),
            None => !skills_match_wf(*v),
        },
{
    let match_score = match v.get_u32("match_score") {
        Some(x) => x,
        None => {
            return None;
        },
    };
    let matched_skills = match v.lookup("matched_skills") {
        Some(m) => match m.as_array() {
            Some(items) => match matched_skills_from_json(items) {
                Some(out) => out,
                None => {
                    return None;
                },
            },
            None => {
                return None;
            },
        },
        None => {
            return None;
        },
    };
    let missing_skills = match v.lookup("missing_skills") {
        Some(m) => match m.as_array() {
            Some(items) => match missing_skills_from_json(items) {
                Some(out) => out,
                None => {
                    return None;
                },
            },
            None => {
                return None;
            },
        },
        None => {
            return None;
        },
    };
    let highlights = match v.get_strings("highlights") {
        Some(x) => x,
        None => {
            return None;
        },
    };
    let recommendations = match v.get_strings("recommendations") {
        Some(x) => x,
        None => {
            return None;
        },
    };
    Some(SkillsMatch { match_score, matched_skills, missing_skills, highlights, recommendations })
}

pub open spec fn salary_analysis_wf(v: JsonValue) -> bool {
    &&& opt_u32_member(v, "offered_min"@) is Some
    &&& opt_u32_member(v, "offered_max"@) is Some
    &&& u32_member(v, "market_low"@) is Some
    &&& u32_member(v, "market_median"@) is Some
    &&& u32_member(v, "market_high"@) is Some
    &&& (match spec_lookup(v, "currency"@) {
        None => true,
        Some(JsonValue::Str(_)) => true,
        Some(_) => false,
    })
    &&& string_member(v, "analysis"@) is Some
    &&& strings_member(v, "negotiation_tips"@) is Some
}

pub open spec fn is_salary_analysis_of(v: JsonValue, j: SalaryAnalysis) -> bool {
    &&& opt_u32_member(v, "offered_min"@) == Some(j.offered_min)
    &&& opt_u32_member(v, "offered_max"@) == Some(j.offered_max)
    &&& u32_member(v, "market_low"@) == Some(j.market_low)
    &&& u32_member(v, "market_median"@) == Some(j.market_median)
    &&& u32_member(v, "market_high"@) == Some(j.market_high)
    &&& (match spec_lookup(v, "currency"@) {
        None => j.currency@ == "EUR"@,
        Some(JsonValue::Str(s)) => j.currency == s,
        Some(_) => false,
    })
    &&& string_member(v, "analysis"@) == Some(j.analysis)
    &&& strings_member(v, "negotiation_tips"@) == Some(j.negotiation_tips@)
}

/// Reads a salary analysis out of its JSON document; a missing currency
/// reads as EUR.
pub fn salary_analysis_from_json(v: &JsonValue) -> (r: Option<SalaryAnalysis>)
    ensures
        match r {
            Some(j) => salary_analysis_wf(*v) && is_salary_analysis_of(*v, j),
            None => !salary_analysis_wf(*v),
        },
{
    let offered_min = match v.get_opt_u32("offered_min") {
        Some(x) => x,
        None => {
            return None;
        },
    };
    let offered_max = match v.get_opt_u32("offered_max") {
        Some(x) => x,
        None => {
            return None;
        },
    };
    let market_low = match v.get_u32("market_low") {
        Some(x) => x,
        None => {
            return None;
        },
    };
    let market_median = match v.get_u32("market_median") {
        Some(x) => x,
        None => {
            return None;
        },
    };
    let market_high = match v.get_u32("market_high") {
        Some(x) => x,
        None => {
            return None;
        },
    };
    let currency = match v.lookup("currency") {
        None => String::from_str("EUR"),
        Some(cv) => match cv.as_str() {
            Some(s) => s.clone(),
            None => {
                return None;
            },
        },
    };
    let analysis = match v.get_string("analysis") {
        Some(x) => x,
        None => {
            return None;
        },
    };
    let negotiation_tips = match v.get_strings("negotiation_tips") {
        Some(x) => x,
        None => {
            return None;
        },
    };
    Some(
        SalaryAnalysis {
            offered_min,
            offered_max,
            market_low,
            market_median,
            market_high,
            currency,
            analysis,
            negotiation_tips,
        },
    )
}

pub open spec fn generated_cv_wf(v: JsonValue) -> bool {
    &&& string_member(v, "latex_content"@) is Some
    &&& strings_member(v, "adaptations"@) is Some
    &&& string_member(v, "summary"@) is Some
}

pub open spec fn is_generated_cv_of(v: JsonValue, j: GeneratedCv) -> bool {
    &&& string_member(v, "latex_content"@) == Some(j.latex_content)
    &&& strings_member(v, "adaptations"@) == Some(j.adaptations@)
    &&& string_member(v, "summary"@) == Some(j.summary)
}

/// Reads a generated CV out of its JSON document.
pub fn generated_cv_from_json(v: &JsonValue) -> (r: Option<GeneratedCv>)
    ensures
        match r {
            Some(j) => generated_cv_wf(*v) && is_generated_cv_of(*v, j),
            None => !generated_cv_wf(*v),
        },
{
    let latex_content = match v.get_string("latex_content") {
        Some(x) => x,
        None => {
            return None;
        },
    };
    let adaptations = match v.get_strings("adaptations") {
        Some(x) => x,
        None => {
            return None;
        },
    };
    let summary = match v.get_string("summary") {
        Some(x) => x,
        None => {
            return None;
        },
    };
    Some(GeneratedCv { latex_content, adaptations, summary })
}

// ---------------------------------------------------------------------------
// The domain prompts: a fixed instruction demanding one JSON shape, with the
// caller's free text embedded verbatim.
// ---------------------------------------------------------------------------

pub open spec fn synthesis_prompt_chars(job_description: Seq<char>) -> Seq<char> {
    "Analyse cette offre d'emploi et retourne UNIQUEMENT un JSON valide (sans texte avant ou après) avec cette structure:\n{\n    \"title\": \"titre du poste\",\n    \"company\": \"nom de l'entreprise ou 'Non spécifié'\",\n    \"location\": \"lieu ou 'Non spécifié'\",\n    \"contract_type\": \"type de contrat (CDI, CDD, etc.) ou 'Non spécifié'\",\n    \"key_requirements\": [\"compétence1\", \"compétence2\"],\n    \"responsibilities\": [\"responsabilité1\", \"responsabilité2\"],\n    \"benefits\": [\"avantage1\", \"avantage2\"],\n    \"salary_range\": \"fourchette salariale si mentionnée ou null\",\n    \"summary\": \"résumé en 2-3 phrases\"\n}\n\nOffre d'emploi:\n"@
        + job_description
}

/// The prompt that asks for a synthesized job offer.
pub fn synthesis_prompt(job_description: &str) -> (r: String)
    ensures
        r@ == synthesis_prompt_chars(job_description@),
{
    let mut out = String::from_str(
        "Analyse cette offre d'emploi et retourne UNIQUEMENT un JSON valide (sans texte avant ou après) avec cette structure:\n{\n    \"title\": \"titre du poste\",\n    \"company\": \"nom de l'entreprise ou 'Non spécifié'\",\n    \"location\": \"lieu ou 'Non spécifié'\",\n    \"contract_type\": \"type de contrat (CDI, CDD, etc.) ou 'Non spécifié'\",\n    \"key_requirements\": [\"compétence1\", \"compétence2\"],\n    \"responsibilities\": [\"responsabilité1\", \"responsabilité2\"],\n    \"benefits\": [\"avantage1\", \"avantage2\"],\n    \"salary_range\": \"fourchette salariale si mentionnée ou null\",\n    \"summary\": \"résumé en 2-3 phrases\"\n}\n\nOffre d'emploi:\n",
    );
    out.append(job_description);
    out
}

pub open spec fn skills_prompt_chars(job_description: Seq<char>, cv_content: Seq<char>) -> Seq<
    char,
> {
    "Compare ce CV avec cette offre d'emploi et retourne UNIQUEMENT un JSON valide:\n{\n    \"match_score\": 75,\n    \"matched_skills\": [\n        {\"skill\": \"Python\", \"cv_level\": \"3 ans\", \"required\": \"2 ans\", \"match\": true}\n    ],\n    \"missing_skills\": [\n        {\"skill\": \"Kubernetes\", \"importance\": \"nice-to-have\"}\n    ],\n    \"highlights\": [\"point fort 1\", \"point fort 2\"],\n    \"recommendations\": [\"recommandation 1\"]\n}\n\nCV:\n"@
        + cv_content + "\n\nOffre d'emploi:\n"@ + job_description
}

/// The prompt that asks for a skills match between a CV and a job offer.
pub fn skills_prompt(job_description: &str, cv_content: &str) -> (r: String)
    ensures
        r@ == skills_prompt_chars(job_description@, cv_content@),
{
    let mut out = String::from_str(
        "Compare ce CV avec cette offre d'emploi et retourne UNIQUEMENT un JSON valide:\n{\n    \"match_score\": 75,\n    \"matched_skills\": [\n        {\"skill\": \"Python\", \"cv_level\": \"3 ans\", \"required\": \"2 ans\", \"match\": true}\n    ],\n    \"missing_skills\": [\n        {\"skill\": \"Kubernetes\", \"importance\": \"nice-to-have\"}\n    ],\n    \"highlights\": [\"point fort 1\", \"point fort 2\"],\n    \"recommendations\": [\"recommandation 1\"]\n}\n\nCV:\n",
    );
    out.append(cv_content);
    out.append("\n\nOffre d'emploi:\n");
    out.append(job_description);
    out
}

pub open spec fn salary_prompt_chars(job_description: Seq<char>, location: Option<Seq<char>>) -> Seq<
    char,
> {
    let loc = match location {
        Some(l) => l,
        None => "France"@,
    };
    "Analyse le salaire pour cette offre et retourne UNIQUEMENT un JSON valide:\n{\n    \"offered_min\": 50000,\n    \"offered_max\": 65000,\n    \"market_low\": 48000,\n    \"market_median\": 58000,\n    \"market_high\": 72000,\n    \"currency\": \"EUR\",\n    \"analysis\": \"Analyse du positionnement salarial\",\n    \"negotiation_tips\": [\"conseil 1\", \"conseil 2\"]\n}\n\nSi le salaire n'est pas mentionné, mets null pour offered_min et offered_max.\n\nOffre:\n"@
        + job_description + "\n\nLocalisation: "@ + loc
}

/// The prompt that asks for a salary analysis; without a location, France is
/// assumed.
pub fn salary_prompt(job_description: &str, location: Option<&str>) -> (r: String)
    ensures
        r@ == salary_prompt_chars(
            job_description@,
            match location {
                Some(l) => Some(l@),
                None => None,
            },
        ),
{
    let mut out = String::from_str(
        "Analyse le salaire pour cette offre et retourne UNIQUEMENT un JSON valide:\n{\n    \"offered_min\": 50000,\n    \"offered_max\": 65000,\n    \"market_low\": 48000,\n    \"market_median\": 58000,\n    \"market_high\": 72000,\n    \"currency\": \"EUR\",\n    \"analysis\": \"Analyse du positionnement salarial\",\n    \"negotiation_tips\": [\"conseil 1\", \"conseil 2\"]\n}\n\nSi le salaire n'est pas mentionné, mets null pour offered_min et offered_max.\n\nOffre:\n",
    );
    out.append(job_description);
    out.append("\n\nLocalisation: ");
    match location {
        Some(l) => {
            out.append(l);
        },
        None => {
            out.append("France");
        },
    }
    out
}

pub open spec fn cv_prompt_chars(
    cv_content: Seq<char>,
    title: Seq<char>,
    company: Seq<char>,
    requirements: Seq<Seq<char>>,
    highlights: Seq<Seq<char>>,
) -> Seq<char> {
    "Génère un CV adapté au format LaTeX. Retourne UNIQUEMENT un JSON valide:\n{\n    \"latex_content\": \"\\\\documentclass{article}...\",\n    \"adaptations\": [\"adaptation 1\", \"adaptation 2\"],\n    \"summary\": \"résumé des modifications\"\n}\n\nCV original:\n"@
        + cv_content + "\n\nPoste: "@ + title + " chez "@ + company + "\nCompétences requises: "@
        + join_with(requirements, ", "@) + "\nPoints forts: "@ + join_with(highlights, ", "@)
}

/// The prompt that asks for a CV tailored to a synthesized offer and a
/// skills match.
pub fn cv_prompt(cv_content: &str, synthesis: &JobSynthesis, skills: &SkillsMatch) -> (r: String)
    ensures
        r@ == cv_prompt_chars(
            cv_content@,
            synthesis.title@,
            synthesis.company@,
            texts_of(synthesis.key_requirements@),
            texts_of(skills.highlights@),
        ),
{
    let mut out = String::from_str(
        "Génère un CV adapté au format LaTeX. Retourne UNIQUEMENT un JSON valide:\n{\n    \"latex_content\": \"\\\\documentclass{article}...\",\n    \"adaptations\": [\"adaptation 1\", \"adaptation 2\"],\n    \"summary\": \"résumé des modifications\"\n}\n\nCV original:\n",
    );
    out.append(cv_content);
    out.append("\n\nPoste: ");
    out.append(synthesis.title.as_str());
    out.append(" chez ");
    out.append(synthesis.company.as_str());
    out.append("\nCompétences requises: ");
    let reqs = join_strings(&synthesis.key_requirements, ", ");
    out.append(reqs.as_str());
    out.append("\nPoints forts: ");
    let highs = join_strings(&skills.highlights, ", ");
    out.append(highs.as_str());
    out
}

// ---------------------------------------------------------------------------
// From the tool's textual reply to the typed result: recover the JSON
// document, parse it, and read the type out of it. Any failure carries the
// offending text for diagnosis, and is an extraction error.
// ---------------------------------------------------------------------------

/// Whether the reply text yields a parseable JSON document.
pub open spec fn reply_document(reply: Seq<char>) -> Option<JsonValue> {
    match spec_extract_json(reply) {
        Some(t) => json_document_of(t),
        None => None,
    }
}

/// Reads a synthesized job offer from the reply text. This succeeds exactly
/// when a JSON document can be recovered from the text and has the demanded
/// shape; the result is then that document's reading.
pub fn synthesis_from_reply(reply: &str) -> (r: Result<JobSynthesis, McpError>)
    ensures
        match r {
            Ok(j) => reply_document(reply@) matches Some(doc) && job_synthesis_wf(doc)
                && is_job_synthesis_of(doc, j),
            Err(e) => !(reply_document(reply@) matches Some(doc) && job_synthesis_wf(doc)) && (
            e matches McpError::Extraction(m) && (match spec_extract_json(reply@) {
                None => m@ == "No JSON found in response: "@ + reply@,
                Some(t) => match json_document_of(t) {
                    None => m@.len() >= t.len() + 9 && m@.subrange(
                        m@.len() - t.len() - 9,
                        m@.len() as int,
                    ) == " - JSON: "@ + t,
                    Some(_) => m@ == "Failed to parse synthesis: unexpected shape - JSON: "@ + t,
                },
            })),
        },
{
    let json_str = match extract_json_from_response(reply) {
        Ok(t) => t,
        Err(e) => {
            return Err(e);
        },
    };
    let doc = match parse_json(json_str.as_str()) {
        Ok(d) => d,
        Err(msg) => {
            let mut m = String::from_str("Failed to parse synthesis: ");
            m.append(msg.as_str());
            m.append(" - JSON: ");
            m.append(json_str.as_str());
            proof {
                reveal_strlit(" - JSON: ");
                assert(m@.subrange(m@.len() - json_str@.len() - 9, m@.len() as int) =~= " - JSON: "@
                    + json_str@);
            }
            return Err(McpError::Extraction(m));
        },
    };
    match job_synthesis_from_json(&doc) {
        Some(j) => Ok(j),
        None => {
            let mut m = String::from_str("Failed to parse synthesis: unexpected shape - JSON: ");
            m.append(json_str.as_str());
            Err(McpError::Extraction(m))
        },
    }
}

/// Reads a skills match from the reply text; success exactly on a
/// recoverable document of the demanded shape.
pub fn skills_from_reply(reply: &str) -> (r: Result<SkillsMatch, McpError>)
    ensures
        match r {
            Ok(j) => reply_document(reply@) matches Some(doc) && skills_match_wf(doc)
                && is_skills_match_of(doc, j),
            Err(e) => !(reply_document(reply@) matches Some(doc) && skills_match_wf(doc)) && (
            e matches McpError::Extraction(m) && (match spec_extract_json(reply@) {
                None => m@ == "No JSON found in response: "@ + reply@,
                Some(t) => match json_document_of(t) {
                    None => m@.len() >= t.len() + 9 && m@.subrange(
                        m@.len() - t.len() - 9,
                        m@.len() as int,
                    ) == " - JSON: "@ + t,
                    Some(_) => m@ == "Failed to parse skills match: unexpected shape - JSON: "@ + t,
                },
            })),
        },
{
    let json_str = match extract_json_from_response(reply) {
        Ok(t) => t,
        Err(e) => {
            return Err(e);
        },
    };
    let doc = match parse_json(json_str.as_str()) {
        Ok(d) => d,
        Err(msg) => {
            let mut m = String::from_str("Failed to parse skills match: ");
            m.append(msg.as_str());
            m.append(" - JSON: ");
            m.append(json_str.as_str());
            proof {
                reveal_strlit(" - JSON: ");
                assert(m@.subrange(m@.len() - json_str@.len() - 9, m@.len() as int) =~= " - JSON: "@
                    + json_str@);
            }
            return Err(McpError::Extraction(m));
        },
    };
    match skills_match_from_json(&doc) {
        Some(j) => Ok(j),
        None => {
            let mut m = String::from_str("Failed to parse skills match: unexpected shape - JSON: ");
            m.append(json_str.as_str());
            Err(McpError::Extraction(m))
        },
    }
}

/// Reads a salary analysis from the reply text; success exactly on a
/// recoverable document of the demanded shape.
pub fn salary_from_reply(reply: &str) -> (r: Result<SalaryAnalysis, McpError>)
    ensures
        match r {
            Ok(j) => reply_document(reply@) matches Some(doc) && salary_analysis_wf(doc)
                && is_salary_analysis_of(doc, j),
            Err(e) => !(reply_document(reply@) matches Some(doc) && salary_analysis_wf(doc)) && (
            e matches McpError::Extraction(m) && (match spec_extract_json(reply@) {
                None => m@ == "No JSON found in response: "@ + reply@,
                Some(t) => match json_document_of(t) {
                    None => m@.len() >= t.len() + 9 && m@.subrange(
                        m@.len() - t.len() - 9,
                        m@.len() as int,
                    ) == " - JSON: "@ + t,
                    Some(_) => m@ == "Failed to parse salary: unexpected shape - JSON: "@ + t,
                },
            })),
        },
{
    let json_str = match extract_json_from_response(reply) {
        Ok(t) => t,
        Err(e) => {
            return Err(e);
        },
    };
    let doc = match parse_json(json_str.as_str()) {
        Ok(d) => d,
        Err(msg) => {
            let mut m = String::from_str("Failed to parse salary: ");
            m.append(msg.as_str());
            m.append(" - JSON: ");
            m.append(json_str.as_str());
            proof {
                reveal_strlit(" - JSON: ");
                assert(m@.subrange(m@.len() - json_str@.len() - 9, m@.len() as int) =~= " - JSON: "@
                    + json_str@);
            }
            return Err(McpError::Extraction(m));
        },
    };
    match salary_analysis_from_json(&doc) {
        Some(j) => Ok(j),
        None => {
            let mut m = String::from_str("Failed to parse salary: unexpected shape - JSON: ");
            m.append(json_str.as_str());
            Err(McpError::Extraction(m))
        },
    }
}

/// Reads a generated CV from the reply text; success exactly on a
/// recoverable document of the demanded shape.
pub fn cv_from_reply(reply: &str) -> (r: Result<GeneratedCv, McpError>)
    ensures
        match r {
            Ok(j) => reply_document(reply@) matches Some(doc) && generated_cv_wf(doc)
                && is_generated_cv_of(doc, j),
            Err(e) => !(reply_document(reply@) matches Some(doc) && generated_cv_wf(doc)) && (
            e matches McpError::Extraction(m) && (match spec_extract_json(reply@) {
                None => m@ == "No JSON found in response: "@ + reply@,
                Some(t) => match json_document_of(t) {
                    None => m@.len() >= t.len() + 9 && m@.subrange(
                        m@.len() - t.len() - 9,
                        m@.len() as int,
                    ) == " - JSON: "@ + t,
                    Some(_) => m@ == "Failed to parse CV: unexpected shape - JSON: "@ + t,
                },
            })),
        },
{
    let json_str = match extract_json_from_response(reply) {
        Ok(t) => t,
        Err(e) => {
            return Err(e);
        },
    };
    let doc = match parse_json(json_str.as_str()) {
        Ok(d) => d,
        Err(msg) => {
            let mut m = String::from_str("Failed to parse CV: ");
            m.append(msg.as_str());
            m.append(" - JSON: ");
            m.append(json_str.as_str());
            proof {
                reveal_strlit(" - JSON: ");
                assert(m@.subrange(m@.len() - json_str@.len() - 9, m@.len() as int) =~= " - JSON: "@
                    + json_str@);
            }
            return Err(McpError::Extraction(m));
        },
    };
    match generated_cv_from_json(&doc) {
        Some(j) => Ok(j),
        None => {
            let mut m = String::from_str("Failed to parse CV: unexpected shape - JSON: ");
            m.append(json_str.as_str());
            Err(McpError::Extraction(m))
        },
    }
}

} // verus!
