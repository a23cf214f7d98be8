//! Remote agent sessions: the shapes of the service's answers, the address of
//! the service, and what a session's answers say.

use vstd::prelude::*;
use vstd::string::StringSliceAdditionalSpecFns;
use vstd::utf8::{decode_utf8, encode_utf8, is_char_boundary, valid_utf8};
use crate::json::{unsigned_view, Fields, JsonView, Metadata};
use crate::string_map::StringMap;
use crate::text::{concat2, concat3, opt_text, str_eq};

verus! {

#[verifier::external_type_specification]
#[verifier::external_body]
pub struct ExUrlParseError(url::ParseError);

/// When a session was made, last changed and archived, in milliseconds since
/// 1970.
pub struct SessionTime {
    pub created: i64,
    pub updated: i64,
    pub archived: Option<i64>,
}

/// A session as the service lists it.
pub struct OpenCodeSession {
    pub id: String,
    pub title: String,
    pub directory: String,
    pub parent_id: Option<String>,
    pub time: SessionTime,
}

/// What a session is doing.
pub enum SessionStatus {
    Idle,
    Busy,
    Retry { attempt: u32, message: String, next: i64 },
}

/// What a session is doing, without the details.
#[derive(PartialEq, Eq, Structural, Clone, Copy, Debug)]
pub enum StatusKind {
    Idle,
    Busy,
    Retry,
}

impl SessionStatus {
    /// The status without its details.
    pub fn kind(&self) -> (r: StatusKind)
        ensures
            r == match *self {
                SessionStatus::Idle => StatusKind::Idle,
                SessionStatus::Busy => StatusKind::Busy,
                SessionStatus::Retry { .. } => StatusKind::Retry,
            },
    {
        match self {
            SessionStatus::Idle => StatusKind::Idle,
            SessionStatus::Busy => StatusKind::Busy,
            SessionStatus::Retry { .. } => StatusKind::Retry,
        }
    }
}

/// How a status is written in metadata.
pub open spec fn kind_name(kind: Option<StatusKind>) -> Seq<char> {
    match kind {
        Some(StatusKind::Idle) => "idle"@,
        Some(StatusKind::Busy) => "busy"@,
        Some(StatusKind::Retry) => "retry"@,
        None => "unknown"@,
    }
}

/// The status that a name stands for.
pub open spec fn kind_named(name: Seq<char>) -> Option<StatusKind> {
    if name == "idle"@ {
        Some(StatusKind::Idle)
    } else if name == "busy"@ {
        Some(StatusKind::Busy)
    } else if name == "retry"@ {
        Some(StatusKind::Retry)
    } else {
        None
    }
}

/// How a status is written in metadata; `unknown` where there is none.
pub fn status_name(kind: Option<StatusKind>) -> (r: &'static str)
    ensures
        r@ == kind_name(kind),
{
    match kind {
        Some(StatusKind::Idle) => "idle",
        Some(StatusKind::Busy) => "busy",
        Some(StatusKind::Retry) => "retry",
        None => "unknown",
    }
}

/// The statuses of the sessions of one or more working directories, by
/// session id.
pub struct SessionStatuses {
    names: StringMap,
}

impl View for SessionStatuses {
    type V = Map<Seq<char>, StatusKind>;

    closed spec fn view(&self) -> Map<Seq<char>, StatusKind> {
        Map::new(
            |id: Seq<char>| self.names@.contains_key(id) && kind_named(self.names@[id]) is Some,
            |id: Seq<char>| kind_named(self.names@[id])->0,
        )
    }
}

/// The three names stand for three different statuses.
proof fn lemma_names_differ()
    ensures
        kind_named("idle"@) == Some(StatusKind::Idle),
        kind_named("busy"@) == Some(StatusKind::Busy),
        kind_named("retry"@) == Some(StatusKind::Retry),
{
    reveal_strlit("idle");
    reveal_strlit("busy");
    reveal_strlit("retry");
    assert("busy"@.len() == 4 && "idle"@.len() == 4 && "retry"@.len() == 5);
    assert("busy"@[0] == 'b' && "idle"@[0] == 'i');
}

impl SessionStatuses {
    /// No statuses.
    pub fn new() -> (r: Self)
        ensures
            r@ == Map::<Seq<char>, StatusKind>::empty(),
    {
        let r = SessionStatuses { names: StringMap::new() };
        proof {
            assert(r@ =~= Map::<Seq<char>, StatusKind>::empty());
        }
        r
    }

    /// Notes the status of a session, in place of an earlier note.
    pub fn insert(&mut self, session_id: &str, status: &SessionStatus)
        ensures
            final(self)@ == old(self)@.insert(
                session_id@,
                match *status {
                    SessionStatus::Idle => StatusKind::Idle,
                    SessionStatus::Busy => StatusKind::Busy,
                    SessionStatus::Retry { .. } => StatusKind::Retry,
                },
            ),
    {
        let kind = status.kind();
        let name = status_name(Some(kind));
        proof {
            lemma_names_differ();
        }
        self.names.insert(String::from_str(session_id), String::from_str(name));
        proof {
            assert(self@ =~= old(self)@.insert(session_id@, kind));
        }
    }

    /// The status of a session, where one is noted.
    pub fn get(&self, session_id: &str) -> (r: Option<StatusKind>)
        ensures
            r == if self@.contains_key(session_id@) {
                Some(self@[session_id@])
            } else {
                None
            },
    {
        match self.names.get(session_id) {
            Some(name) => {
                if str_eq(name.as_str(), "idle") {
                    Some(StatusKind::Idle)
                } else if str_eq(name.as_str(), "busy") {
                    Some(StatusKind::Busy)
                } else if str_eq(name.as_str(), "retry") {
                    Some(StatusKind::Retry)
                } else {
                    None
                }
            },
            None => None,
        }
    }
}

/// Where the service is, and the working directory that its address names.
pub struct OpenCodeConfig {
    pub base_url: String,
    pub directory: Option<String>,
}

/// Why an address of the service is no address.
pub struct OpenCodeUrlError {
    pub message: String,
}

/// What is read from an address: its origin in ASCII (scheme, host and, where
/// it is not the scheme's own, port), and the segments of its path, where its
/// path is one of segments. `None` where the text is no URL.
pub uninterp spec fn url_parts(raw: Seq<char>) -> Option<(Seq<char>, Option<Seq<Seq<char>>>)>;

/// The standard base64 text, with padding, of a sequence of bytes.
pub uninterp spec fn base64_text(bytes: Seq<u8>) -> Seq<char>;

/// The bytes that a standard base64 text with padding stands for.
pub uninterp spec fn base64_bytes(text: Seq<char>) -> Option<Seq<u8>>;

/// The texts of an optional list of strings.
pub open spec fn opt_texts(list: Option<Vec<String>>) -> Option<Seq<Seq<char>>> {
    match list {
        Some(l) => Some(l@.map_values(|s: String| s@)),
        None => None,
    }
}

/// `Url::parse`, then `Url::origin` with `Origin::ascii_serialization`, and
/// `Url::path_segments` with each segment copied. The error is that of
/// `Url::parse`.
#[verifier::external_body]
fn url_read(raw: &str) -> (r: Result<(String, Option<Vec<String>>), url::ParseError>)
    ensures
        match r {
            Ok(parts) => url_parts(raw@) == Some((parts.0@, opt_texts(parts.1))),
            Err(_) => url_parts(raw@) is None,
        },
{
    let parsed = url::Url::parse(raw)?;
    let origin = parsed.origin().ascii_serialization();
    let segments = parsed.path_segments().map(|s| s.map(|seg| seg.to_string()).collect());
    Ok((origin, segments))
}

/// `Display` of `url::ParseError`: the error in words.
#[verifier::external_body]
fn url_error_message(e: &url::ParseError) -> String {
    e.to_string()
}

/// `Engine::encode` of `base64::engine::general_purpose::STANDARD`. A slice
/// never is long enough for the size of the text to overflow.
#[verifier::external_body]
fn base64_encode(bytes: &[u8]) -> (r: String)
    ensures
        r@ == base64_text(bytes@),
{
    base64::Engine::encode(&base64::engine::general_purpose::STANDARD, bytes)
}

/// `Engine::decode` of `base64::engine::general_purpose::STANDARD`; `None`
/// where the text is no base64.
#[verifier::external_body]
fn base64_decode(text: &str) -> (r: Option<Vec<u8>>)
    ensures
        match r {
            Some(bytes) => base64_bytes(text@) == Some(bytes@),
            None => base64_bytes(text@) is None,
        },
{
    base64::Engine::decode(&base64::engine::general_purpose::STANDARD, text).ok()
}

/// `String::from_utf8`: the text that the bytes encode, where they are UTF-8.
#[verifier::external_body]
fn utf8_text(bytes: Vec<u8>) -> (r: Option<String>)
    ensures
        r is Some == valid_utf8(bytes@),
        r matches Some(s) ==> s@ == decode_utf8(bytes@),
{
    String::from_utf8(bytes).ok()
}

/// The first segment that is not empty.
pub open spec fn first_segment(segments: Seq<Seq<char>>) -> Option<Seq<char>>
    decreases segments.len(),
{
    if segments.len() == 0 {
        None
    } else if segments.first().len() > 0 {
        Some(segments.first())
    } else {
        first_segment(segments.drop_first())
    }
}

/// The working directory that a path segment names: the segment is the
/// base64 text of the directory's UTF-8 bytes.
pub open spec fn directory_named(segment: Seq<char>) -> Option<Seq<char>> {
    match base64_bytes(segment) {
        Some(bytes) => if valid_utf8(bytes) {
            Some(decode_utf8(bytes))
        } else {
            None
        },
        None => None,
    }
}

/// The working directory that the path of an address names, if any.
pub open spec fn directory_of(segments: Option<Seq<Seq<char>>>) -> Option<Seq<char>> {
    match segments {
        Some(list) => match first_segment(list) {
            Some(segment) => directory_named(segment),
            None => None,
        },
        None => None,
    }
}

/// Reads the working directory from the segments of a path: the first
/// segment that is not empty, decoded. `None` where there is no such segment
/// or it does not decode.
pub fn directory_from_segments(segments: &Vec<String>) -> (r: Option<String>)
    ensures
        opt_text(r) == directory_of(Some(segments@.map_values(|s: String| s@))),
{
    let ghost all = segments@.map_values(|s: String| s@);
    let mut i: usize = 0;
    proof {
        assert(all.skip(0) =~= all);
    }
    while i < segments.len()
        invariant
            i <= segments@.len(),
            all == segments@.map_values(|s: String| s@),
            first_segment(all) == first_segment(all.skip(i as int)),
        decreases segments.len() - i,
    {
        proof {
            assert(all.skip(i as int).first() == segments@[i as int]@);
            assert(all.skip(i as int).drop_first() =~= all.skip(i + 1));
        }
        if segments[i].as_str().unicode_len() > 0 {
            return match base64_decode(segments[i].as_str()) {
                Some(bytes) => utf8_text(bytes),
                None => None,
            };
        }
        i += 1;
    }
    proof {
        assert(all.skip(0) =~= all);
        assert(all.skip(i as int).len() == 0);
    }
    None
}

/// Reads the address of the service: its origin is where the service is
/// asked, and the first segment of its path may name a working directory.
pub fn parse_opencode_url(raw_url: &str) -> (r: Result<OpenCodeConfig, OpenCodeUrlError>)
    ensures
        r is Ok == url_parts(raw_url@) is Some,
        r matches Ok(config) ==> url_parts(raw_url@) matches Some(parts) && config.base_url@
            == parts.0 && opt_text(config.directory) == directory_of(parts.1),
{
    match url_read(raw_url) {
        Ok(parts) => {
            let (base_url, segments) = parts;
            let directory = match segments {
                Some(list) => directory_from_segments(&list),
                None => None,
            };
            Ok(OpenCodeConfig { base_url, directory })
        },
        Err(e) => Err(OpenCodeUrlError { message: url_error_message(&e) }),
    }
}

/// The address of the dashboard of a working directory.
pub open spec fn web_url(base_url: Seq<char>, directory: Seq<char>) -> Seq<char> {
    base_url + "/"@ + base64_text(encode_utf8(directory))
}

/// The address of the dashboard of a working directory: the address of the
/// service, a slash, and the base64 text of the directory.
pub fn build_web_url(base_url: &str, directory: &str) -> (r: String)
    ensures
        r@ == web_url(base_url@, directory@),
{
    let encoded = base64_encode(directory.as_bytes());
    concat3(base_url, "/", encoded.as_str())
}

/// The last character boundary at or before place `k` of a text's bytes.
pub open spec fn floor_boundary(bytes: Seq<u8>, k: int) -> int
    decreases k,
{
    if k <= 0 {
        0
    } else if is_char_boundary(bytes, k) {
        k
    } else {
        floor_boundary(bytes, k - 1)
    }
}

/// How many bytes of a session id stand in a title: eight, or fewer where the
/// id is shorter or cannot be cut there.
pub open spec fn short_id_len(id: Seq<char>) -> int {
    let bytes = encode_utf8(id);
    floor_boundary(
        bytes,
        if bytes.len() < 8 {
            bytes.len() as int
        } else {
            8
        },
    )
}

/// The title of a session: its own, or one made from its id where it has none.
pub open spec fn session_title(title: Seq<char>, id: Seq<char>) -> Seq<char> {
    if title.len() == 0 {
        "OpenCode Session "@ + decode_utf8(encode_utf8(id).subrange(0, short_id_len(id)))
    } else {
        title
    }
}

/// The title under which a session is shown.
pub fn title_for(session: &OpenCodeSession) -> (r: String)
    ensures
        r@ == session_title(session.title@, session.id@),
{
    if session.title.as_str().unicode_len() > 0 {
        return session.title.clone();
    }
    let id = session.id.as_str();
    let bytes = id.as_bytes();
    let start: usize = if bytes.len() < 8 {
        bytes.len()
    } else {
        8
    };
    let mut cut: usize = start;
    while cut > 0 && !id.is_char_boundary(cut)
        invariant
            cut <= start,
            floor_boundary(encode_utf8(id@), start as int) == floor_boundary(
                encode_utf8(id@),
                cut as int,
            ),
        decreases cut,
    {
        cut -= 1;
    }
    proof {
        vstd::utf8::encode_utf8_valid_utf8(id@);
        vstd::utf8::is_char_boundary_start_end_of_seq(encode_utf8(id@));
    }
    let (head, _) = id.split_at(cut);
    proof {
        vstd::utf8::encode_utf8_decode_utf8(head@);
        assert(head.spec_bytes() == encode_utf8(id@).subrange(0, cut as int));
    }
    concat2("OpenCode Session ", head)
}

/// The tokens that one message used.
pub struct TokenUsage {
    pub input: u64,
    pub output: u64,
    pub reasoning: u64,
}

/// What the service says of one message.
pub struct MessageInfo {
    pub role: String,
    pub agent: Option<String>,
    pub tokens: Option<TokenUsage>,
    pub model_id: Option<String>,
}

/// One entry of a session's message list. An entry without information does
/// not count as a message.
pub struct MessageEntry {
    pub info: Option<MessageInfo>,
}

/// What a session's messages add up to. The cost is handed through as the
/// JSON number that was computed for it.
pub struct SessionMessageSummary {
    pub message_count: usize,
    pub total_tokens: u64,
    pub total_cost: String,
    pub model: Option<String>,
    pub agent: Option<String>,
}

/// A summary as contracts see it. The tokens are counted without a limit.
pub struct SummaryView {
    pub message_count: nat,
    pub total_tokens: nat,
    pub model: Option<Seq<char>>,
    pub agent: Option<Seq<char>>,
}

/// The tokens of one message: only an assistant's message counts.
pub open spec fn message_tokens(info: MessageInfo) -> nat {
    if info.role@ == "assistant"@ {
        match info.tokens {
            Some(t) => (t.input + t.output + t.reasoning) as nat,
            None => 0,
        }
    } else {
        0
    }
}

/// The text of an optional string that is not empty.
pub open spec fn filled(o: Option<String>) -> Option<Seq<char>> {
    match o {
        Some(s) => if s@.len() > 0 {
            Some(s@)
        } else {
            None
        },
        None => None,
    }
}

/// What the messages add up to: how many there are, the tokens of the
/// assistant's messages, the model of the last assistant message that names
/// one, and the agent of the first message that names one.
pub open spec fn summary_of(entries: Seq<MessageEntry>) -> SummaryView
    decreases entries.len(),
{
    if entries.len() == 0 {
        SummaryView { message_count: 0, total_tokens: 0, model: None, agent: None }
    } else {
        let before = summary_of(entries.drop_last());
        match entries.last().info {
            None => before,
            Some(info) => SummaryView {
                message_count: before.message_count + 1,
                total_tokens: before.total_tokens + message_tokens(info),
                model: if info.role@ == "assistant"@ && filled(info.model_id) is Some {
                    filled(info.model_id)
                } else {
                    before.model
                },
                agent: if before.agent is None {
                    filled(info.agent)
                } else {
                    before.agent
                },
            },
        }
    }
}

/// A count of tokens as far as a `u64` holds it.
pub open spec fn capped(n: nat) -> u64 {
    if n <= u64::MAX {
        n as u64
    } else {
        u64::MAX
    }
}

/// The sum of two counts, as far as a `u64` holds it.
fn add_capped(a: u64, b: u64) -> (r: u64)
    ensures
        r == capped((a + b) as nat),
{
    if a > u64::MAX - b {
        u64::MAX
    } else {
        a + b
    }
}

/// A copy of an optional string where it is not empty.
fn filled_copy(o: &Option<String>) -> (r: Option<String>)
    ensures
        opt_text(r) == filled(*o),
{
    match o {
        Some(s) => if s.as_str().unicode_len() > 0 {
            Some(s.clone())
        } else {
            None
        },
        None => None,
    }
}

/// Sums up the messages of a session. The token count stops at `u64::MAX`.
pub fn get_session_message_summary(entries: &Vec<MessageEntry>, total_cost: &str) -> (r: SessionMessageSummary)
    ensures
        r.message_count == summary_of(entries@).message_count,
        r.total_tokens == capped(summary_of(entries@).total_tokens),
        opt_text(r.model) == summary_of(entries@).model,
        opt_text(r.agent) == summary_of(entries@).agent,
        r.total_cost@ == total_cost@,
{
    let mut count: usize = 0;
    let mut tokens: u64 = 0;
    let mut model: Option<String> = None;
    let mut agent: Option<String> = None;
    let mut i: usize = 0;
    proof {
        assert(entries@.take(0) =~= Seq::<MessageEntry>::empty());
    }
    while i < entries.len()
        invariant
            i <= entries@.len(),
            count <= i,
            count == summary_of(entries@.take(i as int)).message_count,
            tokens == capped(summary_of(entries@.take(i as int)).total_tokens),
            opt_text(model) == summary_of(entries@.take(i as int)).model,
            opt_text(agent) == summary_of(entries@.take(i as int)).agent,
        decreases entries.len() - i,
    {
        proof {
            assert(entries@.take(i + 1).drop_last() =~= entries@.take(i as int));
            assert(entries@.take(i + 1).last() == entries@[i as int]);
        }
        match &entries[i].info {
            None => {},
            Some(info) => {
                count += 1;
                if agent.is_none() {
                    agent = filled_copy(&info.agent);
                }
                if str_eq(info.role.as_str(), "assistant") {
                    match &info.tokens {
                        Some(t) => {
                            let used = add_capped(add_capped(t.input, t.output), t.reasoning);
                            tokens = add_capped(tokens, used);
                        },
                        None => {},
                    }
                    match filled_copy(&info.model_id) {
                        Some(m) => {
                            model = Some(m);
                        },
                        None => {},
                    }
                }
            },
        }
        i += 1;
    }
    proof {
        assert(entries@.take(i as int) =~= entries@);
    }
    SessionMessageSummary {
        message_count: count,
        total_tokens: tokens,
        total_cost: String::from_str(total_cost),
        model,
        agent,
    }
}

/// The members that a poll of a session hands on, without the cost.
pub open spec fn session_fields(
    session_id: Seq<char>,
    kind: Option<StatusKind>,
    summary: SessionMessageSummary,
) -> Fields {
    Fields::empty().insert("session_id"@, JsonView::Text(session_id)).insert(
        "session_status"@,
        JsonView::Text(kind_name(kind)),
    ).insert(
        "model"@,
        match summary.model {
            Some(m) => JsonView::Text(m@),
            None => JsonView::Null,
        },
    ).insert(
        "agent"@,
        match summary.agent {
            Some(a) => JsonView::Text(a@),
            None => JsonView::Null,
        },
    ).insert("message_count"@, unsigned_view(summary.message_count as u64)).insert(
        "total_tokens"@,
        unsigned_view(summary.total_tokens),
    )
}

/// The status of a session in a status list.
pub open spec fn kind_in(statuses: Map<Seq<char>, StatusKind>, session_id: Seq<char>) -> Option<StatusKind> {
    if statuses.contains_key(session_id) {
        Some(statuses[session_id])
    } else {
        None
    }
}

/// What a poll of a session found, as metadata: the session, its status, and
/// what its messages add up to. The cost is added where it is a JSON value.
pub fn poll_opencode_session(session_id: &str, statuses: &SessionStatuses, summary: &SessionMessageSummary) -> (r:
    Metadata)
    ensures
        r@ == match crate::json::json_value(summary.total_cost@) {
            Some(cost) => session_fields(
                session_id@,
                kind_in(statuses@, session_id@),
                *summary,
            ).insert("total_cost"@, cost),
            None => session_fields(session_id@, kind_in(statuses@, session_id@), *summary),
        },
{
    let kind = statuses.get(session_id);
    let mut doc = Metadata::new();
    doc.insert_str("session_id", session_id);
    doc.insert_str("session_status", status_name(kind));
    doc.insert_opt_str("model", &summary.model);
    doc.insert_opt_str("agent", &summary.agent);
    doc.insert_u64("message_count", summary.message_count as u64);
    doc.insert_u64("total_tokens", summary.total_tokens);
    let _ = doc.insert_json("total_cost", summary.total_cost.as_str());
    doc
}

/// The working directory that the stored file of a session names.
pub open spec fn stored_directory(content: Seq<char>) -> Option<Seq<char>> {
    match crate::json::json_fields(content) {
        Some(f) => crate::json::text_at(f, "directory"@),
        None => None,
    }
}

/// Reads the working directory from the content of a session's stored file.
pub fn find_session_directory(content: &str) -> (r: Option<String>)
    ensures
        opt_text(r) == stored_directory(content@),
{
    match Metadata::from_json(content) {
        Some(doc) => doc.get_str("directory"),
        None => None,
    }
}

/// The working directories that the stored session files name, in the order
/// of the files.
pub open spec fn stored_directories(contents: Seq<Seq<char>>) -> Seq<Seq<char>>
    decreases contents.len(),
{
    if contents.len() == 0 {
        Seq::empty()
    } else {
        let before = stored_directories(contents.drop_last());
        match stored_directory(contents.last()) {
            Some(d) => before.push(d),
            None => before,
        }
    }
}

/// Lists the working directories that the service knows, from the contents
/// of one stored session file of each. A file that names none is passed over.
pub fn enumerate_opencode_directories(contents: &Vec<String>) -> (r: Vec<String>)
    ensures
        r@.map_values(|s: String| s@) == stored_directories(contents@.map_values(|s: String| s@)),
{
    let ghost texts = contents@.map_values(|s: String| s@);
    let mut out: Vec<String> = Vec::new();
    let mut i: usize = 0;
    proof {
        assert(texts.take(0) =~= Seq::<Seq<char>>::empty());
        assert(out@.map_values(|s: String| s@) =~= stored_directories(texts.take(0)));
    }
    while i < contents.len()
        invariant
            i <= contents@.len(),
            texts == contents@.map_values(|s: String| s@),
            out@.map_values(|s: String| s@) == stored_directories(texts.take(i as int)),
        decreases contents.len() - i,
    {
        proof {
            assert(texts.take(i + 1).drop_last() =~= texts.take(i as int));
            assert(texts.take(i + 1).last() == contents@[i as int]@);
        }
        match find_session_directory(contents[i].as_str()) {
            Some(d) => {
                let ghost seen = out@;
                out.push(d);
                proof {
                    assert(out@.map_values(|s: String| s@) =~= seen.map_values(|s: String| s@).push(
                        d@,
                    ));
                }
            },
            None => {},
        }
        i += 1;
    }
    proof {
        assert(texts.take(i as int) =~= texts);
    }
    out
}

} // verus!
