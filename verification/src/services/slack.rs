//! Chat threads: the answer of the reply listing, normalised.

use vstd::prelude::*;
use crate::json::{unsigned_view, Fields, JsonView, Metadata};
use crate::text::concat2;

verus! {

/// One message of a thread.
pub struct SlackMessage {
    pub msg_type: String,
    pub user: Option<String>,
    pub text: String,
    pub ts: String,
}

/// The answer to a request for a thread's replies.
pub struct SlackResponse {
    pub ok: bool,
    pub messages: Option<Vec<SlackMessage>>,
    pub error: Option<String>,
}

/// A message as a JSON object.
pub open spec fn message_fields(m: SlackMessage) -> Fields {
    Fields::empty().insert("type"@, JsonView::Text(m.msg_type@)).insert(
        "user"@,
        match m.user {
            Some(u) => JsonView::Text(u@),
            None => JsonView::Null,
        },
    ).insert("text"@, JsonView::Text(m.text@)).insert("ts"@, JsonView::Text(m.ts@))
}

/// The messages of an answer; none where the answer lists none.
pub open spec fn messages_of(response: SlackResponse) -> Seq<SlackMessage> {
    match response.messages {
        Some(list) => list@,
        None => Seq::empty(),
    }
}

/// The time of the newest message, or of the thread itself where there is no
/// message.
pub open spec fn latest_ts(response: SlackResponse, thread_ts: Seq<char>) -> Seq<char> {
    if messages_of(response).len() > 0 {
        messages_of(response).last().ts@
    } else {
        thread_ts
    }
}

/// What a good answer says of a thread: how many messages it has, when the
/// newest was written, and the messages themselves.
pub open spec fn thread_fields(response: SlackResponse, thread_ts: Seq<char>) -> Fields {
    Fields::empty().insert(
        "message_count"@,
        unsigned_view(messages_of(response).len() as u64),
    ).insert("latest_ts"@, JsonView::Text(latest_ts(response, thread_ts))).insert(
        "messages"@,
        JsonView::Array(
            messages_of(response).map_values(|m: SlackMessage| JsonView::Object(message_fields(m))),
        ),
    )
}

/// The error text of an answer that reports failure.
pub open spec fn slack_error_text(response: SlackResponse) -> Seq<char> {
    "Slack API error: "@ + match response.error {
        Some(e) => e@,
        None => "Unknown error"@,
    }
}

/// A message as a JSON object.
fn message_document(m: &SlackMessage) -> (r: Metadata)
    ensures
        r@ == message_fields(*m),
{
    let mut doc = Metadata::new();
    doc.insert_str("type", m.msg_type.as_str());
    doc.insert_opt_str("user", &m.user);
    doc.insert_str("text", m.text.as_str());
    doc.insert_str("ts", m.ts.as_str());
    doc
}

/// Normalises the answer to a request for the replies of the thread
/// `thread_ts`. An answer that reports failure becomes an error that names
/// the reported reason.
pub fn check_slack_thread(response: &SlackResponse, thread_ts: &str) -> (r: Result<Metadata, String>)
    ensures
        match r {
            Ok(doc) => response.ok && doc@ == thread_fields(*response, thread_ts@),
            Err(e) => !response.ok && e@ == slack_error_text(*response),
        },
{
    if !response.ok {
        let reason = match &response.error {
            Some(e) => e.as_str(),
            None => "Unknown error",
        };
        return Err(concat2("Slack API error: ", reason));
    }
    let mut doc = Metadata::new();
    let mut objects: Vec<Metadata> = Vec::new();
    let mut count: u64 = 0;
    let mut latest = String::from_str(thread_ts);
    match &response.messages {
        Some(list) => {
            let mut i: usize = 0;
            while i < list.len()
                invariant
                    i <= list@.len(),
                    objects@.len() == i,
                    forall|k: int|
                        0 <= k < i ==> (#[trigger] objects@[k])@ == message_fields(list@[k]),
                decreases list.len() - i,
            {
                objects.push(message_document(&list[i]));
                i += 1;
            }
            count = list.len() as u64;
            if list.len() > 0 {
                latest = list[list.len() - 1].ts.clone();
            }
        },
        None => {},
    }
    proof {
        assert(objects@.map_values(|m: Metadata| JsonView::Object(m@)) =~= messages_of(
            *response,
        ).map_values(|m: SlackMessage| JsonView::Object(message_fields(m))));
    }
    doc.insert_u64("message_count", count);
    doc.insert_str("latest_ts", latest.as_str());
    doc.insert_objects("messages", objects);
    Ok(doc)
}

} // verus!
