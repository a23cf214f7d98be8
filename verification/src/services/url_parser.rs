//! Recognising the URL of a chat thread, a CI run or a pull request.
//!
//! The three URL shapes are regular expressions; matching them is the `regex`
//! crate's work. What is made of a match is decided here.

use vstd::prelude::*;
use vstd::string::StringSliceAdditionalSpecFns;
use vstd::utf8::{decode_utf8, encode_utf8, is_char_boundary};
use crate::string_map::StringMap;
use crate::text::{concat2, concat3, concat4, opt_text};

verus! {

#[verifier::external_type_specification]
#[verifier::external_body]
pub struct ExRegexError(regex::Error);

/// What was recognised in a URL.
pub struct ParsedUrl {
    pub item_type: String,
    pub metadata: StringMap,
    pub suggested_title: String,
}

/// A parsed URL as contracts see it.
pub struct ParsedUrlView {
    pub item_type: Seq<char>,
    pub metadata: Map<Seq<char>, Seq<char>>,
    pub suggested_title: Seq<char>,
}

impl View for ParsedUrl {
    type V = ParsedUrlView;

    open spec fn view(&self) -> ParsedUrlView {
        ParsedUrlView {
            item_type: self.item_type@,
            metadata: self.metadata@,
            suggested_title: self.suggested_title@,
        }
    }
}

/// Why a URL was not recognised.
#[derive(PartialEq, Eq, Structural, Clone, Copy, Debug)]
pub enum ParseUrlError {
    /// The URL has none of the three shapes.
    Unsupported,
    /// A pattern was refused by the matcher, or gave groups that its shape
    /// does not have.
    Pattern,
}

impl ParseUrlError {
    /// The error in words.
    pub fn message(&self) -> (r: String)
        ensures
            r@ == match *self {
                ParseUrlError::Unsupported =>
                    "Unsupported URL format. Expected Slack thread, GitHub Action, or GitHub PR URL."@,
                ParseUrlError::Pattern => "URL pattern failed"@,
            },
    {
        match self {
            ParseUrlError::Unsupported => String::from_str(
                "Unsupported URL format. Expected Slack thread, GitHub Action, or GitHub PR URL.",
            ),
            ParseUrlError::Pattern => String::from_str("URL pattern failed"),
        }
    }
}

/// A chat thread: any host under `slack.com`, the channel, and the message time
/// written after a `p`.
pub const SLACK_THREAD_PATTERN: &'static str = r"https?://[^/]+\.slack\.com/archives/([^/]+)/p(\d+)";

/// A CI run: owner, repository and run number.
pub const GITHUB_ACTION_PATTERN: &'static str =
    r"https?://github\.com/([^/]+)/([^/]+)/actions/runs/(\d+)";

/// A pull request: owner, repository and number.
pub const GITHUB_PR_PATTERN: &'static str = r"https?://github\.com/([^/]+)/([^/]+)/pull/(\d+)";

/// The texts of the groups of a match; `None` for a group that took no part.
pub open spec fn groups_view(groups: Seq<Option<String>>) -> Seq<Option<Seq<char>>> {
    groups.map_values(|g: Option<String>| opt_text(g))
}

/// The capture groups of the leftmost match of `pattern` in `hay`, the whole
/// match first. The outer `None`: `pattern` is no regular expression. The
/// inner `None`: there is no match.
pub uninterp spec fn regex_groups(pattern: Seq<char>, hay: Seq<char>) -> Option<
    Option<Seq<Option<Seq<char>>>>,
>;

/// `Regex::new`, `Regex::captures`, and for each group of `Captures::iter` the
/// text of `Match::as_str`. The answer depends on the two texts alone.
#[verifier::external_body]
fn regex_captures(pattern: &str, hay: &str) -> (r: Result<Option<Vec<Option<String>>>, regex::Error>)
    ensures
        match r {
            Ok(Some(groups)) => regex_groups(pattern@, hay@) == Some(Some(groups_view(groups@))),
            Ok(None) => regex_groups(pattern@, hay@) == Some(None::<Seq<Option<Seq<char>>>>),
            Err(_) => regex_groups(pattern@, hay@) is None,
        },
{
    let re = regex::Regex::new(pattern)?;
    Ok(re.captures(hay).map(|c| c.iter().map(|g| g.map(|m| m.as_str().to_string())).collect()))
}

/// The time of a message as the chat service writes it in its answers: a
/// point after the tenth byte of the digits in the URL. Shorter texts, and
/// texts that cannot be cut there, stay as they are.
pub open spec fn thread_ts_of(raw: Seq<char>) -> Seq<char> {
    let bytes = encode_utf8(raw);
    if bytes.len() >= 10 && is_char_boundary(bytes, 10) {
        decode_utf8(bytes.subrange(0, 10)) + "."@ + decode_utf8(
            bytes.subrange(10, bytes.len() as int),
        )
    } else {
        raw
    }
}

/// The time of a message, from the digits in the URL.
pub fn thread_ts(raw: &str) -> (r: String)
    ensures
        r@ == thread_ts_of(raw@),
{
    let bytes = raw.as_bytes();
    if bytes.len() >= 10 && raw.is_char_boundary(10) {
        let (head, tail) = raw.split_at(10);
        proof {
            vstd::utf8::encode_utf8_decode_utf8(head@);
            vstd::utf8::encode_utf8_decode_utf8(tail@);
            assert(head.spec_bytes() == encode_utf8(raw@).subrange(0, 10));
            assert(tail.spec_bytes() == encode_utf8(raw@).subrange(10, encode_utf8(raw@).len() as int));
        }
        concat3(head, ".", tail)
    } else {
        String::from_str(raw)
    }
}

/// The group `i` of a match, where the match has such a group and it took part.
pub open spec fn group(groups: Seq<Option<Seq<char>>>, i: int) -> Option<Seq<char>> {
    if 0 <= i < groups.len() {
        groups[i]
    } else {
        None
    }
}

/// The group `i` of a match.
fn group_text(groups: &Vec<Option<String>>, i: usize) -> (r: Option<&String>)
    ensures
        match r {
            Some(s) => group(groups_view(groups@), i as int) == Some(s@),
            None => group(groups_view(groups@), i as int) is None,
        },
{
    if i < groups.len() {
        match &groups[i] {
            Some(s) => Some(s),
            None => None,
        }
    } else {
        None
    }
}

/// What a match of the chat thread pattern means.
pub open spec fn slack_parsed(groups: Seq<Option<Seq<char>>>) -> Option<ParsedUrlView> {
    if group(groups, 1) is Some && group(groups, 2) is Some {
        let channel = group(groups, 1)->0;
        Some(
            ParsedUrlView {
                item_type: "slack_thread"@,
                metadata: Map::<Seq<char>, Seq<char>>::empty().insert(
                    "channel_id"@,
                    channel,
                ).insert("thread_ts"@, thread_ts_of(group(groups, 2)->0)),
                suggested_title: "Slack thread in "@ + channel,
            },
        )
    } else {
        None
    }
}

/// What a match of a code hosting pattern means: `kind` is the item type,
/// `number_key` names the third group, and `label` opens the title.
pub open spec fn github_parsed(
    groups: Seq<Option<Seq<char>>>,
    kind: Seq<char>,
    number_key: Seq<char>,
    label: Seq<char>,
) -> Option<ParsedUrlView> {
    if group(groups, 1) is Some && group(groups, 2) is Some && group(groups, 3) is Some {
        let owner = group(groups, 1)->0;
        let repo = group(groups, 2)->0;
        let number = group(groups, 3)->0;
        Some(
            ParsedUrlView {
                item_type: kind,
                metadata: Map::<Seq<char>, Seq<char>>::empty().insert("owner"@, owner).insert(
                    "repo"@,
                    repo,
                ).insert(number_key, number),
                suggested_title: label + owner + "/"@ + repo + " #"@ + number,
            },
        )
    } else {
        None
    }
}

/// Reads a match of the chat thread pattern: the channel and the time of the
/// thread. `None` where the groups are not those of the pattern.
pub fn slack_from_groups(groups: &Vec<Option<String>>) -> (r: Option<ParsedUrl>)
    ensures
        match r {
            Some(p) => slack_parsed(groups_view(groups@)) == Some(p@),
            None => slack_parsed(groups_view(groups@)) is None,
        },
{
    let channel = match group_text(groups, 1) {
        Some(s) => s,
        None => {
            return None;
        },
    };
    let digits = match group_text(groups, 2) {
        Some(s) => s,
        None => {
            return None;
        },
    };
    let mut metadata = StringMap::new();
    metadata.insert(String::from_str("channel_id"), channel.clone());
    metadata.insert(String::from_str("thread_ts"), thread_ts(digits.as_str()));
    Some(
        ParsedUrl {
            item_type: String::from_str("slack_thread"),
            metadata,
            suggested_title: concat2("Slack thread in ", channel.as_str()),
        },
    )
}

/// Reads a match of a code hosting pattern: owner, repository and number.
/// `None` where the groups are not those of the pattern.
pub fn github_from_groups(groups: &Vec<Option<String>>, kind: &str, number_key: &str, label: &str) -> (r:
    Option<ParsedUrl>)
    ensures
        match r {
            Some(p) => github_parsed(groups_view(groups@), kind@, number_key@, label@) == Some(p@),
            None => github_parsed(groups_view(groups@), kind@, number_key@, label@) is None,
        },
{
    let owner = match group_text(groups, 1) {
        Some(s) => s,
        None => {
            return None;
        },
    };
    let repo = match group_text(groups, 2) {
        Some(s) => s,
        None => {
            return None;
        },
    };
    let number = match group_text(groups, 3) {
        Some(s) => s,
        None => {
            return None;
        },
    };
    let mut metadata = StringMap::new();
    metadata.insert(String::from_str("owner"), owner.clone());
    metadata.insert(String::from_str("repo"), repo.clone());
    metadata.insert(String::from_str(number_key), number.clone());
    let front = concat4(label, owner.as_str(), "/", repo.as_str());
    let title = concat3(front.as_str(), " #", number.as_str());
    Some(ParsedUrl { item_type: String::from_str(kind), metadata, suggested_title: title })
}

/// What a pattern's answer means for a URL: the match read by `read`, an
/// error where the pattern failed, and `None` where the next shape is to be
/// tried.
pub open spec fn shape_result(
    answer: Option<Option<Seq<Option<Seq<char>>>>>,
    read: spec_fn(Seq<Option<Seq<char>>>) -> Option<ParsedUrlView>,
) -> Option<Result<ParsedUrlView, ParseUrlError>> {
    match answer {
        None => Some(Err(ParseUrlError::Pattern)),
        Some(None) => None,
        Some(Some(groups)) => match read(groups) {
            Some(p) => Some(Ok(p)),
            None => Some(Err(ParseUrlError::Pattern)),
        },
    }
}

/// What a URL is recognised as. The shapes are tried in a fixed order: chat
/// thread, CI run, pull request.
pub open spec fn parse_url_spec(url: Seq<char>) -> Result<ParsedUrlView, ParseUrlError> {
    let slack = shape_result(
        regex_groups(SLACK_THREAD_PATTERN@, url),
        |g: Seq<Option<Seq<char>>>| slack_parsed(g),
    );
    let action = shape_result(
        regex_groups(GITHUB_ACTION_PATTERN@, url),
        |g: Seq<Option<Seq<char>>>|
            github_parsed(g, "github_action"@, "run_id"@, "GitHub Action: "@),
    );
    let pr = shape_result(
        regex_groups(GITHUB_PR_PATTERN@, url),
        |g: Seq<Option<Seq<char>>>| github_parsed(g, "github_pr"@, "pr_number"@, "PR: "@),
    );
    if slack is Some {
        slack->0
    } else if action is Some {
        action->0
    } else if pr is Some {
        pr->0
    } else {
        Err(ParseUrlError::Unsupported)
    }
}

/// The view of a result of [`parse_url`].
pub open spec fn parsed_view(r: Result<ParsedUrl, ParseUrlError>) -> Result<ParsedUrlView, ParseUrlError> {
    match r {
        Ok(p) => Ok(p@),
        Err(e) => Err(e),
    }
}

/// Recognises a URL as a chat thread, a CI run or a pull request, and takes
/// from it the fields by which the item is polled.
pub fn parse_url(url: &str) -> (r: Result<ParsedUrl, ParseUrlError>)
    ensures
        parsed_view(r) == parse_url_spec(url@),
{
    match regex_captures(SLACK_THREAD_PATTERN, url) {
        Err(_) => {
            return Err(ParseUrlError::Pattern);
        },
        Ok(Some(groups)) => {
            return match slack_from_groups(&groups) {
                Some(p) => Ok(p),
                None => Err(ParseUrlError::Pattern),
            };
        },
        Ok(None) => {},
    }
    match regex_captures(GITHUB_ACTION_PATTERN, url) {
        Err(_) => {
            return Err(ParseUrlError::Pattern);
        },
        Ok(Some(groups)) => {
            return match github_from_groups(&groups, "github_action", "run_id", "GitHub Action: ") {
                Some(p) => Ok(p),
                None => Err(ParseUrlError::Pattern),
            };
        },
        Ok(None) => {},
    }
    match regex_captures(GITHUB_PR_PATTERN, url) {
        Err(_) => {
            return Err(ParseUrlError::Pattern);
        },
        Ok(Some(groups)) => {
            return match github_from_groups(&groups, "github_pr", "pr_number", "PR: ") {
                Some(p) => Ok(p),
                None => Err(ParseUrlError::Pattern),
            };
        },
        Ok(None) => {},
    }
    Err(ParseUrlError::Unsupported)
}

} // verus!
