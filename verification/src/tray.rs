//! What the tray shows of the items: a label for each, and a count.

use vstd::prelude::*;
use vstd::string::StringSliceAdditionalSpecFns;
use vstd::utf8::{decode_utf8, encode_utf8};
use crate::db::{Item, ItemView};
use crate::json::text_at;
use crate::services::opencode::floor_boundary;
use crate::text::{
    clone_opt, concat2, concat3, concat4, has_prefix, i64_text, i64_to_string, opt_text, str_eq,
    strip_prefix,
};

verus! {

/// The name of the tray icon.
pub const TRAY_ID: &'static str = "main-tray";

/// The sign that stands for a status.
pub open spec fn emoji_of(status: Seq<char>) -> Seq<char> {
    if status == "waiting"@ {
        "\u{23F3}"@
    } else if status == "in_progress"@ {
        "\u{1F504}"@
    } else if status == "updated"@ {
        "\u{1F514}"@
    } else if status == "approved"@ {
        "\u{1F44D}"@
    } else if status == "merged"@ {
        "\u{1F7E3}"@
    } else if status == "completed"@ {
        "\u{2705}"@
    } else if status == "failed"@ {
        "\u{274C}"@
    } else if status == "archived"@ {
        "\u{1F4E6}"@
    } else {
        "\u{2753}"@
    }
}

/// The sign that stands for a status.
pub fn status_emoji(status: &str) -> (r: &'static str)
    ensures
        r@ == emoji_of(status@),
{
    if str_eq(status, "waiting") {
        "\u{23F3}"
    } else if str_eq(status, "in_progress") {
        "\u{1F504}"
    } else if str_eq(status, "updated") {
        "\u{1F514}"
    } else if str_eq(status, "approved") {
        "\u{1F44D}"
    } else if str_eq(status, "merged") {
        "\u{1F7E3}"
    } else if str_eq(status, "completed") {
        "\u{2705}"
    } else if str_eq(status, "failed") {
        "\u{274C}"
    } else if str_eq(status, "archived") {
        "\u{1F4E6}"
    } else {
        "\u{2753}"
    }
}

/// The word that stands for a type of item.
pub open spec fn label_of(item_type: Seq<char>) -> Seq<char> {
    if item_type == "slack_thread"@ {
        "Slack"@
    } else if item_type == "github_action"@ {
        "Action"@
    } else if item_type == "github_pr"@ {
        "PR"@
    } else if item_type == "copilot_agent"@ {
        "Copilot"@
    } else if item_type == "cli_session"@ {
        "CLI"@
    } else if item_type == "opencode_session"@ {
        "OpenCode"@
    } else {
        "Item"@
    }
}

/// The word that stands for a type of item.
pub fn type_label(item_type: &str) -> (r: &'static str)
    ensures
        r@ == label_of(item_type@),
{
    if str_eq(item_type, "slack_thread") {
        "Slack"
    } else if str_eq(item_type, "github_action") {
        "Action"
    } else if str_eq(item_type, "github_pr") {
        "PR"
    } else if str_eq(item_type, "copilot_agent") {
        "Copilot"
    } else if str_eq(item_type, "cli_session") {
        "CLI"
    } else if str_eq(item_type, "opencode_session") {
        "OpenCode"
    } else {
        "Item"
    }
}

/// Where an item leads: an agent session to its page in the dashboard, made
/// from its metadata, every other item to its own URL.
pub open spec fn url_of(item: ItemView) -> Option<Seq<char>> {
    if item.item_type == "opencode_session"@ {
        if text_at(item.metadata, "opencode_url"@) is Some && text_at(
            item.metadata,
            "session_id"@,
        ) is Some {
            Some(
                text_at(item.metadata, "opencode_url"@)->0 + "/session/"@ + text_at(
                    item.metadata,
                    "session_id"@,
                )->0,
            )
        } else {
            None
        }
    } else {
        item.url
    }
}

/// Where an item leads.
pub fn item_url(item: &Item) -> (r: Option<String>)
    ensures
        opt_text(r) == url_of(item@),
{
    if str_eq(item.item_type.as_str(), "opencode_session") {
        let base = match item.metadata.get_str("opencode_url") {
            Some(b) => b,
            None => {
                return None;
            },
        };
        let session_id = match item.metadata.get_str("session_id") {
            Some(s) => s,
            None => {
                return None;
            },
        };
        Some(concat3(base.as_str(), "/session/", session_id.as_str()))
    } else {
        clone_opt(&item.url)
    }
}

/// The longest title that a menu shows in full, in bytes.
pub const MENU_TITLE_BYTES: usize = 40;

/// A title as a menu shows it: a title of more than forty bytes is cut to
/// thirty-seven, or to the nearest character before, with three points.
pub open spec fn menu_title(title: Seq<char>) -> Seq<char> {
    let bytes = encode_utf8(title);
    if bytes.len() > MENU_TITLE_BYTES {
        decode_utf8(bytes.subrange(0, floor_boundary(bytes, 37))) + "..."@
    } else {
        title
    }
}

/// The line of an item in the menu: sign, type and title.
pub open spec fn menu_label_of(item: ItemView) -> Seq<char> {
    emoji_of(item.status) + " ["@ + label_of(item.item_type) + "] "@ + menu_title(item.title)
}

/// A title as a menu shows it.
fn shown_title(title: &str) -> (r: String)
    ensures
        r@ == menu_title(title@),
{
    let bytes = title.as_bytes();
    if bytes.len() > MENU_TITLE_BYTES {
        let mut cut: usize = 37;
        while cut > 0 && !title.is_char_boundary(cut)
            invariant
                cut <= 37,
                floor_boundary(encode_utf8(title@), 37) == floor_boundary(
                    encode_utf8(title@),
                    cut as int,
                ),
            decreases cut,
        {
            cut -= 1;
        }
        proof {
            vstd::utf8::encode_utf8_valid_utf8(title@);
            vstd::utf8::is_char_boundary_start_end_of_seq(encode_utf8(title@));
        }
        let (head, _) = title.split_at(cut);
        proof {
            vstd::utf8::encode_utf8_decode_utf8(head@);
            assert(head.spec_bytes() == encode_utf8(title@).subrange(0, cut as int));
        }
        concat2(head, "...")
    } else {
        String::from_str(title)
    }
}

/// The line of an item in the menu.
pub fn menu_label(item: &Item) -> (r: String)
    ensures
        r@ == menu_label_of(item@),
{
    let front = concat4(
        status_emoji(item.status.as_str()),
        " [",
        type_label(item.item_type.as_str()),
        "] ",
    );
    let title = shown_title(item.title.as_str());
    concat2(front.as_str(), title.as_str())
}

/// The name of an item's entry in the menu.
pub fn menu_item_id(item_id: &str) -> (r: String)
    ensures
        r@ == "item:"@ + item_id@,
{
    concat2("item:", item_id)
}

/// The item that an entry of the menu stands for, where it stands for one.
pub fn menu_item_target(menu_id: &str) -> (r: Option<&str>)
    ensures
        r is Some == has_prefix(menu_id@, "item:"@),
        r matches Some(id) ==> id@ == menu_id@.skip("item:"@.len() as int),
{
    strip_prefix(menu_id, "item:")
}

/// What the badge shows: the number of items that ask for attention, and
/// nothing where there is none.
pub fn badge_title(count: i64) -> (r: Option<String>)
    ensures
        opt_text(r) == if count > 0 {
            Some(i64_text(count))
        } else {
            None
        },
{
    if count > 0 {
        Some(i64_to_string(count))
    } else {
        None
    }
}

} // verus!
