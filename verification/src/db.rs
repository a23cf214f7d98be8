//! The item store: work items, credentials and settings.
//!
//! The store is the single source of truth for an item's status. It lives in
//! memory; whoever owns it decides how it is kept between runs. Every method
//! takes the store exclusively, so a read followed by a write of one item is
//! one step.

use vstd::prelude::*;
use crate::clock::{now_date_time, now_rfc3339, rfc3339_days_ago};
use crate::json::{Fields, JsonView, Metadata};
use crate::string_map::StringMap;
use crate::text::{
    clone_opt, decimal_i64, lemma_text_lt_transitive, opt_text, parse_i64, str_eq, str_lt, text_lt,
};

verus! {

/// A followed unit of external work.
pub struct Item {
    pub id: String,
    pub item_type: String,
    pub title: String,
    pub url: Option<String>,
    pub status: String,
    pub previous_status: Option<String>,
    pub metadata: Metadata,
    pub last_checked_at: Option<String>,
    pub last_updated_at: Option<String>,
    pub created_at: String,
    pub archived: bool,
    pub archived_at: Option<String>,
    pub polling_interval_override: Option<i64>,
    pub checked: bool,
}

/// An item as contracts see it.
pub struct ItemView {
    pub id: Seq<char>,
    pub item_type: Seq<char>,
    pub title: Seq<char>,
    pub url: Option<Seq<char>>,
    pub status: Seq<char>,
    pub previous_status: Option<Seq<char>>,
    pub metadata: Fields,
    pub last_checked_at: Option<Seq<char>>,
    pub last_updated_at: Option<Seq<char>>,
    pub created_at: Seq<char>,
    pub archived: bool,
    pub archived_at: Option<Seq<char>>,
    pub polling_interval_override: Option<i64>,
    pub checked: bool,
}

impl View for Item {
    type V = ItemView;

    open spec fn view(&self) -> ItemView {
        ItemView {
            id: self.id@,
            item_type: self.item_type@,
            title: self.title@,
            url: opt_text(self.url),
            status: self.status@,
            previous_status: opt_text(self.previous_status),
            metadata: self.metadata@,
            last_checked_at: opt_text(self.last_checked_at),
            last_updated_at: opt_text(self.last_updated_at),
            created_at: self.created_at@,
            archived: self.archived,
            archived_at: opt_text(self.archived_at),
            polling_interval_override: self.polling_interval_override,
            checked: self.checked,
        }
    }
}

impl Clone for Item {
    fn clone(&self) -> (r: Self)
        ensures
            r@ == self@,
    {
        Item {
            id: self.id.clone(),
            item_type: self.item_type.clone(),
            title: self.title.clone(),
            url: clone_opt(&self.url),
            status: self.status.clone(),
            previous_status: clone_opt(&self.previous_status),
            metadata: self.metadata.clone(),
            last_checked_at: clone_opt(&self.last_checked_at),
            last_updated_at: clone_opt(&self.last_updated_at),
            created_at: self.created_at.clone(),
            archived: self.archived,
            archived_at: clone_opt(&self.archived_at),
            polling_interval_override: self.polling_interval_override,
            checked: self.checked,
        }
    }
}

impl ItemView {
    /// The item after a status write: the status it had becomes the previous
    /// status, both timestamps move, and the metadata is replaced where a new
    /// document is given.
    pub open spec fn with_status(self, status: Seq<char>, metadata: Option<Fields>, now: Seq<char>) -> ItemView {
        ItemView {
            status,
            previous_status: Some(self.status),
            metadata: match metadata {
                Some(m) => m,
                None => self.metadata,
            },
            last_checked_at: Some(now),
            last_updated_at: Some(now),
            ..self
        }
    }

    /// The item after a poll that changed nothing.
    pub open spec fn touched(self, now: Seq<char>) -> ItemView {
        ItemView { last_checked_at: Some(now), ..self }
    }

    /// The metadata with the error and its time merged in.
    pub open spec fn error_metadata(self, error: Seq<char>, now: Seq<char>) -> Fields {
        self.metadata.insert("last_error"@, JsonView::Text(error)).insert(
            "last_error_at"@,
            JsonView::Text(now),
        )
    }

    /// The item after a failed poll. A permanent failure moves the item to
    /// `failed`, unless it is there already.
    pub open spec fn with_poll_error(self, error: Seq<char>, mark_failed: bool, now: Seq<char>) -> ItemView {
        if mark_failed && self.status != "failed"@ {
            ItemView {
                status: "failed"@,
                previous_status: Some(self.status),
                metadata: self.error_metadata(error, now),
                last_checked_at: Some(now),
                last_updated_at: Some(now),
                ..self
            }
        } else {
            ItemView {
                metadata: self.error_metadata(error, now),
                last_checked_at: Some(now),
                ..self
            }
        }
    }

    /// The item in the archive. Archiving clears the acknowledgement.
    pub open spec fn in_archive(self, now: Seq<char>) -> ItemView {
        ItemView { archived: true, archived_at: Some(now), checked: false, ..self }
    }

    /// The item taken back from the archive.
    pub open spec fn out_of_archive(self) -> ItemView {
        ItemView { archived: false, archived_at: None, ..self }
    }

    /// The item closed: its status is kept as the previous status.
    pub open spec fn closed(self, now: Seq<char>) -> ItemView {
        ItemView {
            status: "closed"@,
            previous_status: Some(self.status),
            last_updated_at: Some(now),
            ..self
        }
    }

    /// The time by which staleness is judged: the last update, or the creation
    /// where the item was never updated.
    pub open spec fn freshness(self) -> Seq<char> {
        match self.last_updated_at {
            Some(t) => t,
            None => self.created_at,
        }
    }

    /// Whether the item counts as waiting for the user's attention.
    pub open spec fn actionable(self) -> bool {
        &&& !self.archived
        &&& !self.checked
        &&& attention_status(self.status)
    }

    /// Whether the item is on the user-visible list.
    pub open spec fn visible(self) -> bool {
        !self.archived && !self.checked
    }
}

/// The statuses that ask for the user's attention.
pub open spec fn attention_status(status: Seq<char>) -> bool {
    ||| status == "completed"@
    ||| status == "failed"@
    ||| status == "updated"@
    ||| status == "approved"@
    ||| status == "merged"@
    ||| status == "waiting"@
    ||| status == "input_needed"@
}

/// Whether a status asks for the user's attention.
pub fn is_attention_status(status: &str) -> (r: bool)
    ensures
        r == attention_status(status@),
{
    str_eq(status, "completed") || str_eq(status, "failed") || str_eq(status, "updated") || str_eq(
        status,
        "approved",
    ) || str_eq(status, "merged") || str_eq(status, "waiting") || str_eq(status, "input_needed")
}

/// The secrets of the outside services.
pub struct Credentials {
    pub slack_token: Option<String>,
    pub github_token: Option<String>,
    pub opencode_url: Option<String>,
    pub opencode_password: Option<String>,
}

/// The settings of the engine.
pub struct Settings {
    pub polling_interval: i64,
    pub screen_width: i64,
}

/// Why the store refused an operation.
#[derive(PartialEq, Eq, Structural, Clone, Copy, Debug)]
pub enum StoreError {
    /// An item with this id is in the store already.
    DuplicateId,
    /// No item has this id.
    NotFound,
}

/// The views of a list of items.
pub open spec fn views_of(items: Seq<Item>) -> Seq<ItemView> {
    items.map_values(|i: Item| i@)
}

/// The texts of a list of strings.
pub open spec fn texts_of(list: Seq<String>) -> Seq<Seq<char>> {
    list.map_values(|s: String| s@)
}

/// No two items share an id.
pub open spec fn ids_distinct(items: Seq<ItemView>) -> bool {
    forall|i: int, j: int|
        0 <= i < items.len() && 0 <= j < items.len() && i != j ==> (#[trigger] items[i]).id != (
        #[trigger] items[j]).id
}

/// Some item has this id.
pub open spec fn has_id(items: Seq<ItemView>, id: Seq<char>) -> bool {
    exists|i: int| 0 <= i < items.len() && (#[trigger] items[i]).id == id
}

/// The store as contracts see it.
pub struct DatabaseView {
    /// The items, in the order in which they were added.
    pub items: Seq<ItemView>,
    pub credentials: Map<Seq<char>, Seq<char>>,
    pub settings: Map<Seq<char>, Seq<char>>,
}

impl DatabaseView {
    /// The store after `change` was made to each item that `pick` selects.
    pub open spec fn change_items(
        self,
        pick: spec_fn(ItemView) -> bool,
        change: spec_fn(ItemView) -> ItemView,
    ) -> DatabaseView {
        DatabaseView {
            items: self.items.map_values(
                |it: ItemView|
                    if pick(it) {
                        change(it)
                    } else {
                        it
                    },
            ),
            ..self
        }
    }

    /// The store without the items that `pick` selects.
    pub open spec fn drop_items(self, pick: spec_fn(ItemView) -> bool) -> DatabaseView {
        DatabaseView { items: self.items.filter(|it: ItemView| !pick(it)), ..self }
    }
}

/// The types of item that an adapter polls.
pub open spec fn is_polled_type(item_type: Seq<char>) -> bool {
    ||| item_type == "slack_thread"@
    ||| item_type == "github_action"@
    ||| item_type == "github_pr"@
    ||| item_type == "opencode_session"@
}

/// The statuses in which an item rests. A resting item is no longer polled,
/// unless it is an agent session, which may be archived or taken up again.
pub open spec fn is_resting(status: Seq<char>) -> bool {
    status == "completed"@ || status == "failed"@ || status == "archived"@
}

/// Whether the loop polls an item: it is outside the archive, an adapter
/// knows its type, and it does not rest.
pub open spec fn pollable(it: ItemView) -> bool {
    &&& !it.archived
    &&& is_polled_type(it.item_type)
    &&& (it.item_type == "opencode_session"@ || !is_resting(it.status))
}

/// Whether the loop polls an item.
pub fn should_poll(item: &Item) -> (r: bool)
    ensures
        r == pollable(item@),
{
    if item.archived {
        return false;
    }
    let t = item.item_type.as_str();
    if str_eq(t, "opencode_session") {
        return true;
    }
    if !(str_eq(t, "slack_thread") || str_eq(t, "github_action") || str_eq(t, "github_pr")) {
        return false;
    }
    let s = item.status.as_str();
    !(str_eq(s, "completed") || str_eq(s, "failed") || str_eq(s, "archived"))
}

/// Whether an item tracks the remote agent session of the given id.
pub open spec fn tracks(it: ItemView, session_id: Seq<char>) -> bool {
    it.item_type == "opencode_session"@ && crate::json::text_at(it.metadata, "session_id"@) == Some(
        session_id,
    )
}

/// Whether some item tracks the remote agent session of the given id.
pub open spec fn session_known(items: Seq<ItemView>, session_id: Seq<char>) -> bool {
    exists|i: int| 0 <= i < items.len() && tracks(#[trigger] items[i], session_id)
}

/// No remote agent session is followed by two items.
pub open spec fn one_item_per_session(items: Seq<ItemView>) -> bool {
    forall|i: int, j: int, session_id: Seq<char>|
        0 <= i < items.len() && 0 <= j < items.len() && i != j && #[trigger] tracks(
            items[i],
            session_id,
        ) ==> !#[trigger] tracks(items[j], session_id)
}

/// Which items an operation is about.
enum Pick<'a> {
    Id(&'a str),
    Ids(&'a Vec<String>),
    OpenClosed,
    StaleBefore(&'a str),
    ArchivedBefore(&'a str),
    CopilotAgentOf(&'a str),
    SessionAt { cwd: &'a str, except: &'a str },
    Archived(bool),
    Visible,
    Actionable,
    Pollable,
}

/// Whether an item tracks a local CLI session.
pub open spec fn is_cli_type(item_type: Seq<char>) -> bool {
    item_type == "copilot_agent"@ || item_type == "cli_session"@
}

/// The string held by a metadata member; the empty string where it holds none.
pub open spec fn text_or_empty(f: Fields, key: Seq<char>) -> Seq<char> {
    match crate::json::text_at(f, key) {
        Some(s) => s,
        None => Seq::empty(),
    }
}

/// Whether an open CLI session item works in `cwd` for another session than
/// `except`.
pub open spec fn other_session_at(it: ItemView, cwd: Seq<char>, except: Seq<char>) -> bool {
    &&& is_cli_type(it.item_type)
    &&& it.status != "closed"@
    &&& it.status != "archived"@
    &&& text_or_empty(it.metadata, "cwd"@) == cwd
    &&& text_or_empty(it.metadata, "copilot_session_id"@) != except
}

/// Whether an item is a `copilot_agent` item that tracks the given session.
pub open spec fn copilot_agent_of(it: ItemView, session_id: Seq<char>) -> bool {
    it.item_type == "copilot_agent"@ && crate::json::text_at(it.metadata, "copilot_session_id"@)
        == Some(session_id)
}

/// Whether an item left the archive's grace period: archived before `cutoff`.
pub open spec fn archived_before(it: ItemView, cutoff: Seq<char>) -> bool {
    it.archived && it.archived_at is Some && text_lt(it.archived_at->0, cutoff)
}

/// Whether an item outside the archive saw no change since `before`.
pub open spec fn stale_before(it: ItemView, before: Seq<char>) -> bool {
    !it.archived && text_lt(it.freshness(), before)
}

impl<'a> Pick<'a> {
    spec fn picks(self, it: ItemView) -> bool {
        match self {
            Pick::Id(id) => it.id == id@,
            Pick::Ids(ids) => texts_of(ids@).contains(it.id),
            Pick::OpenClosed => !it.archived && it.status == "closed"@,
            Pick::StaleBefore(before) => stale_before(it, before@),
            Pick::ArchivedBefore(cutoff) => archived_before(it, cutoff@),
            Pick::CopilotAgentOf(session_id) => copilot_agent_of(it, session_id@),
            Pick::SessionAt { cwd, except } => other_session_at(it, cwd@, except@),
            Pick::Archived(flag) => it.archived == flag,
            Pick::Visible => it.visible(),
            Pick::Actionable => it.actionable(),
            Pick::Pollable => pollable(it),
        }
    }

    fn test(&self, item: &Item) -> (r: bool)
        ensures
            r == self.picks(item@),
    {
        match self {
            Pick::Id(id) => str_eq(item.id.as_str(), id),
            Pick::Ids(ids) => {
                let mut k: usize = 0;
                while k < ids.len()
                    invariant
                        k <= ids@.len(),
                        *self == Pick::Ids(ids),
                        forall|j: int| 0 <= j < k ==> (#[trigger] ids@[j])@ != item.id@,
                    decreases ids.len() - k,
                {
                    if str_eq(ids[k].as_str(), item.id.as_str()) {
                        assert(texts_of(ids@).len() == ids@.len());
                        assert(texts_of(ids@)[k as int] == item.id@);
                        assert(texts_of(ids@).contains(item.id@));
                        return true;
                    }
                    k += 1;
                }
                assert forall|j: int| 0 <= j < texts_of(ids@).len() implies texts_of(ids@)[j]
                    != item.id@ by {
                    assert(texts_of(ids@)[j] == ids@[j]@);
                }
                false
            },
            Pick::OpenClosed => !item.archived && str_eq(item.status.as_str(), "closed"),
            Pick::StaleBefore(before) => {
                if item.archived {
                    false
                } else {
                    match &item.last_updated_at {
                        Some(t) => str_lt(t.as_str(), before),
                        None => str_lt(item.created_at.as_str(), before),
                    }
                }
            },
            Pick::ArchivedBefore(cutoff) => {
                if !item.archived {
                    false
                } else {
                    match &item.archived_at {
                        Some(t) => str_lt(t.as_str(), cutoff),
                        None => false,
                    }
                }
            },
            Pick::CopilotAgentOf(session_id) => {
                if !str_eq(item.item_type.as_str(), "copilot_agent") {
                    false
                } else {
                    match item.metadata.get_str("copilot_session_id") {
                        Some(s) => str_eq(s.as_str(), session_id),
                        None => false,
                    }
                }
            },
            Pick::SessionAt { cwd, except } => {
                let cli = str_eq(item.item_type.as_str(), "copilot_agent") || str_eq(
                    item.item_type.as_str(),
                    "cli_session",
                );
                if !cli || str_eq(item.status.as_str(), "closed") || str_eq(
                    item.status.as_str(),
                    "archived",
                ) {
                    false
                } else {
                    let item_cwd = match item.metadata.get_str("cwd") {
                        Some(s) => s,
                        None => String::new(),
                    };
                    let item_sid = match item.metadata.get_str("copilot_session_id") {
                        Some(s) => s,
                        None => String::new(),
                    };
                    str_eq(item_cwd.as_str(), cwd) && !str_eq(item_sid.as_str(), except)
                }
            },
            Pick::Archived(flag) => item.archived == *flag,
            Pick::Visible => !item.archived && !item.checked,
            Pick::Actionable => !item.archived && !item.checked && is_attention_status(
                item.status.as_str(),
            ),
            Pick::Pollable => should_poll(item),
        }
    }
}

/// What an operation does to the items it is about.
enum Change<'a> {
    Touch(&'a str),
    Title(&'a str),
    Status { status: &'a str, metadata: Option<&'a Metadata>, checked: Option<bool>, now: &'a str },
    PollError { error: &'a str, mark_failed: bool, now: &'a str },
    Checked(bool),
    Archive(&'a str),
    Unarchive,
    Close(&'a str),
}

/// The view of an optional document.
pub open spec fn opt_fields(m: Option<&Metadata>) -> Option<Fields> {
    match m {
        Some(d) => Some(d@),
        None => None,
    }
}

impl ItemView {
    /// The item with the acknowledgement set where a value is given.
    pub open spec fn with_checked(self, checked: Option<bool>) -> ItemView {
        match checked {
            Some(c) => ItemView { checked: c, ..self },
            None => self,
        }
    }
}

impl<'a> Change<'a> {
    spec fn effect(self, it: ItemView) -> ItemView {
        match self {
            Change::Touch(now) => it.touched(now@),
            Change::Title(title) => ItemView { title: title@, ..it },
            Change::Status { status, metadata, checked, now } => it.with_status(
                status@,
                opt_fields(metadata),
                now@,
            ).with_checked(checked),
            Change::PollError { error, mark_failed, now } => it.with_poll_error(
                error@,
                mark_failed,
                now@,
            ),
            Change::Checked(c) => ItemView { checked: c, ..it },
            Change::Archive(now) => it.in_archive(now@),
            Change::Unarchive => it.out_of_archive(),
            Change::Close(now) => it.closed(now@),
        }
    }

    fn apply(&self, item: &mut Item)
        ensures
            final(item)@ == self.effect(old(item)@),
    {
        match self {
            Change::Touch(now) => {
                item.last_checked_at = Some(String::from_str(now));
            },
            Change::Title(title) => {
                item.title = String::from_str(title);
            },
            Change::Status { status, metadata, checked, now } => {
                let mut previous = String::from_str(status);
                std::mem::swap(&mut previous, &mut item.status);
                item.previous_status = Some(previous);
                match metadata {
                    Some(m) => {
                        item.metadata = (*m).clone();
                    },
                    None => {},
                }
                item.last_checked_at = Some(String::from_str(now));
                item.last_updated_at = Some(String::from_str(now));
                match checked {
                    Some(c) => {
                        item.checked = *c;
                    },
                    None => {},
                }
            },
            Change::PollError { error, mark_failed, now } => {
                item.metadata.insert_str("last_error", error);
                item.metadata.insert_str("last_error_at", now);
                item.last_checked_at = Some(String::from_str(now));
                if *mark_failed && !str_eq(item.status.as_str(), "failed") {
                    let mut previous = String::from_str("failed");
                    std::mem::swap(&mut previous, &mut item.status);
                    item.previous_status = Some(previous);
                    item.last_updated_at = Some(String::from_str(now));
                }
            },
            Change::Checked(c) => {
                item.checked = *c;
            },
            Change::Archive(now) => {
                item.archived = true;
                item.archived_at = Some(String::from_str(now));
                item.checked = false;
            },
            Change::Unarchive => {
                item.archived = false;
                item.archived_at = None;
            },
            Change::Close(now) => {
                let mut previous = String::from_str("closed");
                std::mem::swap(&mut previous, &mut item.status);
                item.previous_status = Some(previous);
                item.last_updated_at = Some(String::from_str(now));
            },
        }
    }
}

/// The item store.
pub struct Database {
    items: Vec<Item>,
    credentials: StringMap,
    settings: StringMap,
}

impl View for Database {
    type V = DatabaseView;

    closed spec fn view(&self) -> DatabaseView {
        DatabaseView {
            items: views_of(self.items@),
            credentials: self.credentials@,
            settings: self.settings@,
        }
    }
}

/// One more item of a list was looked at: what `filter` keeps of the longer
/// prefix.
pub proof fn lemma_filter_step<T>(s: Seq<T>, pred: spec_fn(T) -> bool, i: int)
    requires
        0 <= i < s.len(),
    ensures
        s.take(i + 1).filter(pred) == if pred(s[i]) {
            s.take(i).filter(pred).push(s[i])
        } else {
            s.take(i).filter(pred)
        },
{
    reveal(Seq::filter);
    assert(s.take(i + 1).drop_last() =~= s.take(i));
    assert(s.take(i + 1).last() == s[i]);
}

/// The ids of a list of items.
pub open spec fn ids_of(items: Seq<ItemView>) -> Seq<Seq<char>> {
    items.map_values(|it: ItemView| it.id)
}

/// The items are ordered newest first: none was created before one that
/// follows it.
pub open spec fn newest_first(items: Seq<ItemView>) -> bool {
    forall|i: int, j: int|
        0 <= i < j < items.len() ==> !text_lt(
            (#[trigger] items[i]).created_at,
            (#[trigger] items[j]).created_at,
        )
}

impl DatabaseView {
    /// The store after a status write to the item `id`.
    pub open spec fn status_written(
        self,
        id: Seq<char>,
        status: Seq<char>,
        metadata: Option<Fields>,
        checked: Option<bool>,
        now: Seq<char>,
    ) -> DatabaseView {
        self.change_items(
            |it: ItemView| it.id == id,
            |it: ItemView| it.with_status(status, metadata, now).with_checked(checked),
        )
    }

    /// The store after a poll of the item `id` that changed nothing.
    pub open spec fn touched(self, id: Seq<char>, now: Seq<char>) -> DatabaseView {
        self.change_items(|it: ItemView| it.id == id, |it: ItemView| it.touched(now))
    }

    /// The store after a failed poll of the item `id`.
    pub open spec fn poll_error_recorded(
        self,
        id: Seq<char>,
        error: Seq<char>,
        mark_failed: bool,
        now: Seq<char>,
    ) -> DatabaseView {
        self.change_items(
            |it: ItemView| it.id == id,
            |it: ItemView| it.with_poll_error(error, mark_failed, now),
        )
    }

    /// The store after the items that `pick` selects went to the archive.
    pub open spec fn archived(self, pick: spec_fn(ItemView) -> bool, now: Seq<char>) -> DatabaseView {
        self.change_items(pick, |it: ItemView| it.in_archive(now))
    }

    /// The store after the item `id` went to the archive.
    pub open spec fn item_archived(self, id: Seq<char>, now: Seq<char>) -> DatabaseView {
        self.archived(|it: ItemView| it.id == id, now)
    }

    /// The store after the items with one of the given ids went to the archive.
    pub open spec fn items_archived(self, ids: Seq<Seq<char>>, now: Seq<char>) -> DatabaseView {
        self.archived(|it: ItemView| ids.contains(it.id), now)
    }

    /// The store after the closed items went to the archive.
    pub open spec fn closed_archived(self, now: Seq<char>) -> DatabaseView {
        self.archived(|it: ItemView| !it.archived && it.status == "closed"@, now)
    }

    /// The store after the items without a change since `before` went to the
    /// archive.
    pub open spec fn stale_archived(self, before: Seq<char>, now: Seq<char>) -> DatabaseView {
        self.archived(|it: ItemView| stale_before(it, before), now)
    }

    /// The store without the items that were archived before `cutoff`.
    pub open spec fn without_expired(self, cutoff: Seq<char>) -> DatabaseView {
        self.drop_items(|it: ItemView| archived_before(it, cutoff))
    }

    /// The store after the other open sessions in `cwd` were closed.
    pub open spec fn sessions_closed(self, cwd: Seq<char>, except: Seq<char>, now: Seq<char>) -> DatabaseView {
        self.change_items(
            |it: ItemView| other_session_at(it, cwd, except),
            |it: ItemView| it.closed(now),
        )
    }
}

/// The settings that a new store starts with.
pub open spec fn default_settings() -> Map<Seq<char>, Seq<char>> {
    Map::<Seq<char>, Seq<char>>::empty().insert("polling_interval"@, "30"@).insert(
        "screen_width"@,
        "400"@,
    )
}

/// A number setting: what is stored where it spells a number, else the default.
pub open spec fn number_setting(settings: Map<Seq<char>, Seq<char>>, key: Seq<char>, default: i64) -> i64 {
    if settings.contains_key(key) {
        match decimal_i64(settings[key]) {
            Some(n) => n,
            None => default,
        }
    } else {
        default
    }
}

/// What a setting means as a number: the parsed text, or the default where
/// the setting is missing or spells no number.
pub fn setting_or(parsed: Option<Option<i64>>, default: i64) -> (r: i64)
    ensures
        r == match parsed {
            Some(Some(n)) => n,
            _ => default,
        },
{
    match parsed {
        Some(Some(n)) => n,
        _ => default,
    }
}

/// How many archive days pass before an archived item is removed for good.
pub const ARCHIVE_RETENTION_DAYS: i64 = 7;

impl Item {
    /// An item without content, to stand where one was taken out.
    fn blank() -> (r: Item)
        ensures
            r@ == blank_item(),
    {
        Item {
            id: String::new(),
            item_type: String::new(),
            title: String::new(),
            url: None,
            status: String::new(),
            previous_status: None,
            metadata: Metadata::new(),
            last_checked_at: None,
            last_updated_at: None,
            created_at: String::new(),
            archived: false,
            archived_at: None,
            polling_interval_override: None,
            checked: false,
        }
    }
}

/// The item without content: every text is empty, every optional field is
/// missing, the metadata has no members, and it is neither archived nor
/// acknowledged.
pub open spec fn blank_item() -> ItemView {
    ItemView {
        id: Seq::empty(),
        item_type: Seq::empty(),
        title: Seq::empty(),
        url: None,
        status: Seq::empty(),
        previous_status: None,
        metadata: Fields::empty(),
        last_checked_at: None,
        last_updated_at: None,
        created_at: Seq::empty(),
        archived: false,
        archived_at: None,
        polling_interval_override: None,
        checked: false,
    }
}

proof fn lemma_ids_step(s: Seq<ItemView>, x: ItemView)
    ensures
        ids_of(s.push(x)) == ids_of(s).push(x.id),
{
    assert(ids_of(s.push(x)) =~= ids_of(s).push(x.id));
}

impl Database {
    /// Makes `change` to every item that `pick` selects and hands back the
    /// ids of those items, in the order of the store.
    fn update_where(&mut self, pick: &Pick, change: &Change) -> (r: Vec<String>)
        ensures
            final(self)@ == old(self)@.change_items(
                |it: ItemView| pick.picks(it),
                |it: ItemView| change.effect(it),
            ),
            texts_of(r@) == ids_of(old(self)@.items.filter(|it: ItemView| pick.picks(it))),
    {
        let ghost before = views_of(self.items@);
        let ghost pred = |it: ItemView| pick.picks(it);
        let mut ids: Vec<String> = Vec::new();
        let mut i: usize = 0;
        proof {
            assert(before.take(0) =~= Seq::<ItemView>::empty());
            reveal(Seq::filter);
            assert(texts_of(ids@) =~= ids_of(before.take(0).filter(pred)));
        }
        while i < self.items.len()
            invariant
                i <= self.items@.len(),
                self.items@.len() == before.len(),
                self.credentials == old(self).credentials,
                self.settings == old(self).settings,
                before == views_of(old(self).items@),
                pred == (|it: ItemView| pick.picks(it)),
                forall|k: int|
                    0 <= k < i ==> (#[trigger] self.items@[k])@ == if pick.picks(before[k]) {
                        change.effect(before[k])
                    } else {
                        before[k]
                    },
                forall|k: int| i <= k < before.len() ==> (#[trigger] self.items@[k])@ == before[k],
                texts_of(ids@) == ids_of(before.take(i as int).filter(pred)),
            decreases self.items.len() - i,
        {
            proof {
                lemma_filter_step(before, pred, i as int);
                lemma_ids_step(before.take(i as int).filter(pred), before[i as int]);
            }
            if pick.test(&self.items[i]) {
                let ghost seen = ids@;
                ids.push(self.items[i].id.clone());
                proof {
                    assert(texts_of(ids@) =~= texts_of(seen).push(before[i as int].id));
                }
                change.apply(&mut self.items[i]);
            }
            i += 1;
        }
        proof {
            assert(before.take(i as int) =~= before);
            assert(self@.items =~= old(self)@.change_items(
                |it: ItemView| pick.picks(it),
                |it: ItemView| change.effect(it),
            ).items);
        }
        ids
    }

    /// Takes every item that `pick` selects out of the store and hands back
    /// the ids of those items, in the order of the store.
    fn remove_where(&mut self, pick: &Pick) -> (r: Vec<String>)
        ensures
            final(self)@ == old(self)@.drop_items(|it: ItemView| pick.picks(it)),
            texts_of(r@) == ids_of(old(self)@.items.filter(|it: ItemView| pick.picks(it))),
    {
        let ghost before = views_of(self.items@);
        let ghost pred = |it: ItemView| pick.picks(it);
        let ghost keep = |it: ItemView| !pred(it);
        let mut ids: Vec<String> = Vec::new();
        let mut kept: Vec<Item> = Vec::new();
        let mut i: usize = 0;
        proof {
            assert(before.take(0) =~= Seq::<ItemView>::empty());
            reveal(Seq::filter);
            assert(texts_of(ids@) =~= ids_of(before.take(0).filter(pred)));
            assert(views_of(kept@) =~= before.take(0).filter(keep));
        }
        while i < self.items.len()
            invariant
                i <= self.items@.len(),
                self.items@.len() == before.len(),
                self.credentials == old(self).credentials,
                self.settings == old(self).settings,
                before == views_of(old(self).items@),
                pred == (|it: ItemView| pick.picks(it)),
                keep == (|it: ItemView| !pred(it)),
                forall|k: int| i <= k < before.len() ==> (#[trigger] self.items@[k])@ == before[k],
                texts_of(ids@) == ids_of(before.take(i as int).filter(pred)),
                views_of(kept@) == before.take(i as int).filter(keep),
            decreases self.items.len() - i,
        {
            proof {
                lemma_filter_step(before, pred, i as int);
                lemma_filter_step(before, keep, i as int);
                lemma_ids_step(before.take(i as int).filter(pred), before[i as int]);
            }
            let mut taken = Item::blank();
            std::mem::swap(&mut taken, &mut self.items[i]);
            if pick.test(&taken) {
                let ghost seen = ids@;
                ids.push(taken.id);
                proof {
                    assert(texts_of(ids@) =~= texts_of(seen).push(before[i as int].id));
                }
            } else {
                let ghost seen = kept@;
                kept.push(taken);
                proof {
                    assert(views_of(kept@) =~= views_of(seen).push(before[i as int]));
                }
            }
            i += 1;
        }
        proof {
            assert(before.take(i as int) =~= before);
        }
        self.items = kept;
        proof {
            assert(self@.items =~= old(self)@.drop_items(|it: ItemView| pick.picks(it)).items);
        }
        ids
    }

    /// Copies of the items that `pick` selects, in the order of the store.
    fn select(&self, pick: &Pick) -> (r: Vec<Item>)
        ensures
            views_of(r@) == self@.items.filter(|it: ItemView| pick.picks(it)),
    {
        let ghost all = views_of(self.items@);
        let ghost pred = |it: ItemView| pick.picks(it);
        let mut out: Vec<Item> = Vec::new();
        let mut i: usize = 0;
        proof {
            assert(all.take(0) =~= Seq::<ItemView>::empty());
            reveal(Seq::filter);
            assert(views_of(out@) =~= all.take(0).filter(pred));
        }
        while i < self.items.len()
            invariant
                i <= self.items@.len(),
                all == views_of(self.items@),
                pred == (|it: ItemView| pick.picks(it)),
                views_of(out@) == all.take(i as int).filter(pred),
            decreases self.items.len() - i,
        {
            proof {
                lemma_filter_step(all, pred, i as int);
            }
            if pick.test(&self.items[i]) {
                let ghost seen = out@;
                out.push(self.items[i].clone());
                proof {
                    assert(views_of(out@) =~= views_of(seen).push(all[i as int]));
                }
            }
            i += 1;
        }
        proof {
            assert(all.take(i as int) =~= all);
        }
        out
    }

    /// How many items `pick` selects.
    fn count(&self, pick: &Pick) -> (r: usize)
        ensures
            r == self@.items.filter(|it: ItemView| pick.picks(it)).len(),
    {
        let ghost all = views_of(self.items@);
        let ghost pred = |it: ItemView| pick.picks(it);
        let mut n: usize = 0;
        let mut i: usize = 0;
        proof {
            assert(all.take(0) =~= Seq::<ItemView>::empty());
            reveal(Seq::filter);
        }
        while i < self.items.len()
            invariant
                i <= self.items@.len(),
                all == views_of(self.items@),
                pred == (|it: ItemView| pick.picks(it)),
                n == all.take(i as int).filter(pred).len(),
                n <= i,
            decreases self.items.len() - i,
        {
            proof {
                lemma_filter_step(all, pred, i as int);
            }
            if pick.test(&self.items[i]) {
                n += 1;
            }
            i += 1;
        }
        proof {
            assert(all.take(i as int) =~= all);
        }
        n
    }

    /// Whether some item has this id.
    fn holds(&self, id: &str) -> (r: bool)
        ensures
            r == has_id(self@.items, id@),
    {
        let mut i: usize = 0;
        while i < self.items.len()
            invariant
                i <= self.items@.len(),
                forall|k: int| 0 <= k < i ==> (#[trigger] views_of(self.items@)[k]).id != id@,
            decreases self.items.len() - i,
        {
            if str_eq(self.items[i].id.as_str(), id) {
                assert(views_of(self.items@)[i as int].id == id@);
                return true;
            }
            i += 1;
        }
        false
    }

    /// A new store: no items, no credentials, and the default settings.
    pub fn new() -> (r: Database)
        ensures
            r@.items == Seq::<ItemView>::empty(),
            r@.credentials == Map::<Seq<char>, Seq<char>>::empty(),
            r@.settings == default_settings(),
    {
        let mut settings = StringMap::new();
        settings.insert(String::from_str("polling_interval"), String::from_str("30"));
        settings.insert(String::from_str("screen_width"), String::from_str("400"));
        let r = Database { items: Vec::new(), credentials: StringMap::new(), settings };
        proof {
            assert(r@.items =~= Seq::<ItemView>::empty());
        }
        r
    }

    /// Adds an item. Ids are unique: an item whose id is in the store already
    /// is refused and the store stays as it is.
    pub fn add_item(&mut self, item: &Item) -> (r: Result<(), StoreError>)
        ensures
            match r {
                Ok(_) => !has_id(old(self)@.items, item@.id) && final(self)@ == (DatabaseView {
                    items: old(self)@.items.push(item@),
                    ..old(self)@
                }),
                Err(e) => e == StoreError::DuplicateId && has_id(old(self)@.items, item@.id)
                    && final(self)@ == old(self)@,
            },
            ids_distinct(old(self)@.items) ==> ids_distinct(final(self)@.items),
    {
        if self.holds(item.id.as_str()) {
            return Err(StoreError::DuplicateId);
        }
        let ghost seen = self.items@;
        self.items.push(item.clone());
        proof {
            assert(views_of(self.items@) =~= views_of(seen).push(item@));
            if ids_distinct(old(self)@.items) {
                assert forall|i: int, j: int|
                    0 <= i < self@.items.len() && 0 <= j < self@.items.len() && i != j implies (
                #[trigger] self@.items[i]).id != (#[trigger] self@.items[j]).id by {
                    if i < seen.len() {
                        assert(self@.items[i] == old(self)@.items[i]);
                    }
                    if j < seen.len() {
                        assert(self@.items[j] == old(self)@.items[j]);
                    }
                }
            }
        }
        Ok(())
    }

    /// Whether some item tracks the remote agent session of the given id.
    pub fn tracks_session(&self, session_id: &str) -> (r: bool)
        ensures
            r == session_known(self@.items, session_id@),
    {
        let mut i: usize = 0;
        while i < self.items.len()
            invariant
                i <= self.items@.len(),
                forall|k: int| 0 <= k < i ==> !tracks(#[trigger] views_of(self.items@)[k], session_id@),
            decreases self.items.len() - i,
        {
            let item = &self.items[i];
            proof {
                assert(views_of(self.items@)[i as int] == item@);
            }
            if str_eq(item.item_type.as_str(), "opencode_session") {
                match item.metadata.get_str("session_id") {
                    Some(s) => {
                        if str_eq(s.as_str(), session_id) {
                            return true;
                        }
                    },
                    None => {},
                }
            }
            i += 1;
        }
        false
    }

    /// A copy of the item with this id: the first one, should the store hold
    /// several.
    pub fn get_item(&self, id: &str) -> (r: Option<Item>)
        ensures
            r is Some == has_id(self@.items, id@),
            r matches Some(it) ==> it@.id == id@ && exists|i: int|
                0 <= i < self@.items.len() && #[trigger] self@.items[i] == it@ && forall|k: int|
                    0 <= k < i ==> (#[trigger] self@.items[k]).id != id@,
    {
        let mut i: usize = 0;
        while i < self.items.len()
            invariant
                i <= self.items@.len(),
                forall|k: int| 0 <= k < i ==> (#[trigger] views_of(self.items@)[k]).id != id@,
            decreases self.items.len() - i,
        {
            if str_eq(self.items[i].id.as_str(), id) {
                assert(views_of(self.items@)[i as int] == self.items@[i as int]@);
                return Some(self.items[i].clone());
            }
            i += 1;
        }
        None
    }

    /// The items inside (`archived`) or outside the archive, newest first.
    pub fn get_items(&self, archived: bool) -> (r: Vec<Item>)
        ensures
            views_of(r@).to_multiset() == self@.items.filter(
                |it: ItemView| it.archived == archived,
            ).to_multiset(),
            newest_first(views_of(r@)),
    {
        let pick = Pick::Archived(archived);
        let found = self.select(&pick);
        proof {
            assert(self@.items.filter(|it: ItemView| pick.picks(it)) =~= self@.items.filter(
                |it: ItemView| it.archived == archived,
            )) by {
                lemma_filter_same(
                    self@.items,
                    |it: ItemView| pick.picks(it),
                    |it: ItemView| it.archived == archived,
                );
            }
        }
        sort_newest_first(found)
    }

    /// The user-visible items: neither archived nor acknowledged, newest first.
    pub fn get_visible_items(&self) -> (r: Vec<Item>)
        ensures
            views_of(r@).to_multiset() == self@.items.filter(|it: ItemView| it.visible()).to_multiset(),
            newest_first(views_of(r@)),
    {
        let pick = Pick::Visible;
        let found = self.select(&pick);
        proof {
            lemma_filter_same(
                self@.items,
                |it: ItemView| pick.picks(it),
                |it: ItemView| it.visible(),
            );
        }
        sort_newest_first(found)
    }

    /// The items that the loop polls, newest first.
    pub fn get_pollable_items(&self) -> (r: Vec<Item>)
        ensures
            views_of(r@).to_multiset() == self@.items.filter(|it: ItemView| pollable(it)).to_multiset(),
            newest_first(views_of(r@)),
    {
        let pick = Pick::Pollable;
        let found = self.select(&pick);
        proof {
            lemma_filter_same(
                self@.items,
                |it: ItemView| pick.picks(it),
                |it: ItemView| pollable(it),
            );
        }
        sort_newest_first(found)
    }

    /// How many items ask for the user's attention: visible, and in one of the
    /// attention statuses. The count stops at `i64::MAX`.
    pub fn count_actionable_items(&self) -> (r: i64)
        ensures
            r == if self@.items.filter(|it: ItemView| it.actionable()).len() <= i64::MAX {
                self@.items.filter(|it: ItemView| it.actionable()).len() as int
            } else {
                i64::MAX as int
            },
    {
        let pick = Pick::Actionable;
        let n = self.count(&pick);
        proof {
            lemma_filter_same(
                self@.items,
                |it: ItemView| pick.picks(it),
                |it: ItemView| it.actionable(),
            );
        }
        let wide: u64 = n as u64;
        if wide > 9_223_372_036_854_775_807 {
            9_223_372_036_854_775_807
        } else {
            wide as i64
        }
    }

    /// Writes the status of the item `id` at the time `now`: the status it had
    /// becomes its previous status, both timestamps move to `now`, and the
    /// metadata is replaced where a document is given.
    pub fn update_item_status_at(
        &mut self,
        id: &str,
        status: &str,
        metadata: Option<&Metadata>,
        now: &str,
    ) -> (r: Result<(), StoreError>)
        ensures
            r is Ok == has_id(old(self)@.items, id@),
            r matches Err(e) ==> e == StoreError::NotFound,
            final(self)@ == old(self)@.status_written(id@, status@, opt_fields(metadata), None, now@),
    {
        self.write_status_at(id, status, metadata, None, now)
    }

    /// A status write that also sets the acknowledgement, in one step.
    pub fn write_status_at(
        &mut self,
        id: &str,
        status: &str,
        metadata: Option<&Metadata>,
        checked: Option<bool>,
        now: &str,
    ) -> (r: Result<(), StoreError>)
        ensures
            r is Ok == has_id(old(self)@.items, id@),
            r matches Err(e) ==> e == StoreError::NotFound,
            final(self)@ == old(self)@.status_written(
                id@,
                status@,
                opt_fields(metadata),
                checked,
                now@,
            ),
    {
        let pick = Pick::Id(id);
        let change = Change::Status { status, metadata, checked, now };
        let ids = self.update_where(&pick, &change);
        proof {
            lemma_change_same(
                old(self)@,
                |it: ItemView| pick.picks(it),
                |it: ItemView| change.effect(it),
                |it: ItemView| it.id == id@,
                |it: ItemView|
                    it.with_status(status@, opt_fields(metadata), now@).with_checked(checked),
            );
            lemma_filter_same(
                old(self)@.items,
                |it: ItemView| pick.picks(it),
                |it: ItemView| it.id == id@,
            );
            lemma_has_id_filter(old(self)@.items, id@);
            assert(texts_of(ids@).len() == ids@.len());
        }
        if ids.len() > 0 {
            Ok(())
        } else {
            Err(StoreError::NotFound)
        }
    }

    /// Writes the status of the item `id` at the current time.
    pub fn update_item_status(&mut self, id: &str, status: &str, metadata: Option<&Metadata>) -> (r:
        Result<(), StoreError>)
        ensures
            r is Ok == has_id(old(self)@.items, id@),
            r matches Err(e) ==> e == StoreError::NotFound,
            exists|now: Seq<char>|
                final(self)@ == #[trigger] old(self)@.status_written(
                    id@,
                    status@,
                    opt_fields(metadata),
                    None,
                    now,
                ),
    {
        let now = now_rfc3339();
        self.update_item_status_at(id, status, metadata, now.as_str())
    }

    /// Records at the time `now` that the item `id` was polled and nothing
    /// changed.
    pub fn touch_item_check_at(&mut self, id: &str, now: &str)
        ensures
            final(self)@ == old(self)@.touched(id@, now@),
    {
        let pick = Pick::Id(id);
        let change = Change::Touch(now);
        let _ = self.update_where(&pick, &change);
        proof {
            lemma_change_same(
                old(self)@,
                |it: ItemView| pick.picks(it),
                |it: ItemView| change.effect(it),
                |it: ItemView| it.id == id@,
                |it: ItemView| it.touched(now@),
            );
        }
    }

    /// Records that the item `id` was polled just now and nothing changed.
    pub fn touch_item_check(&mut self, id: &str)
        ensures
            exists|now: Seq<char>| final(self)@ == #[trigger] old(self)@.touched(id@, now),
    {
        let now = now_rfc3339();
        self.touch_item_check_at(id, now.as_str());
    }

    /// Gives the item `id` a new title.
    pub fn update_item_title(&mut self, id: &str, title: &str)
        ensures
            final(self)@ == old(self)@.change_items(
                |it: ItemView| it.id == id@,
                |it: ItemView| (ItemView { title: title@, ..it }),
            ),
    {
        let pick = Pick::Id(id);
        let change = Change::Title(title);
        let _ = self.update_where(&pick, &change);
        proof {
            lemma_change_same(
                old(self)@,
                |it: ItemView| pick.picks(it),
                |it: ItemView| change.effect(it),
                |it: ItemView| it.id == id@,
                |it: ItemView| (ItemView { title: title@, ..it }),
            );
        }
    }

    /// Records at the time `now` that polling the item `id` failed: the error
    /// and its time are merged into the metadata. With `mark_failed` the item
    /// moves to `failed`, unless it is there already; otherwise its status and
    /// previous status stay.
    pub fn update_item_poll_error_at(&mut self, id: &str, error: &str, mark_failed: bool, now: &str) -> (r:
        Result<(), StoreError>)
        ensures
            r is Ok == has_id(old(self)@.items, id@),
            r matches Err(e) ==> e == StoreError::NotFound,
            final(self)@ == old(self)@.poll_error_recorded(id@, error@, mark_failed, now@),
    {
        let pick = Pick::Id(id);
        let change = Change::PollError { error, mark_failed, now };
        let ids = self.update_where(&pick, &change);
        proof {
            lemma_change_same(
                old(self)@,
                |it: ItemView| pick.picks(it),
                |it: ItemView| change.effect(it),
                |it: ItemView| it.id == id@,
                |it: ItemView| it.with_poll_error(error@, mark_failed, now@),
            );
            lemma_filter_same(
                old(self)@.items,
                |it: ItemView| pick.picks(it),
                |it: ItemView| it.id == id@,
            );
            lemma_has_id_filter(old(self)@.items, id@);
            assert(texts_of(ids@).len() == ids@.len());
        }
        if ids.len() > 0 {
            Ok(())
        } else {
            Err(StoreError::NotFound)
        }
    }

    /// Records that polling the item `id` failed just now.
    pub fn update_item_poll_error(&mut self, id: &str, error: &str, mark_failed: bool) -> (r: Result<
        (),
        StoreError,
    >)
        ensures
            r is Ok == has_id(old(self)@.items, id@),
            r matches Err(e) ==> e == StoreError::NotFound,
            exists|now: Seq<char>|
                final(self)@ == #[trigger] old(self)@.poll_error_recorded(
                    id@,
                    error@,
                    mark_failed,
                    now,
                ),
    {
        let now = now_rfc3339();
        self.update_item_poll_error_at(id, error, mark_failed, now.as_str())
    }

    /// Removes the item `id`.
    pub fn remove_item(&mut self, id: &str)
        ensures
            final(self)@ == old(self)@.drop_items(|it: ItemView| it.id == id@),
    {
        let pick = Pick::Id(id);
        let _ = self.remove_where(&pick);
        proof {
            lemma_drop_same(
                old(self)@,
                |it: ItemView| pick.picks(it),
                |it: ItemView| it.id == id@,
            );
        }
    }

    /// Sets the acknowledgement of the item `id`.
    pub fn toggle_checked(&mut self, id: &str, checked: bool)
        ensures
            final(self)@ == old(self)@.change_items(
                |it: ItemView| it.id == id@,
                |it: ItemView| (ItemView { checked, ..it }),
            ),
    {
        let pick = Pick::Id(id);
        let change = Change::Checked(checked);
        let _ = self.update_where(&pick, &change);
        proof {
            lemma_change_same(
                old(self)@,
                |it: ItemView| pick.picks(it),
                |it: ItemView| change.effect(it),
                |it: ItemView| it.id == id@,
                |it: ItemView| (ItemView { checked, ..it }),
            );
        }
    }

    /// Moves the item `id` to the archive at the time `now`.
    pub fn archive_item_at(&mut self, id: &str, now: &str)
        ensures
            final(self)@ == old(self)@.item_archived(id@, now@),
    {
        let pick = Pick::Id(id);
        let change = Change::Archive(now);
        let _ = self.update_where(&pick, &change);
        proof {
            lemma_change_same(
                old(self)@,
                |it: ItemView| pick.picks(it),
                |it: ItemView| change.effect(it),
                |it: ItemView| it.id == id@,
                |it: ItemView| it.in_archive(now@),
            );
        }
    }

    /// Moves the item `id` to the archive.
    pub fn archive_item(&mut self, id: &str)
        ensures
            exists|now: Seq<char>| final(self)@ == #[trigger] old(self)@.item_archived(id@, now),
    {
        let now = now_rfc3339();
        self.archive_item_at(id, now.as_str());
    }

    /// Moves the items with the given ids to the archive at the time `now`.
    pub fn archive_items_at(&mut self, ids: &Vec<String>, now: &str)
        ensures
            final(self)@ == old(self)@.items_archived(texts_of(ids@), now@),
    {
        let pick = Pick::Ids(ids);
        let change = Change::Archive(now);
        let _ = self.update_where(&pick, &change);
        proof {
            lemma_change_same(
                old(self)@,
                |it: ItemView| pick.picks(it),
                |it: ItemView| change.effect(it),
                |it: ItemView| texts_of(ids@).contains(it.id),
                |it: ItemView| it.in_archive(now@),
            );
        }
    }

    /// Moves the items with the given ids to the archive.
    pub fn archive_items(&mut self, ids: &Vec<String>)
        ensures
            exists|now: Seq<char>|
                final(self)@ == #[trigger] old(self)@.items_archived(texts_of(ids@), now),
    {
        let now = now_rfc3339();
        self.archive_items_at(ids, now.as_str());
    }

    /// Takes the item `id` back from the archive.
    pub fn unarchive_item(&mut self, id: &str)
        ensures
            final(self)@ == old(self)@.change_items(
                |it: ItemView| it.id == id@,
                |it: ItemView| it.out_of_archive(),
            ),
    {
        let pick = Pick::Id(id);
        let change = Change::Unarchive;
        let _ = self.update_where(&pick, &change);
        proof {
            lemma_change_same(
                old(self)@,
                |it: ItemView| pick.picks(it),
                |it: ItemView| change.effect(it),
                |it: ItemView| it.id == id@,
                |it: ItemView| it.out_of_archive(),
            );
        }
    }

    /// Removes the archived items whose archive time sorts before `cutoff`
    /// and says how many there were.
    pub fn cleanup_archived_before(&mut self, cutoff: &str) -> (r: u64)
        ensures
            final(self)@ == old(self)@.without_expired(cutoff@),
            r == old(self)@.items.filter(|it: ItemView| archived_before(it, cutoff@)).len(),
    {
        let pick = Pick::ArchivedBefore(cutoff);
        let ids = self.remove_where(&pick);
        proof {
            lemma_drop_same(
                old(self)@,
                |it: ItemView| pick.picks(it),
                |it: ItemView| archived_before(it, cutoff@),
            );
            lemma_filter_same(
                old(self)@.items,
                |it: ItemView| pick.picks(it),
                |it: ItemView| archived_before(it, cutoff@),
            );
            assert(texts_of(ids@).len() == ids@.len());
        }
        ids.len() as u64
    }

    /// Removes the items that have been in the archive for longer than the
    /// retention time and says how many there were. Nothing is removed where
    /// the clock cannot name the cutoff.
    pub fn cleanup_old_archived(&mut self) -> (r: u64)
        ensures
            final(self)@ == old(self)@ && r == 0 || exists|cutoff: Seq<char>|
                final(self)@ == #[trigger] old(self)@.without_expired(cutoff) && r == old(
                    self,
                )@.items.filter(|it: ItemView| archived_before(it, cutoff)).len(),
    {
        self.cleanup_archived_at(rfc3339_days_ago(ARCHIVE_RETENTION_DAYS))
    }

    /// Removes the archived items whose archive time sorts before the cutoff
    /// that the clock named, and says how many there were. Where the clock
    /// named none, nothing is removed.
    pub fn cleanup_archived_at(&mut self, cutoff: Option<String>) -> (r: u64)
        ensures
            cutoff matches Some(c) ==> final(self)@ == old(self)@.without_expired(c@) && r == old(
                self,
            )@.items.filter(|it: ItemView| archived_before(it, c@)).len(),
            cutoff is None ==> final(self)@ == old(self)@ && r == 0,
    {
        match cutoff {
            Some(c) => self.cleanup_archived_before(c.as_str()),
            None => 0,
        }
    }

    /// Moves the closed items to the archive at the time `now` and says how
    /// many there were.
    pub fn archive_closed_items_at(&mut self, now: &str) -> (r: u64)
        ensures
            final(self)@ == old(self)@.closed_archived(now@),
            r == old(self)@.items.filter(|it: ItemView| !it.archived && it.status == "closed"@).len(),
    {
        let pick = Pick::OpenClosed;
        let change = Change::Archive(now);
        let ids = self.update_where(&pick, &change);
        proof {
            lemma_change_same(
                old(self)@,
                |it: ItemView| pick.picks(it),
                |it: ItemView| change.effect(it),
                |it: ItemView| !it.archived && it.status == "closed"@,
                |it: ItemView| it.in_archive(now@),
            );
            lemma_filter_same(
                old(self)@.items,
                |it: ItemView| pick.picks(it),
                |it: ItemView| !it.archived && it.status == "closed"@,
            );
            assert(texts_of(ids@).len() == ids@.len());
        }
        ids.len() as u64
    }

    /// Moves the closed items to the archive and says how many there were.
    pub fn archive_closed_items(&mut self) -> (r: u64)
        ensures
            r == old(self)@.items.filter(|it: ItemView| !it.archived && it.status == "closed"@).len(),
            exists|now: Seq<char>| final(self)@ == #[trigger] old(self)@.closed_archived(now),
    {
        let now = now_rfc3339();
        self.archive_closed_items_at(now.as_str())
    }

    /// Moves to the archive, at the time `now`, the items that saw no change
    /// since `before`, and says how many there were.
    pub fn archive_stale_items_at(&mut self, before: &str, now: &str) -> (r: u64)
        ensures
            final(self)@ == old(self)@.stale_archived(before@, now@),
            r == old(self)@.items.filter(|it: ItemView| stale_before(it, before@)).len(),
    {
        let pick = Pick::StaleBefore(before);
        let change = Change::Archive(now);
        let ids = self.update_where(&pick, &change);
        proof {
            lemma_change_same(
                old(self)@,
                |it: ItemView| pick.picks(it),
                |it: ItemView| change.effect(it),
                |it: ItemView| stale_before(it, before@),
                |it: ItemView| it.in_archive(now@),
            );
            lemma_filter_same(
                old(self)@.items,
                |it: ItemView| pick.picks(it),
                |it: ItemView| stale_before(it, before@),
            );
            assert(texts_of(ids@).len() == ids@.len());
        }
        ids.len() as u64
    }

    /// Moves to the archive the items that saw no change since `before`, and
    /// says how many there were.
    pub fn archive_stale_items(&mut self, before: &str) -> (r: u64)
        ensures
            r == old(self)@.items.filter(|it: ItemView| stale_before(it, before@)).len(),
            exists|now: Seq<char>|
                final(self)@ == #[trigger] old(self)@.stale_archived(before@, now),
    {
        let now = now_rfc3339();
        self.archive_stale_items_at(before, now.as_str())
    }

    /// The session ids that the items of type `opencode_session` track, in the
    /// order of the store.
    pub fn get_opencode_session_ids(&self) -> (r: Vec<String>)
        ensures
            texts_of(r@) == session_ids(self@.items, |t: Seq<char>| t == "opencode_session"@, "session_id"@),
    {
        self.collect_session_ids(true)
    }

    /// The session ids that the local CLI session items track, in the order of
    /// the store.
    pub fn get_copilot_session_ids(&self) -> (r: Vec<String>)
        ensures
            texts_of(r@) == session_ids(self@.items, |t: Seq<char>| is_cli_type(t), "copilot_session_id"@),
    {
        self.collect_session_ids(false)
    }

    /// The session ids in the metadata of the remote agent sessions
    /// (`remote`) or of the local CLI sessions.
    fn collect_session_ids(&self, remote: bool) -> (r: Vec<String>)
        ensures
            remote ==> texts_of(r@) == session_ids(
                self@.items,
                |t: Seq<char>| t == "opencode_session"@,
                "session_id"@,
            ),
            !remote ==> texts_of(r@) == session_ids(
                self@.items,
                |t: Seq<char>| is_cli_type(t),
                "copilot_session_id"@,
            ),
    {
        let ghost all = views_of(self.items@);
        let ghost of_type = if remote {
            |t: Seq<char>| t == "opencode_session"@
        } else {
            |t: Seq<char>| is_cli_type(t)
        };
        let ghost key = if remote {
            "session_id"@
        } else {
            "copilot_session_id"@
        };
        let mut out: Vec<String> = Vec::new();
        let mut i: usize = 0;
        proof {
            assert(all.take(0) =~= Seq::<ItemView>::empty());
            assert(texts_of(out@) =~= session_ids(all.take(0), of_type, key));
        }
        while i < self.items.len()
            invariant
                i <= self.items@.len(),
                all == views_of(self.items@),
                of_type == if remote {
                    |t: Seq<char>| t == "opencode_session"@
                } else {
                    |t: Seq<char>| is_cli_type(t)
                },
                key == if remote {
                    "session_id"@
                } else {
                    "copilot_session_id"@
                },
                texts_of(out@) == session_ids(all.take(i as int), of_type, key),
            decreases self.items.len() - i,
        {
            let item = &self.items[i];
            let wanted = if remote {
                str_eq(item.item_type.as_str(), "opencode_session")
            } else {
                str_eq(item.item_type.as_str(), "copilot_agent") || str_eq(
                    item.item_type.as_str(),
                    "cli_session",
                )
            };
            proof {
                assert(all.take(i + 1).drop_last() =~= all.take(i as int));
                assert(all.take(i + 1).last() == all[i as int]);
            }
            if wanted {
                let found = if remote {
                    item.metadata.get_str("session_id")
                } else {
                    item.metadata.get_str("copilot_session_id")
                };
                match found {
                    Some(sid) => {
                        let ghost seen = out@;
                        out.push(sid);
                        proof {
                            assert(texts_of(out@) =~= texts_of(seen).push(sid@));
                        }
                    },
                    None => {},
                }
            }
            i += 1;
        }
        proof {
            assert(all.take(i as int) =~= all);
        }
        out
    }

    /// Removes the `copilot_agent` items that track the given session, so that
    /// the item that claims the session is the only one, and hands back their
    /// ids.
    pub fn remove_copilot_agent_by_session_id(&mut self, copilot_session_id: &str) -> (r: Vec<String>)
        ensures
            final(self)@ == old(self)@.drop_items(
                |it: ItemView| copilot_agent_of(it, copilot_session_id@),
            ),
            texts_of(r@) == ids_of(
                old(self)@.items.filter(|it: ItemView| copilot_agent_of(it, copilot_session_id@)),
            ),
    {
        let pick = Pick::CopilotAgentOf(copilot_session_id);
        let ids = self.remove_where(&pick);
        proof {
            lemma_drop_same(
                old(self)@,
                |it: ItemView| pick.picks(it),
                |it: ItemView| copilot_agent_of(it, copilot_session_id@),
            );
            lemma_filter_same(
                old(self)@.items,
                |it: ItemView| pick.picks(it),
                |it: ItemView| copilot_agent_of(it, copilot_session_id@),
            );
        }
        ids
    }

    /// Closes, at the time `now`, the open CLI session items that work in `cwd`
    /// for another session than `exclude_session_id`, and hands back their
    /// ids. A closed item keeps the status it had as its previous status.
    pub fn close_copilot_sessions_at_cwd_at(&mut self, cwd: &str, exclude_session_id: &str, now: &str) -> (r:
        Vec<String>)
        ensures
            final(self)@ == old(self)@.sessions_closed(cwd@, exclude_session_id@, now@),
            texts_of(r@) == ids_of(
                old(self)@.items.filter(
                    |it: ItemView| other_session_at(it, cwd@, exclude_session_id@),
                ),
            ),
    {
        let pick = Pick::SessionAt { cwd, except: exclude_session_id };
        let change = Change::Close(now);
        let ids = self.update_where(&pick, &change);
        proof {
            lemma_change_same(
                old(self)@,
                |it: ItemView| pick.picks(it),
                |it: ItemView| change.effect(it),
                |it: ItemView| other_session_at(it, cwd@, exclude_session_id@),
                |it: ItemView| it.closed(now@),
            );
            lemma_filter_same(
                old(self)@.items,
                |it: ItemView| pick.picks(it),
                |it: ItemView| other_session_at(it, cwd@, exclude_session_id@),
            );
        }
        ids
    }

    /// Closes the open CLI session items that work in `cwd` for another
    /// session than `exclude_session_id`, and hands back their ids.
    pub fn close_copilot_sessions_at_cwd(&mut self, cwd: &str, exclude_session_id: &str) -> (r: Vec<
        String,
    >)
        ensures
            texts_of(r@) == ids_of(
                old(self)@.items.filter(
                    |it: ItemView| other_session_at(it, cwd@, exclude_session_id@),
                ),
            ),
            exists|now: Seq<char>|
                final(self)@ == #[trigger] old(self)@.sessions_closed(
                    cwd@,
                    exclude_session_id@,
                    now,
                ),
    {
        let now = now_date_time();
        self.close_copilot_sessions_at_cwd_at(cwd, exclude_session_id, now.as_str())
    }

    /// Stores a credential under its key.
    pub fn save_credential(&mut self, key: &str, value: &str)
        ensures
            final(self)@ == (DatabaseView {
                credentials: old(self)@.credentials.insert(key@, value@),
                ..old(self)@
            }),
    {
        self.credentials.insert(String::from_str(key), String::from_str(value));
    }

    /// The credential stored under `key`. Its absence is an ordinary answer.
    pub fn get_credential(&self, key: &str) -> (r: Option<String>)
        ensures
            opt_text(r) == if self@.credentials.contains_key(key@) {
                Some(self@.credentials[key@])
            } else {
                None
            },
    {
        match self.credentials.get(key) {
            Some(v) => Some(v.clone()),
            None => None,
        }
    }

    /// Stores a setting under its key.
    pub fn save_setting(&mut self, key: &str, value: &str)
        ensures
            final(self)@ == (DatabaseView {
                settings: old(self)@.settings.insert(key@, value@),
                ..old(self)@
            }),
    {
        self.settings.insert(String::from_str(key), String::from_str(value));
    }

    /// The setting stored under `key`.
    pub fn get_setting(&self, key: &str) -> (r: Option<String>)
        ensures
            opt_text(r) == if self@.settings.contains_key(key@) {
                Some(self@.settings[key@])
            } else {
                None
            },
    {
        match self.settings.get(key) {
            Some(v) => Some(v.clone()),
            None => None,
        }
    }

    /// The settings as numbers: 30 seconds between polls and a width of 400
    /// where the stored text is missing or spells no number.
    pub fn get_all_settings(&self) -> (r: Settings)
        ensures
            r.polling_interval == number_setting(self@.settings, "polling_interval"@, 30),
            r.screen_width == number_setting(self@.settings, "screen_width"@, 400),
    {
        let interval = match self.settings.get("polling_interval") {
            Some(v) => Some(parse_i64(v.as_str())),
            None => None,
        };
        let width = match self.settings.get("screen_width") {
            Some(v) => Some(parse_i64(v.as_str())),
            None => None,
        };
        Settings { polling_interval: setting_or(interval, 30), screen_width: setting_or(width, 400) }
    }
}

/// The session ids, found in the metadata member `key`, of the items whose
/// type `of_type` accepts, in the order of the items.
pub open spec fn session_ids(items: Seq<ItemView>, of_type: spec_fn(Seq<char>) -> bool, key: Seq<char>) -> Seq<
    Seq<char>,
>
    decreases items.len(),
{
    if items.len() == 0 {
        Seq::empty()
    } else {
        let rest = session_ids(items.drop_last(), of_type, key);
        let it = items.last();
        if of_type(it.item_type) && crate::json::text_at(it.metadata, key) is Some {
            rest.push(crate::json::text_at(it.metadata, key)->0)
        } else {
            rest
        }
    }
}

/// Two predicates that agree everywhere keep the same items.
pub proof fn lemma_filter_same<T>(s: Seq<T>, p: spec_fn(T) -> bool, q: spec_fn(T) -> bool)
    requires
        forall|x: T| #[trigger] p(x) == q(x),
    ensures
        s.filter(p) == s.filter(q),
    decreases s.len(),
{
    reveal(Seq::filter);
    if s.len() > 0 {
        lemma_filter_same(s.drop_last(), p, q);
    }
}

/// Changes that agree everywhere give the same store.
pub proof fn lemma_change_same(
    db: DatabaseView,
    p: spec_fn(ItemView) -> bool,
    f: spec_fn(ItemView) -> ItemView,
    q: spec_fn(ItemView) -> bool,
    g: spec_fn(ItemView) -> ItemView,
)
    requires
        forall|x: ItemView| #[trigger] p(x) == q(x),
        forall|x: ItemView| p(x) ==> #[trigger] f(x) == g(x),
    ensures
        db.change_items(p, f) == db.change_items(q, g),
{
    assert(db.change_items(p, f).items =~= db.change_items(q, g).items);
}

/// Removals that agree everywhere give the same store.
pub proof fn lemma_drop_same(db: DatabaseView, p: spec_fn(ItemView) -> bool, q: spec_fn(ItemView) -> bool)
    requires
        forall|x: ItemView| #[trigger] p(x) == q(x),
    ensures
        db.drop_items(p) == db.drop_items(q),
{
    lemma_filter_same(db.items, |it: ItemView| !p(it), |it: ItemView| !q(it));
}

/// An id is in the store exactly when selecting by it finds something.
pub proof fn lemma_has_id_filter(items: Seq<ItemView>, id: Seq<char>)
    ensures
        has_id(items, id) == (items.filter(|it: ItemView| it.id == id).len() > 0),
{
    let pred = |it: ItemView| it.id == id;
    if has_id(items, id) {
        let i = choose|i: int| 0 <= i < items.len() && (#[trigger] items[i]).id == id;
        items.lemma_filter_contains(pred, i);
    }
    if items.filter(pred).len() > 0 {
        items.lemma_filter_pred(pred, 0);
        let x = items.filter(pred)[0];
        items.lemma_filter_contains_rev(pred, x);
        let i = choose|i: int| 0 <= i < items.len() && items[i] == x;
        assert(items[i].id == id);
    }
}

/// Orders items newest first. Items of the same creation time keep their
/// order.
pub fn sort_newest_first(items: Vec<Item>) -> (r: Vec<Item>)
    ensures
        views_of(r@).to_multiset() == views_of(items@).to_multiset(),
        newest_first(views_of(r@)),
{
    let ghost all = views_of(items@);
    let mut items = items;
    let mut out: Vec<Item> = Vec::new();
    let mut i: usize = 0;
    proof {
        assert(all.take(0) =~= Seq::<ItemView>::empty());
        assert(views_of(out@) =~= Seq::<ItemView>::empty());
    }
    while i < items.len()
        invariant
            i <= items@.len(),
            items@.len() == all.len(),
            forall|k: int| i <= k < all.len() ==> (#[trigger] items@[k])@ == all[k],
            views_of(out@).to_multiset() == all.take(i as int).to_multiset(),
            newest_first(views_of(out@)),
        decreases items.len() - i,
    {
        let mut taken = Item::blank();
        std::mem::swap(&mut taken, &mut items[i]);
        let mut p: usize = 0;
        while p < out.len() && !str_lt(out[p].created_at.as_str(), taken.created_at.as_str())
            invariant
                p <= out@.len(),
                forall|k: int|
                    0 <= k < p ==> !text_lt((#[trigger] views_of(out@)[k]).created_at, taken@.created_at),
            decreases out.len() - p,
        {
            p += 1;
        }
        let ghost sorted = views_of(out@);
        out.insert(p, taken);
        proof {
            let grown = views_of(out@);
            assert(grown =~= sorted.insert(p as int, taken@));
            vstd::seq_lib::to_multiset_insert(sorted, p as int, taken@);
            assert(all.take(i + 1) =~= all.take(i as int).push(all[i as int]));
            vstd::seq_lib::to_multiset_build(all.take(i as int), all[i as int]);
            assert forall|a: int, b: int| 0 <= a < b < grown.len() implies !text_lt(
                (#[trigger] grown[a]).created_at,
                (#[trigger] grown[b]).created_at,
            ) by {
                if a == p {
                    if text_lt(grown[a].created_at, grown[b].created_at) {
                        assert(grown[b] == sorted[b - 1]);
                        if p < b - 1 {
                            assert(!text_lt(sorted[p as int].created_at, sorted[b - 1].created_at));
                        }
                        lemma_text_lt_transitive(
                            sorted[p as int].created_at,
                            taken@.created_at,
                            sorted[b - 1].created_at,
                        );
                    }
                } else if b == p {
                    assert(grown[a] == sorted[a]);
                } else {
                    let a0 = if a < p {
                        a
                    } else {
                        a - 1
                    };
                    let b0 = if b < p {
                        b
                    } else {
                        b - 1
                    };
                    assert(grown[a] == sorted[a0]);
                    assert(grown[b] == sorted[b0]);
                }
            }
        }
        i += 1;
    }
    proof {
        assert(all.take(i as int) =~= all);
    }
    out
}

/// After a status write, the previous status of the item is the status that
/// it had just before, whatever the new status is.
pub proof fn law_previous_status(
    db: DatabaseView,
    id: Seq<char>,
    status: Seq<char>,
    metadata: Option<Fields>,
    checked: Option<bool>,
    now: Seq<char>,
    i: int,
)
    requires
        0 <= i < db.items.len(),
        db.items[i].id == id,
    ensures
        db.status_written(id, status, metadata, checked, now).items[i].previous_status == Some(
            db.items[i].status,
        ),
        db.status_written(id, status, metadata, checked, now).items[i].status == status,
{
}

/// A failure for good moves an item to `failed` once: while it goes on
/// failing, the status stays `failed` and the previous status stays what it
/// was before the first failure.
pub proof fn law_fails_once(
    item: ItemView,
    error: Seq<char>,
    first: Seq<char>,
    again: Seq<char>,
    second: Seq<char>,
)
    ensures
        ({
            let once = item.with_poll_error(error, true, first);
            let twice = once.with_poll_error(again, true, second);
            &&& once.status == "failed"@
            &&& twice.status == "failed"@
            &&& twice.previous_status == once.previous_status
            &&& item.status != "failed"@ ==> once.previous_status == Some(item.status)
            &&& item.status == "failed"@ ==> once.previous_status == item.previous_status
        }),
{
}

/// A failure that may pass leaves status and previous status as they are.
pub proof fn law_transient_error_keeps_status(item: ItemView, error: Seq<char>, now: Seq<char>)
    ensures
        item.with_poll_error(error, false, now).status == item.status,
        item.with_poll_error(error, false, now).previous_status == item.previous_status,
{
}

/// Changing items in place keeps their ids apart.
pub proof fn law_changes_keep_ids(
    db: DatabaseView,
    pick: spec_fn(ItemView) -> bool,
    change: spec_fn(ItemView) -> ItemView,
)
    requires
        ids_distinct(db.items),
        forall|it: ItemView| #[trigger] change(it).id == it.id,
    ensures
        ids_distinct(db.change_items(pick, change).items),
{
    let after = db.change_items(pick, change).items;
    assert forall|i: int, j: int|
        0 <= i < after.len() && 0 <= j < after.len() && i != j implies (#[trigger] after[i]).id != (
    #[trigger] after[j]).id by {
        assert(after[i].id == db.items[i].id);
        assert(after[j].id == db.items[j].id);
    }
}

/// After the duplicates of a session are removed, no `copilot_agent` item
/// tracks the session, and every other item is still there.
pub proof fn law_duplicates_removed(db: DatabaseView, session_id: Seq<char>)
    ensures
        ({
            let after = db.drop_items(|it: ItemView| copilot_agent_of(it, session_id));
            &&& forall|i: int|
                0 <= i < after.items.len() ==> !copilot_agent_of(#[trigger] after.items[i], session_id)
            &&& forall|i: int|
                0 <= i < db.items.len() && !copilot_agent_of(#[trigger] db.items[i], session_id)
                    ==> after.items.contains(db.items[i])
        }),
{
    let keep = |it: ItemView| !(|it: ItemView| copilot_agent_of(it, session_id))(it);
    let after = db.items.filter(keep);
    assert forall|i: int| 0 <= i < after.len() implies !copilot_agent_of(
        #[trigger] after[i],
        session_id,
    ) by {
        db.items.lemma_filter_pred(keep, i);
    }
    assert forall|i: int|
        0 <= i < db.items.len() && !copilot_agent_of(
            #[trigger] db.items[i],
            session_id,
        ) implies after.contains(db.items[i]) by {
        db.items.lemma_filter_contains(keep, i);
    }
}

/// A closed session keeps the status that it had as its previous status, and
/// no session is closed but an open one of the same working directory.
pub proof fn law_closed_sessions_keep_status(
    db: DatabaseView,
    cwd: Seq<char>,
    except: Seq<char>,
    now: Seq<char>,
    i: int,
)
    requires
        0 <= i < db.items.len(),
    ensures
        ({
            let after = db.sessions_closed(cwd, except, now).items[i];
            if other_session_at(db.items[i], cwd, except) {
                after.status == "closed"@ && after.previous_status == Some(db.items[i].status)
            } else {
                after == db.items[i]
            }
        }),
{
}

} // verus!
