//! Discovery of remote agent sessions: which sessions of a listing become
//! items. A session becomes an item once, and only where it is no child of
//! another session.

use vstd::prelude::*;
use crate::clock::{fresh_id, now_rfc3339};
use crate::db::{
    has_id, one_item_per_session, session_known, tracks, DatabaseView, Item, ItemView,
};
use crate::json::{text_at, Fields, JsonView, Metadata};
use crate::polling::{credential, PollingManager};
use crate::services::opencode::{
    build_web_url, kind_in, kind_name, parse_opencode_url, session_title, status_name, title_for,
    url_parts, web_url, OpenCodeSession, SessionStatuses, StatusKind,
};

verus! {

/// The status with which a session is first followed: archived where it is;
/// in progress where the agent is busy or tries again; completed otherwise.
pub open spec fn initial_status(archived: bool, kind: Option<StatusKind>) -> Seq<char> {
    if archived {
        "archived"@
    } else if kind == Some(StatusKind::Busy) || kind == Some(StatusKind::Retry) {
        "in_progress"@
    } else {
        "completed"@
    }
}

/// The metadata with which a session is first followed. It holds the working
/// directory, so that a poll needs no lookup.
pub open spec fn discovered_metadata(
    session: OpenCodeSession,
    base_url: Seq<char>,
    directory: Seq<char>,
    kind: Option<StatusKind>,
) -> Fields {
    Fields::empty().insert("session_id"@, JsonView::Text(session.id@)).insert(
        "opencode_url"@,
        JsonView::Text(web_url(base_url, directory)),
    ).insert("directory"@, JsonView::Text(directory)).insert(
        "session_status"@,
        JsonView::Text(kind_name(kind)),
    ).insert("session_title"@, JsonView::Text(session.title@)).insert(
        "last_activity"@,
        JsonView::Int(session.time.updated as int),
    )
}

/// The item with which a session is first followed. A session that is
/// archived already starts acknowledged.
pub open spec fn discovered_item(
    session: OpenCodeSession,
    base_url: Seq<char>,
    directory: Seq<char>,
    kind: Option<StatusKind>,
    id: Seq<char>,
    now: Seq<char>,
) -> ItemView {
    ItemView {
        id,
        item_type: "opencode_session"@,
        title: session_title(session.title@, session.id@),
        url: None,
        status: initial_status(session.time.archived is Some, kind),
        previous_status: None,
        metadata: discovered_metadata(session, base_url, directory, kind),
        last_checked_at: None,
        last_updated_at: None,
        created_at: now,
        archived: false,
        archived_at: None,
        polling_interval_override: None,
        checked: session.time.archived is Some,
    }
}

/// How the discovery of one session ended.
#[derive(PartialEq, Eq, Structural, Clone, Copy, Debug)]
pub enum Discovery {
    /// The session is followed by a new item.
    Added,
    /// An item tracks the session already.
    Known,
    /// The session is the child of another and becomes no item.
    Child,
    /// The id that was offered for the new item is in use.
    IdTaken,
}

/// How the discovery of a session ends on a store.
pub open spec fn discovery_of(db: DatabaseView, session: OpenCodeSession, id: Seq<char>) -> Discovery {
    if session.parent_id is Some {
        Discovery::Child
    } else if session_known(db.items, session.id@) {
        Discovery::Known
    } else if has_id(db.items, id) {
        Discovery::IdTaken
    } else {
        Discovery::Added
    }
}

/// The store after the discovery of a session: one item more where the
/// session is added, and the same store otherwise.
pub open spec fn discovered(
    db: DatabaseView,
    session: OpenCodeSession,
    base_url: Seq<char>,
    directory: Seq<char>,
    kind: Option<StatusKind>,
    id: Seq<char>,
    now: Seq<char>,
) -> DatabaseView {
    if discovery_of(db, session, id) == Discovery::Added {
        DatabaseView {
            items: db.items.push(discovered_item(session, base_url, directory, kind, id, now)),
            ..db
        }
    } else {
        db
    }
}

/// The names of the members of a discovered item's metadata differ from the
/// name under which the session id stands.
pub proof fn lemma_session_id_stays(
    session: OpenCodeSession,
    base_url: Seq<char>,
    directory: Seq<char>,
    kind: Option<StatusKind>,
)
    ensures
        text_at(discovered_metadata(session, base_url, directory, kind), "session_id"@) == Some(
            session.id@,
        ),
{
    reveal_strlit("session_id");
    reveal_strlit("opencode_url");
    reveal_strlit("directory");
    reveal_strlit("session_status");
    reveal_strlit("session_title");
    reveal_strlit("last_activity");
    assert("session_id"@.len() == 10);
    assert("opencode_url"@.len() == 12 && "directory"@.len() == 9);
    assert("session_status"@.len() == 14 && "session_title"@.len() == 13);
    assert("last_activity"@.len() == 13);
}

/// The item with which a session is first followed.
fn new_session_item(
    session: &OpenCodeSession,
    base_url: &str,
    directory: &str,
    kind: Option<StatusKind>,
    id: &str,
    now: &str,
) -> (r: Item)
    ensures
        r@ == discovered_item(*session, base_url@, directory@, kind, id@, now@),
{
    let archived = session.time.archived.is_some();
    let status = if archived {
        "archived"
    } else {
        match kind {
            Some(StatusKind::Busy) => "in_progress",
            Some(StatusKind::Retry) => "in_progress",
            _ => "completed",
        }
    };
    let mut metadata = Metadata::new();
    metadata.insert_str("session_id", session.id.as_str());
    let url = build_web_url(base_url, directory);
    metadata.insert_str("opencode_url", url.as_str());
    metadata.insert_str("directory", directory);
    metadata.insert_str("session_status", status_name(kind));
    metadata.insert_str("session_title", session.title.as_str());
    metadata.insert_i64("last_activity", session.time.updated);
    Item {
        id: String::from_str(id),
        item_type: String::from_str("opencode_session"),
        title: title_for(session),
        url: None,
        status: String::from_str(status),
        previous_status: None,
        metadata,
        last_checked_at: None,
        last_updated_at: None,
        created_at: String::from_str(now),
        archived: false,
        archived_at: None,
        polling_interval_override: None,
        checked: archived,
    }
}

/// An item more keeps what was followed followed.
pub proof fn lemma_known_stays(items: Seq<ItemView>, item: ItemView, session_id: Seq<char>)
    requires
        session_known(items, session_id),
    ensures
        session_known(items.push(item), session_id),
{
    let i = choose|i: int| 0 <= i < items.len() && tracks(#[trigger] items[i], session_id);
    assert(items.push(item)[i] == items[i]);
}

/// Discovery never gives a session a second item: a store in which no
/// session has two items is such a store after the discovery of any session.
pub proof fn law_one_item_per_session(
    db: DatabaseView,
    session: OpenCodeSession,
    base_url: Seq<char>,
    directory: Seq<char>,
    kind: Option<StatusKind>,
    id: Seq<char>,
    now: Seq<char>,
)
    requires
        one_item_per_session(db.items),
    ensures
        one_item_per_session(discovered(db, session, base_url, directory, kind, id, now).items),
{
    if discovery_of(db, session, id) == Discovery::Added {
        let item = discovered_item(session, base_url, directory, kind, id, now);
        let after = db.items.push(item);
        lemma_session_id_stays(session, base_url, directory, kind);
        assert forall|i: int, j: int, sid: Seq<char>|
            0 <= i < after.len() && 0 <= j < after.len() && i != j && #[trigger] tracks(
                after[i],
                sid,
            ) implies !#[trigger] tracks(after[j], sid) by {
            if i < db.items.len() && j < db.items.len() {
                assert(after[i] == db.items[i]);
                assert(after[j] == db.items[j]);
            } else if i < db.items.len() {
                assert(after[i] == db.items[i]);
                if tracks(after[j], sid) {
                    assert(sid == session.id@);
                    assert(tracks(db.items[i], session.id@));
                }
            } else {
                assert(sid == session.id@);
                if tracks(after[j], sid) {
                    assert(after[j] == db.items[j]);
                    assert(tracks(db.items[j], session.id@));
                }
            }
        }
    }
}

/// Discovering a session again changes nothing: once it is followed, or known
/// for a child, the store stays as it is, whatever id is offered.
pub proof fn law_discovery_is_idempotent(
    db: DatabaseView,
    session: OpenCodeSession,
    base_url: Seq<char>,
    directory: Seq<char>,
    kind: Option<StatusKind>,
    id: Seq<char>,
    now: Seq<char>,
    other_kind: Option<StatusKind>,
    other_id: Seq<char>,
    later: Seq<char>,
)
    requires
        discovery_of(db, session, id) != Discovery::IdTaken,
    ensures
        ({
            let once = discovered(db, session, base_url, directory, kind, id, now);
            discovered(once, session, base_url, directory, other_kind, other_id, later) == once
        }),
{
    let once = discovered(db, session, base_url, directory, kind, id, now);
    if discovery_of(db, session, id) == Discovery::Added {
        lemma_session_id_stays(session, base_url, directory, kind);
        let item = discovered_item(session, base_url, directory, kind, id, now);
        assert(once.items[db.items.len() as int] == item);
        assert(tracks(once.items[db.items.len() as int], session.id@));
    }
}

/// A child session never becomes an item.
pub proof fn law_children_are_not_discovered(
    db: DatabaseView,
    session: OpenCodeSession,
    base_url: Seq<char>,
    directory: Seq<char>,
    kind: Option<StatusKind>,
    id: Seq<char>,
    now: Seq<char>,
)
    requires
        session.parent_id is Some,
    ensures
        discovered(db, session, base_url, directory, kind, id, now) == db,
{
}

/// Whether an item tracks a session of the listing that has no parent and
/// had no item in `before`.
pub open spec fn newly_found(item: ItemView, sessions: Seq<OpenCodeSession>, before: Seq<ItemView>) -> bool {
    exists|j: int|
        0 <= j < sessions.len() && (#[trigger] sessions[j]).parent_id is None && tracks(
            item,
            sessions[j].id@,
        ) && !session_known(before, sessions[j].id@)
}

/// Whether an item is the one with which a session of the listing is first
/// followed at the time `now`: the session has no parent and had no item in
/// `before`, and status, acknowledgement and metadata of the item are those
/// of `discovered_item` for that session, its status in `statuses`, and the
/// working directory `directory`.
pub open spec fn found_at(
    item: ItemView,
    sessions: Seq<OpenCodeSession>,
    base_url: Seq<char>,
    directory: Seq<char>,
    statuses: Map<Seq<char>, StatusKind>,
    before: Seq<ItemView>,
    now: Seq<char>,
) -> bool {
    exists|j: int|
        0 <= j < sessions.len() && (#[trigger] sessions[j]).parent_id is None && !session_known(
            before,
            sessions[j].id@,
        ) && item == discovered_item(
            sessions[j],
            base_url,
            directory,
            kind_in(statuses, sessions[j].id@),
            item.id,
            now,
        )
}

/// Whether the items that follow those of `before` were all found in the
/// listing at the time `now`, each under an id that no earlier item has.
pub open spec fn discovered_at(
    items: Seq<ItemView>,
    before: Seq<ItemView>,
    sessions: Seq<OpenCodeSession>,
    base_url: Seq<char>,
    directory: Seq<char>,
    statuses: Map<Seq<char>, StatusKind>,
    now: Seq<char>,
) -> bool {
    forall|k: int|
        before.len() <= k < items.len() ==> found_at(
            #[trigger] items[k],
            sessions,
            base_url,
            directory,
            statuses,
            before,
            now,
        ) && !has_id(items.take(k), items[k].id)
}

/// Whether the listing holds a session of this id that has no parent.
pub open spec fn listed_without_parent(sessions: Seq<OpenCodeSession>, session_id: Seq<char>) -> bool {
    exists|j: int|
        0 <= j < sessions.len() && (#[trigger] sessions[j]).parent_id is None && sessions[j].id@
            == session_id
}

/// Whether the listing holds a session that has no parent.
pub open spec fn lists_top_level(sessions: Seq<OpenCodeSession>) -> bool {
    exists|j: int| 0 <= j < sessions.len() && (#[trigger] sessions[j]).parent_id is None
}

/// Whether the agent service is asked for its sessions on a tick: its address
/// is stored and not empty, and the service answered the health check.
pub fn discovery_enabled(opencode_url: Option<&str>, healthy: bool) -> (r: bool)
    ensures
        r == (opencode_url is Some && opencode_url->0@.len() > 0 && healthy),
{
    match opencode_url {
        Some(url) => url.unicode_len() > 0 && healthy,
        None => false,
    }
}

/// Where the agent service is asked, and with which password.
pub struct OpenCodeLogin {
    pub base_url: String,
    pub password: String,
}

/// The address of the agent service as it is stored; `None` where none is
/// stored or the stored one is empty.
pub open spec fn stored_address(db: DatabaseView) -> Option<Seq<char>> {
    match credential(db, "opencode_url"@) {
        Some(address) => if address.len() > 0 {
            Some(address)
        } else {
            None
        },
        None => None,
    }
}

/// A stored text, or the empty text where none is stored.
pub open spec fn stored_or_empty(value: Option<Seq<char>>) -> Seq<char> {
    match value {
        Some(v) => v,
        None => Seq::empty(),
    }
}

/// A child session never becomes an item: after a run over a listing, no new
/// item holds the id of a session that the listing holds only with a
/// parent, and such a session is followed no more than it was before. Left
/// out is a child whose id is also that of a listed session without a
/// parent: that session becomes an item, under the id that both have.
pub proof fn law_children_stay_out(
    before: Seq<ItemView>,
    after: Seq<ItemView>,
    sessions: Seq<OpenCodeSession>,
    base_url: Seq<char>,
    directory: Seq<char>,
    statuses: Map<Seq<char>, StatusKind>,
    now: Seq<char>,
    child: int,
)
    requires
        before.len() <= after.len(),
        after.take(before.len() as int) == before,
        discovered_at(after, before, sessions, base_url, directory, statuses, now),
        0 <= child < sessions.len(),
        sessions[child].parent_id is Some,
        !listed_without_parent(sessions, sessions[child].id@),
    ensures
        forall|k: int|
            before.len() <= k < after.len() ==> text_at(
                (#[trigger] after[k]).metadata,
                "session_id"@,
            ) != Some(sessions[child].id@),
        session_known(after, sessions[child].id@) ==> session_known(before, sessions[child].id@),
{
    let id = sessions[child].id@;
    assert forall|k: int| before.len() <= k < after.len() implies text_at(
        (#[trigger] after[k]).metadata,
        "session_id"@,
    ) != Some(id) by {
        let j = choose|j: int|
            0 <= j < sessions.len() && (#[trigger] sessions[j]).parent_id is None && !session_known(
                before,
                sessions[j].id@,
            ) && after[k] == discovered_item(
                sessions[j],
                base_url,
                directory,
                kind_in(statuses, sessions[j].id@),
                after[k].id,
                now,
            );
        lemma_session_id_stays(sessions[j], base_url, directory, kind_in(statuses, sessions[j].id@));
    }
    if session_known(after, id) {
        let w = choose|w: int| 0 <= w < after.len() && tracks(#[trigger] after[w], id);
        if w < before.len() {
            assert(after.take(before.len() as int)[w] == after[w]);
            assert(tracks(before[w], id));
        }
    }
}

/// What a run of discovery over a listing did.
pub struct DiscoveryReport {
    /// The ids of the new items, in the order of the listing.
    pub added: Vec<String>,
    /// The ids of the sessions that could not be added, because the id that
    /// was drawn for the new item was in use.
    pub skipped: Vec<String>,
}

impl PollingManager {
    /// Where the agent service is asked and with which password, from the
    /// credentials: the origin of the stored address, and the stored password
    /// or the empty one. `None` where no address is stored or it is empty,
    /// which is no error; an error where the stored address is no URL.
    pub fn opencode_login(&self) -> (r: Result<Option<OpenCodeLogin>, String>)
        ensures
            match r {
                Ok(None) => stored_address(self.db@) is None,
                Ok(Some(login)) => stored_address(self.db@) matches Some(address) && (url_parts(
                    address,
                ) matches Some(parts) && login.base_url@ == parts.0) && login.password@
                    == stored_or_empty(credential(self.db@, "opencode_password"@)),
                Err(_) => stored_address(self.db@) matches Some(address) && url_parts(address)
                    is None,
            },
    {
        let address = match self.db.get_credential("opencode_url") {
            Some(a) => a,
            None => {
                return Ok(None);
            },
        };
        if address.as_str().unicode_len() == 0 {
            return Ok(None);
        }
        let password = match self.db.get_credential("opencode_password") {
            Some(p) => p,
            None => String::new(),
        };
        match parse_opencode_url(address.as_str()) {
            Ok(config) => Ok(Some(OpenCodeLogin { base_url: config.base_url, password })),
            Err(e) => Err(e.message),
        }
    }

    /// Discovers one session of the working directory `directory`: where the
    /// session has no parent and no item tracks it yet, it is added under the
    /// id `id`, made at the time `now`.
    pub fn discover_session_at(
        &mut self,
        base_url: &str,
        directory: &str,
        session: &OpenCodeSession,
        statuses: &SessionStatuses,
        id: &str,
        now: &str,
    ) -> (r: Discovery)
        ensures
            r == discovery_of(old(self).db@, *session, id@),
            final(self).db@ == discovered(
                old(self).db@,
                *session,
                base_url@,
                directory@,
                kind_in(statuses@, session.id@),
                id@,
                now@,
            ),
    {
        if session.parent_id.is_some() {
            return Discovery::Child;
        }
        if self.db.tracks_session(session.id.as_str()) {
            return Discovery::Known;
        }
        let kind = statuses.get(session.id.as_str());
        let item = new_session_item(session, base_url, directory, kind, id, now);
        match self.db.add_item(&item) {
            Ok(_) => Discovery::Added,
            Err(_) => Discovery::IdTaken,
        }
    }

    /// Discovers the sessions of the working directory `directory`, each
    /// under an id drawn for it, at the current time. What holds whatever is
    /// drawn: the items that were there stay; each new item is the one with
    /// which a session of the listing is first followed, a session that has
    /// no parent and was not followed before; no session gets a second item;
    /// a session is followed afterwards only where it was before or where the
    /// listing holds it without a parent, so that a child never becomes an
    /// item; each session without a parent is followed afterwards or reported
    /// as skipped; and a listing whose sessions are all followed changes
    /// nothing. A session is skipped only where the id that was drawn for it
    /// is in use: in a store without items, the first session without a
    /// parent is always added.
    pub fn discover_opencode_sessions(
        &mut self,
        base_url: &str,
        directory: &str,
        sessions: &Vec<OpenCodeSession>,
        statuses: &SessionStatuses,
    ) -> (r: DiscoveryReport)
        ensures
            final(self).db@.credentials == old(self).db@.credentials,
            final(self).db@.settings == old(self).db@.settings,
            final(self).db@.items.len() == old(self).db@.items.len() + r.added@.len(),
            final(self).db@.items.take(old(self).db@.items.len() as int) == old(self).db@.items,
            forall|k: int|
                old(self).db@.items.len() <= k < final(self).db@.items.len() ==> newly_found(
                    #[trigger] final(self).db@.items[k],
                    sessions@,
                    old(self).db@.items,
                ),
            one_item_per_session(old(self).db@.items) ==> one_item_per_session(
                final(self).db@.items,
            ),
            forall|j: int|
                0 <= j < sessions@.len() && (#[trigger] sessions@[j]).parent_id is None ==> session_known(
                    final(self).db@.items,
                    sessions@[j].id@,
                ) || r.skipped@.map_values(|s: String| s@).contains(sessions@[j].id@),
            (forall|j: int|
                0 <= j < sessions@.len() && (#[trigger] sessions@[j]).parent_id is None ==> session_known(
                    old(self).db@.items,
                    sessions@[j].id@,
                )) ==> final(self).db@ == old(self).db@ && r.added@.len() == 0,
            exists|now: Seq<char>| #[trigger]
                discovered_at(
                    final(self).db@.items,
                    old(self).db@.items,
                    sessions@,
                    base_url@,
                    directory@,
                    statuses@,
                    now,
                ),
            forall|session_id: Seq<char>| #[trigger]
                session_known(final(self).db@.items, session_id) ==> session_known(
                    old(self).db@.items,
                    session_id,
                ) || listed_without_parent(sessions@, session_id),
            old(self).db@.items.len() == 0 && lists_top_level(sessions@) ==> r.added@.len() > 0,
            old(self).db@.items.len() == 0 && r.skipped@.len() > 0 ==> r.added@.len() > 0,
    {
        let ghost start = self.db@;
        let mut added: Vec<String> = Vec::new();
        let mut skipped: Vec<String> = Vec::new();
        let now = now_rfc3339();
        let mut i: usize = 0;
        proof {
            assert(start.items.take(start.items.len() as int) =~= start.items);
        }
        while i < sessions.len()
            invariant
                i <= sessions@.len(),
                self.db@.credentials == start.credentials,
                self.db@.settings == start.settings,
                self.db@.items.len() == start.items.len() + added@.len(),
                self.db@.items.take(start.items.len() as int) == start.items,
                forall|k: int|
                    start.items.len() <= k < self.db@.items.len() ==> newly_found(
                        #[trigger] self.db@.items[k],
                        sessions@,
                        start.items,
                    ),
                one_item_per_session(start.items) ==> one_item_per_session(self.db@.items),
                forall|j: int|
                    0 <= j < i && (#[trigger] sessions@[j]).parent_id is None ==> session_known(
                        self.db@.items,
                        sessions@[j].id@,
                    ) || skipped@.map_values(|s: String| s@).contains(sessions@[j].id@),
                (forall|j: int|
                    0 <= j < sessions@.len() && (#[trigger] sessions@[j]).parent_id is None
                        ==> session_known(start.items, sessions@[j].id@)) ==> self.db@ == start
                    && added@.len() == 0,
                discovered_at(
                    self.db@.items,
                    start.items,
                    sessions@,
                    base_url@,
                    directory@,
                    statuses@,
                    now@,
                ),
                start.items.len() == 0 && lists_top_level(sessions@.take(i as int)) ==> added@.len()
                    > 0,
                start.items.len() == 0 && skipped@.len() > 0 ==> added@.len() > 0,
            decreases sessions.len() - i,
        {
            let session = &sessions[i];
            let id = fresh_id();
            let ghost before = self.db@;
            let ghost skipped_before = skipped@.map_values(|s: String| s@);
            let outcome = self.discover_session_at(
                base_url,
                directory,
                session,
                statuses,
                id.as_str(),
                now.as_str(),
            );
            let ghost kind = kind_in(statuses@, session.id@);
            proof {
                if one_item_per_session(before.items) {
                    law_one_item_per_session(
                        before,
                        *session,
                        base_url@,
                        directory@,
                        kind,
                        id@,
                        now@,
                    );
                }
            }
            proof {
                let seen = sessions@.take(i as int);
                let grown = sessions@.take(i + 1);
                if lists_top_level(grown) && !lists_top_level(seen) {
                    let j = choose|j: int|
                        0 <= j < grown.len() && (#[trigger] grown[j]).parent_id is None;
                    if j < i {
                        assert(seen[j] == grown[j]);
                    }
                    assert(j == i);
                    assert(grown[i as int] == sessions@[i as int]);
                    assert(session.parent_id is None);
                }
                if start.items.len() == 0 && session.parent_id is None && outcome
                    != Discovery::Added {
                    // an item tracks the session, or has the id that was drawn
                    assert(before.items.len() > 0);
                }
            }
            match outcome {
                Discovery::Added => {
                    added.push(id);
                    proof {
                        let item = discovered_item(
                            *session,
                            base_url@,
                            directory@,
                            kind,
                            id@,
                            now@,
                        );
                        lemma_session_id_stays(*session, base_url@, directory@, kind);
                        assert(self.db@.items =~= before.items.push(item));
                        assert(!has_id(before.items, id@));
                        assert(self.db@.items.take(start.items.len() as int) =~= before.items.take(
                            start.items.len() as int,
                        ));
                        assert(self.db@.items[before.items.len() as int] == item);
                        assert(tracks(item, session.id@));
                        assert(!session_known(start.items, session.id@)) by {
                            if session_known(start.items, session.id@) {
                                let w = choose|w: int|
                                    0 <= w < start.items.len() && tracks(
                                        #[trigger] start.items[w],
                                        session.id@,
                                    );
                                assert(before.items.take(start.items.len() as int)[w]
                                    == before.items[w]);
                                assert(tracks(before.items[w], session.id@));
                            }
                        }
                        assert forall|k: int|
                            start.items.len() <= k < self.db@.items.len() implies newly_found(
                            #[trigger] self.db@.items[k],
                            sessions@,
                            start.items,
                        ) by {
                            if k < before.items.len() {
                                assert(self.db@.items[k] == before.items[k]);
                            } else {
                                assert(sessions@[i as int].parent_id is None);
                            }
                        }
                        assert forall|j: int|
                            0 <= j < i + 1 && (#[trigger] sessions@[j]).parent_id is None implies session_known(
                            self.db@.items,
                            sessions@[j].id@,
                        ) || skipped@.map_values(|s: String| s@).contains(sessions@[j].id@) by {
                            if j < i {
                                if session_known(before.items, sessions@[j].id@) {
                                    lemma_known_stays(before.items, item, sessions@[j].id@);
                                }
                            } else {
                                assert(tracks(self.db@.items[before.items.len() as int], session.id@));
                            }
                        }
                        assert forall|k: int|
                            start.items.len() <= k < self.db@.items.len() implies found_at(
                            #[trigger] self.db@.items[k],
                            sessions@,
                            base_url@,
                            directory@,
                            statuses@,
                            start.items,
                            now@,
                        ) && !has_id(self.db@.items.take(k), self.db@.items[k].id) by {
                            if k < before.items.len() {
                                assert(self.db@.items[k] == before.items[k]);
                                assert(self.db@.items.take(k) =~= before.items.take(k));
                            } else {
                                assert(self.db@.items[k] == item);
                                assert(item.id == id@);
                                assert(self.db@.items.take(k) =~= before.items);
                                assert(sessions@[i as int].parent_id is None);
                            }
                        }
                    }
                },
                Discovery::IdTaken => {
                    skipped.push(session.id.clone());
                    proof {
                        let now_skipped = skipped@.map_values(|s: String| s@);
                        assert(now_skipped =~= skipped_before.push(session.id@));
                        assert(!session_known(before.items, session.id@));
                        assert(!session_known(start.items, session.id@)) by {
                            if session_known(start.items, session.id@) {
                                let w = choose|w: int|
                                    0 <= w < start.items.len() && tracks(
                                        #[trigger] start.items[w],
                                        session.id@,
                                    );
                                assert(before.items.take(start.items.len() as int)[w]
                                    == before.items[w]);
                                assert(tracks(before.items[w], session.id@));
                            }
                        }
                        assert(sessions@[i as int].parent_id is None);
                        assert forall|j: int|
                            0 <= j < i + 1 && (#[trigger] sessions@[j]).parent_id is None implies session_known(
                            self.db@.items,
                            sessions@[j].id@,
                        ) || now_skipped.contains(sessions@[j].id@) by {
                            if j < i {
                                if skipped_before.contains(sessions@[j].id@) {
                                    let w = choose|w: int|
                                        0 <= w < skipped_before.len() && skipped_before[w]
                                            == sessions@[j].id@;
                                    assert(now_skipped[w] == sessions@[j].id@);
                                }
                            } else {
                                assert(now_skipped[skipped_before.len() as int] == session.id@);
                            }
                        }
                    }
                },
                _ => {
                    proof {
                        assert forall|j: int|
                            0 <= j < i + 1 && (#[trigger] sessions@[j]).parent_id is None implies session_known(
                            self.db@.items,
                            sessions@[j].id@,
                        ) || skipped@.map_values(|s: String| s@).contains(sessions@[j].id@) by {}
                    }
                },
            }
            i += 1;
        }
        proof {
            assert(sessions@.take(i as int) =~= sessions@);
            assert forall|session_id: Seq<char>| #[trigger]
                session_known(self.db@.items, session_id) implies session_known(
                start.items,
                session_id,
            ) || listed_without_parent(sessions@, session_id) by {
                let w = choose|w: int|
                    0 <= w < self.db@.items.len() && tracks(
                        #[trigger] self.db@.items[w],
                        session_id,
                    );
                if w < start.items.len() {
                    assert(self.db@.items.take(start.items.len() as int)[w] == self.db@.items[w]);
                    assert(tracks(start.items[w], session_id));
                } else {
                    assert(newly_found(self.db@.items[w], sessions@, start.items));
                    let j = choose|j: int|
                        0 <= j < sessions@.len() && (#[trigger] sessions@[j]).parent_id is None
                            && tracks(self.db@.items[w], sessions@[j].id@) && !session_known(
                            start.items,
                            sessions@[j].id@,
                        );
                    assert(sessions@[j].id@ == session_id);
                }
            }
        }
        DiscoveryReport { added, skipped }
    }
}

} // verus!
