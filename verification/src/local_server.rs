//! What an outside process can ask of the engine: track a session of its
//! own, and report the session's status.

use vstd::prelude::*;
use crate::clock::{fresh_id, now_rfc3339};
use crate::db::{has_id, Database, DatabaseView, Item, ItemView, StoreError};
use crate::json::{Fields, JsonView, Metadata};

verus! {

/// The item for a session that an outside process reports: it is in
/// progress from the start, and its metadata holds the command that runs.
pub open spec fn session_item(command: Seq<char>, title: Seq<char>, id: Seq<char>, now: Seq<char>) -> ItemView {
    ItemView {
        id,
        item_type: "cli_session"@,
        title,
        url: None,
        status: "in_progress"@,
        previous_status: None,
        metadata: Fields::empty().insert("command"@, JsonView::Text(command)),
        last_checked_at: Some(now),
        last_updated_at: Some(now),
        created_at: now,
        archived: false,
        archived_at: None,
        polling_interval_override: None,
        checked: false,
    }
}

/// The store with the item for a reported session added.
pub open spec fn session_created(
    db: DatabaseView,
    command: Seq<char>,
    title: Seq<char>,
    id: Seq<char>,
    now: Seq<char>,
) -> DatabaseView {
    DatabaseView { items: db.items.push(session_item(command, title, id, now)), ..db }
}

/// Tracks a session that an outside process reports, under the id `id`, made
/// at the time `now`.
pub fn create_session_at(db: &mut Database, command: &str, title: &str, id: &str, now: &str) -> (r: Result<
    (),
    StoreError,
>)
    ensures
        match r {
            Ok(_) => !has_id(old(db)@.items, id@) && final(db)@ == session_created(
                old(db)@,
                command@,
                title@,
                id@,
                now@,
            ),
            Err(e) => e == StoreError::DuplicateId && has_id(old(db)@.items, id@) && final(db)@
                == old(db)@,
        },
{
    let mut metadata = Metadata::new();
    metadata.insert_str("command", command);
    let item = Item {
        id: String::from_str(id),
        item_type: String::from_str("cli_session"),
        title: String::from_str(title),
        url: None,
        status: String::from_str("in_progress"),
        previous_status: None,
        metadata,
        last_checked_at: Some(String::from_str(now)),
        last_updated_at: Some(String::from_str(now)),
        created_at: String::from_str(now),
        archived: false,
        archived_at: None,
        polling_interval_override: None,
        checked: false,
    };
    db.add_item(&item)
}

/// Tracks a session that an outside process reports, under a fresh id, and
/// hands back the id. The session is refused only where the id that was
/// drawn is in use; in a store without items none is.
pub fn create_session(db: &mut Database, command: &str, title: &str) -> (r: Result<String, StoreError>)
    ensures
        old(db)@.items.len() == 0 ==> r is Ok,
        r matches Ok(id) ==> !has_id(old(db)@.items, id@),
        r matches Ok(id) ==> exists|now: Seq<char>|
            final(db)@ == #[trigger] session_created(old(db)@, command@, title@, id@, now),
        r matches Err(e) ==> e == StoreError::DuplicateId && final(db)@ == old(db)@,
{
    let id = fresh_id();
    let now = now_rfc3339();
    create_session_as(db, command, title, id, now.as_str())
}

/// Tracks a reported session under the given id and hands the id back.
fn create_session_as(db: &mut Database, command: &str, title: &str, id: String, now: &str) -> (r: Result<
    String,
    StoreError,
>)
    ensures
        r is Ok == !has_id(old(db)@.items, id@),
        r matches Ok(given) ==> given@ == id@ && final(db)@ == session_created(
            old(db)@,
            command@,
            title@,
            id@,
            now@,
        ),
        r matches Err(e) ==> e == StoreError::DuplicateId && final(db)@ == old(db)@,
{
    match create_session_at(db, command, title, id.as_str(), now) {
        Ok(_) => Ok(id),
        Err(e) => Err(e),
    }
}

/// Writes the status that an outside process reports for its session, at the
/// time `now`. The item is treated like any other from then on.
pub fn update_session_at(db: &mut Database, id: &str, status: &str, now: &str) -> (r: Result<
    (),
    StoreError,
>)
    ensures
        r is Ok == has_id(old(db)@.items, id@),
        r matches Err(e) ==> e == StoreError::NotFound,
        final(db)@ == old(db)@.status_written(id@, status@, None, None, now@),
{
    db.update_item_status_at(id, status, None, now)
}

/// Writes the status that an outside process reports for its session.
pub fn update_session(db: &mut Database, id: &str, status: &str) -> (r: Result<(), StoreError>)
    ensures
        r is Ok == has_id(old(db)@.items, id@),
        r matches Err(e) ==> e == StoreError::NotFound,
        exists|now: Seq<char>|
            final(db)@ == #[trigger] old(db)@.status_written(id@, status@, None, None, now),
{
    db.update_item_status(id, status, None)
}

} // verus!
