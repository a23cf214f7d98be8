//! What the user can ask of the engine: track a URL, store credentials and
//! settings.

use vstd::prelude::*;
use crate::clock::{fresh_id, now_rfc3339};
use crate::db::{has_id, Credentials, Database, DatabaseView, Item, ItemView, Settings, StoreError};
use crate::json::{Fields, JsonView, Metadata};
use crate::services::url_parser::{
    parse_url, parse_url_spec, ParseUrlError, ParsedUrl, ParsedUrlView,
};
use crate::string_map::{texts, StringMap};
use crate::text::{i64_text, i64_to_string, opt_text};

verus! {

/// A map of strings as a JSON object of strings.
pub open spec fn string_fields(map: Map<Seq<char>, Seq<char>>) -> Fields {
    Map::new(|key: Seq<char>| map.contains_key(key), |key: Seq<char>| JsonView::Text(map[key]))
}

/// Writes a map of strings as a JSON object of strings.
pub fn metadata_of(map: &StringMap) -> (r: Metadata)
    ensures
        r@ == string_fields(map@),
{
    let keys = map.keys();
    let ghost listed = texts(keys@);
    let mut doc = Metadata::new();
    let mut i: usize = 0;
    while i < keys.len()
        invariant
            i <= keys@.len(),
            listed == texts(keys@),
            forall|key: Seq<char>| #[trigger] map@.contains_key(key) <==> listed.contains(key),
            forall|key: Seq<char>|
                #[trigger] doc@.contains_key(key) <==> listed.take(i as int).contains(key),
            forall|key: Seq<char>|
                #[trigger] doc@.contains_key(key) ==> doc@[key] == JsonView::Text(map@[key]),
        decreases keys.len() - i,
    {
        let key = &keys[i];
        let ghost before = doc@;
        proof {
            assert(listed[i as int] == key@);
            assert(listed.contains(key@));
            assert(listed.take(i + 1) =~= listed.take(i as int).push(key@));
        }
        match map.get(key.as_str()) {
            Some(value) => {
                doc.insert_str(key.as_str(), value.as_str());
            },
            None => {},
        }
        proof {
            let seen = listed.take(i as int);
            let grown = listed.take(i + 1);
            assert forall|k: Seq<char>| #[trigger] doc@.contains_key(k) <==> grown.contains(k) by {
                if grown.contains(k) {
                    let w = choose|w: int| 0 <= w < grown.len() && grown[w] == k;
                    if w < i {
                        assert(seen[w] == k);
                    }
                }
                if before.contains_key(k) {
                    let w = choose|w: int| 0 <= w < seen.len() && seen[w] == k;
                    assert(grown[w] == k);
                }
                if k == key@ {
                    assert(grown[i as int] == k);
                }
            }
        }
        i += 1;
    }
    proof {
        assert(listed.take(i as int) =~= listed);
        assert(doc@ =~= string_fields(map@));
    }
    doc
}

/// The item under which a recognised URL is tracked: it waits, under the
/// title that the user gave or, without one, the title that the URL suggests.
pub open spec fn url_item(
    parsed: ParsedUrlView,
    url: Seq<char>,
    custom_title: Option<Seq<char>>,
    id: Seq<char>,
    now: Seq<char>,
) -> ItemView {
    ItemView {
        id,
        item_type: parsed.item_type,
        title: match custom_title {
            Some(t) => t,
            None => parsed.suggested_title,
        },
        url: Some(url),
        status: "waiting"@,
        previous_status: None,
        metadata: string_fields(parsed.metadata),
        last_checked_at: None,
        last_updated_at: None,
        created_at: now,
        archived: false,
        archived_at: None,
        polling_interval_override: None,
        checked: false,
    }
}

/// Makes the item under which a recognised URL is tracked.
pub fn item_from_url(parsed: ParsedUrl, url: &str, custom_title: Option<String>, id: &str, now: &str) -> (r:
    Item)
    ensures
        r@ == url_item(parsed@, url@, opt_text(custom_title), id@, now@),
{
    let metadata = metadata_of(&parsed.metadata);
    let title = match custom_title {
        Some(t) => t,
        None => parsed.suggested_title,
    };
    Item {
        id: String::from_str(id),
        item_type: parsed.item_type,
        title,
        url: Some(String::from_str(url)),
        status: String::from_str("waiting"),
        previous_status: None,
        metadata,
        last_checked_at: None,
        last_updated_at: None,
        created_at: String::from_str(now),
        archived: false,
        archived_at: None,
        polling_interval_override: None,
        checked: false,
    }
}

/// Why a URL was not added.
#[derive(PartialEq, Eq, Structural, Clone, Copy, Debug)]
pub enum AddItemError {
    /// The URL was not recognised.
    Url(ParseUrlError),
    /// The store refused the item.
    Store(StoreError),
}

/// The store after a URL was asked to be tracked under the id `id` at the
/// time `now`, and the answer to the request.
pub open spec fn url_added(
    db: DatabaseView,
    url: Seq<char>,
    custom_title: Option<Seq<char>>,
    id: Seq<char>,
    now: Seq<char>,
) -> (DatabaseView, Result<(), AddItemError>) {
    match parse_url_spec(url) {
        Err(e) => (db, Err(AddItemError::Url(e))),
        Ok(parsed) => if has_id(db.items, id) {
            (db, Err(AddItemError::Store(StoreError::DuplicateId)))
        } else {
            (
                DatabaseView {
                    items: db.items.push(url_item(parsed, url, custom_title, id, now)),
                    ..db
                },
                Ok(()),
            )
        },
    }
}

/// Tracks a URL under the id `id`, made at the time `now`.
pub fn add_item_at(db: &mut Database, url: &str, custom_title: Option<String>, id: &str, now: &str) -> (r:
    Result<(), AddItemError>)
    ensures
        (final(db)@, r) == url_added(old(db)@, url@, opt_text(custom_title), id@, now@),
{
    let parsed = match parse_url(url) {
        Ok(p) => p,
        Err(e) => {
            return Err(AddItemError::Url(e));
        },
    };
    let item = item_from_url(parsed, url, custom_title, id, now);
    match db.add_item(&item) {
        Ok(_) => Ok(()),
        Err(e) => Err(AddItemError::Store(e)),
    }
}

/// Tracks a URL under a fresh id, at the current time, and hands back the id.
/// A URL that is not recognised is refused. A recognised one is refused only
/// where the id that was drawn is in use; in a store without items none is.
pub fn add_item(db: &mut Database, url: &str, custom_title: Option<String>) -> (r: Result<
    String,
    AddItemError,
>)
    ensures
        parse_url_spec(url@) matches Err(e) ==> r == Err::<String, AddItemError>(AddItemError::Url(e)),
        parse_url_spec(url@) is Ok && old(db)@.items.len() == 0 ==> r is Ok,
        r matches Ok(id) ==> exists|now: Seq<char>|
            #[trigger] url_added(old(db)@, url@, opt_text(custom_title), id@, now) == (
                final(db)@,
                Ok::<(), AddItemError>(()),
            ),
        r matches Err(e) ==> final(db)@ == old(db)@,
        r matches Err(AddItemError::Url(e)) ==> parse_url_spec(url@) == Err::<
            ParsedUrlView,
            ParseUrlError,
        >(e),
        r matches Err(AddItemError::Store(e)) ==> parse_url_spec(url@) is Ok && e
            == StoreError::DuplicateId,
{
    let id = fresh_id();
    let now = now_rfc3339();
    add_item_as(db, url, custom_title, id, now.as_str())
}

/// Tracks a URL under the given id and hands the id back.
fn add_item_as(db: &mut Database, url: &str, custom_title: Option<String>, id: String, now: &str) -> (r:
    Result<String, AddItemError>)
    ensures
        parse_url_spec(url@) matches Err(e) ==> r == Err::<String, AddItemError>(AddItemError::Url(e)),
        r is Ok == (parse_url_spec(url@) is Ok && !has_id(old(db)@.items, id@)),
        r matches Ok(given) ==> given@ == id@ && url_added(
            old(db)@,
            url@,
            opt_text(custom_title),
            id@,
            now@,
        ) == (final(db)@, Ok::<(), AddItemError>(())),
        r matches Err(e) ==> final(db)@ == old(db)@,
        r matches Err(AddItemError::Url(e)) ==> parse_url_spec(url@) == Err::<
            ParsedUrlView,
            ParseUrlError,
        >(e),
        r matches Err(AddItemError::Store(e)) ==> parse_url_spec(url@) is Ok && e
            == StoreError::DuplicateId,
{
    match add_item_at(db, url, custom_title, id.as_str(), now) {
        Ok(_) => Ok(id),
        Err(e) => Err(e),
    }
}

/// A credential that is given and not empty.
pub open spec fn given(value: Option<String>) -> Option<Seq<char>> {
    match value {
        Some(v) => if v@.len() > 0 {
            Some(v@)
        } else {
            None
        },
        None => None,
    }
}

/// A map with a value stored where one is given.
pub open spec fn with_given(map: Map<Seq<char>, Seq<char>>, key: Seq<char>, value: Option<Seq<char>>) -> Map<
    Seq<char>,
    Seq<char>,
> {
    match value {
        Some(v) => map.insert(key, v),
        None => map,
    }
}

/// The credentials of a store after saving: a token or an address is stored
/// where it is given and not empty; the password is stored where it is
/// given, empty or not.
pub open spec fn credentials_saved(old_credentials: Map<Seq<char>, Seq<char>>, c: Credentials) -> Map<
    Seq<char>,
    Seq<char>,
> {
    with_given(
        with_given(
            with_given(
                with_given(old_credentials, "slack_token"@, given(c.slack_token)),
                "github_token"@,
                given(c.github_token),
            ),
            "opencode_url"@,
            given(c.opencode_url),
        ),
        "opencode_password"@,
        opt_text(c.opencode_password),
    )
}

/// Stores a credential where it is given and not empty.
fn save_given(db: &mut Database, key: &str, value: &Option<String>)
    ensures
        final(db)@ == (DatabaseView {
            credentials: with_given(old(db)@.credentials, key@, given(*value)),
            ..old(db)@
        }),
{
    match value {
        Some(v) => {
            if v.as_str().unicode_len() > 0 {
                db.save_credential(key, v.as_str());
            }
        },
        None => {},
    }
}

/// Saves the credentials that are given.
pub fn save_credentials(db: &mut Database, credentials: &Credentials)
    ensures
        final(db)@ == (DatabaseView {
            credentials: credentials_saved(old(db)@.credentials, *credentials),
            ..old(db)@
        }),
{
    save_given(db, "slack_token", &credentials.slack_token);
    save_given(db, "github_token", &credentials.github_token);
    save_given(db, "opencode_url", &credentials.opencode_url);
    match &credentials.opencode_password {
        Some(p) => {
            db.save_credential("opencode_password", p.as_str());
        },
        None => {},
    }
}

/// Saves the settings, each as its decimal text.
pub fn save_settings(db: &mut Database, settings: &Settings)
    ensures
        final(db)@ == (DatabaseView {
            settings: old(db)@.settings.insert(
                "polling_interval"@,
                i64_text(settings.polling_interval),
            ).insert("screen_width"@, i64_text(settings.screen_width)),
            ..old(db)@
        }),
{
    let interval = i64_to_string(settings.polling_interval);
    db.save_setting("polling_interval", interval.as_str());
    let width = i64_to_string(settings.screen_width);
    db.save_setting("screen_width", width.as_str());
}

} // verus!
