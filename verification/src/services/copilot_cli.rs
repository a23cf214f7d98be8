//! Local CLI agent sessions: their state is read from what the agent leaves
//! on disk, a workspace descriptor and an event log.

use vstd::prelude::*;
use crate::clock::{elapsed_nanos, nanos_between};
use crate::json::{json_fields, json_value, object_at, text_at, Fields, Metadata};
use crate::string_map::StringMap;
use crate::text::{
    clone_opt, concat2, lemma_text_lt_below, lines, lines_of, opt_str_is, opt_text, split_once,
    split_once_spec, str_eq, str_lt, strip_prefix, text_lt, trim, trimmed,
};

verus! {

/// The longest title, in characters.
pub const MAX_TITLE_LEN: usize = 80;

/// A title cut to size: white space at both ends goes, and a text that is
/// still too long is cut and ends in an ellipsis.
pub open spec fn truncated_title(s: Seq<char>) -> Seq<char> {
    let t = trimmed(s);
    if t.len() <= MAX_TITLE_LEN {
        t
    } else {
        t.take(MAX_TITLE_LEN - 1) + "…"@
    }
}

/// A title that was cut to size is of that size, and cutting it again
/// changes nothing.
pub proof fn law_truncate_title_twice(s: Seq<char>)
    ensures
        truncated_title(s).len() <= MAX_TITLE_LEN,
        truncated_title(truncated_title(s)) == truncated_title(s),
{
    let t = trimmed(s);
    crate::text::lemma_trimmed_ends(s);
    reveal_strlit("…");
    assert("…"@.len() == 1);
    if t.len() <= MAX_TITLE_LEN {
        crate::text::lemma_trimmed_fixed(t);
    } else {
        let cut = t.take(MAX_TITLE_LEN - 1) + "…"@;
        assert(cut.len() == MAX_TITLE_LEN);
        assert(cut.first() == t.first());
        assert(cut.last() == "…"@[0]);
        assert(cut.last() == '…');
        crate::text::lemma_trimmed_fixed(cut);
    }
}

/// Cuts a title to at most `MAX_TITLE_LEN` characters.
pub fn truncate_title(s: &str) -> (r: String)
    ensures
        r@ == truncated_title(s@),
{
    let t = trim(s);
    if t.unicode_len() <= MAX_TITLE_LEN {
        String::from_str(t)
    } else {
        concat2(t.substring_char(0, MAX_TITLE_LEN - 1), "…")
    }
}

/// What an agent is doing.
#[derive(PartialEq, Eq, Structural, Clone, Copy, Debug)]
pub enum SessionActivity {
    /// The agent is at work.
    InProgress,
    /// The agent finished its turn and waits for the user.
    InputNeeded,
    /// Nothing happened of late.
    Idle,
}

/// A session as its workspace descriptor tells of it.
pub struct CopilotSession {
    pub id: String,
    pub name: Option<String>,
    pub summary: Option<String>,
    pub cwd: Option<String>,
    pub repository: Option<String>,
    pub branch: Option<String>,
    pub created_at: Option<String>,
    pub updated_at: Option<String>,
}

/// A session as contracts see it.
pub struct CopilotSessionView {
    pub id: Seq<char>,
    pub name: Option<Seq<char>>,
    pub summary: Option<Seq<char>>,
    pub cwd: Option<Seq<char>>,
    pub repository: Option<Seq<char>>,
    pub branch: Option<Seq<char>>,
    pub created_at: Option<Seq<char>>,
    pub updated_at: Option<Seq<char>>,
}

impl View for CopilotSession {
    type V = CopilotSessionView;

    open spec fn view(&self) -> CopilotSessionView {
        CopilotSessionView {
            id: self.id@,
            name: opt_text(self.name),
            summary: opt_text(self.summary),
            cwd: opt_text(self.cwd),
            repository: opt_text(self.repository),
            branch: opt_text(self.branch),
            created_at: opt_text(self.created_at),
            updated_at: opt_text(self.updated_at),
        }
    }
}

impl Clone for CopilotSession {
    fn clone(&self) -> (r: Self)
        ensures
            r@ == self@,
    {
        CopilotSession {
            id: self.id.clone(),
            name: clone_opt(&self.name),
            summary: clone_opt(&self.summary),
            cwd: clone_opt(&self.cwd),
            repository: clone_opt(&self.repository),
            branch: clone_opt(&self.branch),
            created_at: clone_opt(&self.created_at),
            updated_at: clone_opt(&self.updated_at),
        }
    }
}

impl CopilotSession {
    /// The name to show: the session's name, else its summary.
    pub fn display_name(&self) -> (r: Option<&str>)
        ensures
            match r {
                Some(n) => Some(n@) == if self.name is Some {
                    opt_text(self.name)
                } else {
                    opt_text(self.summary)
                },
                None => self.name is None && self.summary is None,
            },
    {
        match &self.name {
            Some(n) => Some(n.as_str()),
            None => match &self.summary {
                Some(s) => Some(s.as_str()),
                None => None,
            },
        }
    }
}

/// The fields of a workspace descriptor: each line that holds a colon and a
/// blank gives a field, named by what stands before them. A later line
/// replaces an earlier one of the same name.
pub open spec fn yaml_fields(lines: Seq<Seq<char>>) -> Map<Seq<char>, Seq<char>>
    decreases lines.len(),
{
    if lines.len() == 0 {
        Map::empty()
    } else {
        let before = yaml_fields(lines.drop_last());
        match split_once_spec(lines.last(), ": "@) {
            Some((key, value)) => before.insert(trimmed(key), trimmed(value)),
            None => before,
        }
    }
}

/// Reads the fields of a workspace descriptor.
pub fn parse_workspace_yaml(content: &str) -> (r: StringMap)
    ensures
        r@ == yaml_fields(lines_of(content@)),
{
    let all = lines(content);
    let ghost texts = lines_of(content@);
    let mut map = StringMap::new();
    let mut i: usize = 0;
    proof {
        assert(texts.take(0) =~= Seq::<Seq<char>>::empty());
    }
    while i < all.len()
        invariant
            i <= all@.len(),
            all@.len() == texts.len(),
            forall|k: int| 0 <= k < all@.len() ==> (#[trigger] all@[k])@ == texts[k],
            map@ == yaml_fields(texts.take(i as int)),
        decreases all.len() - i,
    {
        proof {
            assert(texts.take(i + 1).drop_last() =~= texts.take(i as int));
            assert(texts.take(i + 1).last() == texts[i as int]);
        }
        match split_once(all[i], ": ") {
            Some((key, value)) => {
                map.insert(String::from_str(trim(key)), String::from_str(trim(value)));
            },
            None => {},
        }
        i += 1;
    }
    proof {
        assert(texts.take(i as int) =~= texts);
    }
    map
}

/// A field of a descriptor.
pub open spec fn field(fields: Map<Seq<char>, Seq<char>>, key: Seq<char>) -> Option<Seq<char>> {
    if fields.contains_key(key) {
        Some(fields[key])
    } else {
        None
    }
}

/// A field of a descriptor that is not empty.
pub open spec fn filled_field(fields: Map<Seq<char>, Seq<char>>, key: Seq<char>) -> Option<Seq<char>> {
    if fields.contains_key(key) && fields[key].len() > 0 {
        Some(fields[key])
    } else {
        None
    }
}

/// The session that the fields of a descriptor tell of. A descriptor without
/// an id tells of none.
pub open spec fn session_of(fields: Map<Seq<char>, Seq<char>>) -> Option<CopilotSessionView> {
    if fields.contains_key("id"@) {
        Some(
            CopilotSessionView {
                id: fields["id"@],
                name: filled_field(fields, "name"@),
                summary: filled_field(fields, "summary"@),
                cwd: field(fields, "cwd"@),
                repository: field(fields, "repository"@),
                branch: field(fields, "branch"@),
                created_at: field(fields, "created_at"@),
                updated_at: field(fields, "updated_at"@),
            },
        )
    } else {
        None
    }
}

/// A copy of a field.
fn field_copy(fields: &StringMap, key: &str) -> (r: Option<String>)
    ensures
        opt_text(r) == field(fields@, key@),
{
    match fields.get(key) {
        Some(v) => Some(v.clone()),
        None => None,
    }
}

/// A copy of a field that is not empty.
fn filled_field_copy(fields: &StringMap, key: &str) -> (r: Option<String>)
    ensures
        opt_text(r) == filled_field(fields@, key@),
{
    match fields.get(key) {
        Some(v) => if v.as_str().unicode_len() > 0 {
            Some(v.clone())
        } else {
            None
        },
        None => None,
    }
}

/// The view of an optional session.
pub open spec fn opt_session(o: Option<CopilotSession>) -> Option<CopilotSessionView> {
    match o {
        Some(s) => Some(s@),
        None => None,
    }
}

/// Reads a session from the content of its workspace descriptor.
pub fn read_session(content: &str) -> (r: Option<CopilotSession>)
    ensures
        opt_session(r) == session_of(yaml_fields(lines_of(content@))),
{
    let fields = parse_workspace_yaml(content);
    let id = match fields.get("id") {
        Some(id) => id.clone(),
        None => {
            return None;
        },
    };
    Some(
        CopilotSession {
            id,
            name: filled_field_copy(&fields, "name"),
            summary: filled_field_copy(&fields, "summary"),
            cwd: field_copy(&fields, "cwd"),
            repository: field_copy(&fields, "repository"),
            branch: field_copy(&fields, "branch"),
            created_at: field_copy(&fields, "created_at"),
            updated_at: field_copy(&fields, "updated_at"),
        },
    )
}

/// The sessions that the descriptors tell of, in the order of the descriptors.
pub open spec fn sessions_of(contents: Seq<Seq<char>>) -> Seq<CopilotSessionView>
    decreases contents.len(),
{
    if contents.len() == 0 {
        Seq::empty()
    } else {
        let before = sessions_of(contents.drop_last());
        match session_of(yaml_fields(lines_of(contents.last()))) {
            Some(s) => before.push(s),
            None => before,
        }
    }
}

/// The views of a list of sessions.
pub open spec fn session_views(list: Seq<CopilotSession>) -> Seq<CopilotSessionView> {
    list.map_values(|s: CopilotSession| s@)
}

/// Reads the sessions from the contents of the workspace descriptors that
/// were found. A descriptor that tells of no session is passed over.
pub fn discover_sessions(contents: &Vec<String>) -> (r: Vec<CopilotSession>)
    ensures
        session_views(r@) == sessions_of(contents@.map_values(|s: String| s@)),
{
    let ghost texts = contents@.map_values(|s: String| s@);
    let mut out: Vec<CopilotSession> = Vec::new();
    let mut i: usize = 0;
    proof {
        assert(texts.take(0) =~= Seq::<Seq<char>>::empty());
        assert(session_views(out@) =~= sessions_of(texts.take(0)));
    }
    while i < contents.len()
        invariant
            i <= contents@.len(),
            texts == contents@.map_values(|s: String| s@),
            session_views(out@) == sessions_of(texts.take(i as int)),
        decreases contents.len() - i,
    {
        proof {
            assert(texts.take(i + 1).drop_last() =~= texts.take(i as int));
            assert(texts.take(i + 1).last() == contents@[i as int]@);
        }
        match read_session(contents[i].as_str()) {
            Some(s) => {
                let ghost seen = out@;
                out.push(s);
                proof {
                    assert(session_views(out@) =~= session_views(seen).push(s@));
                }
            },
            None => {},
        }
        i += 1;
    }
    proof {
        assert(texts.take(i as int) =~= texts);
    }
    out
}

/// The text by which sessions of one working directory are ordered: the time
/// of the last change, or nothing.
pub open spec fn updated_key(s: CopilotSessionView) -> Seq<char> {
    match s.updated_at {
        Some(t) => t,
        None => Seq::empty(),
    }
}

/// `at` is the place of the session of `cwd` that changed last; of several
/// that changed at the same time it is the last.
pub open spec fn latest_at_cwd(sessions: Seq<CopilotSessionView>, cwd: Seq<char>, at: int) -> bool {
    &&& 0 <= at < sessions.len()
    &&& sessions[at].cwd == Some(cwd)
    &&& forall|j: int|
        0 <= j < sessions.len() && (#[trigger] sessions[j]).cwd == Some(cwd) ==> !text_lt(
            updated_key(sessions[at]),
            updated_key(sessions[j]),
        )
    &&& forall|j: int|
        at < j < sessions.len() && (#[trigger] sessions[j]).cwd == Some(cwd) ==> text_lt(
            updated_key(sessions[j]),
            updated_key(sessions[at]),
        )
}

/// The text by which a session is ordered.
fn updated_text(s: &CopilotSession) -> (r: &str)
    ensures
        r@ == updated_key(s@),
{
    match &s.updated_at {
        Some(t) => t.as_str(),
        None => {
            proof {
                reveal_strlit("");
                assert(""@ =~= Seq::<char>::empty());
            }
            ""
        },
    }
}

/// Finds the session of the working directory `cwd` that changed last.
pub fn find_session_by_cwd(sessions: &Vec<CopilotSession>, cwd: &str) -> (r: Option<CopilotSession>)
    ensures
        match r {
            Some(s) => exists|at: int|
                latest_at_cwd(session_views(sessions@), cwd@, at) && s@ == #[trigger] session_views(
                    sessions@,
                )[at],
            None => forall|j: int|
                0 <= j < sessions@.len() ==> (#[trigger] session_views(sessions@)[j]).cwd != Some(
                    cwd@,
                ),
        },
{
    let ghost all = session_views(sessions@);
    let mut best: Option<usize> = None;
    let mut i: usize = 0;
    while i < sessions.len()
        invariant
            i <= sessions@.len(),
            all == session_views(sessions@),
            match best {
                Some(b) => latest_at_cwd(all.take(i as int), cwd@, b as int),
                None => forall|j: int| 0 <= j < i ==> (#[trigger] all[j]).cwd != Some(cwd@),
            },
        decreases sessions.len() - i,
    {
        let ghost seen = all.take(i as int);
        let ghost grown = all.take(i + 1);
        proof {
            assert(all[i as int] == sessions@[i as int]@);
            assert forall|j: int| 0 <= j < i implies grown[j] == seen[j] by {}
        }
        if opt_str_is(&sessions[i].cwd, cwd) {
            let replace = match best {
                Some(b) => !str_lt(updated_text(&sessions[i]), updated_text(&sessions[b])),
                None => true,
            };
            proof {
                match best {
                    Some(b) => {
                        assert(seen[b as int] == all[b as int]);
                        assert(all[b as int] == sessions@[b as int]@);
                        if replace {
                            assert forall|j: int|
                                0 <= j < grown.len() && (#[trigger] grown[j]).cwd == Some(
                                    cwd@,
                                ) implies !text_lt(
                                updated_key(grown[i as int]),
                                updated_key(grown[j]),
                            ) by {
                                if j < i {
                                    assert(seen[j].cwd == Some(cwd@));
                                    if text_lt(updated_key(all[i as int]), updated_key(all[j])) {
                                        lemma_text_lt_below(
                                            updated_key(all[i as int]),
                                            updated_key(all[j]),
                                            updated_key(all[b as int]),
                                        );
                                    }
                                } else {
                                    lemma_irreflexive(updated_key(all[i as int]));
                                }
                            }
                            assert(latest_at_cwd(grown, cwd@, i as int));
                        } else {
                            assert forall|j: int|
                                b < j < grown.len() && (#[trigger] grown[j]).cwd == Some(
                                    cwd@,
                                ) implies text_lt(
                                updated_key(grown[j]),
                                updated_key(grown[b as int]),
                            ) by {
                                if j < i {
                                    assert(seen[j].cwd == Some(cwd@));
                                }
                            }
                            assert forall|j: int|
                                0 <= j < grown.len() && (#[trigger] grown[j]).cwd == Some(
                                    cwd@,
                                ) implies !text_lt(
                                updated_key(grown[b as int]),
                                updated_key(grown[j]),
                            ) by {
                                if j < i {
                                    assert(seen[j].cwd == Some(cwd@));
                                } else {
                                    lemma_asymmetric(
                                        updated_key(all[i as int]),
                                        updated_key(all[b as int]),
                                    );
                                }
                            }
                            assert(latest_at_cwd(grown, cwd@, b as int));
                        }
                    },
                    None => {
                        lemma_irreflexive(updated_key(all[i as int]));
                        assert forall|j: int|
                            0 <= j < grown.len() && (#[trigger] grown[j]).cwd == Some(
                                cwd@,
                            ) implies j == i by {
                            if j < i {
                                assert(all[j].cwd != Some(cwd@));
                            }
                        }
                        assert(latest_at_cwd(grown, cwd@, i as int));
                    },
                }
            }
            if replace {
                best = Some(i);
            }
        } else {
            proof {
                match best {
                    Some(b) => {
                        assert forall|j: int|
                            0 <= j < grown.len() && (#[trigger] grown[j]).cwd == Some(
                                cwd@,
                            ) implies j < i by {}
                        assert forall|j: int|
                            0 <= j < grown.len() && (#[trigger] grown[j]).cwd == Some(
                                cwd@,
                            ) implies !text_lt(
                            updated_key(grown[b as int]),
                            updated_key(grown[j]),
                        ) by {
                            assert(seen[j].cwd == Some(cwd@));
                        }
                        assert forall|j: int|
                            b < j < grown.len() && (#[trigger] grown[j]).cwd == Some(
                                cwd@,
                            ) implies text_lt(
                            updated_key(grown[j]),
                            updated_key(grown[b as int]),
                        ) by {
                            assert(seen[j].cwd == Some(cwd@));
                        }
                        assert(latest_at_cwd(grown, cwd@, b as int));
                    },
                    None => {},
                }
            }
        }
        i += 1;
    }
    proof {
        assert(all.take(i as int) =~= all);
    }
    match best {
        Some(b) => Some(sessions[b].clone()),
        None => None,
    }
}

/// No text sorts before itself.
proof fn lemma_irreflexive(a: Seq<char>)
    ensures
        !text_lt(a, a),
{
    let bytes = vstd::utf8::encode_utf8(a);
    assert forall|k: int| !crate::text::differs_first_at(bytes, bytes, k) by {}
}

/// Of two texts at most one sorts before the other.
proof fn lemma_asymmetric(a: Seq<char>, b: Seq<char>)
    requires
        text_lt(a, b),
    ensures
        !text_lt(b, a),
{
    if text_lt(b, a) {
        crate::text::lemma_text_lt_transitive(a, b, a);
        lemma_irreflexive(a);
    }
}

/// The working directories in which an agent process runs, from the listing
/// of open files: each line that begins with `n` names one.
pub open spec fn listed_cwds(lines: Seq<Seq<char>>) -> Seq<Seq<char>>
    decreases lines.len(),
{
    if lines.len() == 0 {
        Seq::empty()
    } else {
        let before = listed_cwds(lines.drop_last());
        if crate::text::has_prefix(lines.last(), "n"@) {
            before.push(lines.last().skip(1))
        } else {
            before
        }
    }
}

/// Reads the working directories of the running agent processes from the
/// listing of their open files.
pub fn get_active_copilot_cwds(listing: &str) -> (r: Vec<String>)
    ensures
        r@.map_values(|s: String| s@) == listed_cwds(lines_of(listing@)),
{
    let all = lines(listing);
    let ghost texts = lines_of(listing@);
    let mut out: Vec<String> = Vec::new();
    let mut i: usize = 0;
    proof {
        assert(texts.take(0) =~= Seq::<Seq<char>>::empty());
        assert(out@.map_values(|s: String| s@) =~= listed_cwds(texts.take(0)));
        reveal_strlit("n");
    }
    while i < all.len()
        invariant
            i <= all@.len(),
            all@.len() == texts.len(),
            "n"@.len() == 1,
            forall|k: int| 0 <= k < all@.len() ==> (#[trigger] all@[k])@ == texts[k],
            out@.map_values(|s: String| s@) == listed_cwds(texts.take(i as int)),
        decreases all.len() - i,
    {
        proof {
            assert(texts.take(i + 1).drop_last() =~= texts.take(i as int));
            assert(texts.take(i + 1).last() == texts[i as int]);
        }
        match strip_prefix(all[i], "n") {
            Some(rest) => {
                let ghost seen = out@;
                out.push(String::from_str(rest));
                proof {
                    assert(out@.map_values(|s: String| s@) =~= seen.map_values(|s: String| s@).push(
                        rest@,
                    ));
                }
            },
            None => {},
        }
        i += 1;
    }
    proof {
        assert(texts.take(i as int) =~= texts);
    }
    out
}

/// Whether the process of a session still runs: whether an agent process
/// runs in the session's working directory.
pub fn is_session_process_running(session: &CopilotSession, active_cwds: &Vec<String>) -> (r: bool)
    ensures
        r == (session.cwd is Some && active_cwds@.map_values(|s: String| s@).contains(
            session.cwd->0@,
        )),
{
    match &session.cwd {
        Some(cwd) => {
            let ghost texts = active_cwds@.map_values(|s: String| s@);
            let mut i: usize = 0;
            while i < active_cwds.len()
                invariant
                    i <= active_cwds@.len(),
                    texts == active_cwds@.map_values(|s: String| s@),
                    session.cwd == Some(*cwd),
                    forall|k: int| 0 <= k < i ==> texts[k] != cwd@,
                decreases active_cwds.len() - i,
            {
                if str_eq(active_cwds[i].as_str(), cwd.as_str()) {
                    assert(texts[i as int] == cwd@);
                    return true;
                }
                i += 1;
            }
            false
        },
        None => false,
    }
}

/// How far apart two sessions may be made to count as the same, in
/// nanoseconds: fifteen seconds.
pub const SAME_SESSION_WINDOW_NANOS: i128 = 15_000_000_000;

/// After how long without an event an agent counts as idle, in nanoseconds:
/// two minutes.
pub const STALE_AFTER_NANOS: i128 = 120_000_000_000;

/// How many events from the end of the log are looked at.
pub const RECENT_EVENTS: usize = 10;

/// How many lines from the start of the log are searched for the first
/// message of the user.
pub const FIRST_MESSAGE_LINES: usize = 50;

/// How far the making of a session is from `target`, where both times are
/// known and no more than the window apart.
pub open spec fn time_gap(s: CopilotSessionView, target: Seq<char>) -> Option<int> {
    match s.created_at {
        Some(t) => match nanos_between(t, target) {
            Some(d) => if -SAME_SESSION_WINDOW_NANOS <= d <= SAME_SESSION_WINDOW_NANOS {
                Some(
                    if d < 0 {
                        -d
                    } else {
                        d
                    },
                )
            } else {
                None
            },
            None => None,
        },
        None => None,
    }
}

/// `at` is the place of the session that was made closest to `target`; of
/// several that are equally close it is the first.
pub open spec fn closest_at(sessions: Seq<CopilotSessionView>, target: Seq<char>, at: int) -> bool {
    &&& 0 <= at < sessions.len()
    &&& time_gap(sessions[at], target) is Some
    &&& forall|j: int|
        0 <= j < sessions.len() && time_gap(#[trigger] sessions[j], target) is Some ==> time_gap(
            sessions[at],
            target,
        )->0 <= time_gap(sessions[j], target)->0
    &&& forall|j: int|
        0 <= j < at && time_gap(#[trigger] sessions[j], target) is Some ==> time_gap(
            sessions[at],
            target,
        )->0 < time_gap(sessions[j], target)->0
}

/// How far the making of a session is from `target`.
fn gap_to(s: &CopilotSession, target: &str) -> (r: Option<i128>)
    ensures
        r is Some == time_gap(s@, target@) is Some,
        r matches Some(g) ==> time_gap(s@, target@) == Some(g as int),
{
    match &s.created_at {
        Some(t) => match elapsed_nanos(t.as_str(), target) {
            Some(d) => {
                if d < -15_000_000_000 || d > 15_000_000_000 {
                    None
                } else if d < 0 {
                    Some(-d)
                } else {
                    Some(d)
                }
            },
            None => None,
        },
        None => None,
    }
}

/// Finds the session that was made closest to the time `created_at`, no more
/// than the window before or after it.
pub fn find_session_by_time(sessions: &Vec<CopilotSession>, created_at: &str) -> (r: Option<
    CopilotSession,
>)
    ensures
        match r {
            Some(s) => exists|at: int|
                closest_at(session_views(sessions@), created_at@, at) && s@ == #[trigger] session_views(
                    sessions@,
                )[at],
            None => forall|j: int|
                0 <= j < sessions@.len() ==> time_gap(
                    #[trigger] session_views(sessions@)[j],
                    created_at@,
                ) is None,
        },
{
    let ghost all = session_views(sessions@);
    let mut best: Option<(usize, i128)> = None;
    let mut i: usize = 0;
    while i < sessions.len()
        invariant
            i <= sessions@.len(),
            all == session_views(sessions@),
            match best {
                Some((b, g)) => closest_at(all.take(i as int), created_at@, b as int) && time_gap(
                    all[b as int],
                    created_at@,
                ) == Some(g as int),
                None => forall|j: int| 0 <= j < i ==> time_gap(#[trigger] all[j], created_at@) is None,
            },
        decreases sessions.len() - i,
    {
        let ghost seen = all.take(i as int);
        let ghost grown = all.take(i + 1);
        proof {
            assert(all[i as int] == sessions@[i as int]@);
            assert forall|j: int| 0 <= j < i implies grown[j] == seen[j] by {}
        }
        let gap = gap_to(&sessions[i], created_at);
        let ghost before = best;
        match gap {
            Some(g) => {
                match best {
                    Some((b, least)) => {
                        if g < least {
                            best = Some((i, g));
                        }
                    },
                    None => {
                        best = Some((i, g));
                    },
                }
            },
            None => {},
        }
        proof {
            match before {
                Some((b, least)) => {
                    assert(seen[b as int] == all[b as int]);
                    assert(grown[b as int] == all[b as int]);
                    assert forall|j: int|
                        0 <= j < i && time_gap(#[trigger] grown[j], created_at@) is Some implies time_gap(
                        seen[j],
                        created_at@,
                    ) is Some by {}
                    let pair = best->0;
                    let at = pair.0 as int;
                    assert(closest_at(grown, created_at@, at));
                },
                None => {
                    if gap is Some {
                        assert forall|j: int|
                            0 <= j < grown.len() && time_gap(
                                #[trigger] grown[j],
                                created_at@,
                            ) is Some implies j == i by {
                            if j < i {
                                assert(time_gap(all[j], created_at@) is None);
                            }
                        }
                        assert(closest_at(grown, created_at@, i as int));
                    }
                },
            }
        }
        i += 1;
    }
    proof {
        assert(all.take(i as int) =~= all);
    }
    match best {
        Some((b, _)) => Some(sessions[b].clone()),
        None => None,
    }
}

/// One event of the log, as far as it is read.
pub struct SessionEvent {
    pub event_type: String,
    pub tool_name: Option<String>,
    pub timestamp: Option<String>,
    pub content: Option<String>,
}

/// An event as contracts see it.
pub struct EventView {
    pub event_type: Seq<char>,
    pub tool_name: Option<Seq<char>>,
    pub timestamp: Option<Seq<char>>,
    pub content: Option<Seq<char>>,
}

impl View for SessionEvent {
    type V = EventView;

    open spec fn view(&self) -> EventView {
        EventView {
            event_type: self.event_type@,
            tool_name: opt_text(self.tool_name),
            timestamp: opt_text(self.timestamp),
            content: opt_text(self.content),
        }
    }
}

/// A string member of the `data` of an event.
pub open spec fn data_text(f: Fields, key: Seq<char>) -> Option<Seq<char>> {
    match object_at(f, "data"@) {
        Some(d) => text_at(d, key),
        None => None,
    }
}

/// The event that the members of a JSON object tell of. An event without a
/// type has the empty type.
pub open spec fn event_of_fields(f: Fields) -> EventView {
    EventView {
        event_type: match text_at(f, "type"@) {
            Some(t) => t,
            None => Seq::empty(),
        },
        tool_name: data_text(f, "toolName"@),
        timestamp: text_at(f, "timestamp"@),
        content: data_text(f, "content"@),
    }
}

/// The event that a line of the log tells of. A line of JSON that is no
/// object is an event of which nothing is known; a line that is no JSON is no
/// event.
pub open spec fn event_of(line: Seq<char>) -> Option<EventView> {
    match json_fields(line) {
        Some(f) => Some(event_of_fields(f)),
        None => if json_value(line) is Some {
            Some(event_of_fields(Fields::empty()))
        } else {
            None
        },
    }
}

/// The view of an optional event.
pub open spec fn opt_event(o: Option<SessionEvent>) -> Option<EventView> {
    match o {
        Some(e) => Some(e@),
        None => None,
    }
}

/// Reads an event from a line of the log.
pub fn parse_event(line: &str) -> (r: Option<SessionEvent>)
    ensures
        opt_event(r) == event_of(line@),
{
    match Metadata::from_json(line) {
        Some(doc) => {
            let data = doc.get_object("data");
            let (tool_name, content) = match &data {
                Some(d) => (d.get_str("toolName"), d.get_str("content")),
                None => (None, None),
            };
            let event_type = match doc.get_str("type") {
                Some(t) => t,
                None => String::new(),
            };
            Some(SessionEvent { event_type, tool_name, timestamp: doc.get_str("timestamp"), content })
        },
        None => {
            if Metadata::is_json(line) {
                Some(
                    SessionEvent {
                        event_type: String::new(),
                        tool_name: None,
                        timestamp: None,
                        content: None,
                    },
                )
            } else {
                None
            }
        },
    }
}

/// The events of the lines of a log, oldest first. Blank lines and lines that
/// are no JSON are passed over.
pub open spec fn events_of(lines: Seq<Seq<char>>) -> Seq<EventView>
    decreases lines.len(),
{
    if lines.len() == 0 {
        Seq::empty()
    } else {
        let before = events_of(lines.drop_last());
        let line = trimmed(lines.last());
        if line.len() > 0 && event_of(line) is Some {
            before.push(event_of(line)->0)
        } else {
            before
        }
    }
}

/// The last `count` events of a log's end, oldest first; at least one event
/// is kept. `None` where the end of the log holds no event.
pub open spec fn tail_events(buf: Seq<char>, count: nat) -> Option<Seq<EventView>> {
    let all = events_of(lines_of(buf));
    let keep = if count == 0 {
        1
    } else {
        count as int
    };
    if all.len() == 0 {
        None
    } else if all.len() <= keep {
        Some(all)
    } else {
        Some(all.skip(all.len() - keep))
    }
}

/// The views of a list of events.
pub open spec fn event_views(list: Seq<SessionEvent>) -> Seq<EventView> {
    list.map_values(|e: SessionEvent| e@)
}

/// Reads the last `count` events from the end of a log.
pub fn read_tail_events(buf: &str, count: usize) -> (r: Option<Vec<SessionEvent>>)
    ensures
        match r {
            Some(list) => tail_events(buf@, count as nat) == Some(event_views(list@)),
            None => tail_events(buf@, count as nat) is None,
        },
{
    let all = lines(buf);
    let ghost texts = lines_of(buf@);
    let mut events: Vec<SessionEvent> = Vec::new();
    let mut i: usize = 0;
    proof {
        assert(texts.take(0) =~= Seq::<Seq<char>>::empty());
        assert(event_views(events@) =~= events_of(texts.take(0)));
    }
    while i < all.len()
        invariant
            i <= all@.len(),
            all@.len() == texts.len(),
            forall|k: int| 0 <= k < all@.len() ==> (#[trigger] all@[k])@ == texts[k],
            event_views(events@) == events_of(texts.take(i as int)),
        decreases all.len() - i,
    {
        proof {
            assert(texts.take(i + 1).drop_last() =~= texts.take(i as int));
            assert(texts.take(i + 1).last() == texts[i as int]);
        }
        let line = trim(all[i]);
        if line.unicode_len() > 0 {
            match parse_event(line) {
                Some(e) => {
                    let ghost seen = events@;
                    events.push(e);
                    proof {
                        assert(event_views(events@) =~= event_views(seen).push(e@));
                    }
                },
                None => {},
            }
        }
        i += 1;
    }
    proof {
        assert(texts.take(i as int) =~= texts);
    }
    if events.len() == 0 {
        return None;
    }
    let keep: usize = if count == 0 {
        1
    } else {
        count
    };
    if events.len() <= keep {
        return Some(events);
    }
    let ghost whole = events@;
    let from: usize = events.len() - keep;
    let mut tail: Vec<SessionEvent> = Vec::new();
    let mut k: usize = from;
    proof {
        assert(event_views(tail@) =~= event_views(whole).subrange(from as int, k as int));
    }
    while k < events.len()
        invariant
            from <= k <= events@.len(),
            events@.len() == whole.len(),
            forall|j: int| k <= j < whole.len() ==> (#[trigger] events@[j])@ == whole[j]@,
            event_views(tail@) == event_views(whole).subrange(from as int, k as int),
        decreases events.len() - k,
    {
        let mut taken = SessionEvent {
            event_type: String::new(),
            tool_name: None,
            timestamp: None,
            content: None,
        };
        std::mem::swap(&mut taken, &mut events[k]);
        let ghost seen = tail@;
        tail.push(taken);
        proof {
            assert(event_views(tail@) =~= event_views(seen).push(whole[k as int]@));
            assert(event_views(whole).subrange(from as int, k + 1) =~= event_views(whole).subrange(
                from as int,
                k as int,
            ).push(whole[k as int]@));
        }
        k += 1;
    }
    proof {
        assert(event_views(whole).subrange(from as int, whole.len() as int) =~= event_views(
            whole,
        ).skip(from as int));
    }
    Some(tail)
}

/// An event that starts the tool by which the agent declares its task done.
pub open spec fn is_task_complete(e: EventView) -> bool {
    e.event_type == "tool.execution_start"@ && e.tool_name == Some("task_complete"@)
}

/// An event that starts a tool by which the agent asks the user.
pub open spec fn is_ask_user(e: EventView) -> bool {
    e.event_type == "tool.execution_start"@ && (e.tool_name == Some("ask_user"@) || e.tool_name
        == Some("askUser"@))
}

/// The types of event that show the agent at work, or about to be.
pub open spec fn is_working_type(t: Seq<char>) -> bool {
    ||| t == "assistant.turn_start"@
    ||| t == "assistant.message"@
    ||| t == "tool.execution_start"@
    ||| t == "tool.execution_complete"@
    ||| t == "subagent.started"@
    ||| t == "subagent.completed"@
    ||| t == "session.mode_changed"@
    ||| t == "session.context_changed"@
    ||| t == "user.message"@
    ||| t == "session.start"@
    ||| t == "session.info"@
    ||| t == "session.model_change"@
}

/// Whether an event is too old to count at the time `now`. An event without
/// a time that can be read is too old.
pub open spec fn is_stale(e: EventView, now: Seq<char>) -> bool {
    match e.timestamp {
        Some(ts) => match nanos_between(now, ts) {
            Some(age) => age > STALE_AFTER_NANOS,
            None => true,
        },
        None => true,
    }
}

/// What the recent events say of the agent at the time `now`. A finished
/// task among them means idle. Otherwise the last event decides: a question
/// to the user or the end of a turn means that input is needed, work means
/// in progress, anything else idle; and an event that is too old means idle.
pub open spec fn activity_of(events: Seq<EventView>, now: Seq<char>) -> SessionActivity {
    if events.len() == 0 {
        SessionActivity::Idle
    } else if exists|i: int| 0 <= i < events.len() && is_task_complete(#[trigger] events[i]) {
        SessionActivity::Idle
    } else {
        let last = events.last();
        if is_stale(last, now) {
            SessionActivity::Idle
        } else if is_ask_user(last) || last.event_type == "assistant.turn_end"@ {
            SessionActivity::InputNeeded
        } else if is_working_type(last.event_type) {
            SessionActivity::InProgress
        } else {
            SessionActivity::Idle
        }
    }
}

/// Whether an event is too old to count at the time `now`.
fn event_is_stale(e: &SessionEvent, now: &str) -> (r: bool)
    ensures
        r == is_stale(e@, now@),
{
    match &e.timestamp {
        Some(ts) => match elapsed_nanos(now, ts.as_str()) {
            Some(age) => age > 120_000_000_000,
            None => true,
        },
        None => true,
    }
}

/// Whether a type of event shows the agent at work.
fn working_type(t: &str) -> (r: bool)
    ensures
        r == is_working_type(t@),
{
    str_eq(t, "assistant.turn_start") || str_eq(t, "assistant.message") || str_eq(
        t,
        "tool.execution_start",
    ) || str_eq(t, "tool.execution_complete") || str_eq(t, "subagent.started") || str_eq(
        t,
        "subagent.completed",
    ) || str_eq(t, "session.mode_changed") || str_eq(t, "session.context_changed") || str_eq(
        t,
        "user.message",
    ) || str_eq(t, "session.start") || str_eq(t, "session.info") || str_eq(
        t,
        "session.model_change",
    )
}

/// Decides from the recent events, oldest first, what the agent is doing at
/// the time `now`.
pub fn session_activity(events: &Vec<SessionEvent>, now: &str) -> (r: SessionActivity)
    ensures
        r == activity_of(event_views(events@), now@),
{
    let ghost all = event_views(events@);
    if events.len() == 0 {
        return SessionActivity::Idle;
    }
    let mut i: usize = 0;
    while i < events.len()
        invariant
            i <= events@.len(),
            all == event_views(events@),
            forall|k: int| 0 <= k < i ==> !is_task_complete(#[trigger] all[k]),
        decreases events.len() - i,
    {
        let e = &events[i];
        if str_eq(e.event_type.as_str(), "tool.execution_start") && opt_str_is(
            &e.tool_name,
            "task_complete",
        ) {
            assert(is_task_complete(all[i as int]));
            return SessionActivity::Idle;
        }
        i += 1;
    }
    let last = &events[events.len() - 1];
    assert(all.last() == last@);
    if event_is_stale(last, now) {
        return SessionActivity::Idle;
    }
    let t = last.event_type.as_str();
    let asks = str_eq(t, "tool.execution_start") && (opt_str_is(&last.tool_name, "ask_user")
        || opt_str_is(&last.tool_name, "askUser"));
    if asks || str_eq(t, "assistant.turn_end") {
        SessionActivity::InputNeeded
    } else if working_type(t) {
        SessionActivity::InProgress
    } else {
        SessionActivity::Idle
    }
}

/// What the end of a session's event log says of the agent at the time
/// `now`. No log, or one without events, means idle.
pub fn detect_session_activity(log_tail: &str, now: &str) -> (r: SessionActivity)
    ensures
        r == match tail_events(log_tail@, RECENT_EVENTS as nat) {
            Some(events) => activity_of(events, now@),
            None => SessionActivity::Idle,
        },
{
    match read_tail_events(log_tail, RECENT_EVENTS) {
        Some(events) => session_activity(&events, now),
        None => SessionActivity::Idle,
    }
}

/// The time of the last event at the end of a log.
pub fn last_event_timestamp(log_tail: &str) -> (r: Option<String>)
    ensures
        opt_text(r) == match tail_events(log_tail@, 1) {
            Some(events) => events.last().timestamp,
            None => None,
        },
{
    match read_tail_events(log_tail, 1) {
        Some(events) => {
            if events.len() == 0 {
                None
            } else {
                assert(event_views(events@).last() == events@[events@.len() - 1]@);
                clone_opt(&events[events.len() - 1].timestamp)
            }
        },
        None => None,
    }
}

/// The message that a line holds, where the line is a message of the user
/// that is not empty.
pub open spec fn user_message(line: Seq<char>) -> Option<Seq<char>> {
    match event_of(line) {
        Some(e) => if e.event_type == "user.message"@ && e.content is Some && e.content->0.len()
            > 0 {
            e.content
        } else {
            None
        },
        None => None,
    }
}

/// The first message of the user among the lines from place `from` on, as far
/// as lines are searched, cut to the size of a title.
pub open spec fn first_message_from(lines: Seq<Seq<char>>, from: int) -> Option<Seq<char>>
    decreases lines.len() - from,
{
    if from < 0 || from >= lines.len() || from >= FIRST_MESSAGE_LINES {
        None
    } else {
        match user_message(lines[from]) {
            Some(m) => Some(truncated_title(m)),
            None => first_message_from(lines, from + 1),
        }
    }
}

/// Finds the first message of the user in the first lines of a log, cut to
/// the size of a title. It serves as the title of a session without a name.
pub fn first_user_message(lines: &Vec<String>) -> (r: Option<String>)
    ensures
        opt_text(r) == first_message_from(lines@.map_values(|s: String| s@), 0),
{
    let ghost texts = lines@.map_values(|s: String| s@);
    let mut i: usize = 0;
    while i < lines.len() && i < FIRST_MESSAGE_LINES
        invariant
            i <= lines@.len(),
            texts == lines@.map_values(|s: String| s@),
            first_message_from(texts, 0) == first_message_from(texts, i as int),
        decreases lines.len() - i,
    {
        proof {
            assert(texts[i as int] == lines@[i as int]@);
        }
        match parse_event(lines[i].as_str()) {
            Some(e) => {
                if str_eq(e.event_type.as_str(), "user.message") {
                    match &e.content {
                        Some(c) => {
                            if c.as_str().unicode_len() > 0 {
                                return Some(truncate_title(c.as_str()));
                            }
                        },
                        None => {},
                    }
                }
            },
            None => {},
        }
        i += 1;
    }
    None
}

} // verus!
