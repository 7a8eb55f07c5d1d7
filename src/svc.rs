//! Domain view of the time-tracking service: the duration codec, the
//! write-once project cache, the entry assembler and the service facade.
//!
//! The facade never talks to the network itself. Each operation is a small
//! state machine: it hands out the `Request` to perform and takes back the
//! `Response`, until it is `Done`.
use vstd::prelude::*;
use crate::api::{self, WireNumber};
use crate::time::{
    in_epoch_range,
    nanos_per_second,
    rfc3339_text_of,
    utc_parse_of,
    leap_folded,
    TimeSpan,
    Timestamp,
    MAX_EPOCH_SECONDS,
};

verus! {

/// The tag that entries created by this library carry.
pub const CREATED_WITH: &'static str = "github.com/blachniet/tgl";

#[verifier::external_type_specification]
#[verifier::external_body]
#[verifier::reject_recursive_types(K)]
#[verifier::reject_recursive_types(V)]
#[verifier::reject_recursive_types(S)]
pub struct ExFrozenMap<K, V, S>(elsa::map::FrozenMap<K, V, S>);

/// Which value could not be read as the service's encoding describes it.
#[derive(Clone, Copy, Debug, PartialEq, Eq, Structural)]
pub enum DecodeError {
    /// A duration that is not a 64-bit integer, or whose start lies outside
    /// the representable range of instants.
    Duration,
    /// An identifier that is not a 64-bit integer.
    Identifier,
}

#[derive(Debug)]
pub enum Error {
    /// A start or stop time is not a valid timestamp.
    ChronoParse(chrono::ParseError),
    /// A number from the service does not follow the expected encoding.
    Decode(DecodeError),
    /// A response of another kind than the pending request asks for.
    UnexpectedResponse,
}

/// A time entry with its duration decoded and its project resolved.
#[derive(Debug)]
pub struct TimeEntry {
    pub description: Option<String>,
    pub duration: TimeSpan,
    pub is_running: bool,
    pub project_id: Option<i64>,
    pub project_name: Option<String>,
    pub start: Option<Timestamp>,
    pub stop: Option<Timestamp>,
    pub workspace_id: i64,
}

#[derive(Clone, Debug)]
pub struct Project {
    pub active: bool,
    pub id: i64,
    pub name: String,
}

#[derive(Clone, Debug)]
pub struct Workspace {
    pub id: i64,
    pub name: String,
}

// ---------------------------------------------------------------------------
// Duration codec
// ---------------------------------------------------------------------------

/// What the service's duration field means: `Some((nanoseconds, running))`,
/// or `None` when the value does not follow the encoding. A value of zero or
/// more is a completed duration in seconds; a negative value `v` marks a
/// running entry that started at epoch second `-v`.
pub open spec fn decoded_duration(now: Timestamp, duration: WireNumber) -> Option<(int, bool)> {
    match duration.as_i64_spec() {
        None => None,
        Some(v) => if v >= 0 {
            Some((v * nanos_per_second(), false))
        } else if in_epoch_range(-v) {
            Some((now.total_nanos() - (-v) * nanos_per_second(), true))
        } else {
            None
        },
    }
}

/// Decodes the service's duration field against the current time `now`.
pub fn parse_duration(now: Timestamp, duration: WireNumber) -> (r: Result<(TimeSpan, bool), Error>)
    ensures
        match decoded_duration(now, duration) {
            Some((nanos, running)) => r is Ok && r->Ok_0.0.total_nanos() == nanos && r->Ok_0.1
                == running,
            None => r matches Err(Error::Decode(DecodeError::Duration)),
        },
{
    let duration = match duration.as_i64() {
        Some(d) => d,
        None => return Err(Error::Decode(DecodeError::Duration)),
    };
    if duration < 0 {
        // A running entry is sent as the negative epoch second of its start.
        if duration < -MAX_EPOCH_SECONDS {
            return Err(Error::Decode(DecodeError::Duration));
        }
        match Timestamp::from_epoch_seconds(-duration) {
            Some(start) => Ok((now.since(&start), true)),
            None => Err(Error::Decode(DecodeError::Duration)),
        }
    } else {
        Ok((TimeSpan::from_seconds(duration), false))
    }
}

// ---------------------------------------------------------------------------
// Project cache
// ---------------------------------------------------------------------------

/// Projects by (workspace id, project id); a key, once present, keeps its value.
pub type ProjectCache = elsa::map::FrozenMap<(i64, i64), Box<Project>>;

/// The cache in which `elsa`'s `FrozenMap` keeps each project under its
/// (workspace id, project id) key.
pub uninterp spec fn cached_projects(cache: ProjectCache) -> Map<(i64, i64), Project>;

pub open spec fn no_projects() -> Map<(i64, i64), Project> {
    Map::empty()
}

/// Relies on `elsa::map::FrozenMap::new`: the map starts empty.
#[verifier::external_body]
fn cache_new() -> (r: ProjectCache)
    ensures
        cached_projects(r) == no_projects(),
{
    elsa::map::FrozenMap::new()
}

/// Relies on `elsa::map::FrozenMap::get`: the value under the key, if any.
#[verifier::external_body]
fn cache_get<'a>(cache: &'a ProjectCache, key: (i64, i64)) -> (r:
    Option<&'a Project>)
    ensures
        r is Some <==> cached_projects(*cache).dom().contains(key),
        r is Some ==> *r->0 == cached_projects(*cache)[key],
{
    cache.get(&key)
}

/// Relies on `elsa::map::FrozenMap::insert`, which goes through
/// `HashMap::entry(..).or_insert(..)`: a key already present keeps its value.
#[verifier::external_body]
fn cache_insert(
    cache: &mut ProjectCache,
    key: (i64, i64),
    project: Project,
)
    ensures
        cached_projects(*final(cache)) == if cached_projects(*old(cache)).dom().contains(key) {
            cached_projects(*old(cache))
        } else {
            cached_projects(*old(cache)).insert(key, project)
        },
{
    cache.insert(key, Box::new(project));
}

/// The project that a project record from the service stands for, when its
/// identifier narrows to a 64-bit integer.
pub open spec fn project_of(raw: api::Project) -> Option<Project> {
    match raw.id.as_i64_spec() {
        Some(id) => Some(Project { active: raw.active, id, name: raw.name }),
        None => None,
    }
}

/// Every record of `raw` stands for a project.
pub open spec fn all_projects_readable(raw: Seq<api::Project>) -> bool {
    forall|i: int| 0 <= i < raw.len() ==> (#[trigger] project_of(raw[i])) is Some
}

/// The projects that the records of `raw` stand for, in order.
pub open spec fn projects_of(raw: Seq<api::Project>) -> Seq<Project> {
    raw.map_values(|p: api::Project| project_of(p)->0)
}

/// The cache `m` after each of `projects`, in order, was offered to it under
/// workspace `ws`: a key already present keeps its project.
pub open spec fn record_all(m: Map<(i64, i64), Project>, ws: i64, projects: Seq<Project>) -> Map<
    (i64, i64),
    Project,
>
    decreases projects.len(),
{
    if projects.len() == 0 {
        m
    } else {
        let before = record_all(m, ws, projects.drop_last());
        let p = projects.last();
        if before.dom().contains((ws, p.id)) {
            before
        } else {
            before.insert((ws, p.id), p)
        }
    }
}

/// Recording projects never changes nor drops a project already cached.
pub proof fn lemma_record_all_keeps(m: Map<(i64, i64), Project>, ws: i64, projects: Seq<Project>)
    ensures
        forall|k: (i64, i64)| #[trigger]
            m.dom().contains(k) ==> record_all(m, ws, projects).dom().contains(k) && record_all(
                m,
                ws,
                projects,
            )[k] == m[k],
    decreases projects.len(),
{
    if projects.len() > 0 {
        lemma_record_all_keeps(m, ws, projects.drop_last());
    }
}

/// After recording, every recorded project can be found under its key, and the
/// cache holds nothing else that was not there before.
pub proof fn lemma_record_all_covers(m: Map<(i64, i64), Project>, ws: i64, projects: Seq<Project>)
    ensures
        forall|i: int|
            0 <= i < projects.len() ==> record_all(m, ws, projects).dom().contains(
                (ws, #[trigger] projects[i].id),
            ),
        forall|k: (i64, i64)| #[trigger]
            record_all(m, ws, projects).dom().contains(k) ==> m.dom().contains(k) || (k.0 == ws
                && exists|i: int| 0 <= i < projects.len() && projects[i].id == k.1),
    decreases projects.len(),
{
    if projects.len() > 0 {
        let init = projects.drop_last();
        lemma_record_all_covers(m, ws, init);
        lemma_record_all_keeps(record_all(m, ws, init), ws, seq![projects.last()]);
        assert forall|i: int| 0 <= i < projects.len() implies record_all(m, ws, projects).dom().contains(
            (ws, #[trigger] projects[i].id),
        ) by {
            if i < projects.len() - 1 {
                assert(init[i] == projects[i]);
            }
        }
        assert forall|k: (i64, i64)| #[trigger]
            record_all(m, ws, projects).dom().contains(k) implies m.dom().contains(k) || (k.0 == ws
                && exists|i: int| 0 <= i < projects.len() && projects[i].id == k.1) by {
            if !record_all(m, ws, init).dom().contains(k) {
                assert(projects[projects.len() - 1].id == k.1);
            } else if !m.dom().contains(k) {
                let j = choose|j: int| 0 <= j < init.len() && init[j].id == k.1;
                assert(projects[j] == init[j]);
            }
        }
    }
}

// ---------------------------------------------------------------------------
// Entry assembler
// ---------------------------------------------------------------------------

/// The identifiers of an entry narrow to 64-bit integers.
pub open spec fn ids_readable(raw: api::TimeEntry) -> bool {
    &&& raw.workspace_id.as_i64_spec() is Some
    &&& (raw.project_id matches Some(p) ==> p.as_i64_spec() is Some)
}

/// A start or stop text is absent or readable as an instant.
pub open spec fn time_readable(text: Option<String>) -> bool {
    text matches Some(s) ==> utc_parse_of(s@) is Some
}

/// `t` is the instant that `text` gives (absent when `text` is).
pub open spec fn time_matches(t: Option<Timestamp>, text: Option<String>) -> bool {
    match text {
        None => t is None,
        Some(s) => {
            let parts = utc_parse_of(s@).unwrap();
            t is Some && t->0.epoch_seconds() == parts.0 && t->0.subsec() == leap_folded(parts.1)
        },
    }
}

/// The project identifier of an entry, narrowed.
pub open spec fn project_id_of(raw: api::TimeEntry) -> Option<i64> {
    match raw.project_id {
        Some(p) => p.as_i64_spec(),
        None => None,
    }
}

/// An entry's fields all decode at time `now`.
pub open spec fn entry_readable(raw: api::TimeEntry, now: Timestamp) -> bool {
    &&& ids_readable(raw)
    &&& decoded_duration(now, raw.duration) is Some
    &&& time_readable(raw.start)
    &&& time_readable(raw.stop)
}

/// `e` is the entry that `raw` assembles to at time `now`, with
/// `project_name` the name of the project it was resolved to, if any.
pub open spec fn assembled_from(
    e: TimeEntry,
    raw: api::TimeEntry,
    project_name: Option<String>,
    now: Timestamp,
) -> bool {
    &&& e.description == raw.description
    &&& e.duration.total_nanos() == decoded_duration(now, raw.duration).unwrap().0
    &&& e.is_running == decoded_duration(now, raw.duration).unwrap().1
    &&& e.project_id == project_id_of(raw)
    &&& e.project_name == if raw.project_id is Some {
        project_name
    } else {
        None
    }
    &&& time_matches(e.start, raw.start)
    &&& time_matches(e.stop, raw.stop)
    &&& e.workspace_id == raw.workspace_id.as_i64_spec()->0
}

/// The ways assembling `raw` at `now` can fail, checked in this order:
/// identifiers, duration, start, stop.
pub open spec fn assembly_fails_as(r: Result<TimeEntry, Error>, raw: api::TimeEntry, now: Timestamp) -> bool {
    if !ids_readable(raw) {
        r matches Err(Error::Decode(DecodeError::Identifier))
    } else if decoded_duration(now, raw.duration) is None {
        r matches Err(Error::Decode(DecodeError::Duration))
    } else {
        r matches Err(Error::ChronoParse(_))
    }
}

fn clone_text(s: &Option<String>) -> (r: Option<String>)
    ensures
        r == *s,
{
    match s {
        Some(t) => Some(t.clone()),
        None => None,
    }
}

fn parse_time(text: &Option<String>) -> (r: Result<Option<Timestamp>, Error>)
    ensures
        r is Ok <==> time_readable(*text),
        r is Ok ==> time_matches(r->Ok_0, *text),
        r is Err ==> r matches Err(Error::ChronoParse(_)),
{
    match text {
        Some(s) => match Timestamp::parse(s.as_str()) {
            Ok(t) => Ok(Some(t)),
            Err(e) => Err(Error::ChronoParse(e)),
        },
        None => Ok(None),
    }
}

/// Assembles a time entry from the service's record `raw`, at time `now`,
/// given the project its project id was resolved to (if any). A record
/// without a project id gets no project name, whatever `project` is.
pub fn assemble(raw: &api::TimeEntry, project: Option<&Project>, now: Timestamp) -> (r: Result<
    TimeEntry,
    Error,
>)
    ensures
        r is Ok <==> entry_readable(*raw, now),
        r is Ok ==> assembled_from(
            r->Ok_0,
            *raw,
            match project {
                Some(p) => Some(p.name),
                None => None,
            },
            now,
        ),
        r is Err ==> assembly_fails_as(r, *raw, now),
{
    let workspace_id = match raw.workspace_id.as_i64() {
        Some(w) => w,
        None => return Err(Error::Decode(DecodeError::Identifier)),
    };
    let project_id = match &raw.project_id {
        Some(p) => match p.as_i64() {
            Some(pid) => Some(pid),
            None => return Err(Error::Decode(DecodeError::Identifier)),
        },
        None => None,
    };
    let (duration, is_running) = match parse_duration(now, raw.duration) {
        Ok(d) => d,
        Err(e) => return Err(e),
    };
    let start = match parse_time(&raw.start) {
        Ok(t) => t,
        Err(e) => return Err(e),
    };
    let stop = match parse_time(&raw.stop) {
        Ok(t) => t,
        Err(e) => return Err(e),
    };
    let project_name = match (project_id, project) {
        (Some(_), Some(p)) => Some(p.name.clone()),
        _ => None,
    };
    Ok(
        TimeEntry {
            description: clone_text(&raw.description),
            duration,
            is_running,
            project_id,
            project_name,
            start,
            stop,
            workspace_id,
        },
    )
}

// ---------------------------------------------------------------------------
// Service facade
// ---------------------------------------------------------------------------

/// What the facade asks of the service.
#[derive(Debug)]
pub enum Request {
    /// The most recent time entries.
    TimeEntries,
    /// The running time entry, if there is one.
    CurrentEntry,
    /// Create this time entry.
    CreateTimeEntry(api::NewTimeEntry),
    /// Stop the time entry with this id in this workspace.
    StopTimeEntry { workspace_id: WireNumber, time_entry_id: WireNumber },
    /// All projects of a workspace.
    Projects(i64),
    /// All workspaces.
    Workspaces,
}

/// What the service answered.
#[derive(Debug)]
pub enum Response {
    TimeEntries(Vec<api::TimeEntry>),
    CurrentEntry(Option<api::TimeEntry>),
    TimeEntry(api::TimeEntry),
    Projects(Vec<api::Project>),
    Workspaces(Vec<api::Workspace>),
}

/// Where an operation stands while it waits for a response.
#[derive(Debug)]
pub enum Pending {
    /// Waiting for the most recent entries.
    LatestEntries,
    /// Waiting for the entry that was created.
    CreatedEntry,
    /// Waiting for the running entry, if any.
    CurrentEntry,
    /// Waiting for the entry that was stopped.
    StoppedEntry,
    /// Assembling `entries`; `built` are done, and the projects of the
    /// workspace of the next one are being fetched. `single` marks an
    /// operation that yields one entry rather than a list.
    ProjectsFor { entries: Vec<api::TimeEntry>, built: Vec<TimeEntry>, single: bool },
    /// Waiting for the projects of a workspace.
    ProjectList(i64),
    /// Waiting for the workspaces.
    WorkspaceList,
}

/// What a finished operation yields.
#[derive(Debug)]
pub enum Outcome {
    Entries(Vec<TimeEntry>),
    /// A started or stopped entry; `None` when there was nothing to stop.
    Entry(Option<TimeEntry>),
    Projects(Vec<Project>),
    Workspaces(Vec<Workspace>),
}

/// The next move of an operation.
#[derive(Debug)]
pub enum Step {
    /// Perform the request, then hand its response back with the pending state.
    Send(Request, Pending),
    Done(Result<Outcome, Error>),
}

/// The workspace id of an entry, narrowed (meaningful when `ids_readable`).
pub open spec fn workspace_of_entry(raw: api::TimeEntry) -> i64 {
    raw.workspace_id.as_i64_spec().unwrap()
}

/// The entry names a project that the cache `m` does not hold yet, so the
/// projects of its workspace must be fetched first.
pub open spec fn fetch_needed(m: Map<(i64, i64), Project>, raw: api::TimeEntry) -> bool {
    &&& ids_readable(raw)
    &&& project_id_of(raw) is Some
    &&& !m.dom().contains((workspace_of_entry(raw), project_id_of(raw).unwrap()))
}

/// The name of the cached project that an entry refers to, if the cache holds it.
pub open spec fn resolved_name(m: Map<(i64, i64), Project>, raw: api::TimeEntry) -> Option<String> {
    if ids_readable(raw) && project_id_of(raw) is Some && m.dom().contains(
        (workspace_of_entry(raw), project_id_of(raw).unwrap()),
    ) {
        Some(m[(workspace_of_entry(raw), project_id_of(raw).unwrap())].name)
    } else {
        None
    }
}

/// `e` is what `raw` assembles to at `now`, its project resolved in `m`.
pub open spec fn built_from(e: TimeEntry, raw: api::TimeEntry, m: Map<(i64, i64), Project>, now: Timestamp) -> bool {
    assembled_from(e, raw, resolved_name(m, raw), now)
}

/// Entries `n0 .. upto` of a batch were built into `out` at `now`.
pub open spec fn went_through(
    m: Map<(i64, i64), Project>,
    entries: Seq<api::TimeEntry>,
    out: Seq<TimeEntry>,
    n0: int,
    upto: int,
    now: Timestamp,
) -> bool {
    forall|j: int|
        n0 <= j < upto ==> !fetch_needed(m, entries[j]) && entry_readable(
            #[trigger] entries[j],
            now,
        ) && built_from(out[j], entries[j], m, now)
}

/// `a` and `b` agree on their first `n` entries.
pub open spec fn same_prefix(a: Seq<TimeEntry>, b: Seq<TimeEntry>, n: int) -> bool {
    &&& n <= a.len()
    &&& n <= b.len()
    &&& forall|k: int| 0 <= k < n ==> #[trigger] a[k] == b[k]
}

/// Building one more entry of a batch keeps what `went_through` says of the
/// entries before it.
proof fn lemma_went_through_push(
    m: Map<(i64, i64), Project>,
    entries: Seq<api::TimeEntry>,
    before: Seq<TimeEntry>,
    e: TimeEntry,
    n0: int,
    now: Timestamp,
)
    requires
        0 <= n0 <= before.len() < entries.len(),
        went_through(m, entries, before, n0, before.len() as int, now),
        !fetch_needed(m, entries[before.len() as int]),
        entry_readable(entries[before.len() as int], now),
        built_from(e, entries[before.len() as int], m, now),
    ensures
        went_through(m, entries, before.push(e), n0, before.len() as int + 1, now),
        same_prefix(before.push(e), before, before.len() as int),
{
    let after = before.push(e);
    assert forall|j: int| n0 <= j < before.len() + 1 implies !fetch_needed(m, entries[j])
        && entry_readable(#[trigger] entries[j], now) && built_from(after[j], entries[j], m, now) by {
        if j < before.len() {
            assert(after[j] == before[j]);
        }
    }
    assert forall|k: int| 0 <= k < before.len() implies #[trigger] after[k] == before[k] by {}
}

/// What assembling a batch of `entries`, of which `built` are done, does with
/// the cache `m` at `now`: it builds entries in order until one needs its
/// projects fetched (then it asks for them), one fails (then the operation
/// fails with that entry's error), or all are built.
pub open spec fn batch_step(
    m: Map<(i64, i64), Project>,
    entries: Seq<api::TimeEntry>,
    built: Seq<TimeEntry>,
    single: bool,
    now: Timestamp,
    r: Step,
) -> bool {
    let n0 = built.len() as int;
    match r {
        Step::Send(Request::Projects(ws), Pending::ProjectsFor { entries: e2, built: b2, single: s2 }) => {
            &&& e2@ == entries
            &&& s2 == single
            &&& n0 <= b2.len() < entries.len()
            &&& same_prefix(b2@, built, n0)
            &&& fetch_needed(m, entries[b2.len() as int])
            &&& ws == workspace_of_entry(entries[b2.len() as int])
            &&& went_through(m, entries, b2@, n0, b2.len() as int, now)
        },
        Step::Send(_, _) => false,
        Step::Done(Ok(Outcome::Entries(v))) => {
            &&& !single
            &&& v.len() == entries.len()
            &&& same_prefix(v@, built, n0)
            &&& went_through(m, entries, v@, n0, entries.len() as int, now)
        },
        Step::Done(Ok(Outcome::Entry(Some(e)))) => {
            &&& single
            &&& entries.len() == 1
            &&& went_through(m, entries, built.push(e), n0, 1, now)
            &&& (n0 == 1 ==> e == built[0])
        },
        Step::Done(Ok(_)) => false,
        Step::Done(Err(e)) => exists|j: int|
            n0 <= j < entries.len() && (forall|k: int|
                n0 <= k < j ==> !fetch_needed(m, entries[k]) && entry_readable(
                    #[trigger] entries[k],
                    now,
                )) && !fetch_needed(m, entries[j]) && !entry_readable(entries[j], now)
                && assembly_fails_as(Err(e), entries[j], now),
    }
}

/// The workspace that a workspace record stands for, when its id narrows.
pub open spec fn workspace_of(raw: api::Workspace) -> Option<Workspace> {
    match raw.id.as_i64_spec() {
        Some(id) => Some(Workspace { id, name: raw.name }),
        None => None,
    }
}

/// The entry that starting a timer at `now` asks the service to create.
pub open spec fn new_entry_for(
    e: api::NewTimeEntry,
    workspace_id: i64,
    project_id: Option<i64>,
    description: Option<Seq<char>>,
    now: Timestamp,
) -> bool {
    &&& e.created_with@ == CREATED_WITH@
    &&& match description {
        Some(d) => e.description matches Some(s) && s@ == d,
        None => e.description is None,
    }
    &&& e.duration == WireNumber::from_i64_spec((-now.epoch_seconds()) as i64)
    &&& e.project_id == match project_id {
        Some(p) => Some(WireNumber::from_i64_spec(p)),
        None => None,
    }
    &&& e.start@ == rfc3339_text_of(now.epoch_seconds() as i64, now.subsec() as u32)
    &&& e.stop is None
    &&& e.task_id is None
    &&& e.workspace_id == WireNumber::from_i64_spec(workspace_id)
}

/// Every workspace record has an id that narrows.
pub open spec fn all_workspaces_readable(raw: Seq<api::Workspace>) -> bool {
    forall|i: int| 0 <= i < raw.len() ==> (#[trigger] workspace_of(raw[i])) is Some
}

/// The workspaces that the records of `raw` stand for, in order.
pub open spec fn workspaces_of(raw: Seq<api::Workspace>) -> Seq<Workspace> {
    raw.map_values(|w: api::Workspace| workspace_of(w)->0)
}

/// Every project cached in `before` is still cached in `after`, unchanged.
pub open spec fn keeps_cached(before: Map<(i64, i64), Project>, after: Map<(i64, i64), Project>) -> bool {
    forall|k: (i64, i64)| #[trigger]
        before.dom().contains(k) ==> after.dom().contains(k) && after[k] == before[k]
}

/// A pending batch can take the projects it asked for: an entry is waiting
/// at `built.len()`, its workspace id narrows, and a single-entry operation
/// holds one entry.
pub open spec fn resumable(entries: Seq<api::TimeEntry>, built: Seq<TimeEntry>, single: bool) -> bool {
    &&& built.len() < entries.len()
    &&& entries[built.len() as int].workspace_id.as_i64_spec() is Some
    &&& (single ==> entries.len() == 1)
}

/// What the facade does when the projects `ps` of workspace `ws` arrive for a
/// batch waiting at `built.len()`: it records them (`after` is the cache
/// then), builds the waiting entry with whatever the cache now holds, and
/// goes on with the batch.
pub open spec fn batch_resumed(
    before: Map<(i64, i64), Project>,
    after: Map<(i64, i64), Project>,
    entries: Seq<api::TimeEntry>,
    built: Seq<TimeEntry>,
    single: bool,
    ps: Seq<api::Project>,
    now: Timestamp,
    r: Step,
) -> bool {
    let raw = entries[built.len() as int];
    let ws = workspace_of_entry(raw);
    if !all_projects_readable(ps) {
        &&& keeps_cached(before, after)
        &&& r matches Step::Done(Err(Error::Decode(DecodeError::Identifier)))
    } else {
        &&& after == record_all(before, ws, projects_of(ps))
        &&& if entry_readable(raw, now) {
            exists|e: TimeEntry|
                built_from(e, raw, after, now) && batch_step(
                    after,
                    entries,
                    built.push(e),
                    single,
                    now,
                    r,
                )
        } else {
            r matches Step::Done(Err(e)) && assembly_fails_as(Err(e), raw, now)
        }
    }
}

/// The service facade: it keeps the project cache for as long as it lives.
pub struct Client {
    project_cache: ProjectCache,
}

impl Client {
    /// The projects cached so far, by (workspace id, project id).
    pub closed spec fn projects(&self) -> Map<(i64, i64), Project> {
        cached_projects(self.project_cache)
    }

    pub fn new() -> (r: Client)
        ensures
            r.projects() == no_projects(),
    {
        Client { project_cache: cache_new() }
    }

    /// The cached project under (workspace id, project id), if any; this never
    /// asks the service.
    pub fn cached_project(&self, workspace_id: i64, project_id: i64) -> (r: Option<&Project>)
        ensures
            r is Some <==> self.projects().dom().contains((workspace_id, project_id)),
            r is Some ==> *r->0 == self.projects()[(workspace_id, project_id)],
    {
        cache_get(&self.project_cache, (workspace_id, project_id))
    }

    /// Offers each project of `raw`, in order, to the cache under
    /// `workspace_id` and returns them all. Fails, having recorded those
    /// before it, at the first record whose id does not narrow.
    pub fn record_projects(&mut self, workspace_id: i64, raw: &Vec<api::Project>) -> (r: Result<
        Vec<Project>,
        Error,
    >)
        ensures
            r is Ok <==> all_projects_readable(raw@),
            r is Ok ==> r->Ok_0@ == projects_of(raw@) && final(self).projects() == record_all(
                old(self).projects(),
                workspace_id,
                projects_of(raw@),
            ),
            r is Err ==> (r matches Err(Error::Decode(DecodeError::Identifier))) && exists|j: int|
                0 <= j < raw.len() && project_of(raw@[j]) is None && all_projects_readable(
                    raw@.take(j),
                ) && final(self).projects() == record_all(
                    old(self).projects(),
                    workspace_id,
                    projects_of(raw@.take(j)),
                ),
    {
        let mut projects: Vec<Project> = Vec::new();
        let mut i: usize = 0;
        while i < raw.len()
            invariant
                i <= raw.len(),
                all_projects_readable(raw@.take(i as int)),
                projects@ == projects_of(raw@.take(i as int)),
                self.projects() == record_all(old(self).projects(), workspace_id, projects@),
            decreases raw.len() - i,
        {
            let p = &raw[i];
            let id = match p.id.as_i64() {
                Some(id) => id,
                None => {
                    return Err(Error::Decode(DecodeError::Identifier));
                },
            };
            let cached = Project { active: p.active, id, name: p.name.clone() };
            cache_insert(&mut self.project_cache, (workspace_id, id), cached);
            let project = Project { active: p.active, id, name: p.name.clone() };
            projects.push(project);
            proof {
                let next = raw@.take(i + 1);
                assert(next.drop_last() == raw@.take(i as int));
                assert(projects_of(next) =~= projects_of(raw@.take(i as int)).push(
                    project_of(raw@[i as int])->0,
                ));
                assert(projects@.drop_last() == projects_of(raw@.take(i as int)));
            }
            i = i + 1;
        }
        assert(raw@.take(raw.len() as int) == raw@);
        Ok(projects)
    }

    /// Assembles `raw` at `now`, its project taken from the cache only (absent
    /// when the cache does not hold it).
    pub fn build_time_entry(&self, raw: &api::TimeEntry, now: Timestamp) -> (r: Result<TimeEntry, Error>)
        ensures
            r is Ok <==> entry_readable(*raw, now),
            r is Ok ==> built_from(r->Ok_0, *raw, self.projects(), now),
            r is Err ==> assembly_fails_as(r, *raw, now),
    {
        let project = match (&raw.project_id, raw.workspace_id.as_i64()) {
            (Some(p), Some(ws)) => match p.as_i64() {
                Some(pid) => self.cached_project(ws, pid),
                None => None,
            },
            _ => None,
        };
        assemble(raw, project, now)
    }

    /// The workspace whose projects must be fetched before `raw` can be
    /// assembled, if any.
    fn projects_to_fetch(&self, raw: &api::TimeEntry) -> (r: Option<i64>)
        ensures
            r is Some <==> fetch_needed(self.projects(), *raw),
            r is Some ==> r->0 == workspace_of_entry(*raw),
    {
        match (&raw.project_id, raw.workspace_id.as_i64()) {
            (Some(p), Some(ws)) => match p.as_i64() {
                Some(pid) => match self.cached_project(ws, pid) {
                    Some(_) => None,
                    None => Some(ws),
                },
                None => None,
            },
            _ => None,
        }
    }

    /// Builds `entries` from `built.len()` on, in order, until one needs its
    /// projects fetched, one fails, or all are built.
    fn assemble_batch(
        &self,
        entries: Vec<api::TimeEntry>,
        built: Vec<TimeEntry>,
        single: bool,
        now: Timestamp,
    ) -> (r: Step)
        requires
            built.len() <= entries.len(),
            single ==> entries.len() == 1,
        ensures
            batch_step(self.projects(), entries@, built@, single, now, r),
    {
        let ghost m = self.projects();
        let ghost n0: int = built@.len() as int;
        let mut done = built;
        let mut i: usize = done.len();
        while i < entries.len()
            invariant
                0 <= n0 <= i <= entries.len(),
                n0 == built@.len(),
                done.len() == i,
                same_prefix(done@, built@, n0),
                went_through(m, entries@, done@, n0, i as int, now),
                m == self.projects(),
                single ==> entries.len() == 1,
            decreases entries.len() - i,
        {
            match self.projects_to_fetch(&entries[i]) {
                Some(ws) => {
                    return Step::Send(
                        Request::Projects(ws),
                        Pending::ProjectsFor { entries, built: done, single },
                    );
                },
                None => {},
            }
            match self.build_time_entry(&entries[i], now) {
                Ok(e) => {
                    proof {
                        lemma_went_through_push(m, entries@, done@, e, n0, now);
                    }
                    done.push(e);
                },
                Err(e) => {
                    proof {
                        let j = i as int;
                        assert(forall|k: int|
                            n0 <= k < j ==> !fetch_needed(m, entries@[k]) && entry_readable(
                                #[trigger] entries@[k],
                                now,
                            ));
                        assert(n0 <= j < entries@.len() && (forall|k: int|
                            n0 <= k < j ==> !fetch_needed(m, entries@[k]) && entry_readable(
                                #[trigger] entries@[k],
                                now,
                            )) && !fetch_needed(m, entries@[j]) && !entry_readable(entries@[j], now)
                            && assembly_fails_as(Err(e), entries@[j], now));
                    }
                    return Step::Done(Err(e));
                },
            }
            i = i + 1;
        }
        if single {
            let ghost before = done@;
            let e = done.pop().unwrap();
            proof {
                if n0 == 0 {
                    assert(built@.push(e) =~= before);
                }
            }
            Step::Done(Ok(Outcome::Entry(Some(e))))
        } else {
            Step::Done(Ok(Outcome::Entries(done)))
        }
    }

    /// Begins listing the most recent entries.
    pub fn get_latest_entries(&self) -> (r: Step)
        ensures
            r matches Step::Send(Request::TimeEntries, Pending::LatestEntries),
    {
        Step::Send(Request::TimeEntries, Pending::LatestEntries)
    }

    /// Begins starting a timer at `now`: the entry to create carries minus
    /// the epoch second of `now` as its duration and `now` as its start.
    pub fn start_time_entry(
        &self,
        workspace_id: i64,
        project_id: Option<i64>,
        description: Option<&str>,
        now: Timestamp,
    ) -> (r: Step)
        ensures
            r matches Step::Send(Request::CreateTimeEntry(e), Pending::CreatedEntry) && new_entry_for(
                e,
                workspace_id,
                project_id,
                match description {
                    Some(d) => Some(d@),
                    None => None,
                },
                now,
            ),
    {
        let description = match description {
            Some(d) => Some(d.to_string()),
            None => None,
        };
        let project_id = match project_id {
            Some(p) => Some(WireNumber::from(p)),
            None => None,
        };
        let entry = api::NewTimeEntry {
            created_with: CREATED_WITH.to_string(),
            description,
            duration: WireNumber::from(-now.seconds()),
            project_id,
            start: now.to_rfc3339(),
            stop: None,
            task_id: None,
            workspace_id: WireNumber::from(workspace_id),
        };
        Step::Send(Request::CreateTimeEntry(entry), Pending::CreatedEntry)
    }

    /// Begins stopping the running entry, if there is one.
    pub fn stop_current_time_entry(&self) -> (r: Step)
        ensures
            r matches Step::Send(Request::CurrentEntry, Pending::CurrentEntry),
    {
        Step::Send(Request::CurrentEntry, Pending::CurrentEntry)
    }

    /// Begins listing the projects of a workspace (always fetched afresh).
    pub fn get_projects(&self, workspace_id: i64) -> (r: Step)
        ensures
            r matches Step::Send(Request::Projects(w), Pending::ProjectList(v)) && w == workspace_id
                && v == workspace_id,
    {
        Step::Send(Request::Projects(workspace_id), Pending::ProjectList(workspace_id))
    }

    /// Begins listing the workspaces.
    pub fn get_workspaces(&self) -> (r: Step)
        ensures
            r matches Step::Send(Request::Workspaces, Pending::WorkspaceList),
    {
        Step::Send(Request::Workspaces, Pending::WorkspaceList)
    }

    /// Takes the projects that a pending batch asked for and goes on with it.
    fn resume_batch(
        &mut self,
        entries: Vec<api::TimeEntry>,
        built: Vec<TimeEntry>,
        single: bool,
        ps: Vec<api::Project>,
        now: Timestamp,
    ) -> (r: Step)
        ensures
            if resumable(entries@, built@, single) {
                batch_resumed(
                    old(self).projects(),
                    final(self).projects(),
                    entries@,
                    built@,
                    single,
                    ps@,
                    now,
                    r,
                )
            } else {
                &&& final(self).projects() == old(self).projects()
                &&& r matches Step::Done(Err(Error::UnexpectedResponse))
            },
    {
        let i = built.len();
        if i >= entries.len() || (single && entries.len() != 1) {
            return Step::Done(Err(Error::UnexpectedResponse));
        }
        let ws = match entries[i].workspace_id.as_i64() {
            Some(w) => w,
            None => return Step::Done(Err(Error::UnexpectedResponse)),
        };
        let ghost before = self.projects();
        match self.record_projects(ws, &ps) {
            Ok(_) => {},
            Err(e) => {
                proof {
                    let j = choose|j: int|
                        0 <= j < ps.len() && project_of(ps@[j]) is None && all_projects_readable(
                            ps@.take(j),
                        ) && self.projects() == record_all(before, ws, projects_of(ps@.take(j)));
                    lemma_record_all_keeps(before, ws, projects_of(ps@.take(j)));
                }
                return Step::Done(Err(e));
            },
        }
        match self.build_time_entry(&entries[i], now) {
            Ok(e) => {
                let ghost e0 = e;
                let mut built = built;
                built.push(e);
                let r = self.assemble_batch(entries, built, single, now);
                proof {
                    assert(built_from(e0, entries@[i as int], self.projects(), now));
                }
                r
            },
            Err(e) => Step::Done(Err(e)),
        }
    }

    /// Hands the service's `response` to the operation waiting in `pending`
    /// and returns its next step; `now` is the current time.
    pub fn resume(&mut self, pending: Pending, response: Response, now: Timestamp) -> (r: Step)
        ensures
            match (pending, response) {
                (Pending::LatestEntries, Response::TimeEntries(v)) => {
                    &&& final(self).projects() == old(self).projects()
                    &&& batch_step(old(self).projects(), v@, Seq::empty(), false, now, r)
                },
                (Pending::CreatedEntry, Response::TimeEntry(e)) => {
                    &&& final(self).projects() == old(self).projects()
                    &&& batch_step(old(self).projects(), seq![e], Seq::empty(), true, now, r)
                },
                (Pending::StoppedEntry, Response::TimeEntry(e)) => {
                    &&& final(self).projects() == old(self).projects()
                    &&& batch_step(old(self).projects(), seq![e], Seq::empty(), true, now, r)
                },
                (Pending::CurrentEntry, Response::CurrentEntry(None)) => {
                    &&& final(self).projects() == old(self).projects()
                    &&& r matches Step::Done(Ok(Outcome::Entry(None)))
                },
                (Pending::CurrentEntry, Response::CurrentEntry(Some(e))) => {
                    &&& final(self).projects() == old(self).projects()
                    &&& r matches Step::Send(
                        Request::StopTimeEntry { workspace_id: w, time_entry_id: t },
                        Pending::StoppedEntry,
                    ) && w == e.workspace_id && t == e.id
                },
                (Pending::ProjectsFor { entries, built, single }, Response::Projects(ps)) => {
                    if resumable(entries@, built@, single) {
                        batch_resumed(
                            old(self).projects(),
                            final(self).projects(),
                            entries@,
                            built@,
                            single,
                            ps@,
                            now,
                            r,
                        )
                    } else {
                        &&& final(self).projects() == old(self).projects()
                        &&& r matches Step::Done(Err(Error::UnexpectedResponse))
                    }
                },
                (Pending::ProjectList(ws), Response::Projects(ps)) => {
                    if all_projects_readable(ps@) {
                        &&& final(self).projects() == record_all(
                            old(self).projects(),
                            ws,
                            projects_of(ps@),
                        )
                        &&& r matches Step::Done(Ok(Outcome::Projects(v))) && v@ == projects_of(ps@)
                    } else {
                        &&& keeps_cached(old(self).projects(), final(self).projects())
                        &&& r matches Step::Done(Err(Error::Decode(DecodeError::Identifier)))
                    }
                },
                (Pending::WorkspaceList, Response::Workspaces(ws)) => {
                    &&& final(self).projects() == old(self).projects()
                    &&& if all_workspaces_readable(ws@) {
                        r matches Step::Done(Ok(Outcome::Workspaces(v))) && v@ == workspaces_of(ws@)
                    } else {
                        r matches Step::Done(Err(Error::Decode(DecodeError::Identifier)))
                    }
                },
                _ => {
                    &&& final(self).projects() == old(self).projects()
                    &&& r matches Step::Done(Err(Error::UnexpectedResponse))
                },
            },
    {
        match (pending, response) {
            (Pending::LatestEntries, Response::TimeEntries(entries)) => {
                self.assemble_batch(entries, Vec::new(), false, now)
            },
            (Pending::CreatedEntry, Response::TimeEntry(e)) => {
                let entries = single_entry(e);
                self.assemble_batch(entries, Vec::new(), true, now)
            },
            (Pending::StoppedEntry, Response::TimeEntry(e)) => {
                let entries = single_entry(e);
                self.assemble_batch(entries, Vec::new(), true, now)
            },
            (Pending::CurrentEntry, Response::CurrentEntry(None)) => {
                Step::Done(Ok(Outcome::Entry(None)))
            },
            (Pending::CurrentEntry, Response::CurrentEntry(Some(e))) => {
                Step::Send(
                    Request::StopTimeEntry { workspace_id: e.workspace_id, time_entry_id: e.id },
                    Pending::StoppedEntry,
                )
            },
            (Pending::ProjectsFor { entries, built, single }, Response::Projects(ps)) => {
                self.resume_batch(entries, built, single, ps, now)
            },
            (Pending::ProjectList(ws), Response::Projects(ps)) => {
                let ghost before = self.projects();
                match self.record_projects(ws, &ps) {
                    Ok(v) => Step::Done(Ok(Outcome::Projects(v))),
                    Err(e) => {
                        proof {
                            let j = choose|j: int|
                                0 <= j < ps.len() && project_of(ps@[j]) is None
                                    && all_projects_readable(ps@.take(j)) && self.projects()
                                    == record_all(before, ws, projects_of(ps@.take(j)));
                            lemma_record_all_keeps(before, ws, projects_of(ps@.take(j)));
                        }
                        Step::Done(Err(e))
                    },
                }
            },
            (Pending::WorkspaceList, Response::Workspaces(ws)) => {
                match read_workspaces(&ws) {
                    Ok(v) => Step::Done(Ok(Outcome::Workspaces(v))),
                    Err(e) => Step::Done(Err(e)),
                }
            },
            _ => Step::Done(Err(Error::UnexpectedResponse)),
        }
    }
}

fn single_entry(e: api::TimeEntry) -> (r: Vec<api::TimeEntry>)
    ensures
        r@ == seq![e],
{
    let mut r = Vec::new();
    r.push(e);
    assert(r@ =~= seq![e]);
    r
}

/// The workspaces that the records of `raw` stand for; fails at the first
/// whose id does not narrow.
fn read_workspaces(raw: &Vec<api::Workspace>) -> (r: Result<Vec<Workspace>, Error>)
    ensures
        r is Ok <==> all_workspaces_readable(raw@),
        r is Ok ==> r->Ok_0@ == workspaces_of(raw@),
        r is Err ==> r matches Err(Error::Decode(DecodeError::Identifier)),
{
    let mut out: Vec<Workspace> = Vec::new();
    let mut i: usize = 0;
    while i < raw.len()
        invariant
            i <= raw.len(),
            forall|k: int| 0 <= k < i ==> (#[trigger] workspace_of(raw@[k])) is Some,
            out@ == workspaces_of(raw@.take(i as int)),
        decreases raw.len() - i,
    {
        let w = &raw[i];
        let id = match w.id.as_i64() {
            Some(id) => id,
            None => return Err(Error::Decode(DecodeError::Identifier)),
        };
        out.push(Workspace { id, name: w.name.clone() });
        proof {
            assert(workspaces_of(raw@.take(i + 1)) =~= workspaces_of(raw@.take(i as int)).push(
                workspace_of(raw@[i as int])->0,
            ));
        }
        i = i + 1;
    }
    assert(raw@.take(raw.len() as int) == raw@);
    Ok(out)
}

// ---------------------------------------------------------------------------
// Laws
// ---------------------------------------------------------------------------

/// A duration of zero or more seconds decodes to itself, as a stopped entry,
/// whatever the current time.
pub proof fn lemma_completed_duration_is_verbatim(v: i64, now: Timestamp)
    requires
        v >= 0,
    ensures
        decoded_duration(now, WireNumber::from_i64_spec(v)) == Some(
            (v * nanos_per_second(), false),
        ),
{
}

/// A running entry that started at epoch second `e` has run for thirty
/// seconds when the current time is thirty seconds past `e`.
pub proof fn lemma_running_duration_is_elapsed_time(e: i64, now: Timestamp)
    requires
        0 < e <= MAX_EPOCH_SECONDS,
        now.total_nanos() == (e + 30) * nanos_per_second(),
    ensures
        decoded_duration(now, WireNumber::from_i64_spec((-e) as i64)) == Some(
            (30 * nanos_per_second(), true),
        ),
{
}

/// Projects listed for a workspace under ids not cached before and distinct
/// among themselves are cached under their own ids afterwards: an entry that
/// refers to one of them needs no further fetch, and resolves to it.
pub proof fn lemma_listed_projects_resolve_from_cache(
    m: Map<(i64, i64), Project>,
    ws: i64,
    listed: Seq<Project>,
)
    requires
        forall|i: int| 0 <= i < listed.len() ==> !m.dom().contains((ws, #[trigger] listed[i].id)),
        forall|i: int, j: int|
            0 <= i < j < listed.len() ==> #[trigger] listed[i].id != #[trigger] listed[j].id,
    ensures
        forall|i: int|
            0 <= i < listed.len() ==> record_all(m, ws, listed).dom().contains(
                (ws, #[trigger] listed[i].id),
            ) && record_all(m, ws, listed)[(ws, listed[i].id)] == listed[i],
        forall|raw: api::TimeEntry, i: int|
            0 <= i < listed.len() && ids_readable(raw) && workspace_of_entry(raw) == ws
                && project_id_of(raw) == Some(#[trigger] listed[i].id) ==> !#[trigger] fetch_needed(
                record_all(m, ws, listed),
                raw,
            ) && resolved_name(record_all(m, ws, listed), raw) == Some(listed[i].name),
    decreases listed.len(),
{
    lemma_record_all_covers(m, ws, listed);
    if listed.len() > 0 {
        let init = listed.drop_last();
        let last = listed.last();
        assert forall|i: int| 0 <= i < init.len() implies !m.dom().contains(
            (ws, #[trigger] init[i].id),
        ) by {
            assert(init[i] == listed[i]);
        }
        assert forall|i: int, j: int| 0 <= i < j < init.len() implies #[trigger] init[i].id
            != #[trigger] init[j].id by {
            assert(init[i] == listed[i] && init[j] == listed[j]);
        }
        lemma_listed_projects_resolve_from_cache(m, ws, init);
        lemma_record_all_covers(m, ws, init);
        let before = record_all(m, ws, init);
        assert(!before.dom().contains((ws, last.id))) by {
            if before.dom().contains((ws, last.id)) {
                let j = choose|j: int| 0 <= j < init.len() && init[j].id == last.id;
                assert(listed[j].id == listed[listed.len() - 1].id);
            }
        }
        assert forall|i: int| 0 <= i < listed.len() implies record_all(m, ws, listed).dom().contains(
            (ws, #[trigger] listed[i].id),
        ) && record_all(m, ws, listed)[(ws, listed[i].id)] == listed[i] by {
            if i < listed.len() - 1 {
                assert(init[i] == listed[i]);
                assert(listed[i].id != last.id);
            }
        }
    }
}

/// An id that a workspace's listing does not hold, and that was not cached
/// before, stays absent: an entry that refers to it gets no project name,
/// and this is no error.
pub proof fn lemma_unlisted_project_stays_absent(
    m: Map<(i64, i64), Project>,
    ws: i64,
    listed: Seq<Project>,
    raw: api::TimeEntry,
)
    requires
        ids_readable(raw),
        workspace_of_entry(raw) == ws,
        project_id_of(raw) is Some,
        !m.dom().contains((ws, project_id_of(raw).unwrap())),
        forall|i: int| 0 <= i < listed.len() ==> #[trigger] listed[i].id != project_id_of(raw).unwrap(),
    ensures
        resolved_name(record_all(m, ws, listed), raw) is None,
{
    lemma_record_all_covers(m, ws, listed);
}

/// An entry without a project id has no project name, whatever the cache.
pub proof fn lemma_no_project_id_no_name(
    e: TimeEntry,
    raw: api::TimeEntry,
    m: Map<(i64, i64), Project>,
    now: Timestamp,
)
    requires
        raw.project_id is None,
        built_from(e, raw, m, now),
    ensures
        e.project_name is None,
        e.project_id is None,
{
}

/// Listing a workspace's projects a second time changes no project cached by
/// the first listing (nor any cached before), and listing the same projects
/// again leaves the cache as it was.
pub proof fn lemma_listing_twice_is_write_once(
    m: Map<(i64, i64), Project>,
    ws: i64,
    first: Seq<Project>,
    second: Seq<Project>,
)
    ensures
        keeps_cached(m, record_all(m, ws, first)),
        keeps_cached(record_all(m, ws, first), record_all(record_all(m, ws, first), ws, second)),
        first == second ==> record_all(record_all(m, ws, first), ws, second) == record_all(
            m,
            ws,
            first,
        ),
{
    lemma_record_all_keeps(m, ws, first);
    lemma_record_all_keeps(record_all(m, ws, first), ws, second);
    if first == second {
        lemma_record_all_covers(m, ws, first);
        lemma_record_all_present(record_all(m, ws, first), ws, second);
    }
}

/// Recording projects that are all cached already leaves the cache as it was.
proof fn lemma_record_all_present(m: Map<(i64, i64), Project>, ws: i64, projects: Seq<Project>)
    requires
        forall|i: int| 0 <= i < projects.len() ==> m.dom().contains((ws, #[trigger] projects[i].id)),
    ensures
        record_all(m, ws, projects) == m,
    decreases projects.len(),
{
    if projects.len() > 0 {
        let init = projects.drop_last();
        assert forall|i: int| 0 <= i < init.len() implies m.dom().contains(
            (ws, #[trigger] init[i].id),
        ) by {
            assert(init[i] == projects[i]);
        }
        lemma_record_all_present(m, ws, init);
        assert(m.dom().contains((ws, projects[projects.len() - 1].id)));
    }
}

} // verus!
