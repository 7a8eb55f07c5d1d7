use tgl_cli::api::{self, WireNumber};
use tgl_cli::error;
use tgl_cli::svc::{
    assemble, Client, DecodeError, Error, Outcome, Pending, Project, Request, Response, Step,
    CREATED_WITH,
};
use tgl_cli::time::Timestamp;

fn at(seconds: i64) -> Timestamp {
    Timestamp::from_epoch_seconds(seconds).unwrap()
}

fn raw_entry(description: &str, duration: i64, workspace_id: i64, project_id: Option<i64>) -> api::TimeEntry {
    api::TimeEntry {
        description: Some(description.to_string()),
        duration: WireNumber::from(duration),
        id: WireNumber::from(77),
        project_id: project_id.map(WireNumber::from),
        start: None,
        stop: None,
        task_id: None,
        workspace_id: WireNumber::from(workspace_id),
    }
}

fn raw_project(id: i64, name: &str, workspace_id: i64) -> api::Project {
    api::Project {
        active: true,
        client_id: None,
        id: WireNumber::from(id),
        name: name.to_string(),
        workspace_id: WireNumber::from(workspace_id),
    }
}

/// A service that answers from fixed data and counts what it is asked.
struct FakeService {
    entries: Vec<api::TimeEntry>,
    current: Option<api::TimeEntry>,
    projects: Vec<(i64, Vec<api::Project>)>,
    workspaces: Vec<api::Workspace>,
    project_fetches: usize,
    stops: usize,
    created: Vec<api::NewTimeEntry>,
}

impl FakeService {
    fn new() -> FakeService {
        FakeService {
            entries: Vec::new(),
            current: None,
            projects: Vec::new(),
            workspaces: Vec::new(),
            project_fetches: 0,
            stops: 0,
            created: Vec::new(),
        }
    }

    fn answer(&mut self, request: Request) -> Response {
        match request {
            Request::TimeEntries => Response::TimeEntries(self.entries.clone()),
            Request::CurrentEntry => Response::CurrentEntry(self.current.clone()),
            Request::CreateTimeEntry(e) => {
                let reply = api::TimeEntry {
                    description: e.description.clone(),
                    duration: e.duration,
                    id: WireNumber::from(1),
                    project_id: e.project_id,
                    start: Some(e.start.clone()),
                    stop: None,
                    task_id: None,
                    workspace_id: e.workspace_id,
                };
                self.created.push(e);
                Response::TimeEntry(reply)
            }
            Request::StopTimeEntry { .. } => {
                self.stops += 1;
                let mut e = self.current.clone().unwrap();
                e.duration = WireNumber::from(60);
                e.stop = Some("2014-07-08T09:11:00Z".to_string());
                Response::TimeEntry(e)
            }
            Request::Projects(ws) => {
                self.project_fetches += 1;
                let ps = self
                    .projects
                    .iter()
                    .find(|(w, _)| *w == ws)
                    .map(|(_, ps)| ps.clone())
                    .unwrap_or_default();
                Response::Projects(ps)
            }
            Request::Workspaces => Response::Workspaces(self.workspaces.clone()),
        }
    }
}

fn run(client: &mut Client, first: Step, service: &mut FakeService, now: Timestamp) -> Result<Outcome, Error> {
    let mut step = first;
    loop {
        match step {
            Step::Send(request, pending) => {
                let response = service.answer(request);
                step = client.resume(pending, response, now);
            }
            Step::Done(result) => return result,
        }
    }
}

fn entries_of(outcome: Outcome) -> Vec<tgl_cli::svc::TimeEntry> {
    match outcome {
        Outcome::Entries(v) => v,
        other => panic!("unexpected outcome {:?}", other),
    }
}

fn projects_of(outcome: Outcome) -> Vec<Project> {
    match outcome {
        Outcome::Projects(v) => v,
        other => panic!("unexpected outcome {:?}", other),
    }
}

#[test]
fn end_to_end_running_entry_with_project() {
    let mut service = FakeService::new();
    service.entries = vec![raw_entry("A", -1000, 1, Some(5))];
    service.projects = vec![(1, vec![raw_project(5, "Proj", 1)])];
    let mut client = Client::new();
    let first = client.get_latest_entries();
    let entries = entries_of(run(&mut client, first, &mut service, at(1100)).unwrap());
    assert_eq!(1, entries.len());
    let e = &entries[0];
    assert_eq!(Some("A".to_string()), e.description);
    assert_eq!(100, e.duration.num_seconds());
    assert!(e.is_running);
    assert_eq!(Some("Proj".to_string()), e.project_name);
    assert_eq!(Some(5), e.project_id);
    assert_eq!(1, e.workspace_id);
    assert_eq!(1, service.project_fetches);
}

#[test]
fn listed_projects_resolve_without_another_fetch() {
    let mut service = FakeService::new();
    service.projects = vec![(3, vec![raw_project(10, "Alpha", 3), raw_project(11, "Beta", 3)])];
    service.entries = vec![
        raw_entry("x", 5, 3, Some(10)),
        raw_entry("y", 6, 3, Some(11)),
    ];
    let mut client = Client::new();
    let first = client.get_projects(3);
    let listed = projects_of(run(&mut client, first, &mut service, at(0)).unwrap());
    assert_eq!(2, listed.len());
    assert_eq!(1, service.project_fetches);
    assert_eq!("Alpha", client.cached_project(3, 10).unwrap().name);
    assert_eq!("Beta", client.cached_project(3, 11).unwrap().name);

    let first = client.get_latest_entries();
    let entries = entries_of(run(&mut client, first, &mut service, at(0)).unwrap());
    assert_eq!(1, service.project_fetches);
    assert_eq!(Some("Alpha".to_string()), entries[0].project_name);
    assert_eq!(Some("Beta".to_string()), entries[1].project_name);
}

#[test]
fn unknown_project_resolves_to_absent() {
    let mut service = FakeService::new();
    service.projects = vec![(3, vec![raw_project(10, "Alpha", 3)])];
    service.entries = vec![raw_entry("x", 5, 3, Some(99))];
    let mut client = Client::new();
    let first = client.get_latest_entries();
    let entries = entries_of(run(&mut client, first, &mut service, at(0)).unwrap());
    assert_eq!(1, service.project_fetches);
    assert_eq!(1, entries.len());
    assert_eq!(None, entries[0].project_name);
    assert_eq!(Some(99), entries[0].project_id);
    assert!(client.cached_project(3, 99).is_none());
    assert!(client.cached_project(3, 10).is_some());
}

#[test]
fn entry_without_project_has_no_project_name() {
    let mut client = Client::new();
    let mut service = FakeService::new();
    service.projects = vec![(3, vec![raw_project(10, "Alpha", 3)])];
    let first = client.get_projects(3);
    run(&mut client, first, &mut service, at(0)).unwrap();

    service.entries = vec![raw_entry("x", 5, 3, None)];
    let first = client.get_latest_entries();
    let entries = entries_of(run(&mut client, first, &mut service, at(0)).unwrap());
    assert_eq!(None, entries[0].project_name);
    assert_eq!(None, entries[0].project_id);
    assert_eq!(1, service.project_fetches);

    let p = Project { active: true, id: 10, name: "Alpha".to_string() };
    let e = assemble(&raw_entry("x", 5, 3, None), Some(&p), at(0)).unwrap();
    assert_eq!(None, e.project_name);
}

#[test]
fn listing_projects_twice_keeps_the_first_values() {
    let mut service = FakeService::new();
    service.projects = vec![(3, vec![raw_project(10, "Alpha", 3), raw_project(11, "Beta", 3)])];
    let mut client = Client::new();
    let first = client.get_projects(3);
    let a = projects_of(run(&mut client, first, &mut service, at(0)).unwrap());

    service.projects = vec![(3, vec![raw_project(11, "Beta renamed", 3), raw_project(10, "Alpha", 3)])];
    let first = client.get_projects(3);
    let b = projects_of(run(&mut client, first, &mut service, at(0)).unwrap());
    assert_eq!(2, a.len());
    assert_eq!(2, b.len());
    assert_eq!("Beta renamed", b[0].name);
    assert_eq!(11, b[0].id);
    assert_eq!("Beta", client.cached_project(3, 11).unwrap().name);
    assert_eq!("Alpha", client.cached_project(3, 10).unwrap().name);
    assert_eq!(2, service.project_fetches);
}

#[test]
fn stop_without_running_entry_is_absent() {
    let mut service = FakeService::new();
    let mut client = Client::new();
    let first = client.stop_current_time_entry();
    let outcome = run(&mut client, first, &mut service, at(0)).unwrap();
    assert!(matches!(outcome, Outcome::Entry(None)));
    assert_eq!(0, service.stops);
}

#[test]
fn stop_running_entry() {
    let mut service = FakeService::new();
    let mut current = raw_entry("work", -1404810600, 2, None);
    current.start = Some("2014-07-08T09:10:00Z".to_string());
    service.current = Some(current);
    let mut client = Client::new();
    let first = client.stop_current_time_entry();
    let outcome = run(&mut client, first, &mut service, at(1404810660)).unwrap();
    assert_eq!(1, service.stops);
    match outcome {
        Outcome::Entry(Some(e)) => {
            assert!(!e.is_running);
            assert_eq!(60, e.duration.num_seconds());
            assert_eq!(1404810600, e.start.unwrap().seconds());
            assert_eq!(1404810660, e.stop.unwrap().seconds());
        }
        other => panic!("unexpected outcome {:?}", other),
    }
}

#[test]
fn start_entry_encodes_now() {
    let mut service = FakeService::new();
    service.projects = vec![(4, vec![raw_project(8, "Eight", 4)])];
    let mut client = Client::new();
    let now = at(1404810630);
    let first = client.start_time_entry(4, Some(8), Some("writing"), now);
    let outcome = run(&mut client, first, &mut service, now).unwrap();
    let sent = &service.created[0];
    assert_eq!(CREATED_WITH, sent.created_with);
    assert_eq!(WireNumber::NegInt(-1404810630), sent.duration);
    assert_eq!("2014-07-08T09:10:30+00:00", sent.start);
    assert_eq!(Some("writing".to_string()), sent.description);
    assert_eq!(Some(WireNumber::PosInt(8)), sent.project_id);
    assert_eq!(WireNumber::PosInt(4), sent.workspace_id);
    assert!(sent.stop.is_none());
    assert!(sent.task_id.is_none());
    match outcome {
        Outcome::Entry(Some(e)) => {
            assert!(e.is_running);
            assert_eq!(0, e.duration.num_seconds());
            assert_eq!(Some("Eight".to_string()), e.project_name);
            assert_eq!(Some(now), e.start);
        }
        other => panic!("unexpected outcome {:?}", other),
    }
}

#[test]
fn start_entry_without_project_or_description() {
    let client = Client::new();
    match client.start_time_entry(4, None, None, at(10)) {
        Step::Send(Request::CreateTimeEntry(e), Pending::CreatedEntry) => {
            assert!(e.project_id.is_none());
            assert!(e.description.is_none());
            assert_eq!(WireNumber::NegInt(-10), e.duration);
        }
        other => panic!("unexpected step {:?}", other),
    }
}

#[test]
fn batch_fails_fast_on_bad_identifier() {
    let mut service = FakeService::new();
    let mut bad = raw_entry("bad", 5, 1, None);
    bad.workspace_id = WireNumber::Float(1.5f64.to_bits());
    service.entries = vec![raw_entry("good", 5, 1, None), bad, raw_entry("never", 5, 1, Some(3))];
    let mut client = Client::new();
    let first = client.get_latest_entries();
    let r = run(&mut client, first, &mut service, at(0));
    assert!(matches!(r, Err(Error::Decode(DecodeError::Identifier))));
    assert_eq!(0, service.project_fetches);
}

#[test]
fn bad_duration_is_a_decode_error() {
    let raw = raw_entry("x", 0, 1, None);
    let mut raw = raw;
    raw.duration = WireNumber::PosInt(u64::MAX);
    assert!(matches!(
        assemble(&raw, None, at(0)),
        Err(Error::Decode(DecodeError::Duration))
    ));
}

#[test]
fn bad_project_id_is_a_decode_error() {
    let mut raw = raw_entry("x", 0, 1, None);
    raw.project_id = Some(WireNumber::PosInt(u64::MAX));
    assert!(matches!(
        assemble(&raw, None, at(0)),
        Err(Error::Decode(DecodeError::Identifier))
    ));
}

#[test]
fn bad_timestamps_are_parse_errors() {
    let mut raw = raw_entry("x", 0, 1, None);
    raw.start = Some("not a time".to_string());
    assert!(matches!(assemble(&raw, None, at(0)), Err(Error::ChronoParse(_))));
    let mut raw = raw_entry("x", 0, 1, None);
    raw.stop = Some("2014-07-08 nonsense".to_string());
    assert!(matches!(assemble(&raw, None, at(0)), Err(Error::ChronoParse(_))));
}

#[test]
fn bad_project_record_is_a_decode_error() {
    let mut service = FakeService::new();
    let mut odd = raw_project(12, "Odd", 3);
    odd.id = WireNumber::Float(0.5f64.to_bits());
    service.projects = vec![(3, vec![raw_project(10, "Alpha", 3), odd])];
    let mut client = Client::new();
    let first = client.get_projects(3);
    let r = run(&mut client, first, &mut service, at(0));
    assert!(matches!(r, Err(Error::Decode(DecodeError::Identifier))));
    assert_eq!("Alpha", client.cached_project(3, 10).unwrap().name);
}

#[test]
fn workspaces_are_listed() {
    let mut service = FakeService::new();
    service.workspaces = vec![
        api::Workspace { id: WireNumber::from(1), name: "Home".to_string() },
        api::Workspace { id: WireNumber::from(2), name: "Work".to_string() },
    ];
    let mut client = Client::new();
    let first = client.get_workspaces();
    match run(&mut client, first, &mut service, at(0)).unwrap() {
        Outcome::Workspaces(v) => {
            assert_eq!(2, v.len());
            assert_eq!(2, v[1].id);
            assert_eq!("Work", v[1].name);
        }
        other => panic!("unexpected outcome {:?}", other),
    }
    service.workspaces.push(api::Workspace { id: WireNumber::NegInt(-1), name: "x".to_string() });
    service.workspaces.push(api::Workspace { id: WireNumber::PosInt(u64::MAX), name: "y".to_string() });
    let first = client.get_workspaces();
    let r = run(&mut client, first, &mut service, at(0));
    assert!(matches!(r, Err(Error::Decode(DecodeError::Identifier))));
}

#[test]
fn mismatched_response_is_refused() {
    let mut client = Client::new();
    let step = client.resume(Pending::LatestEntries, Response::Workspaces(Vec::new()), at(0));
    assert!(matches!(step, Step::Done(Err(Error::UnexpectedResponse))));
    let step = client.resume(
        Pending::ProjectsFor { entries: Vec::new(), built: Vec::new(), single: false },
        Response::Projects(Vec::new()),
        at(0),
    );
    assert!(matches!(step, Step::Done(Err(Error::UnexpectedResponse))));
}

#[test]
fn command_error_message() {
    let e = error::Error::new("boom".to_string());
    assert_eq!("boom", e.to_string());
    let f: error::Error = "bang".into();
    assert_eq!("bang", f.message);
    let g = error::Error::from("pow".to_string());
    assert_eq!("pow", g.message);
}
