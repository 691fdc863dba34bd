use gitbutler::handlers::{conclude, next_step, Action, Context, Event, Handler};

type Ev = Event<u64, String, String, u8>;

#[test]
fn file_change_goes_to_the_file_handler() {
    let h = Handler::new("p1".to_string());
    let event: Ev = Event::FileChange("a.txt".to_string());
    let steps = h.handle(&event);
    assert_eq!(steps.len(), 1);
    assert!(matches!(steps[0].action, Action::HandleFileChange(p) if p == "a.txt"));
    assert_eq!(steps[0].context, Some(Context::FileChangeEvent));
    assert!(steps[0].keeps_events);
}

#[test]
fn tick_runs_both_checks_and_joins_results() {
    let h = Handler::new("p1".to_string());
    let event: Ev = Event::Tick(42);
    let steps = h.handle(&event);
    assert_eq!(steps.len(), 2);
    assert!(matches!(steps[0].action, Action::CheckCurrentSession(t) if *t == 42));
    assert!(matches!(steps[1].action, Action::CheckFetchProject(t) if *t == 42));
    let outcomes: Vec<Result<Vec<u32>, String>> = vec![Ok(vec![1, 2]), Ok(vec![3])];
    assert_eq!(conclude(&steps, outcomes), Ok(vec![1, 2, 3]));
}

#[test]
fn tick_failure_in_second_check_is_reported() {
    let h = Handler::new("p1".to_string());
    let event: Ev = Event::Tick(1);
    let steps = h.handle(&event);
    let outcomes: Vec<Result<Vec<u32>, String>> = vec![Ok(vec![1]), Err("boom".to_string())];
    assert_eq!(conclude(&steps, outcomes), Err((1, "boom".to_string())));
    assert_eq!(steps[1].context, Some(Context::TickEvent));
}

#[test]
fn notifications_name_the_project_and_yield_nothing() {
    let h = Handler::new("proj".to_string());
    let event: Ev = Event::GitHeadChange("refs/heads/main".to_string());
    let steps = h.handle(&event);
    assert_eq!(steps.len(), 1);
    assert!(matches!(steps[0].action, Action::SendGitHead(id, head) if id == "proj" && head == "refs/heads/main"));
    let outcomes: Vec<Result<Vec<u32>, String>> = vec![Ok(vec![])];
    assert_eq!(conclude(&steps, outcomes), Ok(vec![]));
}

#[test]
fn session_is_indexed_then_sent() {
    let h = Handler::new("proj".to_string());
    let event: Ev = Event::Session("s1".to_string());
    let steps = h.handle(&event);
    assert_eq!(steps.len(), 2);
    assert!(matches!(steps[0].action, Action::IndexSession(s) if s == "s1"));
    assert!(matches!(steps[1].action, Action::SendSession(id, s) if id == "proj" && s == "s1"));
    assert_eq!(steps[0].context, Some(Context::IndexSession));
    assert_eq!(steps[1].context, Some(Context::SendSession));
    // Indexing's own events are not part of the result.
    let outcomes: Vec<Result<Vec<u32>, String>> = vec![Ok(vec![9]), Ok(vec![])];
    assert_eq!(conclude(&steps, outcomes), Ok(vec![]));
}

#[test]
fn deltas_are_indexed_then_sent() {
    let h = Handler::new("proj".to_string());
    let event: Ev = Event::Deltas(("s".to_string(), "f.rs".to_string(), vec![1, 2]));
    let steps = h.handle(&event);
    assert_eq!(steps.len(), 2);
    assert!(matches!(steps[0].action, Action::IndexDeltas(s, p, d) if s == "s" && p == "f.rs" && *d == vec![1, 2]));
    assert!(matches!(steps[1].action, Action::SendDeltas(id, s, d, p) if id == "proj" && s == "s" && *d == vec![1, 2] && p == "f.rs"));
}

#[test]
fn session_flushed_and_fetch_have_no_context() {
    let h = Handler::new("proj".to_string());
    let flushed: Ev = Event::SessionFlushed("s".to_string());
    let steps = h.handle(&flushed);
    assert!(matches!(steps[0].action, Action::IndexSession(_)));
    assert_eq!(steps[0].context, None);
    assert!(steps[0].keeps_events);
    let fetch: Ev = Event::Fetch;
    let steps = h.handle(&fetch);
    assert!(matches!(steps[0].action, Action::FetchProject));
    assert_eq!(steps[0].context, None);
}

#[test]
fn file_event_is_indexed_and_returns_index_events() {
    let h = Handler::new("proj".to_string());
    let event: Ev = Event::File(("s".to_string(), "a.md".to_string(), "text".to_string()));
    let steps = h.handle(&event);
    assert!(matches!(steps[0].action, Action::IndexFile(s, p, c) if s == "s" && p == "a.md" && c == "text"));
    let outcomes: Vec<Result<Vec<u32>, String>> = vec![Ok(vec![4])];
    assert_eq!(conclude(&steps, outcomes), Ok(vec![4]));
}

#[test]
fn first_failure_stops_and_is_reported() {
    let h = Handler::new("proj".to_string());
    let event: Ev = Event::Session("s".to_string());
    let steps = h.handle(&event);
    let outcomes: Vec<Result<Vec<u32>, String>> = vec![Err("index".to_string())];
    assert_eq!(conclude(&steps, outcomes), Err((0, "index".to_string())));
}

#[test]
fn other_routes() {
    let h = Handler::new("proj".to_string());
    let e: Ev = Event::ProjectFileChange("p".to_string());
    assert!(matches!(h.handle(&e)[0].action, Action::HandleProjectFileChange(_)));
    let e: Ev = Event::GitFileChange("HEAD".to_string());
    assert_eq!(h.handle(&e)[0].context, Some(Context::GitFileChangeEvent));
    let e: Ev = Event::GitIndexChange;
    assert!(matches!(h.handle(&e)[0].action, Action::SendGitIndex(id) if id == "proj"));
    let e: Ev = Event::GitActivity;
    assert!(matches!(h.handle(&e)[0].action, Action::SendGitActivity(id) if id == "proj"));
    let e: Ev = Event::Flush("s".to_string());
    assert_eq!(h.handle(&e)[0].context, Some(Context::FlushSessionEvent));
}

#[test]
fn next_step_runs_steps_in_order_until_done() {
    let h = Handler::new("p".to_string());
    let event: Ev = Event::Tick(3);
    let steps = h.handle(&event);
    let mut outcomes: Vec<Result<Vec<u32>, String>> = vec![];
    assert_eq!(next_step(&steps, &outcomes), Some(0));
    outcomes.push(Ok(vec![1]));
    assert_eq!(next_step(&steps, &outcomes), Some(1));
    outcomes.push(Ok(vec![2]));
    assert_eq!(next_step(&steps, &outcomes), None);
}

#[test]
fn failed_session_check_stops_the_tick() {
    let h = Handler::new("p".to_string());
    let event: Ev = Event::Tick(3);
    let steps = h.handle(&event);
    let outcomes: Vec<Result<Vec<u32>, String>> = vec![Err("session".to_string())];
    assert_eq!(next_step(&steps, &outcomes), None);
    assert_eq!(conclude(&steps, outcomes), Err((0, "session".to_string())));
    assert_eq!(steps[0].context, Some(Context::TickEvent));
}

#[test]
fn failed_indexing_stops_before_sending() {
    let h = Handler::new("p".to_string());
    let session: Ev = Event::Session("s".to_string());
    let steps = h.handle(&session);
    let outcomes: Vec<Result<Vec<u32>, String>> = vec![Err("index".to_string())];
    assert_eq!(next_step(&steps, &outcomes), None);
    let deltas: Ev = Event::Deltas(("s".to_string(), "f".to_string(), vec![]));
    let steps = h.handle(&deltas);
    assert_eq!(next_step(&steps, &outcomes), None);
    assert_eq!(conclude(&steps, outcomes), Err((0, "index".to_string())));
}

#[test]
fn context_messages() {
    assert_eq!(Context::TickEvent.message(), "failed to handle tick event");
    assert_eq!(Context::IndexSession.message(), "failed to index session");
    assert_eq!(Context::SendDeltas.message(), "failed to send deltas event");
    assert_eq!(Context::FileChangeEvent.message(), "failed to handle file change event");
    assert!(Context::FileChangeEvent.names_path());
    assert!(Context::ProjectFileChangeEvent.names_path());
    assert!(!Context::GitFileChangeEvent.names_path());
}
