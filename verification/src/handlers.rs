use vstd::prelude::*;

verus! {

/// What the project watcher reports. `T` is the time of a tick, `P` a file
/// path, `S` a recording session and `D` a recorded change of a file.
pub enum Event<T, P, S, D> {
    Tick(T),
    Flush(S),
    SessionFlushed(S),
    Fetch,
    FileChange(P),
    GitFileChange(P),
    GitIndexChange,
    GitActivity,
    GitHeadChange(String),
    ProjectFileChange(P),
    Session(S),
    File((S, P, String)),
    Deltas((S, P, Vec<D>)),
}

/// One piece of work that handling an event asks for, borrowing its inputs
/// from the event and the handler.
pub enum Action<'a, T, P, S, D> {
    /// Hand a changed file to the file-change handler.
    HandleFileChange(&'a P),
    /// Hand a changed project file to the project-file handler.
    HandleProjectFileChange(&'a P),
    /// Hand a changed file under the git directory to the git-file handler.
    HandleGitFileChange(&'a P),
    /// Let the current-session check look at a tick.
    CheckCurrentSession(&'a T),
    /// Let the fetch check look at a tick.
    CheckFetchProject(&'a T),
    /// Flush a session.
    FlushSession(&'a S),
    /// Index a session for search.
    IndexSession(&'a S),
    /// Fetch the project.
    FetchProject,
    /// Index a file of a session (by the session's id) for search.
    IndexFile(&'a S, &'a P, &'a String),
    /// Index the changes of a file of a session (by the session's id) for search.
    IndexDeltas(&'a S, &'a P, &'a Vec<D>),
    /// Tell the application that the project's git activity changed.
    SendGitActivity(&'a String),
    /// Tell the application that the project's git head changed.
    SendGitHead(&'a String, &'a String),
    /// Tell the application that the project's git index changed.
    SendGitIndex(&'a String),
    /// Tell the application about a session of the project.
    SendSession(&'a String, &'a S),
    /// Tell the application about changes to a file of a session of the project.
    SendDeltas(&'a String, &'a S, &'a Vec<D>, &'a P),
}

/// The explanation that is attached to the error of a failed step.
#[derive(Clone, Copy, Debug, PartialEq, Eq, Structural)]
pub enum Context {
    /// "failed to handle file change event: " and the path.
    FileChangeEvent,
    /// "failed to handle project file change event: " and the path.
    ProjectFileChangeEvent,
    /// "failed to handle git file change event".
    GitFileChangeEvent,
    /// "failed to send git activity event".
    SendGitActivity,
    /// "failed to send git head event".
    SendGitHead,
    /// "failed to send git index event".
    SendGitIndex,
    /// "failed to handle tick event".
    TickEvent,
    /// "failed to handle flush session event".
    FlushSessionEvent,
    /// "failed to index file".
    IndexFile,
    /// "failed to index session".
    IndexSession,
    /// "failed to send session event".
    SendSession,
    /// "failed to index deltas".
    IndexDeltas,
    /// "failed to send deltas event".
    SendDeltas,
}

/// The text of an explanation. For a changed file or project file, the
/// explanation is this text followed by ": " and the file's path.
pub open spec fn context_text(c: Context) -> Seq<char> {
    match c {
        Context::FileChangeEvent => "failed to handle file change event"@,
        Context::ProjectFileChangeEvent => "failed to handle project file change event"@,
        Context::GitFileChangeEvent => "failed to handle git file change event"@,
        Context::SendGitActivity => "failed to send git activity event"@,
        Context::SendGitHead => "failed to send git head event"@,
        Context::SendGitIndex => "failed to send git index event"@,
        Context::TickEvent => "failed to handle tick event"@,
        Context::FlushSessionEvent => "failed to handle flush session event"@,
        Context::IndexFile => "failed to index file"@,
        Context::IndexSession => "failed to index session"@,
        Context::SendSession => "failed to send session event"@,
        Context::IndexDeltas => "failed to index deltas"@,
        Context::SendDeltas => "failed to send deltas event"@,
    }
}

impl Context {
    /// Whether the explanation ends with the path of the changed file.
    pub fn names_path(&self) -> (r: bool)
        ensures
            r == (*self == Context::FileChangeEvent || *self == Context::ProjectFileChangeEvent),
    {
        match self {
            Context::FileChangeEvent | Context::ProjectFileChangeEvent => true,
            _ => false,
        }
    }

    /// The text of the explanation.
    pub fn message(&self) -> (r: String)
        ensures
            r@ == context_text(*self),
    {
        match self {
            Context::FileChangeEvent => String::from_str("failed to handle file change event"),
            Context::ProjectFileChangeEvent => String::from_str("failed to handle project file change event"),
            Context::GitFileChangeEvent => String::from_str("failed to handle git file change event"),
            Context::SendGitActivity => String::from_str("failed to send git activity event"),
            Context::SendGitHead => String::from_str("failed to send git head event"),
            Context::SendGitIndex => String::from_str("failed to send git index event"),
            Context::TickEvent => String::from_str("failed to handle tick event"),
            Context::FlushSessionEvent => String::from_str("failed to handle flush session event"),
            Context::IndexFile => String::from_str("failed to index file"),
            Context::IndexSession => String::from_str("failed to index session"),
            Context::SendSession => String::from_str("failed to send session event"),
            Context::IndexDeltas => String::from_str("failed to index deltas"),
            Context::SendDeltas => String::from_str("failed to send deltas event"),
        }
    }
}

/// The position of the next step to run, given the outcomes of the steps run
/// so far: none once a step has failed or every step has run.
pub open spec fn next_step_after<E, X>(step_count: int, outcomes: Seq<Result<Vec<E>, X>>) -> Option<int>
{
    if outcomes.len() < step_count && all_succeeded(outcomes) {
        Some(outcomes.len() as int)
    } else {
        None
    }
}

/// A step of handling an event: the work, the explanation attached to its
/// error (none for some), and whether the events it yields are part of the
/// handler's result.
pub struct Step<'a, T, P, S, D> {
    pub action: Action<'a, T, P, S, D>,
    pub context: Option<Context>,
    pub keeps_events: bool,
}

/// The handler of one project's watcher events.
pub struct Handler {
    project_id: String,
}

/// A step whose events make up the handler's result.
pub open spec fn kept<'a, T, P, S, D>(action: Action<'a, T, P, S, D>, context: Option<Context>) -> Step<
    'a,
    T,
    P,
    S,
    D,
> {
    Step { action, context, keeps_events: true }
}

/// A step that yields no events of the handler's result.
pub open spec fn done<'a, T, P, S, D>(action: Action<'a, T, P, S, D>, context: Context) -> Step<
    'a,
    T,
    P,
    S,
    D,
> {
    Step { action, context: Some(context), keeps_events: false }
}

/// The steps that handling `event` takes, in order, for the project `project_id`.
pub open spec fn event_steps<'a, T, P, S, D>(
    project_id: &'a String,
    event: &'a Event<T, P, S, D>,
) -> Seq<Step<'a, T, P, S, D>> {
    match event {
        Event::FileChange(path) => seq![
            kept(Action::HandleFileChange(path), Some(Context::FileChangeEvent)),
        ],
        Event::ProjectFileChange(path) => seq![
            kept(Action::HandleProjectFileChange(path), Some(Context::ProjectFileChangeEvent)),
        ],
        Event::GitFileChange(path) => seq![
            kept(Action::HandleGitFileChange(path), Some(Context::GitFileChangeEvent)),
        ],
        Event::GitActivity => seq![done(Action::SendGitActivity(project_id), Context::SendGitActivity)],
        Event::GitHeadChange(head) => seq![
            done(Action::SendGitHead(project_id, head), Context::SendGitHead),
        ],
        Event::GitIndexChange => seq![done(Action::SendGitIndex(project_id), Context::SendGitIndex)],
        Event::Tick(tick) => seq![
            kept(Action::CheckCurrentSession(tick), Some(Context::TickEvent)),
            kept(Action::CheckFetchProject(tick), Some(Context::TickEvent)),
        ],
        Event::Flush(session) => seq![
            kept(Action::FlushSession(session), Some(Context::FlushSessionEvent)),
        ],
        Event::SessionFlushed(session) => seq![kept(Action::IndexSession(session), None)],
        Event::Fetch => seq![kept(Action::FetchProject, None)],
        Event::File(file) => seq![
            kept(Action::IndexFile(&file.0, &file.1, &file.2), Some(Context::IndexFile)),
        ],
        Event::Session(session) => seq![
            done(Action::IndexSession(session), Context::IndexSession),
            done(Action::SendSession(project_id, session), Context::SendSession),
        ],
        Event::Deltas(deltas) => seq![
            done(Action::IndexDeltas(&deltas.0, &deltas.1, &deltas.2), Context::IndexDeltas),
            done(
                Action::SendDeltas(project_id, &deltas.0, &deltas.2, &deltas.1),
                Context::SendDeltas,
            ),
        ],
    }
}


/// Whether each step's events make up the handler's result.
pub open spec fn step_keeps<'a, T, P, S, D>(steps: Seq<Step<'a, T, P, S, D>>) -> Seq<bool> {
    steps.map_values(|s: Step<'a, T, P, S, D>| s.keeps_events)
}

/// The result of handling an event from the outcomes of the steps that ran,
/// in order: the first failure, with the position of its step; otherwise the
/// events of the steps that keep theirs, in order.
pub open spec fn concluded<E, X>(keeps: Seq<bool>, outcomes: Seq<Result<Vec<E>, X>>) -> Result<
    Seq<E>,
    (int, X),
>
    decreases outcomes.len(),
{
    if outcomes.len() == 0 {
        Ok(Seq::empty())
    } else {
        let n = outcomes.len() - 1;
        match concluded(keeps, outcomes.drop_last()) {
            Err(e) => Err(e),
            Ok(events) => match outcomes[n] {
                Ok(v) => Ok(
                    if keeps[n] {
                        events + v@
                    } else {
                        events
                    },
                ),
                Err(x) => Err((n, x)),
            },
        }
    }
}

/// Combines the outcomes of the steps that ran, in order, into the handler's
/// result; a failure names the position of its step, whose context explains it.
pub fn conclude<'a, T, P, S, D, E, X>(
    steps: &Vec<Step<'a, T, P, S, D>>,
    outcomes: Vec<Result<Vec<E>, X>>,
) -> (r: Result<Vec<E>, (usize, X)>)
    requires
        outcomes@.len() <= steps@.len(),
    ensures
        match r {
            Ok(events) => concluded(step_keeps(steps@), outcomes@) == Ok::<Seq<E>, (int, X)>(events@),
            Err((i, x)) => concluded(step_keeps(steps@), outcomes@) == Err::<Seq<E>, (int, X)>((i as int, x)),
        },
{
    let ghost all = outcomes@;
    let total = outcomes.len();
    let ghost keeps = step_keeps(steps@);
    let mut rest = outcomes;
    let mut reversed: Vec<Result<Vec<E>, X>> = Vec::new();
    while rest.len() > 0
        invariant
            reversed@.len() + rest@.len() == all.len(),
            rest@ == all.take(rest@.len() as int),
            forall|k: int| 0 <= k < reversed@.len() ==> reversed@[k] == all[all.len() - 1 - k],
        decreases rest@.len(),
    {
        let x = rest.pop().unwrap();
        reversed.push(x);
    }
    let mut events: Vec<E> = Vec::new();
    let mut i: usize = 0;
    while reversed.len() > 0
        invariant
            all.len() <= steps@.len(),
            all == outcomes@,
            total == all.len(),
            keeps == step_keeps(steps@),
            i + reversed@.len() == all.len(),
            forall|k: int| 0 <= k < reversed@.len() ==> reversed@[k] == all[all.len() - 1 - k],
            concluded(keeps, all.take(i as int)) == Ok::<Seq<E>, (int, X)>(events@),
        decreases reversed@.len(),
    {
        let x = reversed.pop().unwrap();
        proof {
            assert(all.take(i + 1).drop_last() =~= all.take(i as int));
            assert(all.take(i + 1)[i as int] == x);
        }
        match x {
            Ok(v) => {
                let mut v = v;
                if steps[i].keeps_events {
                    events.append(&mut v);
                }
            },
            Err(e) => {
                proof {
                    assert(concluded(keeps, all.take(i + 1)) == Err::<Seq<E>, (int, X)>((i as int, e)));
                    lemma_concluded_prefix_err(keeps, all, i as int + 1);
                }
                return Err((i, e));
            },
        }
        i = i + 1;
    }
    proof {
        assert(all.take(all.len() as int) =~= all);
    }
    Ok(events)
}

/// Once a prefix of the outcomes fails, so does the whole, with the same failure.
proof fn lemma_concluded_prefix_err<E, X>(keeps: Seq<bool>, all: Seq<Result<Vec<E>, X>>, n: int)
    requires
        0 <= n <= all.len(),
        concluded(keeps, all.take(n)) is Err,
    ensures
        concluded(keeps, all) == concluded(keeps, all.take(n)),
    decreases all.len() - n,
{
    if n < all.len() {
        assert(all.take(n + 1).drop_last() =~= all.take(n));
        lemma_concluded_prefix_err(keeps, all, n + 1);
    } else {
        assert(all.take(n) =~= all);
    }
}

/// Whether an event only notifies the application: git activity, a new git
/// head, a changed git index, a session or the changes of a file.
pub open spec fn is_notification<T, P, S, D>(event: &Event<T, P, S, D>) -> bool {
    match event {
        Event::GitActivity | Event::GitHeadChange(_) | Event::GitIndexChange | Event::Session(_)
        | Event::Deltas(_) => true,
        _ => false,
    }
}

/// Whether an event is handed to exactly one handler whose result is the result
/// of handling it.
pub open spec fn is_delegated<T, P, S, D>(event: &Event<T, P, S, D>) -> bool {
    match event {
        Event::FileChange(_) | Event::ProjectFileChange(_) | Event::GitFileChange(_) | Event::Flush(_)
        | Event::SessionFlushed(_) | Event::Fetch | Event::File(_) => true,
        _ => false,
    }
}

/// Whether every outcome succeeded.
pub open spec fn all_succeeded<E, X>(outcomes: Seq<Result<Vec<E>, X>>) -> bool {
    forall|j: int| 0 <= j < outcomes.len() ==> #[trigger] outcomes[j] is Ok
}

/// Handling fails exactly when a step fails, and the failure reported is that
/// of the first failed step, at its position.
pub proof fn law_first_failure_is_reported<E, X>(
    keeps: Seq<bool>,
    outcomes: Seq<Result<Vec<E>, X>>,
    k: int,
    x: X,
)
    ensures
        concluded(keeps, outcomes) == Err::<Seq<E>, (int, X)>((k, x)) <==> (0 <= k < outcomes.len()
            && outcomes[k] == Err::<Vec<E>, X>(x) && all_succeeded(outcomes.take(k))),
        concluded(keeps, outcomes) is Ok <==> all_succeeded(outcomes),
    decreases outcomes.len(),
{
    if outcomes.len() > 0 {
        let n = outcomes.len() - 1;
        let pre = outcomes.drop_last();
        law_first_failure_is_reported(keeps, pre, k, x);
        assert(outcomes.take(n) =~= pre);
        if 0 <= k < n {
            assert(outcomes.take(k) =~= pre.take(k));
        }
        assert forall|j: int| 0 <= j < n implies #[trigger] outcomes[j] == pre[j] by {}
        if all_succeeded(pre) && outcomes[n] is Ok {
            assert forall|j: int| 0 <= j < outcomes.len() implies #[trigger] outcomes[j] is Ok by {
                if j < n {
                    assert(pre[j] is Ok);
                }
            }
        }
        if all_succeeded(outcomes) {
            assert forall|j: int| 0 <= j < pre.len() implies #[trigger] pre[j] is Ok by {
                assert(outcomes[j] is Ok);
            }
        }
    }
}

/// When every step succeeds and no step keeps its events, the result is empty.
proof fn lemma_nothing_kept<E, X>(keeps: Seq<bool>, outcomes: Seq<Result<Vec<E>, X>>)
    requires
        all_succeeded(outcomes),
        outcomes.len() <= keeps.len(),
        forall|j: int| 0 <= j < keeps.len() ==> !#[trigger] keeps[j],
    ensures
        concluded(keeps, outcomes) == Ok::<Seq<E>, (int, X)>(Seq::empty()),
    decreases outcomes.len(),
{
    if outcomes.len() > 0 {
        let pre = outcomes.drop_last();
        assert(outcomes[outcomes.len() - 1] is Ok);
        assert forall|j: int| 0 <= j < pre.len() implies #[trigger] pre[j] is Ok by {
            assert(outcomes[j] is Ok);
        }
        lemma_nothing_kept(keeps, pre);
    }
}

/// An event that only notifies the application yields no follow-up events when
/// all its steps succeed.
pub proof fn law_notifications_yield_no_events<T, P, S, D, E, X>(
    project_id: &String,
    event: &Event<T, P, S, D>,
    outcomes: Seq<Result<Vec<E>, X>>,
)
    requires
        is_notification(event),
        outcomes.len() == event_steps(project_id, event).len(),
        all_succeeded(outcomes),
    ensures
        concluded(step_keeps(event_steps(project_id, event)), outcomes) == Ok::<Seq<E>, (int, X)>(
            Seq::empty(),
        ),
{
    let keeps = step_keeps(event_steps(project_id, event));
    assert forall|j: int| 0 <= j < keeps.len() implies !#[trigger] keeps[j] by {}
    lemma_nothing_kept(keeps, outcomes);
}

/// Every notification that handling an event sends names the handler's project.
pub proof fn law_notifications_name_the_project<T, P, S, D>(
    project_id: &String,
    event: &Event<T, P, S, D>,
    i: int,
)
    requires
        0 <= i < event_steps(project_id, event).len(),
    ensures
        match event_steps(project_id, event)[i].action {
            Action::SendGitActivity(id) => *id == *project_id,
            Action::SendGitHead(id, _) => *id == *project_id,
            Action::SendGitIndex(id) => *id == *project_id,
            Action::SendSession(id, _) => *id == *project_id,
            Action::SendDeltas(id, _, _, _) => *id == *project_id,
            _ => true,
        },
{
}

/// Whether `action` is work that `event` calls for: the handler that the
/// event's kind is routed to, given the event's own payload, or a notification
/// of that event for the project `project_id`.
pub open spec fn serves<'a, T, P, S, D>(
    action: Action<'a, T, P, S, D>,
    project_id: &String,
    event: &Event<T, P, S, D>,
) -> bool {
    match action {
        Action::HandleFileChange(p) => event matches Event::FileChange(q) && *p == q,
        Action::HandleProjectFileChange(p) => event matches Event::ProjectFileChange(q) && *p == q,
        Action::HandleGitFileChange(p) => event matches Event::GitFileChange(q) && *p == q,
        Action::CheckCurrentSession(t) => event matches Event::Tick(u) && *t == u,
        Action::CheckFetchProject(t) => event matches Event::Tick(u) && *t == u,
        Action::FlushSession(s) => event matches Event::Flush(q) && *s == q,
        Action::IndexSession(s) => (event matches Event::SessionFlushed(q) && *s == q) || (
        event matches Event::Session(q) && *s == q),
        Action::FetchProject => event matches Event::Fetch,
        Action::IndexFile(s, p, c) => event matches Event::File(f) && *s == f.0 && *p == f.1 && *c
            == f.2,
        Action::IndexDeltas(s, p, d) => event matches Event::Deltas(f) && *s == f.0 && *p == f.1 && *d
            == f.2,
        Action::SendGitActivity(id) => event matches Event::GitActivity && *id == *project_id,
        Action::SendGitHead(id, h) => event matches Event::GitHeadChange(g) && *id == *project_id
            && *h == g,
        Action::SendGitIndex(id) => event matches Event::GitIndexChange && *id == *project_id,
        Action::SendSession(id, s) => event matches Event::Session(q) && *id == *project_id && *s
            == q,
        Action::SendDeltas(id, s, d, p) => event matches Event::Deltas(f) && *id == *project_id && *s
            == f.0 && *d == f.2 && *p == f.1,
    }
}

/// Whether an action sends a notification to the application.
pub open spec fn is_send<'a, T, P, S, D>(action: Action<'a, T, P, S, D>) -> bool {
    match action {
        Action::SendGitActivity(_) | Action::SendGitHead(_, _) | Action::SendGitIndex(_)
        | Action::SendSession(_, _) | Action::SendDeltas(_, _, _, _) => true,
        _ => false,
    }
}

/// Every step of handling an event is work for the handler that the event's
/// kind is routed to, on the event's own payload (a flush goes to the flush
/// handler, a git-file change to the git-file handler, and so on). A tick,
/// a session and a file's changes take two steps, every other event one; a
/// tick checks the current session before the fetch, and a session or a file's
/// changes are indexed before they are sent, so nothing is sent unindexed.
pub proof fn law_steps_route_to_the_events_handlers<T, P, S, D>(
    project_id: &String,
    event: &Event<T, P, S, D>,
)
    ensures
        forall|i: int|
            0 <= i < event_steps(project_id, event).len() ==> serves(
                #[trigger] event_steps(project_id, event)[i].action,
                project_id,
                event,
            ),
        event_steps(project_id, event).len() == (match event {
            Event::Tick(_) | Event::Session(_) | Event::Deltas(_) => 2int,
            _ => 1int,
        }),
        event matches Event::Tick(_) ==> (event_steps(project_id, event)[0].action matches Action::CheckCurrentSession(_))
            && (event_steps(project_id, event)[1].action matches Action::CheckFetchProject(_)),
        (event is Session || event is Deltas) ==> !is_send(event_steps(project_id, event)[0].action)
            && is_send(event_steps(project_id, event)[1].action),
{
}

/// The explanation a failure of `action` gets while handling `event`: each
/// handler call and notification has its own, indexing a session has one only
/// when the session is then sent, and a fetch has none.
pub open spec fn explanation_of<'a, T, P, S, D>(
    action: Action<'a, T, P, S, D>,
    event: &Event<T, P, S, D>,
) -> Option<Context> {
    match action {
        Action::HandleFileChange(_) => Some(Context::FileChangeEvent),
        Action::HandleProjectFileChange(_) => Some(Context::ProjectFileChangeEvent),
        Action::HandleGitFileChange(_) => Some(Context::GitFileChangeEvent),
        Action::CheckCurrentSession(_) | Action::CheckFetchProject(_) => Some(Context::TickEvent),
        Action::FlushSession(_) => Some(Context::FlushSessionEvent),
        Action::IndexSession(_) => if event is Session {
            Some(Context::IndexSession)
        } else {
            None
        },
        Action::FetchProject => None,
        Action::IndexFile(_, _, _) => Some(Context::IndexFile),
        Action::IndexDeltas(_, _, _) => Some(Context::IndexDeltas),
        Action::SendGitActivity(_) => Some(Context::SendGitActivity),
        Action::SendGitHead(_, _) => Some(Context::SendGitHead),
        Action::SendGitIndex(_) => Some(Context::SendGitIndex),
        Action::SendSession(_, _) => Some(Context::SendSession),
        Action::SendDeltas(_, _, _, _) => Some(Context::SendDeltas),
    }
}

/// Each step's failure is explained by the context of its own work, and a
/// step's events are part of the result exactly when the event is not one that
/// only notifies the application.
pub proof fn law_step_explanations_and_kept_events<T, P, S, D>(
    project_id: &String,
    event: &Event<T, P, S, D>,
)
    ensures
        forall|i: int|
            0 <= i < event_steps(project_id, event).len() ==> (#[trigger] event_steps(project_id, event)[i]).context
                == explanation_of(event_steps(project_id, event)[i].action, event)
                && event_steps(project_id, event)[i].keeps_events == !is_notification(event),
{
}

/// A tick is checked first by the current-session check and then by the fetch
/// check; when both succeed, the result is the first's events followed by the
/// second's.
pub proof fn law_tick_joins_both_checks<T, P, S, D, E, X>(
    project_id: &String,
    tick: T,
    first: Vec<E>,
    second: Vec<E>,
)
    ensures
        ({
            let event = Event::<T, P, S, D>::Tick(tick);
            let steps = event_steps(project_id, &event);
            &&& steps.len() == 2
            &&& steps[0].action == Action::<T, P, S, D>::CheckCurrentSession(&tick)
            &&& steps[1].action == Action::<T, P, S, D>::CheckFetchProject(&tick)
            &&& concluded(step_keeps(steps), seq![Ok::<Vec<E>, X>(first), Ok::<Vec<E>, X>(second)])
                == Ok::<Seq<E>, (int, X)>(first@ + second@)
        }),
{
    let event = Event::<T, P, S, D>::Tick(tick);
    let steps = event_steps(project_id, &event);
    let outcomes = seq![Ok::<Vec<E>, X>(first), Ok::<Vec<E>, X>(second)];
    let keeps = step_keeps(steps);
    assert(keeps[0] && keeps[1]);
    let one = seq![Ok::<Vec<E>, X>(first)];
    assert(outcomes.drop_last() =~= one);
    assert(one.drop_last() =~= Seq::<Result<Vec<E>, X>>::empty());
    assert(concluded(keeps, Seq::<Result<Vec<E>, X>>::empty()) == Ok::<Seq<E>, (int, X)>(Seq::empty()));
    assert(concluded(keeps, one.drop_last()) == Ok::<Seq<E>, (int, X)>(Seq::empty()));
    assert(Seq::<E>::empty() + first@ =~= first@);
    assert(concluded(keeps, one) == Ok::<Seq<E>, (int, X)>(first@));
}

/// An event handed to a single handler has that handler's outcome as its
/// result, with the step's explanation on failure.
pub proof fn law_delegated_result_is_the_handlers<T, P, S, D, E, X>(
    project_id: &String,
    event: &Event<T, P, S, D>,
    outcome: Result<Vec<E>, X>,
)
    requires
        is_delegated(event),
    ensures
        event_steps(project_id, event).len() == 1,
        concluded(step_keeps(event_steps(project_id, event)), seq![outcome]) == match outcome {
            Ok(v) => Ok::<Seq<E>, (int, X)>(v@),
            Err(x) => Err::<Seq<E>, (int, X)>((0, x)),
        },
{
    let outcomes = seq![outcome];
    let keeps = step_keeps(event_steps(project_id, event));
    assert(keeps[0]);
    assert(outcomes.drop_last() =~= Seq::<Result<Vec<E>, X>>::empty());
    assert(concluded(keeps, Seq::<Result<Vec<E>, X>>::empty()) == Ok::<Seq<E>, (int, X)>(Seq::empty()));
    assert(concluded(keeps, outcomes.drop_last()) == Ok::<Seq<E>, (int, X)>(Seq::empty()));
    match outcome {
        Ok(v) => {
            assert(Seq::<E>::empty() + v@ =~= v@);
        },
        Err(_) => {},
    }
}

/// The next step to run, given the outcomes of the steps that ran, in order:
/// the step after them while all succeeded, and none once one failed or all ran.
pub fn next_step<'a, T, P, S, D, E, X>(
    steps: &Vec<Step<'a, T, P, S, D>>,
    outcomes: &Vec<Result<Vec<E>, X>>,
) -> (r: Option<usize>)
    ensures
        r == match next_step_after(steps@.len() as int, outcomes@) {
            Some(i) => Some(i as usize),
            None => None::<usize>,
        },
{
    if outcomes.len() >= steps.len() {
        return None;
    }
    let mut i: usize = 0;
    while i < outcomes.len()
        invariant
            i <= outcomes@.len(),
            all_succeeded(outcomes@.take(i as int)),
        decreases outcomes@.len() - i,
    {
        if outcomes[i].is_err() {
            proof {
                assert(!(outcomes@[i as int] is Ok));
            }
            return None;
        }
        proof {
            assert forall|j: int| 0 <= j < i + 1 implies #[trigger] outcomes@.take(i + 1)[j] is Ok by {
                if j < i {
                    assert(outcomes@.take(i as int)[j] == outcomes@.take(i + 1)[j]);
                }
            }
        }
        i = i + 1;
    }
    proof {
        assert(outcomes@.take(outcomes@.len() as int) =~= outcomes@);
    }
    Some(outcomes.len())
}

/// Once a step has failed, no further step runs.
pub proof fn law_no_step_runs_after_a_failure<E, X>(
    step_count: int,
    outcomes: Seq<Result<Vec<E>, X>>,
    j: int,
)
    requires
        0 <= j < outcomes.len(),
        outcomes[j] is Err,
    ensures
        next_step_after(step_count, outcomes) is None,
{
    assert(!(outcomes[j] is Ok));
}

/// When the first step of handling an event fails, handling stops there: no
/// other step runs (no fetch check after a failed current-session check, no
/// notification after a failed indexing), and the result is that failure,
/// explained by the first step's context.
pub proof fn law_failed_first_step_stops_handling<T, P, S, D, E, X>(
    project_id: &String,
    event: &Event<T, P, S, D>,
    x: X,
)
    ensures
        next_step_after(
            event_steps(project_id, event).len() as int,
            Seq::<Result<Vec<E>, X>>::empty(),
        ) == Some(0int),
        next_step_after(
            event_steps(project_id, event).len() as int,
            seq![Err::<Vec<E>, X>(x)],
        ) is None,
        concluded(step_keeps(event_steps(project_id, event)), seq![Err::<Vec<E>, X>(x)])
            == Err::<Seq<E>, (int, X)>((0, x)),
{
    let one = seq![Err::<Vec<E>, X>(x)];
    assert(!(one[0] is Ok));
    assert(one.drop_last() =~= Seq::<Result<Vec<E>, X>>::empty());
    assert(concluded(step_keeps(event_steps(project_id, event)), Seq::<Result<Vec<E>, X>>::empty())
        == Ok::<Seq<E>, (int, X)>(Seq::empty()));
}

impl Handler {
    /// The id of the project whose events this handler handles.
    pub closed spec fn project_id(&self) -> String {
        self.project_id
    }

    /// A handler for the project `project_id`.
    pub fn new(project_id: String) -> (h: Handler)
        ensures
            h.project_id() == project_id,
    {
        Handler { project_id }
    }

    /// The steps that handling `event` takes, in order.
    pub fn handle<'a, T, P, S, D>(&'a self, event: &'a Event<T, P, S, D>) -> (steps: Vec<
        Step<'a, T, P, S, D>,
    >)
        ensures
            steps@ == event_steps(&self.project_id(), event),
    {
        let id = &self.project_id;
        match event {
            Event::FileChange(path) => vec![
                Step { action: Action::HandleFileChange(path), context: Some(Context::FileChangeEvent), keeps_events: true },
            ],
            Event::ProjectFileChange(path) => vec![
                Step {
                    action: Action::HandleProjectFileChange(path),
                    context: Some(Context::ProjectFileChangeEvent),
                    keeps_events: true,
                },
            ],
            Event::GitFileChange(path) => vec![
                Step {
                    action: Action::HandleGitFileChange(path),
                    context: Some(Context::GitFileChangeEvent),
                    keeps_events: true,
                },
            ],
            Event::GitActivity => vec![
                Step { action: Action::SendGitActivity(id), context: Some(Context::SendGitActivity), keeps_events: false },
            ],
            Event::GitHeadChange(head) => vec![
                Step { action: Action::SendGitHead(id, head), context: Some(Context::SendGitHead), keeps_events: false },
            ],
            Event::GitIndexChange => vec![
                Step { action: Action::SendGitIndex(id), context: Some(Context::SendGitIndex), keeps_events: false },
            ],
            Event::Tick(tick) => vec![
                Step { action: Action::CheckCurrentSession(tick), context: Some(Context::TickEvent), keeps_events: true },
                Step { action: Action::CheckFetchProject(tick), context: Some(Context::TickEvent), keeps_events: true },
            ],
            Event::Flush(session) => vec![
                Step { action: Action::FlushSession(session), context: Some(Context::FlushSessionEvent), keeps_events: true },
            ],
            Event::SessionFlushed(session) => vec![
                Step { action: Action::IndexSession(session), context: None, keeps_events: true },
            ],
            Event::Fetch => vec![Step { action: Action::FetchProject, context: None, keeps_events: true }],
            Event::File(file) => vec![
                Step {
                    action: Action::IndexFile(&file.0, &file.1, &file.2),
                    context: Some(Context::IndexFile),
                    keeps_events: true,
                },
            ],
            Event::Session(session) => vec![
                Step { action: Action::IndexSession(session), context: Some(Context::IndexSession), keeps_events: false },
                Step { action: Action::SendSession(id, session), context: Some(Context::SendSession), keeps_events: false },
            ],
            Event::Deltas(deltas) => vec![
                Step {
                    action: Action::IndexDeltas(&deltas.0, &deltas.1, &deltas.2),
                    context: Some(Context::IndexDeltas),
                    keeps_events: false,
                },
                Step {
                    action: Action::SendDeltas(id, &deltas.0, &deltas.2, &deltas.1),
                    context: Some(Context::SendDeltas),
                    keeps_events: false,
                },
            ],
        }
    }
}

} // verus!
