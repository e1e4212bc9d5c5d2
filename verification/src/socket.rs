//! The file of a Unix socket: how it is claimed, made private and removed.
//!
//! The steps [`bind`], [`prepare_socket_path`] and [`remove_owned_socket_checked`]
//! say what is asked of the file system next; asking is the caller's. `shown` is
//! the path as it is shown to people.

use vstd::prelude::*;

verus! {

/// The permissions of a socket file: its owner may read and write it.
pub const PRIVATE_MODE: u32 = 0o600;

/// Which file a path leads to.
#[derive(Debug, Clone, Copy, PartialEq, Eq, Structural)]
pub struct SocketIdentity {
    pub device: u64,
    pub inode: u64,
}

/// What a socket is for.
#[derive(Debug, Clone, Copy, PartialEq, Eq, Structural)]
pub enum Service {
    Automation,
    Screenshot,
}

/// What stands at a path, links not followed.
#[derive(Debug)]
pub enum Inspection {
    Socket,
    Other,
    Missing,
    Failed(String),
}

/// Which file a path leads to. `Missing` and `Failed` have the text of the error.
#[derive(Debug)]
pub enum Lookup {
    Found(SocketIdentity),
    Missing(String),
    Failed(String),
}

/// Whether a server answers at a path.
#[derive(Debug)]
pub enum Probe {
    Connected,
    Refused,
    Failed(String),
}

/// What came of what was asked.
#[derive(Debug)]
pub enum SocketEvent {
    Inspected(Inspection),
    Looked(Lookup),
    Probed(Probe),
    Done(Result<(), String>),
}

/// What is asked of the caller.
#[derive(Debug, Clone, Copy, PartialEq, Eq, Structural)]
pub enum SocketAction {
    /// Finds out what stands at the path; answered by [`SocketEvent::Inspected`].
    Inspect,
    /// Finds out which file the path leads to; answered by [`SocketEvent::Looked`].
    Look,
    /// Tries to connect; answered by [`SocketEvent::Probed`].
    Connect,
    /// Removes the file. This and what follows is answered by [`SocketEvent::Done`].
    Remove,
    /// Binds a listener to the path.
    Listen,
    /// Sets the permissions of the file.
    SetMode(u32),
    /// Lets the listener not block.
    SetNonblocking,
    /// Drops the listener.
    CloseListener,
    /// Starts the server, which owns the file of that identity.
    StartServer(SocketIdentity),
}

/// What follows an event: the work goes on in a phase, or is done.
#[derive(Debug)]
pub enum Next<P, T> {
    Continue(P),
    Finished(Result<T, String>),
}

/// What follows an event, by its contents.
#[verifier::ext_equal]
pub enum NextView<P, T> {
    Continue(P),
    Finished(Result<T, Seq<char>>),
}

/// A result, with the text of its error.
pub open spec fn outcome_view<T>(outcome: Result<T, String>) -> Result<T, Seq<char>> {
    match outcome {
        Ok(value) => Ok(value),
        Err(error) => Err(error@),
    }
}

/// What follows an event, by its contents, for phases that hold no text.
pub open spec fn next_view<P, T>(next: Next<P, T>) -> NextView<P, T> {
    match next {
        Next::Continue(phase) => NextView::Continue(phase),
        Next::Finished(outcome) => NextView::Finished(outcome_view(outcome)),
    }
}

/// `before`, the path and `after`, in one text.
fn about(before: &str, shown: &str, after: &str) -> (message: String)
    ensures
        message@ == before@ + shown@ + after@,
{
    before.to_owned().concat(shown).concat(after)
}

/// The same with the text of an error behind it.
fn about_error(before: &str, shown: &str, error: &str) -> (message: String)
    ensures
        message@ == before@ + shown@ + ": "@ + error@,
{
    about(before, shown, ": ").concat(error)
}

/// The identity of the file that was looked up, or why it is not known.
pub open spec fn identity_of(shown: Seq<char>, lookup: Lookup) -> Result<
    SocketIdentity,
    Seq<char>,
> {
    match lookup {
        Lookup::Found(identity) => Ok(identity),
        Lookup::Missing(error) => Err("could not inspect "@ + shown + ": "@ + error@),
        Lookup::Failed(error) => Err("could not inspect "@ + shown + ": "@ + error@),
    }
}

/// The identity of the file that was looked up, or why it is not known.
pub fn socket_identity(shown: &str, lookup: Lookup) -> (identity: Result<SocketIdentity, String>)
    ensures
        outcome_view(identity) == identity_of(shown@, lookup),
{
    match lookup {
        Lookup::Found(identity) => Ok(identity),
        Lookup::Missing(error) => Err(about_error("could not inspect ", shown, error.as_str())),
        Lookup::Failed(error) => Err(about_error("could not inspect ", shown, error.as_str())),
    }
}

/// Where the removal of an owned file stands.
#[derive(Debug, Clone, Copy, PartialEq, Eq, Structural)]
pub enum RemovalPhase {
    Looking,
    Removing,
}

/// What is asked in a phase of the removal of an owned file.
pub open spec fn removal_asks(phase: RemovalPhase) -> SocketAction {
    match phase {
        RemovalPhase::Looking => SocketAction::Look,
        RemovalPhase::Removing => SocketAction::Remove,
    }
}

/// How the removal of an owned file goes on. It ends with whether the file was
/// removed: it is not if it is gone, or if another file has taken its place.
pub open spec fn removal_next(
    shown: Seq<char>,
    identity: SocketIdentity,
    phase: RemovalPhase,
    event: SocketEvent,
) -> NextView<RemovalPhase, bool> {
    match (phase, event) {
        (RemovalPhase::Looking, SocketEvent::Looked(lookup)) => match lookup {
            Lookup::Found(current) => if current == identity {
                NextView::Continue(RemovalPhase::Removing)
            } else {
                NextView::Finished(Ok(false))
            },
            Lookup::Missing(_) => NextView::Finished(Ok(false)),
            Lookup::Failed(error) => NextView::Finished(
                Err("could not inspect "@ + shown + ": "@ + error@),
            ),
        },
        (RemovalPhase::Removing, SocketEvent::Done(done)) => match done {
            Ok(_) => NextView::Finished(Ok(true)),
            Err(error) => NextView::Finished(Err("could not remove "@ + shown + ": "@ + error@)),
        },
        _ => NextView::Continue(phase),
    }
}

/// What is asked in a phase of the removal of an owned file.
pub fn removal_action(phase: RemovalPhase) -> (action: SocketAction)
    ensures
        action == removal_asks(phase),
{
    match phase {
        RemovalPhase::Looking => SocketAction::Look,
        RemovalPhase::Removing => SocketAction::Remove,
    }
}

/// Removes a file if it is the one of that identity: says what follows `event`. An
/// event that answers nothing that was asked changes nothing.
pub fn remove_owned_socket_checked(
    shown: &str,
    identity: SocketIdentity,
    phase: RemovalPhase,
    event: SocketEvent,
) -> (next: Next<RemovalPhase, bool>)
    ensures
        next_view(next) == removal_next(shown@, identity, phase, event),
{
    match (phase, event) {
        (RemovalPhase::Looking, SocketEvent::Looked(lookup)) => match lookup {
            Lookup::Found(current) => if current == identity {
                Next::Continue(RemovalPhase::Removing)
            } else {
                Next::Finished(Ok(false))
            },
            Lookup::Missing(_) => Next::Finished(Ok(false)),
            Lookup::Failed(error) => Next::Finished(
                Err(about_error("could not inspect ", shown, error.as_str())),
            ),
        },
        (RemovalPhase::Removing, SocketEvent::Done(done)) => match done {
            Ok(_) => Next::Finished(Ok(true)),
            Err(error) => Next::Finished(
                Err(about_error("could not remove ", shown, error.as_str())),
            ),
        },
        _ => Next::Continue(phase),
    }
}

/// A file is removed only if the path has just led to the very file that is to be removed.
pub proof fn law_only_the_same_file_is_removed(
    shown: Seq<char>,
    identity: SocketIdentity,
    event: SocketEvent,
)
    ensures
        removal_next(shown, identity, RemovalPhase::Looking, event) == NextView::<
            RemovalPhase,
            bool,
        >::Continue(RemovalPhase::Removing) <==> event == SocketEvent::Looked(
            Lookup::Found(identity),
        ),
        removal_asks(RemovalPhase::Looking) != SocketAction::Remove,
{
}

/// Where the preparation of a path stands.
#[derive(Debug, Clone, Copy, PartialEq, Eq, Structural)]
pub enum PreparePhase {
    Inspecting,
    Identifying,
    Probing(SocketIdentity),
    Replacing(SocketIdentity, RemovalPhase),
}

/// What is asked in a phase of the preparation of a path.
pub open spec fn prepare_asks(phase: PreparePhase) -> SocketAction {
    match phase {
        PreparePhase::Inspecting => SocketAction::Inspect,
        PreparePhase::Identifying => SocketAction::Look,
        PreparePhase::Probing(_) => SocketAction::Connect,
        PreparePhase::Replacing(_, removal) => removal_asks(removal),
    }
}

/// How the preparation of a path goes on. It ends well if nothing stands at the path,
/// or if a socket did at which no server answers, and its file was removed.
pub open spec fn prepare_next(
    shown: Seq<char>,
    phase: PreparePhase,
    event: SocketEvent,
) -> NextView<PreparePhase, ()> {
    match (phase, event) {
        (PreparePhase::Inspecting, SocketEvent::Inspected(inspection)) => match inspection {
            Inspection::Socket => NextView::Continue(PreparePhase::Identifying),
            Inspection::Other => NextView::Finished(
                Err("refusing to replace non-socket path "@ + shown),
            ),
            Inspection::Missing => NextView::Finished(Ok(())),
            Inspection::Failed(error) => NextView::Finished(
                Err("could not inspect "@ + shown + ": "@ + error@),
            ),
        },
        (PreparePhase::Identifying, SocketEvent::Looked(lookup)) => match identity_of(
            shown,
            lookup,
        ) {
            Ok(identity) => NextView::Continue(PreparePhase::Probing(identity)),
            Err(error) => NextView::Finished(Err(error)),
        },
        (PreparePhase::Probing(identity), SocketEvent::Probed(probe)) => match probe {
            Probe::Connected => NextView::Finished(
                Err("socket "@ + shown + " is already in use"@),
            ),
            Probe::Refused => NextView::Continue(
                PreparePhase::Replacing(identity, RemovalPhase::Looking),
            ),
            Probe::Failed(error) => NextView::Finished(
                Err("could not verify existing socket "@ + shown + ": "@ + error@),
            ),
        },
        (PreparePhase::Replacing(identity, removal), _) => match removal_next(
            shown,
            identity,
            removal,
            event,
        ) {
            NextView::Continue(next) => NextView::Continue(PreparePhase::Replacing(identity, next)),
            NextView::Finished(Ok(true)) => NextView::Finished(Ok(())),
            NextView::Finished(Ok(false)) => NextView::Finished(
                Err("socket "@ + shown + " changed while checking for staleness"@),
            ),
            NextView::Finished(Err(error)) => NextView::Finished(Err(error)),
        },
        _ => NextView::Continue(phase),
    }
}

/// What is asked in a phase of the preparation of a path.
pub fn prepare_action(phase: PreparePhase) -> (action: SocketAction)
    ensures
        action == prepare_asks(phase),
{
    match phase {
        PreparePhase::Inspecting => SocketAction::Inspect,
        PreparePhase::Identifying => SocketAction::Look,
        PreparePhase::Probing(_) => SocketAction::Connect,
        PreparePhase::Replacing(_, removal) => removal_action(removal),
    }
}

/// Makes a path free for a socket: says what follows `event`. An event that answers
/// nothing that was asked changes nothing.
pub fn prepare_socket_path(shown: &str, phase: PreparePhase, event: SocketEvent) -> (next: Next<
    PreparePhase,
    (),
>)
    ensures
        next_view(next) == prepare_next(shown@, phase, event),
{
    match (phase, event) {
        (PreparePhase::Inspecting, SocketEvent::Inspected(inspection)) => match inspection {
            Inspection::Socket => Next::Continue(PreparePhase::Identifying),
            Inspection::Other => Next::Finished(
                Err("refusing to replace non-socket path ".to_owned().concat(shown)),
            ),
            Inspection::Missing => Next::Finished(Ok(())),
            Inspection::Failed(error) => Next::Finished(
                Err(about_error("could not inspect ", shown, error.as_str())),
            ),
        },
        (PreparePhase::Identifying, SocketEvent::Looked(lookup)) => match socket_identity(
            shown,
            lookup,
        ) {
            Ok(identity) => Next::Continue(PreparePhase::Probing(identity)),
            Err(error) => Next::Finished(Err(error)),
        },
        (PreparePhase::Probing(identity), SocketEvent::Probed(probe)) => match probe {
            Probe::Connected => Next::Finished(
                Err(about("socket ", shown, " is already in use")),
            ),
            Probe::Refused => Next::Continue(
                PreparePhase::Replacing(identity, RemovalPhase::Looking),
            ),
            Probe::Failed(error) => Next::Finished(
                Err(about_error("could not verify existing socket ", shown, error.as_str())),
            ),
        },
        (PreparePhase::Replacing(identity, removal), event) => match remove_owned_socket_checked(
            shown,
            identity,
            removal,
            event,
        ) {
            Next::Continue(next) => Next::Continue(PreparePhase::Replacing(identity, next)),
            Next::Finished(Ok(true)) => Next::Finished(Ok(())),
            Next::Finished(Ok(false)) => Next::Finished(
                Err(about("socket ", shown, " changed while checking for staleness")),
            ),
            Next::Finished(Err(error)) => Next::Finished(Err(error)),
        },
        _ => Next::Continue(phase),
    }
}

/// Where the start of a socket stands.
#[derive(Debug)]
pub enum BindPhase {
    Preparing(PreparePhase),
    Listening,
    Claiming,
    Restricting(SocketIdentity),
    Configuring(SocketIdentity),
    Starting(SocketIdentity),
    /// The start has failed with this message; the listener is dropped.
    Closing(SocketIdentity, String),
    /// The start has failed with this message; the file is removed.
    Abandoning(SocketIdentity, String, RemovalPhase),
}

/// Where the start of a socket stands, by its contents.
#[verifier::ext_equal]
pub enum BindPhaseView {
    Preparing(PreparePhase),
    Listening,
    Claiming,
    Restricting(SocketIdentity),
    Configuring(SocketIdentity),
    Starting(SocketIdentity),
    Closing(SocketIdentity, Seq<char>),
    Abandoning(SocketIdentity, Seq<char>, RemovalPhase),
}

impl View for BindPhase {
    type V = BindPhaseView;

    open spec fn view(&self) -> BindPhaseView {
        match self {
            BindPhase::Preparing(prepare) => BindPhaseView::Preparing(*prepare),
            BindPhase::Listening => BindPhaseView::Listening,
            BindPhase::Claiming => BindPhaseView::Claiming,
            BindPhase::Restricting(identity) => BindPhaseView::Restricting(*identity),
            BindPhase::Configuring(identity) => BindPhaseView::Configuring(*identity),
            BindPhase::Starting(identity) => BindPhaseView::Starting(*identity),
            BindPhase::Closing(identity, message) => BindPhaseView::Closing(*identity, message@),
            BindPhase::Abandoning(identity, message, removal) => BindPhaseView::Abandoning(
                *identity,
                message@,
                *removal,
            ),
        }
    }
}

/// What follows an event, by its contents.
pub open spec fn bind_next_view(next: Next<BindPhase, SocketIdentity>) -> NextView<
    BindPhaseView,
    SocketIdentity,
> {
    match next {
        Next::Continue(phase) => NextView::Continue(phase@),
        Next::Finished(outcome) => NextView::Finished(outcome_view(outcome)),
    }
}

/// What is asked in a phase of the start of a socket.
pub open spec fn bind_asks(phase: BindPhaseView) -> SocketAction {
    match phase {
        BindPhaseView::Preparing(prepare) => prepare_asks(prepare),
        BindPhaseView::Listening => SocketAction::Listen,
        BindPhaseView::Claiming => SocketAction::Look,
        BindPhaseView::Restricting(_) => SocketAction::SetMode(PRIVATE_MODE),
        BindPhaseView::Configuring(_) => SocketAction::SetNonblocking,
        BindPhaseView::Starting(identity) => SocketAction::StartServer(identity),
        BindPhaseView::Closing(_, _) => SocketAction::CloseListener,
        BindPhaseView::Abandoning(_, _, removal) => removal_asks(removal),
    }
}

/// The beginning of the message that the server could not be started.
pub open spec fn not_started(service: Service) -> Seq<char> {
    match service {
        Service::Automation => "could not start automation socket server: "@,
        Service::Screenshot => "could not start screenshot socket server: "@,
    }
}

/// How the start of a socket goes on. It ends well, with the identity of the socket's
/// file, when the server has been started. If something fails once that identity is
/// known, the file is removed before the start ends with the failure.
pub open spec fn bind_next(
    service: Service,
    shown: Seq<char>,
    phase: BindPhaseView,
    event: SocketEvent,
) -> NextView<BindPhaseView, SocketIdentity> {
    match (phase, event) {
        (BindPhaseView::Preparing(prepare), _) => match prepare_next(shown, prepare, event) {
            NextView::Continue(next) => NextView::Continue(BindPhaseView::Preparing(next)),
            NextView::Finished(Ok(_)) => NextView::Continue(BindPhaseView::Listening),
            NextView::Finished(Err(error)) => NextView::Finished(Err(error)),
        },
        (BindPhaseView::Listening, SocketEvent::Done(done)) => match done {
            Ok(_) => NextView::Continue(BindPhaseView::Claiming),
            Err(error) => NextView::Finished(Err("could not bind "@ + shown + ": "@ + error@)),
        },
        (BindPhaseView::Claiming, SocketEvent::Looked(lookup)) => match identity_of(
            shown,
            lookup,
        ) {
            Ok(identity) => NextView::Continue(BindPhaseView::Restricting(identity)),
            Err(error) => NextView::Finished(Err(error)),
        },
        (BindPhaseView::Restricting(identity), SocketEvent::Done(done)) => match done {
            Ok(_) => NextView::Continue(BindPhaseView::Configuring(identity)),
            Err(error) => NextView::Continue(
                BindPhaseView::Abandoning(
                    identity,
                    "could not set permissions on "@ + shown + ": "@ + error@,
                    RemovalPhase::Looking,
                ),
            ),
        },
        (BindPhaseView::Configuring(identity), SocketEvent::Done(done)) => match done {
            Ok(_) => NextView::Continue(BindPhaseView::Starting(identity)),
            Err(error) => NextView::Continue(
                BindPhaseView::Closing(
                    identity,
                    "could not configure "@ + shown + ": "@ + error@,
                ),
            ),
        },
        (BindPhaseView::Starting(identity), SocketEvent::Done(done)) => match done {
            Ok(_) => NextView::Finished(Ok(identity)),
            Err(error) => NextView::Continue(
                BindPhaseView::Abandoning(
                    identity,
                    not_started(service) + error@,
                    RemovalPhase::Looking,
                ),
            ),
        },
        (BindPhaseView::Closing(identity, message), SocketEvent::Done(_)) => NextView::Continue(
            BindPhaseView::Abandoning(identity, message, RemovalPhase::Looking),
        ),
        (BindPhaseView::Abandoning(identity, message, removal), _) => match removal_next(
            shown,
            identity,
            removal,
            event,
        ) {
            NextView::Continue(next) => NextView::Continue(
                BindPhaseView::Abandoning(identity, message, next),
            ),
            NextView::Finished(_) => NextView::Finished(Err(message)),
        },
        _ => NextView::Continue(phase),
    }
}

/// The phase in which the start of a socket begins.
pub fn begin_bind() -> (phase: BindPhase)
    ensures
        phase@ == BindPhaseView::Preparing(PreparePhase::Inspecting),
{
    BindPhase::Preparing(PreparePhase::Inspecting)
}

/// What is asked in a phase of the start of a socket.
pub fn bind_action(phase: &BindPhase) -> (action: SocketAction)
    ensures
        action == bind_asks(phase@),
{
    match phase {
        BindPhase::Preparing(prepare) => prepare_action(*prepare),
        BindPhase::Listening => SocketAction::Listen,
        BindPhase::Claiming => SocketAction::Look,
        BindPhase::Restricting(_) => SocketAction::SetMode(PRIVATE_MODE),
        BindPhase::Configuring(_) => SocketAction::SetNonblocking,
        BindPhase::Starting(identity) => SocketAction::StartServer(*identity),
        BindPhase::Closing(_, _) => SocketAction::CloseListener,
        BindPhase::Abandoning(_, _, removal) => removal_action(*removal),
    }
}

/// Starts a socket: says what follows `event`. An event that answers nothing that was
/// asked changes nothing.
pub fn bind(service: Service, shown: &str, phase: BindPhase, event: SocketEvent) -> (next: Next<
    BindPhase,
    SocketIdentity,
>)
    ensures
        bind_next_view(next) == bind_next(service, shown@, phase@, event),
{
    match (phase, event) {
        (BindPhase::Preparing(prepare), event) => match prepare_socket_path(
            shown,
            prepare,
            event,
        ) {
            Next::Continue(next) => Next::Continue(BindPhase::Preparing(next)),
            Next::Finished(Ok(_)) => Next::Continue(BindPhase::Listening),
            Next::Finished(Err(error)) => Next::Finished(Err(error)),
        },
        (BindPhase::Listening, SocketEvent::Done(done)) => match done {
            Ok(_) => Next::Continue(BindPhase::Claiming),
            Err(error) => Next::Finished(
                Err(about_error("could not bind ", shown, error.as_str())),
            ),
        },
        (BindPhase::Claiming, SocketEvent::Looked(lookup)) => match socket_identity(
            shown,
            lookup,
        ) {
            Ok(identity) => Next::Continue(BindPhase::Restricting(identity)),
            Err(error) => Next::Finished(Err(error)),
        },
        (BindPhase::Restricting(identity), SocketEvent::Done(done)) => match done {
            Ok(_) => Next::Continue(BindPhase::Configuring(identity)),
            Err(error) => Next::Continue(
                BindPhase::Abandoning(
                    identity,
                    about_error("could not set permissions on ", shown, error.as_str()),
                    RemovalPhase::Looking,
                ),
            ),
        },
        (BindPhase::Configuring(identity), SocketEvent::Done(done)) => match done {
            Ok(_) => Next::Continue(BindPhase::Starting(identity)),
            Err(error) => Next::Continue(
                BindPhase::Closing(
                    identity,
                    about_error("could not configure ", shown, error.as_str()),
                ),
            ),
        },
        (BindPhase::Starting(identity), SocketEvent::Done(done)) => match done {
            Ok(_) => Next::Finished(Ok(identity)),
            Err(error) => {
                let failure: &str = match service {
                    Service::Automation => "could not start automation socket server: ",
                    Service::Screenshot => "could not start screenshot socket server: ",
                };
                Next::Continue(
                    BindPhase::Abandoning(
                        identity,
                        failure.to_owned().concat(error.as_str()),
                        RemovalPhase::Looking,
                    ),
                )
            },
        },
        (BindPhase::Closing(identity, message), SocketEvent::Done(_)) => Next::Continue(
            BindPhase::Abandoning(identity, message, RemovalPhase::Looking),
        ),
        (
            BindPhase::Abandoning(identity, message, removal),
            event,
        ) => match remove_owned_socket_checked(shown, identity, removal, event) {
            Next::Continue(next) => Next::Continue(BindPhase::Abandoning(identity, message, next)),
            Next::Finished(_) => Next::Finished(Err(message)),
        },
        (phase, _) => Next::Continue(phase),
    }
}

/// One step of the start of a socket.
pub struct BindStep {
    pub phase: BindPhaseView,
    pub event: SocketEvent,
    pub next: NextView<BindPhaseView, SocketIdentity>,
}

/// Whether `steps` are the start of a socket, from its beginning.
pub open spec fn bind_run(service: Service, shown: Seq<char>, steps: Seq<BindStep>) -> bool {
    &&& steps.len() > 0 ==> steps[0].phase == BindPhaseView::Preparing(PreparePhase::Inspecting)
    &&& forall|i: int|
        #![trigger steps[i]]
        0 <= i < steps.len() ==> steps[i].next == bind_next(
            service,
            shown,
            steps[i].phase,
            steps[i].event,
        )
    &&& forall|i: int|
        #![trigger steps[i]]
        0 < i < steps.len() ==> steps[i - 1].next == NextView::<
            BindPhaseView,
            SocketIdentity,
        >::Continue(steps[i].phase)
}

/// Whether in one of the first `end` steps `event_is` was found out in a phase.
#[verifier::opaque]
pub open spec fn found_out(
    steps: Seq<BindStep>,
    end: int,
    phase: BindPhaseView,
    event_is: spec_fn(SocketEvent) -> bool,
) -> bool {
    exists|i: int| 0 <= i < end && #[trigger] steps[i].phase == phase && event_is(steps[i].event)
}

/// Whether an event says that a socket stands at the path.
pub open spec fn is_socket() -> spec_fn(SocketEvent) -> bool {
    |event: SocketEvent| event matches SocketEvent::Inspected(Inspection::Socket)
}

/// Whether an event says that the path leads to the file of that identity.
pub open spec fn leads_to(identity: SocketIdentity) -> spec_fn(SocketEvent) -> bool {
    |event: SocketEvent|
        event matches SocketEvent::Looked(Lookup::Found(found)) && found == identity
}

/// Whether an event says that no server answers.
pub open spec fn is_refused() -> spec_fn(SocketEvent) -> bool {
    |event: SocketEvent| event matches SocketEvent::Probed(Probe::Refused)
}

/// Whether an event says that what was asked was done.
pub open spec fn is_done() -> spec_fn(SocketEvent) -> bool {
    |event: SocketEvent| event matches SocketEvent::Done(Ok(_))
}

/// What was found out in the first `end` steps, by the phase that they lead to.
pub open spec fn evidence(steps: Seq<BindStep>, end: int, phase: BindPhaseView) -> bool {
    match phase {
        BindPhaseView::Preparing(prepare) => match prepare {
            PreparePhase::Inspecting => true,
            PreparePhase::Identifying => seen_socket(steps, end),
            PreparePhase::Probing(identity) => seen_identity(steps, end, identity),
            PreparePhase::Replacing(identity, removal) => {
                &&& seen_stale(steps, end, identity)
                &&& removal == RemovalPhase::Removing ==> seen_again(steps, end, identity)
            },
        },
        BindPhaseView::Listening => true,
        BindPhaseView::Claiming => seen_listening(steps, end),
        BindPhaseView::Restricting(identity) => seen_claim(steps, end, identity),
        BindPhaseView::Configuring(identity) => seen_private(steps, end, identity),
        BindPhaseView::Starting(identity) => seen_configured(steps, end, identity),
        BindPhaseView::Closing(identity, _) => seen_claim(steps, end, identity),
        BindPhaseView::Abandoning(identity, message, removal) => {
            &&& seen_claim(steps, end, identity)
            &&& removal == RemovalPhase::Removing ==> seen_own(steps, end, identity, message)
        },
    }
}

/// A socket was found at the path.
pub open spec fn seen_socket(steps: Seq<BindStep>, end: int) -> bool {
    found_out(steps, end, BindPhaseView::Preparing(PreparePhase::Inspecting), is_socket())
}

/// A socket of that identity was found at the path.
pub open spec fn seen_identity(steps: Seq<BindStep>, end: int, identity: SocketIdentity) -> bool {
    &&& seen_socket(steps, end)
    &&& found_out(
        steps,
        end,
        BindPhaseView::Preparing(PreparePhase::Identifying),
        leads_to(identity),
    )
}

/// A socket of that identity was found at the path, and no server answered.
pub open spec fn seen_stale(steps: Seq<BindStep>, end: int, identity: SocketIdentity) -> bool {
    &&& seen_identity(steps, end, identity)
    &&& found_out(
        steps,
        end,
        BindPhaseView::Preparing(PreparePhase::Probing(identity)),
        is_refused(),
    )
}

/// After that, the path still led to the file of that identity.
pub open spec fn seen_again(steps: Seq<BindStep>, end: int, identity: SocketIdentity) -> bool {
    found_out(
        steps,
        end,
        BindPhaseView::Preparing(PreparePhase::Replacing(identity, RemovalPhase::Looking)),
        leads_to(identity),
    )
}

/// The listener was bound.
pub open spec fn seen_listening(steps: Seq<BindStep>, end: int) -> bool {
    found_out(steps, end, BindPhaseView::Listening, is_done())
}

/// The file of that identity is the one that the listener was bound to.
pub open spec fn seen_claim(steps: Seq<BindStep>, end: int, identity: SocketIdentity) -> bool {
    &&& seen_listening(steps, end)
    &&& found_out(steps, end, BindPhaseView::Claiming, leads_to(identity))
}

/// That file is private.
pub open spec fn seen_private(steps: Seq<BindStep>, end: int, identity: SocketIdentity) -> bool {
    &&& seen_claim(steps, end, identity)
    &&& found_out(steps, end, BindPhaseView::Restricting(identity), is_done())
}

/// That file is private and its listener does not block.
pub open spec fn seen_configured(steps: Seq<BindStep>, end: int, identity: SocketIdentity) -> bool {
    &&& seen_private(steps, end, identity)
    &&& found_out(steps, end, BindPhaseView::Configuring(identity), is_done())
}

/// When the start had failed, the path still led to the file of that identity.
pub open spec fn seen_own(
    steps: Seq<BindStep>,
    end: int,
    identity: SocketIdentity,
    message: Seq<char>,
) -> bool {
    found_out(
        steps,
        end,
        BindPhaseView::Abandoning(identity, message, RemovalPhase::Looking),
        leads_to(identity),
    )
}

/// What was found out stays found out.
proof fn lemma_found_before(
    steps: Seq<BindStep>,
    end: int,
    phase: BindPhaseView,
    event_is: spec_fn(SocketEvent) -> bool,
)
    requires
        found_out(steps, end, phase, event_is),
    ensures
        found_out(steps, end + 1, phase, event_is),
{
    reveal(found_out);
    let i = choose|i: int|
        0 <= i < end && #[trigger] steps[i].phase == phase && event_is(steps[i].event);
    assert(steps[i].phase == phase && event_is(steps[i].event));
}

/// What a step finds out is found out.
proof fn lemma_found_now(steps: Seq<BindStep>, index: int, event_is: spec_fn(SocketEvent) -> bool)
    requires
        0 <= index < steps.len(),
        event_is(steps[index].event),
    ensures
        found_out(steps, index + 1, steps[index].phase, event_is),
{
    reveal(found_out);
    assert(steps[index].phase == steps[index].phase && event_is(steps[index].event));
}

/// What the claim of a file rests on stays found out.
proof fn lemma_claim_before(steps: Seq<BindStep>, end: int, identity: SocketIdentity)
    requires
        seen_claim(steps, end, identity),
    ensures
        seen_claim(steps, end + 1, identity),
{
    lemma_found_before(steps, end, BindPhaseView::Listening, is_done());
    lemma_found_before(steps, end, BindPhaseView::Claiming, leads_to(identity));
}

/// That a socket was found stays found out.
proof fn lemma_identity_before(steps: Seq<BindStep>, end: int, identity: SocketIdentity)
    requires
        seen_identity(steps, end, identity),
    ensures
        seen_identity(steps, end + 1, identity),
{
    lemma_found_before(
        steps,
        end,
        BindPhaseView::Preparing(PreparePhase::Inspecting),
        is_socket(),
    );
    lemma_found_before(
        steps,
        end,
        BindPhaseView::Preparing(PreparePhase::Identifying),
        leads_to(identity),
    );
}

/// What a phase rests on stays found out.
proof fn lemma_evidence_before(steps: Seq<BindStep>, end: int, phase: BindPhaseView)
    requires
        evidence(steps, end, phase),
    ensures
        evidence(steps, end + 1, phase),
{
    match phase {
        BindPhaseView::Preparing(PreparePhase::Identifying) => {
            lemma_found_before(
                steps,
                end,
                BindPhaseView::Preparing(PreparePhase::Inspecting),
                is_socket(),
            );
        },
        BindPhaseView::Preparing(PreparePhase::Probing(identity)) => {
            lemma_identity_before(steps, end, identity);
        },
        BindPhaseView::Preparing(PreparePhase::Replacing(identity, removal)) => {
            lemma_identity_before(steps, end, identity);
            lemma_found_before(
                steps,
                end,
                BindPhaseView::Preparing(PreparePhase::Probing(identity)),
                is_refused(),
            );
            if removal == RemovalPhase::Removing {
                lemma_found_before(
                    steps,
                    end,
                    BindPhaseView::Preparing(
                        PreparePhase::Replacing(identity, RemovalPhase::Looking),
                    ),
                    leads_to(identity),
                );
            }
        },
        BindPhaseView::Claiming => {
            lemma_found_before(steps, end, BindPhaseView::Listening, is_done());
        },
        BindPhaseView::Restricting(identity) => {
            lemma_claim_before(steps, end, identity);
        },
        BindPhaseView::Configuring(identity) => {
            lemma_claim_before(steps, end, identity);
            lemma_found_before(steps, end, BindPhaseView::Restricting(identity), is_done());
        },
        BindPhaseView::Starting(identity) => {
            lemma_claim_before(steps, end, identity);
            lemma_found_before(steps, end, BindPhaseView::Restricting(identity), is_done());
            lemma_found_before(steps, end, BindPhaseView::Configuring(identity), is_done());
        },
        BindPhaseView::Closing(identity, _) => {
            lemma_claim_before(steps, end, identity);
        },
        BindPhaseView::Abandoning(identity, message, removal) => {
            lemma_claim_before(steps, end, identity);
            if removal == RemovalPhase::Removing {
                lemma_found_before(
                    steps,
                    end,
                    BindPhaseView::Abandoning(identity, message, RemovalPhase::Looking),
                    leads_to(identity),
                );
            }
        },
        _ => {},
    }
}

/// A step leads to a phase that rests on what was found out.
proof fn lemma_evidence_step(
    service: Service,
    shown: Seq<char>,
    steps: Seq<BindStep>,
    index: int,
    next: BindPhaseView,
)
    requires
        0 <= index < steps.len(),
        evidence(steps, index, steps[index].phase),
        bind_next(service, shown, steps[index].phase, steps[index].event) == NextView::<
            BindPhaseView,
            SocketIdentity,
        >::Continue(next),
    ensures
        evidence(steps, index + 1, next),
{
    let phase = steps[index].phase;
    lemma_evidence_before(steps, index, phase);
    if next != phase {
        match next {
            BindPhaseView::Preparing(PreparePhase::Identifying) => {
                lemma_found_now(steps, index, is_socket());
            },
            BindPhaseView::Preparing(PreparePhase::Probing(identity)) => {
                lemma_found_now(steps, index, leads_to(identity));
            },
            BindPhaseView::Preparing(PreparePhase::Replacing(identity, removal)) => {
                if removal == RemovalPhase::Removing {
                    lemma_found_now(steps, index, leads_to(identity));
                } else {
                    lemma_found_now(steps, index, is_refused());
                }
            },
            BindPhaseView::Claiming => {
                lemma_found_now(steps, index, is_done());
            },
            BindPhaseView::Restricting(identity) => {
                lemma_found_now(steps, index, leads_to(identity));
            },
            BindPhaseView::Configuring(_) => {
                lemma_found_now(steps, index, is_done());
            },
            BindPhaseView::Starting(_) => {
                lemma_found_now(steps, index, is_done());
            },
            BindPhaseView::Abandoning(identity, message, removal) => {
                if removal == RemovalPhase::Removing {
                    lemma_found_now(steps, index, leads_to(identity));
                }
            },
            _ => {},
        }
    }
}

/// Every step of a start rests on what its phase says was found out before.
proof fn lemma_evidence(service: Service, shown: Seq<char>, steps: Seq<BindStep>, index: int)
    requires
        bind_run(service, shown, steps),
        0 <= index < steps.len(),
    ensures
        evidence(steps, index, steps[index].phase),
    decreases index,
{
    if index > 0 {
        let step = steps[index - 1];
        lemma_evidence(service, shown, steps, index - 1);
        assert(step.next == bind_next(service, shown, step.phase, step.event));
        assert(step.next == NextView::<BindPhaseView, SocketIdentity>::Continue(
            steps[index].phase,
        ));
        lemma_evidence_step(service, shown, steps, index - 1, steps[index].phase);
    }
}

/// A file is removed in the start of a socket only if it is known to be a stale socket, or
/// the socket's own: either a socket was found at the path, no server answered, and the
/// path still led to that very file; or the listener was bound to that very file, and the
/// path still led to it when the start had failed.
pub proof fn law_removes_only_stale_or_own(
    service: Service,
    shown: Seq<char>,
    steps: Seq<BindStep>,
    index: int,
)
    requires
        bind_run(service, shown, steps),
        0 <= index < steps.len(),
        bind_asks(steps[index].phase) == SocketAction::Remove,
    ensures
        match steps[index].phase {
            BindPhaseView::Preparing(PreparePhase::Replacing(identity, _)) => seen_stale(
                steps,
                index,
                identity,
            ) && seen_again(steps, index, identity),
            BindPhaseView::Abandoning(identity, message, _) => seen_claim(steps, index, identity)
                && seen_own(steps, index, identity, message),
            _ => false,
        },
{
    lemma_evidence(service, shown, steps, index);
}

/// A server is started only when the listener is bound, the socket's file has been made
/// private, and the listener does not block.
pub proof fn law_started_sockets_are_private(
    service: Service,
    shown: Seq<char>,
    steps: Seq<BindStep>,
    index: int,
    identity: SocketIdentity,
)
    requires
        bind_run(service, shown, steps),
        0 <= index < steps.len(),
        bind_asks(steps[index].phase) == SocketAction::StartServer(identity),
    ensures
        seen_configured(steps, index, identity),
        bind_asks(BindPhaseView::Restricting(identity)) == SocketAction::SetMode(0o600),
{
    lemma_evidence(service, shown, steps, index);
}

/// The order in which the phases of a start come.
pub open spec fn bind_rank(phase: BindPhaseView) -> int {
    match phase {
        BindPhaseView::Preparing(prepare) => match prepare {
            PreparePhase::Inspecting => 0,
            PreparePhase::Identifying => 1,
            PreparePhase::Probing(_) => 2,
            PreparePhase::Replacing(_, RemovalPhase::Looking) => 3,
            PreparePhase::Replacing(_, RemovalPhase::Removing) => 4,
        },
        BindPhaseView::Listening => 5,
        BindPhaseView::Claiming => 6,
        BindPhaseView::Restricting(_) => 7,
        BindPhaseView::Configuring(_) => 8,
        BindPhaseView::Starting(_) => 9,
        BindPhaseView::Closing(_, _) => 10,
        BindPhaseView::Abandoning(_, _, RemovalPhase::Looking) => 11,
        BindPhaseView::Abandoning(_, _, RemovalPhase::Removing) => 12,
    }
}

/// Whether an event answers what was asked.
pub open spec fn answers(action: SocketAction, event: SocketEvent) -> bool {
    match action {
        SocketAction::Inspect => event is Inspected,
        SocketAction::Look => event is Looked,
        SocketAction::Connect => event is Probed,
        _ => event is Done,
    }
}

/// A start always ends: each answer ends it or leads to a later one of its thirteen phases.
pub proof fn law_every_start_ends(
    service: Service,
    shown: Seq<char>,
    phase: BindPhaseView,
    event: SocketEvent,
)
    requires
        answers(bind_asks(phase), event),
    ensures
        bind_next(service, shown, phase, event) matches NextView::Continue(next) ==> bind_rank(
            phase,
        ) < bind_rank(next),
        0 <= bind_rank(phase) < 13,
{
}

/// The phases of a start never go back.
proof fn lemma_bind_order(
    service: Service,
    shown: Seq<char>,
    steps: Seq<BindStep>,
    from: int,
    to: int,
)
    requires
        bind_run(service, shown, steps),
        0 <= from <= to < steps.len(),
    ensures
        bind_rank(steps[from].phase) <= bind_rank(steps[to].phase),
    decreases to - from,
{
    if from < to {
        lemma_bind_order(service, shown, steps, from, to - 1);
        let step = steps[to - 1];
        assert(step.next == bind_next(service, shown, step.phase, step.event));
        assert(step.next == NextView::<BindPhaseView, SocketIdentity>::Continue(steps[to].phase));
    }
}

/// What stands at a path and is no stale socket is left there: if a server answers, or if
/// the path holds anything but a socket, the start fails without having asked for more than
/// to inspect, to look and to connect.
pub proof fn law_occupied_paths_are_kept(
    service: Service,
    shown: Seq<char>,
    steps: Seq<BindStep>,
    index: int,
    before: int,
)
    requires
        bind_run(service, shown, steps),
        0 <= before <= index < steps.len(),
        match steps[index].phase {
            BindPhaseView::Preparing(PreparePhase::Inspecting) => steps[index].event
                matches SocketEvent::Inspected(Inspection::Other),
            BindPhaseView::Preparing(PreparePhase::Probing(_)) => steps[index].event
                matches SocketEvent::Probed(Probe::Connected),
            _ => false,
        },
    ensures
        steps[index].next matches NextView::Finished(Err(_)),
        bind_asks(steps[before].phase) == SocketAction::Inspect || bind_asks(steps[before].phase)
            == SocketAction::Look || bind_asks(steps[before].phase) == SocketAction::Connect,
{
    assert(steps[index].next == bind_next(
        service,
        shown,
        steps[index].phase,
        steps[index].event,
    ));
    lemma_bind_order(service, shown, steps, before, index);
}

/// Whether the start of the socket with that file is on its way, or is given up.
pub open spec fn carries(phase: BindPhaseView, identity: SocketIdentity) -> bool {
    match phase {
        BindPhaseView::Restricting(carried) => carried == identity,
        BindPhaseView::Configuring(carried) => carried == identity,
        BindPhaseView::Starting(carried) => carried == identity,
        BindPhaseView::Closing(carried, _) => carried == identity,
        BindPhaseView::Abandoning(carried, _, _) => carried == identity,
        _ => false,
    }
}

/// A start that fails after the identity of the socket's file is known has tried to remove
/// that file: the failure comes when the file was looked for and is gone, is another's or
/// cannot be looked at, or when its removal was tried.
pub proof fn law_failed_starts_clean_up(
    service: Service,
    shown: Seq<char>,
    steps: Seq<BindStep>,
    claimed: int,
    index: int,
    identity: SocketIdentity,
)
    requires
        bind_run(service, shown, steps),
        0 <= claimed <= index < steps.len(),
        steps[claimed].phase == BindPhaseView::Restricting(identity),
    ensures
        carries(steps[index].phase, identity),
        steps[index].next matches NextView::Finished(outcome) ==> match outcome {
            Ok(started) => started == identity,
            Err(message) => match steps[index].phase {
                BindPhaseView::Abandoning(_, failure, RemovalPhase::Looking) => failure == message
                    && (steps[index].event matches SocketEvent::Looked(lookup)
                    && !leads_to(identity)(steps[index].event)),
                BindPhaseView::Abandoning(_, failure, RemovalPhase::Removing) => failure
                    == message && steps[index].event is Done,
                _ => false,
            },
        },
    decreases index - claimed,
{
    if claimed < index {
        law_failed_starts_clean_up(service, shown, steps, claimed, index - 1, identity);
        let step = steps[index - 1];
        assert(step.next == bind_next(service, shown, step.phase, step.event));
        assert(step.next == NextView::<BindPhaseView, SocketIdentity>::Continue(
            steps[index].phase,
        ));
    }
    assert(steps[index].next == bind_next(
        service,
        shown,
        steps[index].phase,
        steps[index].event,
    ));
}

/// What has come of a start, from its beginning, after `events`; nothing if they went on after
/// it was finished.
pub open spec fn start_after(
    service: Service,
    shown: Seq<char>,
    events: Seq<SocketEvent>,
) -> Option<NextView<BindPhaseView, SocketIdentity>>
    decreases events.len(),
{
    if events.len() == 0 {
        Some(NextView::Continue(BindPhaseView::Preparing(PreparePhase::Inspecting)))
    } else {
        match start_after(service, shown, events.drop_last()) {
            Some(NextView::Continue(phase)) => Some(
                bind_next(service, shown, phase, events.last()),
            ),
            _ => None,
        }
    }
}

/// What a start asks for after `events`; nothing if it is finished.
pub open spec fn asked_after(
    service: Service,
    shown: Seq<char>,
    events: Seq<SocketEvent>,
) -> Option<SocketAction> {
    match start_after(service, shown, events) {
        Some(NextView::Continue(phase)) => Some(bind_asks(phase)),
        _ => None,
    }
}

/// One more event leads a start on from where it stood.
proof fn lemma_one_more(
    service: Service,
    shown: Seq<char>,
    events: Seq<SocketEvent>,
    event: SocketEvent,
    phase: BindPhaseView,
)
    requires
        start_after(service, shown, events) == Some(
            NextView::<BindPhaseView, SocketIdentity>::Continue(phase),
        ),
    ensures
        start_after(service, shown, events.push(event)) == Some(
            bind_next(service, shown, phase, event),
        ),
{
    assert(events.push(event).drop_last() =~= events);
}

/// The events of a start at a path where nothing stands, or from where it has been cleared, in
/// which everything succeeds and the socket's file is found to be `own`.
pub open spec fn successes(own: SocketIdentity) -> Seq<SocketEvent> {
    seq![
        SocketEvent::Done(Ok(())),
        SocketEvent::Looked(Lookup::Found(own)),
        SocketEvent::Done(Ok(())),
        SocketEvent::Done(Ok(())),
        SocketEvent::Done(Ok(())),
    ]
}

/// The events that clear a path of the stale socket `stale`.
pub open spec fn clearance(stale: SocketIdentity) -> Seq<SocketEvent> {
    seq![
        SocketEvent::Inspected(Inspection::Socket),
        SocketEvent::Looked(Lookup::Found(stale)),
        SocketEvent::Probed(Probe::Refused),
        SocketEvent::Looked(Lookup::Found(stale)),
        SocketEvent::Done(Ok(())),
    ]
}

/// A path where nothing stands is free for a socket of either service.
proof fn lemma_free_path(service: Service, shown: Seq<char>)
    ensures
        asked_after(service, shown, Seq::empty()) == Some(SocketAction::Inspect),
        start_after(
            service,
            shown,
            seq![SocketEvent::Inspected(Inspection::Missing)],
        ) == Some(NextView::<BindPhaseView, SocketIdentity>::Continue(BindPhaseView::Listening)),
{
    let event = SocketEvent::Inspected(Inspection::Missing);
    lemma_one_more(
        service,
        shown,
        Seq::empty(),
        event,
        BindPhaseView::Preparing(PreparePhase::Inspecting),
    );
    assert(Seq::empty().push(event) =~= seq![event]);
}

/// A stale socket is replaced, for either service: it is inspected, looked up, probed, looked up
/// again and removed, and then the listener is bound.
#[verifier::rlimit(40)]
pub proof fn law_stale_sockets_are_replaced(
    service: Service,
    shown: Seq<char>,
    stale: SocketIdentity,
)
    ensures
        asked_after(service, shown, clearance(stale).take(0)) == Some(SocketAction::Inspect),
        asked_after(service, shown, clearance(stale).take(1)) == Some(SocketAction::Look),
        asked_after(service, shown, clearance(stale).take(2)) == Some(SocketAction::Connect),
        asked_after(service, shown, clearance(stale).take(3)) == Some(SocketAction::Look),
        asked_after(service, shown, clearance(stale).take(4)) == Some(SocketAction::Remove),
        asked_after(service, shown, clearance(stale)) == Some(SocketAction::Listen),
        start_after(service, shown, clearance(stale)) == start_after(
            service,
            shown,
            seq![SocketEvent::Inspected(Inspection::Missing)],
        ),
{
    let events = clearance(stale);
    let inspecting = BindPhaseView::Preparing(PreparePhase::Inspecting);
    let identifying = BindPhaseView::Preparing(PreparePhase::Identifying);
    let probing = BindPhaseView::Preparing(PreparePhase::Probing(stale));
    let looking = BindPhaseView::Preparing(PreparePhase::Replacing(stale, RemovalPhase::Looking));
    let removing = BindPhaseView::Preparing(
        PreparePhase::Replacing(stale, RemovalPhase::Removing),
    );
    lemma_free_path(service, shown);
    assert(events.take(0) =~= Seq::empty());
    lemma_one_more(service, shown, events.take(0), events[0], inspecting);
    assert(events.take(1) =~= events.take(0).push(events[0]));
    lemma_one_more(service, shown, events.take(1), events[1], identifying);
    assert(events.take(2) =~= events.take(1).push(events[1]));
    lemma_one_more(service, shown, events.take(2), events[2], probing);
    assert(events.take(3) =~= events.take(2).push(events[2]));
    lemma_one_more(service, shown, events.take(3), events[3], looking);
    assert(events.take(4) =~= events.take(3).push(events[3]));
    lemma_one_more(service, shown, events.take(4), events[4], removing);
    assert(events =~= events.take(4).push(events[4]));
}

/// A start in which everything succeeds ends well, for either service, whether nothing stood at
/// the path or a stale socket did: it binds the listener, looks up its file, restricts it to
/// its owner, lets the listener not block and starts the server with that file, and that file
/// is what it ends with.
#[verifier::rlimit(40)]
pub proof fn law_favourable_starts_succeed(
    service: Service,
    shown: Seq<char>,
    before: Seq<SocketEvent>,
    stale: SocketIdentity,
    own: SocketIdentity,
)
    requires
        before == seq![SocketEvent::Inspected(Inspection::Missing)] || before == clearance(stale),
    ensures
        asked_after(service, shown, before) == Some(SocketAction::Listen),
        asked_after(service, shown, before + successes(own).take(1)) == Some(SocketAction::Look),
        asked_after(service, shown, before + successes(own).take(2)) == Some(
            SocketAction::SetMode(0o600),
        ),
        asked_after(service, shown, before + successes(own).take(3)) == Some(
            SocketAction::SetNonblocking,
        ),
        asked_after(service, shown, before + successes(own).take(4)) == Some(
            SocketAction::StartServer(own),
        ),
        start_after(service, shown, before + successes(own)) == Some(
            NextView::<BindPhaseView, SocketIdentity>::Finished(Ok(own)),
        ),
{
    let events = successes(own);
    lemma_free_path(service, shown);
    law_stale_sockets_are_replaced(service, shown, stale);
    lemma_one_more(service, shown, before, events[0], BindPhaseView::Listening);
    assert(before + events.take(1) =~= before.push(events[0]));
    lemma_one_more(service, shown, before + events.take(1), events[1], BindPhaseView::Claiming);
    assert(before + events.take(2) =~= (before + events.take(1)).push(events[1]));
    lemma_one_more(
        service,
        shown,
        before + events.take(2),
        events[2],
        BindPhaseView::Restricting(own),
    );
    assert(before + events.take(3) =~= (before + events.take(2)).push(events[2]));
    lemma_one_more(
        service,
        shown,
        before + events.take(3),
        events[3],
        BindPhaseView::Configuring(own),
    );
    assert(before + events.take(4) =~= (before + events.take(3)).push(events[3]));
    lemma_one_more(service, shown, before + events.take(4), events[4], BindPhaseView::Starting(own));
    assert(before + events =~= (before + events.take(4)).push(events[4]));
}

/// Once a path has been prepared, the listener is bound; and a start is refused while its path
/// is prepared exactly if the preparation is, with the same reason.
pub proof fn law_prepared_paths_are_bound(
    service: Service,
    shown: Seq<char>,
    phase: PreparePhase,
    event: SocketEvent,
)
    ensures
        match prepare_next(shown, phase, event) {
            NextView::Finished(Ok(_)) => bind_next(
                service,
                shown,
                BindPhaseView::Preparing(phase),
                event,
            ) == NextView::<BindPhaseView, SocketIdentity>::Continue(BindPhaseView::Listening),
            NextView::Finished(Err(reason)) => bind_next(
                service,
                shown,
                BindPhaseView::Preparing(phase),
                event,
            ) == NextView::<BindPhaseView, SocketIdentity>::Finished(Err(reason)),
            NextView::Continue(next) => bind_next(
                service,
                shown,
                BindPhaseView::Preparing(phase),
                event,
            ) == NextView::<BindPhaseView, SocketIdentity>::Continue(
                BindPhaseView::Preparing(next),
            ),
        },
        bind_asks(BindPhaseView::Preparing(phase)) == prepare_asks(phase),
{
}

/// What is found at a path decides what becomes of it: nothing frees it, a socket is looked
/// into, and anything else, or a failure, refuses it; a server that answers, or a probe that
/// fails otherwise than by refusal, keeps it; and a file that is gone or another one when it is
/// looked at again is kept.
pub proof fn law_paths_are_prepared_by_what_stands_there(
    shown: Seq<char>,
    stale: SocketIdentity,
    found: SocketIdentity,
    error: String,
)
    ensures
        prepare_next(
            shown,
            PreparePhase::Inspecting,
            SocketEvent::Inspected(Inspection::Missing),
        ) == NextView::<PreparePhase, ()>::Finished(Ok(())),
        prepare_next(
            shown,
            PreparePhase::Inspecting,
            SocketEvent::Inspected(Inspection::Socket),
        ) == NextView::<PreparePhase, ()>::Continue(PreparePhase::Identifying),
        prepare_next(
            shown,
            PreparePhase::Inspecting,
            SocketEvent::Inspected(Inspection::Other),
        ) == NextView::<PreparePhase, ()>::Finished(
            Err("refusing to replace non-socket path "@ + shown),
        ),
        prepare_next(
            shown,
            PreparePhase::Inspecting,
            SocketEvent::Inspected(Inspection::Failed(error)),
        ) == NextView::<PreparePhase, ()>::Finished(
            Err("could not inspect "@ + shown + ": "@ + error@),
        ),
        prepare_next(
            shown,
            PreparePhase::Identifying,
            SocketEvent::Looked(Lookup::Found(found)),
        ) == NextView::<PreparePhase, ()>::Continue(PreparePhase::Probing(found)),
        prepare_next(
            shown,
            PreparePhase::Identifying,
            SocketEvent::Looked(Lookup::Missing(error)),
        ) == NextView::<PreparePhase, ()>::Finished(
            Err("could not inspect "@ + shown + ": "@ + error@),
        ),
        prepare_next(
            shown,
            PreparePhase::Identifying,
            SocketEvent::Looked(Lookup::Failed(error)),
        ) == NextView::<PreparePhase, ()>::Finished(
            Err("could not inspect "@ + shown + ": "@ + error@),
        ),
        prepare_next(
            shown,
            PreparePhase::Probing(stale),
            SocketEvent::Probed(Probe::Connected),
        ) == NextView::<PreparePhase, ()>::Finished(
            Err("socket "@ + shown + " is already in use"@),
        ),
        prepare_next(
            shown,
            PreparePhase::Probing(stale),
            SocketEvent::Probed(Probe::Refused),
        ) == NextView::<PreparePhase, ()>::Continue(
            PreparePhase::Replacing(stale, RemovalPhase::Looking),
        ),
        prepare_next(
            shown,
            PreparePhase::Probing(stale),
            SocketEvent::Probed(Probe::Failed(error)),
        ) == NextView::<PreparePhase, ()>::Finished(
            Err("could not verify existing socket "@ + shown + ": "@ + error@),
        ),
        found != stale ==> prepare_next(
            shown,
            PreparePhase::Replacing(stale, RemovalPhase::Looking),
            SocketEvent::Looked(Lookup::Found(found)),
        ) == NextView::<PreparePhase, ()>::Finished(
            Err("socket "@ + shown + " changed while checking for staleness"@),
        ),
        prepare_next(
            shown,
            PreparePhase::Replacing(stale, RemovalPhase::Looking),
            SocketEvent::Looked(Lookup::Missing(error)),
        ) == NextView::<PreparePhase, ()>::Finished(
            Err("socket "@ + shown + " changed while checking for staleness"@),
        ),
        prepare_next(
            shown,
            PreparePhase::Replacing(stale, RemovalPhase::Looking),
            SocketEvent::Looked(Lookup::Failed(error)),
        ) == NextView::<PreparePhase, ()>::Finished(
            Err("could not inspect "@ + shown + ": "@ + error@),
        ),
        prepare_next(
            shown,
            PreparePhase::Replacing(stale, RemovalPhase::Removing),
            SocketEvent::Done(Err(error)),
        ) == NextView::<PreparePhase, ()>::Finished(
            Err("could not remove "@ + shown + ": "@ + error@),
        ),
{
}

/// A removal says whether it removed the file: it did if the path led to that very file and the
/// removal succeeded, it did not if the file was gone or another one, and it fails with the
/// reason if the file cannot be looked at or removed.
pub proof fn law_removals_say_what_they_did(
    shown: Seq<char>,
    own: SocketIdentity,
    found: SocketIdentity,
    error: String,
)
    ensures
        removal_asks(RemovalPhase::Looking) == SocketAction::Look,
        removal_asks(RemovalPhase::Removing) == SocketAction::Remove,
        found != own ==> removal_next(
            shown,
            own,
            RemovalPhase::Looking,
            SocketEvent::Looked(Lookup::Found(found)),
        ) == NextView::<RemovalPhase, bool>::Finished(Ok(false)),
        removal_next(
            shown,
            own,
            RemovalPhase::Looking,
            SocketEvent::Looked(Lookup::Missing(error)),
        ) == NextView::<RemovalPhase, bool>::Finished(Ok(false)),
        removal_next(
            shown,
            own,
            RemovalPhase::Looking,
            SocketEvent::Looked(Lookup::Failed(error)),
        ) == NextView::<RemovalPhase, bool>::Finished(
            Err("could not inspect "@ + shown + ": "@ + error@),
        ),
        removal_next(shown, own, RemovalPhase::Removing, SocketEvent::Done(Ok(()))) == NextView::<
            RemovalPhase,
            bool,
        >::Finished(Ok(true)),
        removal_next(shown, own, RemovalPhase::Removing, SocketEvent::Done(Err(error)))
            == NextView::<RemovalPhase, bool>::Finished(
            Err("could not remove "@ + shown + ": "@ + error@),
        ),
{
}

/// The name of a service.
pub open spec fn service_name(service: Service) -> Seq<char> {
    match service {
        Service::Automation => "automation"@,
        Service::Screenshot => "screenshot"@,
    }
}

/// A start that fails says why: at once while no file is its own, and after it has looked for
/// its own file, and removed it if it is still there, once it has one.
#[verifier::rlimit(40)]
pub proof fn law_failed_starts_say_why(
    service: Service,
    shown: Seq<char>,
    own: SocketIdentity,
    error: String,
    message: Seq<char>,
    removal: RemovalPhase,
    event: SocketEvent,
)
    ensures
        bind_next(service, shown, BindPhaseView::Listening, SocketEvent::Done(Err(error)))
            == NextView::<BindPhaseView, SocketIdentity>::Finished(
            Err("could not bind "@ + shown + ": "@ + error@),
        ),
        bind_next(
            service,
            shown,
            BindPhaseView::Claiming,
            SocketEvent::Looked(Lookup::Missing(error)),
        ) == NextView::<BindPhaseView, SocketIdentity>::Finished(
            Err("could not inspect "@ + shown + ": "@ + error@),
        ),
        bind_next(
            service,
            shown,
            BindPhaseView::Claiming,
            SocketEvent::Looked(Lookup::Failed(error)),
        ) == NextView::<BindPhaseView, SocketIdentity>::Finished(
            Err("could not inspect "@ + shown + ": "@ + error@),
        ),
        bind_next(
            service,
            shown,
            BindPhaseView::Restricting(own),
            SocketEvent::Done(Err(error)),
        ) == NextView::<BindPhaseView, SocketIdentity>::Continue(
            BindPhaseView::Abandoning(
                own,
                "could not set permissions on "@ + shown + ": "@ + error@,
                RemovalPhase::Looking,
            ),
        ),
        bind_next(
            service,
            shown,
            BindPhaseView::Configuring(own),
            SocketEvent::Done(Err(error)),
        ) == NextView::<BindPhaseView, SocketIdentity>::Continue(
            BindPhaseView::Closing(own, "could not configure "@ + shown + ": "@ + error@),
        ),
        bind_asks(BindPhaseView::Closing(own, message)) == SocketAction::CloseListener,
        event is Done ==> bind_next(service, shown, BindPhaseView::Closing(own, message), event)
            == NextView::<BindPhaseView, SocketIdentity>::Continue(
            BindPhaseView::Abandoning(own, message, RemovalPhase::Looking),
        ),
        bind_next(service, shown, BindPhaseView::Starting(own), SocketEvent::Done(Err(error)))
            == NextView::<BindPhaseView, SocketIdentity>::Continue(
            BindPhaseView::Abandoning(
                own,
                "could not start "@ + service_name(service) + " socket server: "@ + error@,
                RemovalPhase::Looking,
            ),
        ),
        bind_asks(BindPhaseView::Abandoning(own, message, removal)) == removal_asks(removal),
        match removal_next(shown, own, removal, event) {
            NextView::Continue(next) => bind_next(
                service,
                shown,
                BindPhaseView::Abandoning(own, message, removal),
                event,
            ) == NextView::<BindPhaseView, SocketIdentity>::Continue(
                BindPhaseView::Abandoning(own, message, next),
            ),
            NextView::Finished(_) => bind_next(
                service,
                shown,
                BindPhaseView::Abandoning(own, message, removal),
                event,
            ) == NextView::<BindPhaseView, SocketIdentity>::Finished(Err(message)),
        },
{
    reveal_strlit("could not start ");
    reveal_strlit("automation");
    reveal_strlit("screenshot");
    reveal_strlit(" socket server: ");
    reveal_strlit("could not start automation socket server: ");
    reveal_strlit("could not start screenshot socket server: ");
    assert("could not start "@ + "automation"@ + " socket server: "@
        =~= "could not start automation socket server: "@);
    assert("could not start "@ + "screenshot"@ + " socket server: "@
        =~= "could not start screenshot socket server: "@);
}

/// An event that answers nothing that was asked changes nothing.
pub proof fn law_only_answers_move_a_start(
    service: Service,
    shown: Seq<char>,
    phase: BindPhaseView,
    prepare: PreparePhase,
    removal: RemovalPhase,
    own: SocketIdentity,
    event: SocketEvent,
)
    ensures
        !answers(bind_asks(phase), event) ==> bind_next(service, shown, phase, event)
            == NextView::<BindPhaseView, SocketIdentity>::Continue(phase),
        !answers(prepare_asks(prepare), event) ==> prepare_next(shown, prepare, event)
            == NextView::<PreparePhase, ()>::Continue(prepare),
        !answers(removal_asks(removal), event) ==> removal_next(shown, own, removal, event)
            == NextView::<RemovalPhase, bool>::Continue(removal),
{
}

/// Phases, results and what follows are seen as what they hold.
pub proof fn law_phases_are_seen_as_they_are(
    prepare: PreparePhase,
    own: SocketIdentity,
    message: String,
    removal: RemovalPhase,
    phase: BindPhase,
)
    ensures
        BindPhase::Preparing(prepare)@ == BindPhaseView::Preparing(prepare),
        BindPhase::Listening@ == BindPhaseView::Listening,
        BindPhase::Claiming@ == BindPhaseView::Claiming,
        BindPhase::Restricting(own)@ == BindPhaseView::Restricting(own),
        BindPhase::Configuring(own)@ == BindPhaseView::Configuring(own),
        BindPhase::Starting(own)@ == BindPhaseView::Starting(own),
        BindPhase::Closing(own, message)@ == BindPhaseView::Closing(own, message@),
        BindPhase::Abandoning(own, message, removal)@ == BindPhaseView::Abandoning(
            own,
            message@,
            removal,
        ),
        bind_next_view(Next::Continue(phase)) == NextView::<
            BindPhaseView,
            SocketIdentity,
        >::Continue(phase@),
        bind_next_view(Next::Finished(Ok(own))) == NextView::<
            BindPhaseView,
            SocketIdentity,
        >::Finished(Ok(own)),
        bind_next_view(Next::Finished(Err(message))) == NextView::<
            BindPhaseView,
            SocketIdentity,
        >::Finished(Err(message@)),
        next_view(Next::<PreparePhase, ()>::Continue(prepare)) == NextView::<
            PreparePhase,
            (),
        >::Continue(prepare),
        next_view(Next::<PreparePhase, ()>::Finished(Ok(()))) == NextView::<
            PreparePhase,
            (),
        >::Finished(Ok(())),
        next_view(Next::<PreparePhase, ()>::Finished(Err(message))) == NextView::<
            PreparePhase,
            (),
        >::Finished(Err(message@)),
{
}

} // verus!
