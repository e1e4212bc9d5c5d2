use iced_dev_automation::server::{stops_on_drop, Server, ServerAction, ServerEvent};
use iced_dev_automation::socket::{
    begin_bind, bind, bind_action, prepare_action, prepare_socket_path, removal_action,
    remove_owned_socket_checked, socket_identity, BindPhase, Inspection, Lookup, Next,
    PreparePhase, Probe, RemovalPhase, Service, SocketAction, SocketEvent, SocketIdentity,
};

const OLD: SocketIdentity = SocketIdentity { device: 1, inode: 10 };
const NEW: SocketIdentity = SocketIdentity { device: 1, inode: 11 };

/// Starts a socket; the events answer what is asked, in order.
fn start(
    service: Service,
    events: Vec<SocketEvent>,
) -> (Vec<SocketAction>, Result<SocketIdentity, String>) {
    let mut phase = begin_bind();
    let mut asked = Vec::new();
    for event in events {
        asked.push(bind_action(&phase));
        match bind(service, "/run/app.sock", phase, event) {
            Next::Continue(next) => phase = next,
            Next::Finished(outcome) => return (asked, outcome),
        }
    }
    panic!("the start is not finished");
}

fn done() -> SocketEvent {
    SocketEvent::Done(Ok(()))
}

fn failed() -> SocketEvent {
    SocketEvent::Done(Err("denied".to_owned()))
}

fn found(identity: SocketIdentity) -> SocketEvent {
    SocketEvent::Looked(Lookup::Found(identity))
}

fn starts_private_and_is_removed(service: Service) {
    let (asked, outcome) = start(
        service,
        vec![
            SocketEvent::Inspected(Inspection::Missing),
            done(),
            found(NEW),
            done(),
            done(),
            done(),
        ],
    );
    assert_eq!(
        asked,
        vec![
            SocketAction::Inspect,
            SocketAction::Listen,
            SocketAction::Look,
            SocketAction::SetMode(0o600),
            SocketAction::SetNonblocking,
            SocketAction::StartServer(NEW),
        ]
    );
    assert_eq!(outcome, Ok(NEW));

    assert!(stops_on_drop(1));
    let (mut server, _) = Server::new(service);
    let action = server.serve(ServerEvent::Checked(Some(true)));
    assert!(matches!(action, ServerAction::RemoveSocket));
    assert_eq!(removal_action(RemovalPhase::Looking), SocketAction::Look);
    let next = remove_owned_socket_checked("s", NEW, RemovalPhase::Looking, found(NEW));
    assert!(matches!(next, Next::Continue(RemovalPhase::Removing)));
    assert_eq!(removal_action(RemovalPhase::Removing), SocketAction::Remove);
    let next = remove_owned_socket_checked("s", NEW, RemovalPhase::Removing, done());
    assert!(matches!(next, Next::Finished(Ok(true))));
}

fn keeps_a_live_socket(service: Service) {
    let (asked, outcome) = start(
        service,
        vec![
            SocketEvent::Inspected(Inspection::Socket),
            found(OLD),
            SocketEvent::Probed(Probe::Connected),
        ],
    );
    assert_eq!(asked, vec![SocketAction::Inspect, SocketAction::Look, SocketAction::Connect]);
    assert_eq!(outcome, Err("socket /run/app.sock is already in use".to_owned()));
}

fn keeps_a_regular_file(service: Service) {
    let other = || SocketEvent::Inspected(Inspection::Other);
    assert!(matches!(
        prepare_socket_path("/run/app.sock", PreparePhase::Inspecting, other()),
        Next::Finished(Err(_))
    ));
    let (asked, outcome) = start(service, vec![other()]);
    assert_eq!(asked, vec![SocketAction::Inspect]);
    assert_eq!(outcome, Err("refusing to replace non-socket path /run/app.sock".to_owned()));
}

#[test]
fn automation_uses_private_permissions_and_removes_the_socket_on_drop() {
    starts_private_and_is_removed(Service::Automation);
}

#[test]
fn screenshot_uses_private_permissions_and_removes_the_socket_on_drop() {
    starts_private_and_is_removed(Service::Screenshot);
}

#[test]
fn automation_does_not_replace_a_live_socket() {
    keeps_a_live_socket(Service::Automation);
}

#[test]
fn screenshot_does_not_replace_a_live_socket() {
    keeps_a_live_socket(Service::Screenshot);
}

#[test]
fn automation_refuses_to_replace_a_regular_file() {
    keeps_a_regular_file(Service::Automation);
}

#[test]
fn screenshot_refuses_to_replace_a_regular_file() {
    keeps_a_regular_file(Service::Screenshot);
}

#[test]
fn a_stale_socket_is_replaced() {
    let (asked, outcome) = start(
        Service::Screenshot,
        vec![
            SocketEvent::Inspected(Inspection::Socket),
            found(OLD),
            SocketEvent::Probed(Probe::Refused),
            found(OLD),
            done(),
            done(),
            found(NEW),
            done(),
            done(),
            done(),
        ],
    );
    assert_eq!(
        asked[..6],
        [
            SocketAction::Inspect,
            SocketAction::Look,
            SocketAction::Connect,
            SocketAction::Look,
            SocketAction::Remove,
            SocketAction::Listen,
        ]
    );
    assert_eq!(outcome, Ok(NEW));
}

#[test]
fn a_socket_that_changes_while_it_is_checked_is_kept() {
    for change in [found(NEW), SocketEvent::Looked(Lookup::Missing("gone".to_owned()))] {
        let (asked, outcome) = start(
            Service::Automation,
            vec![
                SocketEvent::Inspected(Inspection::Socket),
                found(OLD),
                SocketEvent::Probed(Probe::Refused),
                change,
            ],
        );
        assert!(!asked.contains(&SocketAction::Remove));
        assert_eq!(
            outcome,
            Err("socket /run/app.sock changed while checking for staleness".to_owned())
        );
    }
}

#[test]
fn preparation_failures_say_what_failed() {
    let looked = || SocketEvent::Looked(Lookup::Failed("denied".to_owned()));
    for (phase, event, message) in [
        (
            PreparePhase::Inspecting,
            SocketEvent::Inspected(Inspection::Failed("denied".to_owned())),
            "could not inspect p: denied",
        ),
        (PreparePhase::Identifying, looked(), "could not inspect p: denied"),
        (
            PreparePhase::Identifying,
            SocketEvent::Looked(Lookup::Missing("gone".to_owned())),
            "could not inspect p: gone",
        ),
        (
            PreparePhase::Probing(OLD),
            SocketEvent::Probed(Probe::Failed("denied".to_owned())),
            "could not verify existing socket p: denied",
        ),
        (
            PreparePhase::Replacing(OLD, RemovalPhase::Looking),
            looked(),
            "could not inspect p: denied",
        ),
        (
            PreparePhase::Replacing(OLD, RemovalPhase::Removing),
            failed(),
            "could not remove p: denied",
        ),
    ] {
        match prepare_socket_path("p", phase, event) {
            Next::Finished(Err(error)) => assert_eq!(error, message),
            other => panic!("not refused: {:?}", other),
        }
    }
    assert_eq!(
        socket_identity("p", Lookup::Failed("denied".to_owned())),
        Err("could not inspect p: denied".to_owned())
    );
    assert_eq!(socket_identity("p", Lookup::Found(OLD)), Ok(OLD));
}

#[test]
fn a_start_that_fails_cleans_up_after_itself() {
    let begun = || vec![SocketEvent::Inspected(Inspection::Missing), done(), found(NEW)];
    let clean_up = [SocketAction::Look, SocketAction::Remove];

    let mut events = begun();
    events.extend([failed(), found(NEW), done()]);
    let (asked, outcome) = start(Service::Automation, events);
    assert_eq!(asked[4..], clean_up);
    assert_eq!(outcome, Err("could not set permissions on /run/app.sock: denied".to_owned()));

    let mut events = begun();
    events.extend([done(), failed(), done(), found(NEW), done()]);
    let (asked, outcome) = start(Service::Automation, events);
    assert_eq!(asked[5], SocketAction::CloseListener);
    assert_eq!(asked[6..], clean_up);
    assert_eq!(outcome, Err("could not configure /run/app.sock: denied".to_owned()));

    let mut events = begun();
    events.extend([done(), done(), failed(), found(NEW), failed()]);
    let (asked, outcome) = start(Service::Automation, events);
    assert_eq!(asked[6..], clean_up);
    assert_eq!(outcome, Err("could not start automation socket server: denied".to_owned()));

    let mut events = begun();
    events.extend([done(), done(), failed(), found(OLD)]);
    let (asked, outcome) = start(Service::Screenshot, events);
    assert_eq!(asked[6..], [SocketAction::Look]);
    assert_eq!(outcome, Err("could not start screenshot socket server: denied".to_owned()));
}

#[test]
fn a_start_without_a_listener_or_an_identity_fails() {
    let (_, outcome) =
        start(Service::Automation, vec![SocketEvent::Inspected(Inspection::Missing), failed()]);
    assert_eq!(outcome, Err("could not bind /run/app.sock: denied".to_owned()));
    let (_, outcome) = start(
        Service::Automation,
        vec![
            SocketEvent::Inspected(Inspection::Missing),
            done(),
            SocketEvent::Looked(Lookup::Missing("gone".to_owned())),
        ],
    );
    assert_eq!(outcome, Err("could not inspect /run/app.sock: gone".to_owned()));
}

#[test]
fn events_that_answer_nothing_change_nothing() {
    let next = bind(Service::Automation, "p", BindPhase::Listening, found(OLD));
    assert!(matches!(next, Next::Continue(BindPhase::Listening)));
    let next = prepare_socket_path("p", PreparePhase::Probing(OLD), done());
    assert!(matches!(next, Next::Continue(PreparePhase::Probing(OLD))));
    assert_eq!(prepare_action(PreparePhase::Probing(OLD)), SocketAction::Connect);
    let next = remove_owned_socket_checked("p", OLD, RemovalPhase::Removing, found(OLD));
    assert!(matches!(next, Next::Continue(RemovalPhase::Removing)));
}
