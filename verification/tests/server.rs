use iced_dev_automation::relay::{stream_requests, RelayAction, RelayEvent};
use iced_dev_automation::server::{
    is_running, stops_on_drop, Server, ServerAction, ServerEvent, ServerPhase,
};
use iced_dev_automation::socket::Service;

/// Lets a client connect, and returns what is done with it.
fn connect(server: &mut Server) -> ServerAction {
    assert!(matches!(server.serve(ServerEvent::Checked(Some(false))), ServerAction::Accept));
    server.serve(ServerEvent::Accepted)
}

fn connect_four(server: &mut Server) {
    for _ in 0..4 {
        assert!(matches!(connect(server), ServerAction::StartClient));
        assert!(matches!(server.serve(ServerEvent::ClientStarted), ServerAction::Check));
    }
}

#[test]
fn a_server_runs_until_it_is_told_to_stop_or_its_socket_is_gone() {
    assert!(is_running(Some(false)));
    assert!(!is_running(Some(true)));
    assert!(!is_running(None));
    assert!(stops_on_drop(1));
    assert!(!stops_on_drop(2));
}

#[test]
fn the_fifth_client_is_refused() {
    let (mut server, action) = Server::new(Service::Automation);
    assert!(matches!(action, ServerAction::Check));
    connect_four(&mut server);
    match connect(&mut server) {
        ServerAction::Refuse(line) => assert_eq!(
            line,
            b"{\"code\":\"busy\",\"message\":\"too many concurrent automation requests\",\"status\":\"error\"}\n".to_vec()
        ),
        other => panic!("not refused: {:?}", other),
    }
    assert_eq!(server.clients, 4);
    assert!(matches!(server.serve(ServerEvent::Done), ServerAction::Check));

    server.client_finished();
    assert_eq!(server.clients, 3);
    assert!(matches!(connect(&mut server), ServerAction::StartClient));
}

#[test]
fn a_refused_screenshot_client_gets_an_error_line() {
    let (mut server, _) = Server::new(Service::Screenshot);
    connect_four(&mut server);
    match connect(&mut server) {
        ServerAction::Refuse(line) => {
            assert_eq!(line, b"ERR too many concurrent screenshot requests\n".to_vec());
        }
        other => panic!("not refused: {:?}", other),
    }
}

#[test]
fn a_client_that_could_not_be_started_does_not_count() {
    for (service, message) in [
        (Service::Automation, "automation socket could not handle client: no thread"),
        (Service::Screenshot, "screenshot socket could not handle client: no thread"),
    ] {
        let (mut server, _) = Server::new(service);
        assert!(matches!(connect(&mut server), ServerAction::StartClient));
        assert_eq!(server.clients, 1);
        match server.serve(ServerEvent::ClientNotStarted("no thread".to_owned())) {
            ServerAction::Report(text) => assert_eq!(text, message),
            other => panic!("not reported: {:?}", other),
        }
        assert_eq!(server.clients, 0);
    }
}

#[test]
fn a_server_polls_and_goes_on_after_interruptions() {
    let (mut server, _) = Server::new(Service::Automation);
    server.serve(ServerEvent::Checked(Some(false)));
    assert!(matches!(server.serve(ServerEvent::WouldBlock), ServerAction::Pause));
    assert!(matches!(server.serve(ServerEvent::Done), ServerAction::Check));
    server.serve(ServerEvent::Checked(Some(false)));
    assert!(matches!(server.serve(ServerEvent::Interrupted), ServerAction::Check));
}

#[test]
fn a_stopped_server_removes_its_socket() {
    for shutdown in [Some(true), None] {
        let (mut server, _) = Server::new(Service::Screenshot);
        let action = server.serve(ServerEvent::Checked(shutdown));
        assert!(matches!(action, ServerAction::RemoveSocket));
        assert_eq!(server.phase, ServerPhase::Stopped);
        let action = server.serve(ServerEvent::Accepted);
        assert!(matches!(action, ServerAction::Nothing));
    }
}

#[test]
fn a_server_that_is_to_stop_removes_its_socket_from_wherever_it_stands() {
    let (mut server, _) = Server::new(Service::Automation);
    assert!(matches!(server.serve(ServerEvent::Checked(Some(false))), ServerAction::Accept));
    let mut asked = Vec::new();
    for event in [
        ServerEvent::Accepted,
        ServerEvent::ClientNotStarted("no thread".to_owned()),
        ServerEvent::Done,
        ServerEvent::Checked(Some(true)),
    ] {
        asked.push(server.serve(event));
    }
    assert!(matches!(asked[0], ServerAction::StartClient));
    assert!(matches!(asked[1], ServerAction::Report(_)));
    assert!(matches!(asked[2], ServerAction::Check));
    assert!(matches!(asked[3], ServerAction::RemoveSocket));
}

#[test]
fn an_accept_error_stops_the_server() {
    for (service, message) in [
        (Service::Automation, "automation socket accept error: bad file"),
        (Service::Screenshot, "screenshot socket accept error: bad file"),
    ] {
        let (mut server, _) = Server::new(service);
        server.serve(ServerEvent::Checked(Some(false)));
        match server.serve(ServerEvent::AcceptFailed("bad file".to_owned())) {
            ServerAction::Report(text) => assert_eq!(text, message),
            other => panic!("not reported: {:?}", other),
        }
        assert!(matches!(server.serve(ServerEvent::Done), ServerAction::RemoveSocket));
    }
}

#[test]
fn requests_are_relayed_until_either_side_ends() {
    assert!(matches!(stream_requests(RelayEvent::Received(Some(5))), RelayAction::Forward(5)));
    assert!(matches!(stream_requests::<i32>(RelayEvent::Received(None)), RelayAction::Stop));
    assert!(matches!(stream_requests::<i32>(RelayEvent::Forwarded(true)), RelayAction::Receive));
    assert!(matches!(stream_requests::<i32>(RelayEvent::Forwarded(false)), RelayAction::Stop));
}

#[test]
fn requests_are_relayed_once_and_in_order() {
    let mut queue = vec![3, 1, 2].into_iter();
    let mut forwarded = Vec::new();
    let mut action = RelayAction::Receive;
    loop {
        let event = match action {
            RelayAction::Receive => RelayEvent::Received(queue.next()),
            RelayAction::Forward(request) => {
                forwarded.push(request);
                RelayEvent::Forwarded(true)
            }
            RelayAction::Stop => break,
        };
        action = stream_requests(event);
    }
    assert_eq!(forwarded, vec![3, 1, 2]);
}
