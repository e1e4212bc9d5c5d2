//! The server of a socket: which clients it takes, and when it stops.
//!
//! [`Server::serve`] says what is done next; accepting, starting threads and
//! waiting are the caller's.

use crate::json;
use crate::screenshot;
use crate::socket;
use vstd::prelude::*;
use vstd::utf8::*;

verus! {

/// How many clients are served at once.
pub const MAX_CLIENTS: usize = 4;

/// How long the server waits when no client is there, in milliseconds.
pub const ACCEPT_POLL_MILLISECONDS: u64 = 20;

/// Whether a server goes on. `shutdown` is the flag by which its socket tells it to
/// stop, or nothing if the socket is gone.
pub fn is_running(shutdown: Option<bool>) -> (running: bool)
    ensures
        running == (shutdown == Some(false)),
{
    match shutdown {
        Some(stop) => !stop,
        None => false,
    }
}

/// Whether one of `owners` is the last one.
pub open spec fn is_last(owners: int) -> bool {
    owners == 1
}

/// Whether the server is told to stop when one of `owners` of a socket is dropped: it is
/// when that was the last one.
pub fn stops_on_drop(owners: usize) -> (stops: bool)
    ensures
        stops == (owners == 1),
        stops == is_last(owners as int),
{
    owners == 1
}

/// Where a server stands.
#[derive(Debug, Clone, Copy, PartialEq, Eq, Structural)]
pub enum ServerPhase {
    Checking,
    Accepting,
    Starting,
    Stopping,
    Stopped,
}

/// What came of what was asked.
#[derive(Debug)]
pub enum ServerEvent {
    /// The shutdown flag was read; nothing if the socket is gone.
    Checked(Option<bool>),
    /// A client has connected.
    Accepted,
    /// No client is there.
    WouldBlock,
    /// The wait for a client was interrupted.
    Interrupted,
    /// No client can be accepted, with the text of the error.
    AcceptFailed(String),
    /// The client is served by a thread of its own.
    ClientStarted,
    /// No thread could be started for the client, with the text of the error.
    ClientNotStarted(String),
    /// What was asked was done.
    Done,
}

/// What the caller does next.
#[derive(Debug)]
pub enum ServerAction {
    /// Reads the shutdown flag.
    Check,
    /// Accepts a client, if one is there.
    Accept,
    /// Starts a thread that serves the client, and calls
    /// [`Server::client_finished`] when it has.
    StartClient,
    /// Writes these bytes to the client and closes the connection.
    Refuse(Vec<u8>),
    /// Waits for [`ACCEPT_POLL_MILLISECONDS`].
    Pause,
    /// Reports a text.
    Report(String),
    /// Removes the socket's file, if it is still the socket's own, and ends.
    RemoveSocket,
    /// Does nothing.
    Nothing,
}

/// A server, with the number of clients that it serves.
#[derive(Debug)]
pub struct Server {
    pub service: socket::Service,
    pub phase: ServerPhase,
    pub clients: usize,
}

/// Whether `bytes` tell a client that too many are served.
pub open spec fn is_busy_reply(service: socket::Service, bytes: Seq<u8>) -> bool {
    match service {
        socket::Service::Automation => json::is_response(
            bytes,
            json::error_view("busy"@, "too many concurrent automation requests"@),
        ),
        socket::Service::Screenshot => bytes == screenshot::error_line(
            "too many concurrent screenshot requests"@,
        ),
    }
}

/// The beginning of the message that no client can be accepted.
pub open spec fn accept_failure(service: socket::Service) -> Seq<char> {
    match service {
        socket::Service::Automation => "automation socket accept error: "@,
        socket::Service::Screenshot => "screenshot socket accept error: "@,
    }
}

/// The beginning of the message that a client cannot be served.
pub open spec fn client_failure(service: socket::Service) -> Seq<char> {
    match service {
        socket::Service::Automation => "automation socket could not handle client: "@,
        socket::Service::Screenshot => "screenshot socket could not handle client: "@,
    }
}

/// The server as it is in another phase, with other clients.
pub open spec fn moved(server: Server, phase: ServerPhase, clients: int) -> Server {
    Server { service: server.service, phase, clients: clients as usize }
}

/// The server when one of its clients has been served.
pub open spec fn without_one(server: Server) -> Server {
    moved(server, server.phase, server.clients - 1)
}

/// How a server goes on: after `event` it is `next`, and the caller does `action`. An
/// event that answers nothing that was asked changes nothing.
pub open spec fn server_step(
    server: Server,
    event: ServerEvent,
    next: Server,
    action: ServerAction,
) -> bool {
    let clients = server.clients as int;
    match (server.phase, event) {
        (ServerPhase::Checking, ServerEvent::Checked(shutdown)) => if shutdown == Some(false) {
            next == moved(server, ServerPhase::Accepting, clients) && action
                == ServerAction::Accept
        } else {
            next == moved(server, ServerPhase::Stopped, clients) && action
                == ServerAction::RemoveSocket
        },
        (ServerPhase::Checking, ServerEvent::Done) => next == server && action
            == ServerAction::Check,
        (ServerPhase::Accepting, ServerEvent::Accepted) => if clients >= MAX_CLIENTS {
            next == moved(server, ServerPhase::Checking, clients)
                && (action matches ServerAction::Refuse(bytes) && is_busy_reply(
                server.service,
                bytes@,
            ))
        } else {
            next == moved(server, ServerPhase::Starting, clients + 1) && action
                == ServerAction::StartClient
        },
        (ServerPhase::Accepting, ServerEvent::WouldBlock) => next == moved(
            server,
            ServerPhase::Checking,
            clients,
        ) && action == ServerAction::Pause,
        (ServerPhase::Accepting, ServerEvent::Interrupted) => next == moved(
            server,
            ServerPhase::Checking,
            clients,
        ) && action == ServerAction::Check,
        (ServerPhase::Accepting, ServerEvent::AcceptFailed(error)) => next == moved(
            server,
            ServerPhase::Stopping,
            clients,
        ) && (action matches ServerAction::Report(text) && text@ == accept_failure(server.service)
            + error@),
        (ServerPhase::Starting, ServerEvent::ClientStarted) => next == moved(
            server,
            ServerPhase::Checking,
            clients,
        ) && action == ServerAction::Check,
        (ServerPhase::Starting, ServerEvent::ClientNotStarted(error)) => next == moved(
            server,
            ServerPhase::Checking,
            clients - 1,
        ) && (action matches ServerAction::Report(text) && text@ == client_failure(server.service)
            + error@),
        (ServerPhase::Stopping, ServerEvent::Done) => next == moved(
            server,
            ServerPhase::Stopped,
            clients,
        ) && action == ServerAction::RemoveSocket,
        _ => next == server && action == ServerAction::Nothing,
    }
}

impl Server {
    /// Whether no more clients are served than may be.
    pub open spec fn well_formed(&self) -> bool {
        self.clients <= MAX_CLIENTS
    }

    /// A server without clients, and what it asks first.
    pub fn new(service: socket::Service) -> (started: (Self, ServerAction))
        ensures
            started.0 == (Server { service, phase: ServerPhase::Checking, clients: 0 }),
            started.1 == ServerAction::Check,
            started.0.well_formed(),
    {
        (Server { service, phase: ServerPhase::Checking, clients: 0 }, ServerAction::Check)
    }

    /// Says what is done after `event`.
    pub fn serve(&mut self, event: ServerEvent) -> (action: ServerAction)
        requires
            old(self).phase == ServerPhase::Starting && event is ClientNotStarted ==> old(
                self,
            ).clients > 0,
        ensures
            server_step(*old(self), event, *final(self), action),
            old(self).well_formed() ==> final(self).well_formed(),
    {
        match (self.phase, event) {
            (ServerPhase::Checking, ServerEvent::Checked(shutdown)) => if is_running(shutdown) {
                self.phase = ServerPhase::Accepting;
                ServerAction::Accept
            } else {
                self.phase = ServerPhase::Stopped;
                ServerAction::RemoveSocket
            },
            (ServerPhase::Checking, ServerEvent::Done) => ServerAction::Check,
            (ServerPhase::Accepting, ServerEvent::Accepted) => if self.clients >= MAX_CLIENTS {
                self.phase = ServerPhase::Checking;
                ServerAction::Refuse(busy_reply(self.service))
            } else {
                self.clients = self.clients + 1;
                self.phase = ServerPhase::Starting;
                ServerAction::StartClient
            },
            (ServerPhase::Accepting, ServerEvent::WouldBlock) => {
                self.phase = ServerPhase::Checking;
                ServerAction::Pause
            },
            (ServerPhase::Accepting, ServerEvent::Interrupted) => {
                self.phase = ServerPhase::Checking;
                ServerAction::Check
            },
            (ServerPhase::Accepting, ServerEvent::AcceptFailed(error)) => {
                self.phase = ServerPhase::Stopping;
                let failure: &str = match self.service {
                    socket::Service::Automation => "automation socket accept error: ",
                    socket::Service::Screenshot => "screenshot socket accept error: ",
                };
                ServerAction::Report(failure.to_owned().concat(error.as_str()))
            },
            (ServerPhase::Starting, ServerEvent::ClientStarted) => {
                self.phase = ServerPhase::Checking;
                ServerAction::Check
            },
            (ServerPhase::Starting, ServerEvent::ClientNotStarted(error)) => {
                self.clients = self.clients - 1;
                self.phase = ServerPhase::Checking;
                let failure: &str = match self.service {
                    socket::Service::Automation => "automation socket could not handle client: ",
                    socket::Service::Screenshot => "screenshot socket could not handle client: ",
                };
                ServerAction::Report(failure.to_owned().concat(error.as_str()))
            },
            (ServerPhase::Stopping, ServerEvent::Done) => {
                self.phase = ServerPhase::Stopped;
                ServerAction::RemoveSocket
            },
            _ => ServerAction::Nothing,
        }
    }

    /// Takes note that one of the clients has been served.
    pub fn client_finished(&mut self)
        requires
            old(self).clients > 0,
        ensures
            *final(self) == moved(*old(self), old(self).phase, old(self).clients - 1),
            *final(self) == without_one(*old(self)),
    {
        self.clients = self.clients - 1;
    }
}

/// Tells a client that too many are served.
fn busy_reply(service: socket::Service) -> (bytes: Vec<u8>)
    ensures
        is_busy_reply(service, bytes@),
{
    match service {
        socket::Service::Automation => {
            let reply: serde_json::Value = json::error_reply(
                "busy",
                "too many concurrent automation requests",
            );
            json::write_response(&reply)
        },
        socket::Service::Screenshot => screenshot::write_error(
            "too many concurrent screenshot requests",
        ),
    }
}

/// Something that happens to a server.
pub enum ServerMove {
    /// [`Server::serve`] was called.
    Served(ServerEvent, ServerAction),
    /// [`Server::client_finished`] was called.
    Finished,
}

/// Whether a move leads from `server` to `next`.
pub open spec fn server_move(server: Server, happens: ServerMove, next: Server) -> bool {
    match happens {
        ServerMove::Served(event, action) => {
            &&& server.phase == ServerPhase::Starting && event is ClientNotStarted
                ==> server.clients > 0
            &&& server_step(server, event, next, action)
        },
        ServerMove::Finished => server.clients > 0 && next == without_one(server),
    }
}

/// Whether `moves` lead a server from its start through `servers`.
pub open spec fn server_run(servers: Seq<Server>, moves: Seq<ServerMove>) -> bool {
    &&& servers.len() == moves.len() + 1
    &&& servers[0].phase == ServerPhase::Checking
    &&& servers[0].clients == 0
    &&& forall|i: int|
        #![trigger moves[i]]
        0 <= i < moves.len() ==> server_move(servers[i], moves[i], servers[i + 1])
}

/// By how much a move changes the number of clients that were asked to be served and are
/// not done.
pub open spec fn gain(server: Server, happens: ServerMove) -> int {
    match happens {
        ServerMove::Served(_, ServerAction::StartClient) => 1,
        ServerMove::Served(ServerEvent::ClientNotStarted(_), _) => if server.phase
            == ServerPhase::Starting {
            -1
        } else {
            0
        },
        ServerMove::Served(_, _) => 0,
        ServerMove::Finished => -1,
    }
}

/// How many clients have been asked to be served and are not done, after `moves`.
pub open spec fn clients_served(servers: Seq<Server>, moves: Seq<ServerMove>) -> int
    decreases moves.len(),
{
    if moves.len() == 0 {
        0
    } else {
        clients_served(servers, moves.drop_last()) + gain(
            servers[moves.len() - 1],
            moves.last(),
        )
    }
}

/// A server never serves more than four clients at once, and it counts them right.
pub proof fn law_at_most_four_clients(servers: Seq<Server>, moves: Seq<ServerMove>)
    requires
        server_run(servers, moves),
    ensures
        servers.last().clients == clients_served(servers, moves),
        0 <= clients_served(servers, moves) <= 4,
    decreases moves.len(),
{
    if moves.len() > 0 {
        let earlier = servers.drop_last();
        let rest = moves.drop_last();
        assert forall|i: int| #![trigger rest[i]] 0 <= i < rest.len() implies server_move(
            earlier[i],
            rest[i],
            earlier[i + 1],
        ) by {
            assert(rest[i] == moves[i]);
        }
        law_at_most_four_clients(earlier, rest);
        lemma_same_count(servers, earlier, rest);
        assert(server_move(
            servers[moves.len() - 1],
            moves[moves.len() - 1],
            servers[moves.len() as int],
        ));
    }
}

/// The count looks at no server after the last move.
proof fn lemma_same_count(servers: Seq<Server>, earlier: Seq<Server>, moves: Seq<ServerMove>)
    requires
        moves.len() <= earlier.len() <= servers.len(),
        forall|i: int| 0 <= i < earlier.len() ==> servers[i] == earlier[i],
    ensures
        clients_served(servers, moves) == clients_served(earlier, moves),
    decreases moves.len(),
{
    if moves.len() > 0 {
        lemma_same_count(servers, earlier, moves.drop_last());
    }
}

/// A client is told that too many are served exactly when four are.
pub proof fn law_refused_when_four_are_served(
    server: Server,
    next: Server,
    action: ServerAction,
)
    requires
        server.phase == ServerPhase::Accepting,
        server_step(server, ServerEvent::Accepted, next, action),
        server.well_formed(),
    ensures
        action is Refuse <==> server.clients == 4,
        action is StartClient <==> server.clients < 4,
{
}

/// Whether `action` is what a server in `phase` has asked for last.
pub open spec fn has_asked(phase: ServerPhase, action: ServerAction) -> bool {
    match phase {
        ServerPhase::Checking => action is Check || action is Refuse || action is Pause || action
            is Report,
        ServerPhase::Accepting => action is Accept,
        ServerPhase::Starting => action is StartClient,
        ServerPhase::Stopping => action is Report,
        ServerPhase::Stopped => action is RemoveSocket,
    }
}

/// Whether `event` answers what was asked.
pub open spec fn answers(action: ServerAction, event: ServerEvent) -> bool {
    match action {
        ServerAction::Check => event is Checked,
        ServerAction::Accept => event is Accepted || event is WouldBlock || event is Interrupted
            || event is AcceptFailed,
        ServerAction::StartClient => event is ClientStarted || event is ClientNotStarted,
        ServerAction::Refuse(_) => event is Done,
        ServerAction::Pause => event is Done,
        ServerAction::Report(_) => event is Done,
        ServerAction::RemoveSocket => false,
        ServerAction::Nothing => false,
    }
}

/// Whether an event, if it tells of the shutdown flag, tells that the socket is gone or wants
/// the server to stop.
pub open spec fn wants_stop(event: ServerEvent) -> bool {
    event matches ServerEvent::Checked(shutdown) ==> shutdown != Some(false)
}

/// How many answers a server that is to stop still needs, at most, until it asks for the
/// removal of the socket's file.
pub open spec fn answers_left(phase: ServerPhase, action: ServerAction) -> int {
    match phase {
        ServerPhase::Checking => if action is Check {
            1
        } else {
            2
        },
        ServerPhase::Accepting => 4,
        ServerPhase::Starting => 3,
        ServerPhase::Stopping => 1,
        ServerPhase::Stopped => 0,
    }
}

/// One call of [`Server::serve`]: the server and what it has asked for before it, and the
/// server and what it asks for after it.
pub struct ServerTurn {
    pub server: Server,
    pub asked: ServerAction,
    pub event: ServerEvent,
    pub next: Server,
    pub action: ServerAction,
}

/// Whether `turns` follow each other, each with an answer to what was asked. Between two of
/// them clients may have finished, which changes no phase.
pub open spec fn turns_follow(turns: Seq<ServerTurn>) -> bool {
    &&& forall|i: int|
        #![trigger turns[i]]
        0 <= i < turns.len() ==> answers(turns[i].asked, turns[i].event) && server_step(
            turns[i].server,
            turns[i].event,
            turns[i].next,
            turns[i].action,
        )
    &&& forall|i: int|
        #![trigger turns[i]]
        0 < i < turns.len() ==> turns[i].server.phase == turns[i - 1].next.phase
            && turns[i].asked == turns[i - 1].action
}

/// Each answer brings a server that is to stop closer to its end.
proof fn lemma_closer_to_the_end(turn: ServerTurn)
    requires
        has_asked(turn.server.phase, turn.asked),
        answers(turn.asked, turn.event),
        wants_stop(turn.event),
        server_step(turn.server, turn.event, turn.next, turn.action),
    ensures
        has_asked(turn.next.phase, turn.action),
        0 <= answers_left(turn.next.phase, turn.action) < answers_left(
            turn.server.phase,
            turn.asked,
        ),
{
}

/// What is left after each turn, of a server that is to stop.
proof fn lemma_answers_left(turns: Seq<ServerTurn>, index: int)
    requires
        turns_follow(turns),
        0 <= index < turns.len(),
        has_asked(turns[0].server.phase, turns[0].asked),
        forall|i: int| #![trigger turns[i]] 0 <= i < turns.len() ==> wants_stop(turns[i].event),
    ensures
        has_asked(turns[index].next.phase, turns[index].action),
        0 <= answers_left(turns[index].next.phase, turns[index].action) <= 3 - index,
    decreases index,
{
    if index > 0 {
        lemma_answers_left(turns, index - 1);
        assert(turns[index].server.phase == turns[index - 1].next.phase);
    }
    assert(answers(turns[index].asked, turns[index].event));
    assert(wants_stop(turns[index].event));
    lemma_closer_to_the_end(turns[index]);
}

/// A server whose socket is gone, or tells it to stop, asks for the removal of the socket's
/// file, wherever it stands: it asks with the fourth answer that it gets, if it has not asked
/// before. Once it has asked, there is nothing more to answer.
pub proof fn law_dropped_sockets_are_removed(turns: Seq<ServerTurn>)
    requires
        turns_follow(turns),
        turns.len() > 0,
        has_asked(turns[0].server.phase, turns[0].asked),
        forall|i: int| #![trigger turns[i]] 0 <= i < turns.len() ==> wants_stop(turns[i].event),
    ensures
        turns.len() <= 4,
        turns.len() == 4 ==> turns.last().action == ServerAction::RemoveSocket,
        turns.last().action == ServerAction::RemoveSocket <==> turns.last().next.phase
            == ServerPhase::Stopped,
        turns.last().action != ServerAction::RemoveSocket ==> exists|event: ServerEvent| #[trigger]
            answers(turns.last().action, event) && wants_stop(event),
{
    lemma_answers_left(turns, turns.len() - 1);
    let action = turns.last().action;
    assert(answers(ServerAction::Check, ServerEvent::Checked(None)));
    assert(wants_stop(ServerEvent::Checked(None)));
    if action is Accept {
        assert(answers(action, ServerEvent::WouldBlock));
    } else if action is StartClient {
        assert(answers(action, ServerEvent::ClientStarted));
    } else if action is Refuse || action is Pause || action is Report {
        assert(answers(action, ServerEvent::Done));
    }
}

/// How often the removal of the socket's file was asked for in `moves`.
pub open spec fn removals(moves: Seq<ServerMove>) -> int
    decreases moves.len(),
{
    if moves.len() == 0 {
        0
    } else {
        removals(moves.drop_last()) + if moves.last() matches ServerMove::Served(_, action)
            && action is RemoveSocket {
            1int
        } else {
            0int
        }
    }
}

/// The removal of the socket's file is asked for once, and with it the server has ended.
pub proof fn law_socket_is_removed_once(servers: Seq<Server>, moves: Seq<ServerMove>)
    requires
        server_run(servers, moves),
    ensures
        removals(moves) == if servers.last().phase == ServerPhase::Stopped {
            1int
        } else {
            0int
        },
    decreases moves.len(),
{
    if moves.len() > 0 {
        let earlier = servers.drop_last();
        let rest = moves.drop_last();
        assert forall|i: int| #![trigger rest[i]] 0 <= i < rest.len() implies server_move(
            earlier[i],
            rest[i],
            earlier[i + 1],
        ) by {
            assert(rest[i] == moves[i]);
        }
        law_socket_is_removed_once(earlier, rest);
        assert(server_move(
            servers[moves.len() - 1],
            moves[moves.len() - 1],
            servers[moves.len() as int],
        ));
    }
}

/// A server goes on until it is told to stop: it asks for the removal of the socket's file, or
/// is about to, only after its socket was found gone or wanting it to stop, or after no client
/// could be accepted, however many clients it serves.
pub proof fn law_servers_go_on(
    server: Server,
    asked: ServerAction,
    event: ServerEvent,
    next: Server,
    action: ServerAction,
)
    requires
        server_step(server, event, next, action),
        has_asked(server.phase, asked),
        answers(asked, event),
    ensures
        action is RemoveSocket || next.phase == ServerPhase::Stopping || next.phase
            == ServerPhase::Stopped ==> {
            ||| event matches ServerEvent::Checked(shutdown) && shutdown != Some(false)
            ||| event is AcceptFailed
            ||| server.phase == ServerPhase::Stopping
        },
        !(event is AcceptFailed) && server.phase != ServerPhase::Stopping && !(event
            matches ServerEvent::Checked(shutdown) && shutdown != Some(false)) ==> {
            ||| next.phase == ServerPhase::Checking
            ||| next.phase == ServerPhase::Accepting
            ||| next.phase == ServerPhase::Starting
        },
        action is RemoveSocket <==> next.phase == ServerPhase::Stopped,
        has_asked(next.phase, action),
        next.service == server.service,
{
}

/// A server looks whether it is to stop before each client that it accepts, waits when no
/// client is there, goes on at once after an interruption or when a client is served, and
/// reports what it could not do. An event that answers nothing changes nothing.
#[verifier::rlimit(40)]
pub proof fn law_servers_accept_one_client_after_the_other(
    server: Server,
    event: ServerEvent,
    next: Server,
    action: ServerAction,
)
    requires
        server_step(server, event, next, action),
    ensures
        action is Accept <==> server.phase == ServerPhase::Checking && event
            == ServerEvent::Checked(Some(false)),
        next.phase == ServerPhase::Accepting && server.phase != ServerPhase::Accepting
            ==> action is Accept,
        action is Accept ==> next.phase == ServerPhase::Accepting,
        action is Pause <==> server.phase == ServerPhase::Accepting && event is WouldBlock,
        action is Pause ==> next.phase == ServerPhase::Checking,
        server.phase == ServerPhase::Accepting && event is Interrupted ==> action is Check
            && next.phase == ServerPhase::Checking,
        server.phase == ServerPhase::Starting && event is ClientStarted ==> action is Check
            && next.phase == ServerPhase::Checking,
        server.phase == ServerPhase::Checking && event is Done ==> action is Check && next
            == server,
        server.phase == ServerPhase::Checking && (event matches ServerEvent::Checked(shutdown)
            && shutdown != Some(false)) ==> action is RemoveSocket && next.phase
            == ServerPhase::Stopped,
        server.phase == ServerPhase::Stopping && event is Done ==> action is RemoveSocket
            && next.phase == ServerPhase::Stopped,
        server.phase == ServerPhase::Stopped ==> next == server && action is Nothing,
        action is Nothing ==> next == server,
        server.phase == ServerPhase::Accepting ==> (event matches ServerEvent::AcceptFailed(error)
            ==> next.phase == ServerPhase::Stopping && (action matches ServerAction::Report(text)
            && text@ == (match server.service {
            socket::Service::Automation => "automation"@,
            socket::Service::Screenshot => "screenshot"@,
        }) + " socket accept error: "@ + error@)),
        server.phase == ServerPhase::Starting ==> (event matches ServerEvent::ClientNotStarted(
            error,
        ) ==> next.phase == ServerPhase::Checking && (action matches ServerAction::Report(text)
            && text@ == (match server.service {
            socket::Service::Automation => "automation"@,
            socket::Service::Screenshot => "screenshot"@,
        }) + " socket could not handle client: "@ + error@)),
        next.service == server.service,
{
    reveal_strlit("automation");
    reveal_strlit("screenshot");
    reveal_strlit(" socket accept error: ");
    reveal_strlit(" socket could not handle client: ");
    reveal_strlit("automation socket accept error: ");
    reveal_strlit("screenshot socket accept error: ");
    reveal_strlit("automation socket could not handle client: ");
    reveal_strlit("screenshot socket could not handle client: ");
    assert("automation"@ + " socket accept error: "@ =~= "automation socket accept error: "@);
    assert("screenshot"@ + " socket accept error: "@ =~= "screenshot socket accept error: "@);
    assert("automation"@ + " socket could not handle client: "@
        =~= "automation socket could not handle client: "@);
    assert("screenshot"@ + " socket could not handle client: "@
        =~= "screenshot socket could not handle client: "@);
}

/// The number of clients grows by one with each that is to be served, shrinks by one with each
/// that could not be, and changes with nothing else that the server is told. A client is served
/// whenever fewer than four are; the fifth is told that too many are.
#[verifier::rlimit(40)]
pub proof fn law_clients_are_counted(
    server: Server,
    event: ServerEvent,
    next: Server,
    action: ServerAction,
)
    requires
        server_step(server, event, next, action),
        server.well_formed(),
        server.phase == ServerPhase::Starting && event is ClientNotStarted ==> server.clients > 0,
    ensures
        next.clients - server.clients == if action is StartClient {
            1int
        } else if server.phase == ServerPhase::Starting && event is ClientNotStarted {
            -1int
        } else {
            0int
        },
        action is StartClient <==> server.phase == ServerPhase::Accepting && event is Accepted
            && server.clients < 4,
        action is StartClient <==> next.phase == ServerPhase::Starting && server.phase
            != ServerPhase::Starting,
        action is Refuse <==> server.phase == ServerPhase::Accepting && event is Accepted
            && server.clients == 4,
        action matches ServerAction::Refuse(bytes) ==> next.phase == ServerPhase::Checking
            && bytes@ == (match server.service {
            socket::Service::Automation => encode_utf8(
                json::json_text(
                    json::JsonView::Object(
                        map![
                            "status"@ => json::JsonView::Text("error"@),
                            "code"@ => json::JsonView::Text("busy"@),
                            "message"@ => json::JsonView::Text(
                                "too many concurrent automation requests"@,
                            )
                        ],
                    ),
                ),
            ).push(10u8),
            socket::Service::Screenshot => encode_utf8(
                "ERR "@ + "too many concurrent screenshot requests"@ + "\n"@,
            ),
        }),
        server.well_formed() <==> server.clients <= 4,
{
}

/// How many of the drops of the `owners` of a socket, one after the other, stop the server.
pub open spec fn stopping_drops(owners: nat) -> int
    decreases owners,
{
    if owners == 0 {
        0
    } else {
        stopping_drops((owners - 1) as nat) + if is_last(owners as int) {
            1int
        } else {
            0int
        }
    }
}

/// Of all the drops of a socket's owners exactly one stops the server, and it is the last one.
pub proof fn law_the_last_drop_stops_the_server(owners: nat)
    requires
        owners > 0,
    ensures
        stopping_drops(owners) == 1,
        is_last(1),
    decreases owners,
{
    if owners > 1 {
        law_the_last_drop_stops_the_server((owners - 1) as nat);
    } else {
        assert(stopping_drops(0) == 0);
    }
}

/// The limits of a server: four clients at once, and a look at the socket every twenty
/// milliseconds while none is there.
pub proof fn law_limits_of_a_server()
    ensures
        MAX_CLIENTS == 4,
        ACCEPT_POLL_MILLISECONDS == 20,
{
}

/// A client that has been served is one less, and nothing else about the server changes, in
/// whatever phase it is.
pub proof fn law_finished_clients_make_room(server: Server)
    requires
        server.clients > 0,
    ensures
        without_one(server).clients == server.clients - 1,
        without_one(server).phase == server.phase,
        without_one(server).service == server.service,
{
}

/// Whether a server in `phase` has asked for something that `event` answers.
pub open spec fn expects(phase: ServerPhase, event: ServerEvent) -> bool {
    match phase {
        ServerPhase::Checking => event is Checked || event is Done,
        ServerPhase::Accepting => event is Accepted || event is WouldBlock || event is Interrupted
            || event is AcceptFailed,
        ServerPhase::Starting => event is ClientStarted || event is ClientNotStarted,
        ServerPhase::Stopping => event is Done,
        ServerPhase::Stopped => false,
    }
}

/// An event that a server does not wait for changes nothing, and any other asks for something.
pub proof fn law_only_answers_move_a_server(
    server: Server,
    event: ServerEvent,
    next: Server,
    action: ServerAction,
)
    requires
        server_step(server, event, next, action),
    ensures
        !expects(server.phase, event) ==> next == server && action is Nothing,
        expects(server.phase, event) ==> !(action is Nothing),
{
}

} // verus!
