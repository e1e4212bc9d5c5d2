//! Debug-only in-app automation over a private Unix socket.
//!
//! Each client sends one JSON value followed by a newline. It gets one JSON
//! response and the connection is closed. A client is served by
//! [`handle_client`], which says, for each thing that happened, what is done
//! next; reading, waiting and writing are the caller's.

use crate::json;
use crate::text;
use vstd::prelude::*;
use vstd::utf8::*;

verus! {

/// The longest request, line feed and all. One byte more is read of a client, so
/// that a longer request shows.
pub const MAX_REQUEST_BYTES: u64 = 8192;

/// How long a client is waited for, and waits, in seconds.
pub const CLIENT_TIMEOUT_SECONDS: u64 = 10;

/// How many requests may be queued for the application.
pub const MAX_PENDING_REQUESTS: usize = 4;

/// How far a request has come.
#[derive(Debug, Clone, Copy, PartialEq, Eq, Structural)]
pub enum Lifecycle {
    /// The application has not looked at it.
    Queued,
    /// The application has claimed it.
    Dispatching,
    /// Its client has given up on it.
    Cancelled,
}

/// What a client asked for.
#[derive(Debug)]
pub enum AutomationRequestKind {
    /// The schema of the messages that are allowed.
    Describe,
    /// The dispatch of a tagged message.
    Dispatch(serde_json::Value),
}

/// What a client asked for, by its contents.
#[verifier::ext_equal]
pub enum KindView {
    Describe,
    Dispatch(json::JsonView),
}

impl View for AutomationRequestKind {
    type V = KindView;

    open spec fn view(&self) -> KindView {
        match self {
            AutomationRequestKind::Describe => KindView::Describe,
            AutomationRequestKind::Dispatch(value) => KindView::Dispatch(json::json_view(*value)),
        }
    }
}

/// Whether a request asks for the schema.
pub open spec fn describes(kind: AutomationRequestKind) -> bool {
    kind is Describe
}

/// The value that a request asks to be dispatched.
pub open spec fn dispatched(kind: AutomationRequestKind) -> Option<json::JsonView> {
    match kind {
        AutomationRequestKind::Describe => None,
        AutomationRequestKind::Dispatch(value) => Some(json::json_view(value)),
    }
}

/// What a request with the value `view` asks for.
pub open spec fn kind_of(view: json::JsonView) -> KindView {
    if view == json::describe_view() {
        KindView::Describe
    } else {
        KindView::Dispatch(view)
    }
}

/// What a request asks for.
pub fn request_kind(value: serde_json::Value) -> (kind: AutomationRequestKind)
    ensures
        kind@ == kind_of(json::json_view(value)),
{
    if json::is_schema_request(&value) {
        AutomationRequestKind::Describe
    } else {
        AutomationRequestKind::Dispatch(value)
    }
}

/// Cancels a request that is still queued. Returns false, and leaves the request
/// alone, if it is not.
pub fn cancel_request(lifecycle: &mut Lifecycle) -> (cancelled: bool)
    ensures
        cancelled == (*old(lifecycle) == Lifecycle::Queued),
        cancelled == is_open(*old(lifecycle)),
        *final(lifecycle) == after_cancel(*old(lifecycle)),
{
    if *lifecycle == Lifecycle::Queued {
        *lifecycle = Lifecycle::Cancelled;
        true
    } else {
        false
    }
}

/// Whether a request can still be claimed or cancelled.
pub open spec fn is_open(lifecycle: Lifecycle) -> bool {
    lifecycle == Lifecycle::Queued
}

/// The state of a request once its client has tried to cancel it.
pub open spec fn after_cancel(lifecycle: Lifecycle) -> Lifecycle {
    if lifecycle == Lifecycle::Queued {
        Lifecycle::Cancelled
    } else {
        lifecycle
    }
}

/// The state of a request once the application has tried to claim it.
pub open spec fn after_claim(lifecycle: Lifecycle) -> Lifecycle {
    if lifecycle == Lifecycle::Queued {
        Lifecycle::Dispatching
    } else {
        lifecycle
    }
}

/// A parsed automation request received from the Unix socket. The application and the
/// client's side share it, and each of them changes it alone.
#[derive(Debug)]
pub struct AutomationRequest {
    /// What the client asked for.
    pub kind: AutomationRequestKind,
    /// How far the request has come.
    pub lifecycle: Lifecycle,
}

/// A request that waits in the queue.
pub open spec fn queued(kind: AutomationRequestKind) -> AutomationRequest {
    AutomationRequest { kind, lifecycle: Lifecycle::Queued }
}

impl AutomationRequest {
    /// A request that waits in the queue.
    pub fn new(kind: AutomationRequestKind) -> (request: Self)
        ensures
            request.kind == kind,
            request.lifecycle == Lifecycle::Queued,
            request == queued(kind),
    {
        AutomationRequest { kind, lifecycle: Lifecycle::Queued }
    }

    /// Claims this request for dispatch. Returns false if its client timed out, or
    /// if it was claimed before.
    pub fn begin_dispatch(&mut self) -> (claimed: bool)
        ensures
            claimed == (old(self).lifecycle == Lifecycle::Queued),
            claimed == is_open(old(self).lifecycle),
            final(self).lifecycle == after_claim(old(self).lifecycle),
            final(self).kind == old(self).kind,
    {
        if self.lifecycle == Lifecycle::Queued {
            self.lifecycle = Lifecycle::Dispatching;
            true
        } else {
            false
        }
    }

    /// Returns true for the reserved schema-discovery request.
    pub fn is_describe(&self) -> (describe: bool)
        ensures
            describe == (self.kind@ == KindView::Describe),
            describe == describes(self.kind),
    {
        matches!(self.kind, AutomationRequestKind::Describe)
    }

    /// Returns the raw tagged-enum value for a dispatch request.
    pub fn dispatch_value(&self) -> (value: Option<&serde_json::Value>)
        ensures
            match self.kind {
                AutomationRequestKind::Dispatch(dispatched) => value == Some(&dispatched),
                AutomationRequestKind::Describe => value is None,
            },
            match value {
                Some(found) => dispatched(self.kind) == Some(json::json_view(*found)),
                None => dispatched(self.kind) is None,
            },
    {
        match &self.kind {
            AutomationRequestKind::Dispatch(value) => Some(value),
            AutomationRequestKind::Describe => None,
        }
    }

    /// The reply with a successful JSON value.
    pub fn respond_ok(&self, result: serde_json::Value) -> (reply: serde_json::Value)
        ensures
            json::json_view(reply) == json::ok_view(json::json_view(result)),
    {
        json::ok_reply(result)
    }

    /// The reply with a structured error.
    pub fn respond_error(&self, code: &str, message: &str) -> (reply: serde_json::Value)
        ensures
            json::json_view(reply) == json::error_view(code@, message@),
    {
        json::error_reply(code, message)
    }
}

/// The request that a read of a client gives: the value, or why there is none.
pub open spec fn json_request(read: Result<Seq<u8>, Seq<char>>) -> Result<
    json::JsonView,
    Seq<char>,
> {
    match read {
        Err(error) => Err("could not read request: "@ + error),
        Ok(bytes) => if bytes.len() == 0 {
            Err("empty request"@)
        } else if !text::is_line(bytes, MAX_REQUEST_BYTES as int) {
            Err("request must be one JSON line no longer than 8192 bytes"@)
        } else {
            decoded_view(json::parsed_json(bytes.drop_last()))
        },
    }
}

/// The request that a reading of its JSON gives.
pub open spec fn decoded_view(parsed: Result<json::JsonView, Seq<char>>) -> Result<
    json::JsonView,
    Seq<char>,
> {
    match parsed {
        Ok(view) => Ok(view),
        Err(message) => Err("invalid JSON: "@ + message),
    }
}

/// The request that a reading of its JSON gives.
pub fn decoded(parsed: Result<serde_json::Value, String>) -> (request: Result<
    serde_json::Value,
    String,
>)
    ensures
        json::parsed_view(request) == decoded_view(json::parsed_view(parsed)),
{
    match parsed {
        Ok(value) => Ok(value),
        Err(message) => Err("invalid JSON: ".to_owned().concat(message.as_str())),
    }
}

/// The request that a read of a client gives: the value, or why there is none.
/// The read takes bytes up to the first line feed, and at most one byte more than
/// [`MAX_REQUEST_BYTES`].
pub fn read_json(read: Result<Vec<u8>, String>) -> (request: Result<serde_json::Value, String>)
    ensures
        json::parsed_view(request) == json_request(text::read_view(read)),
{
    let mut bytes: Vec<u8> = match read {
        Ok(bytes) => bytes,
        Err(error) => {
            return Err("could not read request: ".to_owned().concat(error.as_str()));
        },
    };
    if bytes.len() == 0 {
        return Err("empty request".to_owned());
    }
    if bytes.len() as u64 > MAX_REQUEST_BYTES || bytes[bytes.len() - 1] != text::NEWLINE {
        return Err("request must be one JSON line no longer than 8192 bytes".to_owned());
    }
    let ghost line = bytes@;
    bytes.pop();
    assert(bytes@ =~= line.drop_last());
    decoded(json::parse(bytes.as_slice()))
}

/// Where the serving of a client stands: what was asked of the caller last.
#[derive(Debug, Clone, Copy, PartialEq, Eq, Structural)]
pub enum ClientPhase {
    SettingReadTimeout,
    SettingWriteTimeout,
    Reading,
    Submitting,
    Waiting,
    Cancelling,
    Closed,
}

/// What came of the last thing that was asked of the caller.
#[derive(Debug)]
pub enum ClientEvent {
    /// A timeout was set, or could not be, with the text of the error.
    TimeoutSet(Result<(), String>),
    /// The request was read.
    Read(Result<Vec<u8>, String>),
    /// The request is in the queue.
    Submitted,
    /// The queue was full.
    QueueFull,
    /// Nobody takes requests from the queue.
    QueueClosed,
    /// The application replied.
    Answered(serde_json::Value),
    /// The application did not reply in time.
    TimedOut,
    /// The application dropped the request.
    Disconnected,
    /// The request was tried to be cancelled, and [`cancel_request`] returned this.
    CancelTried(bool),
}

/// What the caller does next.
#[derive(Debug)]
pub enum ClientAction {
    /// Limits how long reads of the client take, to [`CLIENT_TIMEOUT_SECONDS`].
    SetReadTimeout,
    /// Limits how long writes to the client take, likewise.
    SetWriteTimeout,
    /// Reads from the client up to a line feed, and at most this many bytes.
    ReadRequest(u64),
    /// Submits a request to the application, by [`RequestQueue::submit`].
    Submit(AutomationRequestKind),
    /// Waits for the reply, for [`CLIENT_TIMEOUT_SECONDS`] at most.
    AwaitReply,
    /// Calls [`cancel_request`] on the request.
    TryCancel,
    /// Writes these bytes to the client and closes the connection.
    Reply(Vec<u8>),
    /// Reports a text and closes the connection.
    Report(String),
    /// Closes the connection.
    Close,
}

/// Whether `action` sends the reply `view`.
pub open spec fn replies(action: ClientAction, view: json::JsonView) -> bool {
    action matches ClientAction::Reply(line) && json::is_response(line@, view)
}

/// Whether `action` sends the failed reply with `code` and `message`.
pub open spec fn replies_error(action: ClientAction, code: Seq<char>, message: Seq<char>) -> bool {
    replies(action, json::error_view(code, message))
}

/// How the serving of a client goes on: in `phase`, after `event`, the phase is
/// `next` and the caller does `action`. An event that answers nothing that was
/// asked closes the connection.
pub open spec fn client_step(
    phase: ClientPhase,
    event: ClientEvent,
    next: ClientPhase,
    action: ClientAction,
) -> bool {
    match (phase, event) {
        (ClientPhase::SettingReadTimeout, ClientEvent::TimeoutSet(set)) => match set {
            Ok(_) => next == ClientPhase::SettingWriteTimeout && action
                == ClientAction::SetWriteTimeout,
            Err(error) => next == ClientPhase::Closed && (action matches ClientAction::Report(text)
                && text@ == "automation socket could not set read timeout: "@ + error@),
        },
        (ClientPhase::SettingWriteTimeout, ClientEvent::TimeoutSet(set)) => match set {
            Ok(_) => next == ClientPhase::Reading && action == ClientAction::ReadRequest(
                (MAX_REQUEST_BYTES + 1) as u64,
            ),
            Err(error) => next == ClientPhase::Closed && (action matches ClientAction::Report(text)
                && text@ == "automation socket could not set write timeout: "@ + error@),
        },
        (ClientPhase::Reading, ClientEvent::Read(read)) => match json_request(
            text::read_view(read),
        ) {
            Ok(view) => next == ClientPhase::Submitting && (action matches ClientAction::Submit(
                kind,
            ) && kind@ == kind_of(view)),
            Err(message) => next == ClientPhase::Closed && replies_error(
                action,
                "invalid_request"@,
                message,
            ),
        },
        (ClientPhase::Submitting, ClientEvent::Submitted) => next == ClientPhase::Waiting && action
            == ClientAction::AwaitReply,
        (ClientPhase::Submitting, ClientEvent::QueueFull) => next == ClientPhase::Closed
            && replies_error(action, "busy"@, "automation request queue is full"@),
        (ClientPhase::Submitting, ClientEvent::QueueClosed) => next == ClientPhase::Closed
            && replies_error(
            action,
            "unavailable"@,
            "application is not accepting automation requests"@,
        ),
        (ClientPhase::Waiting, ClientEvent::Answered(reply)) => next == ClientPhase::Closed
            && replies(action, json::json_view(reply)),
        (ClientPhase::Waiting, ClientEvent::TimedOut) => next == ClientPhase::Cancelling && action
            == ClientAction::TryCancel,
        (ClientPhase::Waiting, ClientEvent::Disconnected) => next == ClientPhase::Closed
            && replies_error(
            action,
            "unavailable"@,
            "application stopped before handling the request"@,
        ),
        (ClientPhase::Cancelling, ClientEvent::CancelTried(cancelled)) => next
            == ClientPhase::Closed && if cancelled {
            replies_error(action, "timeout"@, "automation request timed out before dispatch"@)
        } else {
            replies(action, json::ok_view(json::in_progress_view()))
        },
        _ => next == ClientPhase::Closed && action == ClientAction::Close,
    }
}

/// Begins to serve a client that has connected.
pub fn open_client() -> (opened: (ClientPhase, ClientAction))
    ensures
        opened == (ClientPhase::SettingReadTimeout, ClientAction::SetReadTimeout),
{
    (ClientPhase::SettingReadTimeout, ClientAction::SetReadTimeout)
}

/// The failed reply with `code` and `message`, which ends a connection.
fn refuse(code: &str, message: &str) -> (closing: (ClientPhase, ClientAction))
    ensures
        closing.0 == ClientPhase::Closed,
        replies_error(closing.1, code@, message@),
{
    let reply: serde_json::Value = json::error_reply(code, message);
    (ClientPhase::Closed, ClientAction::Reply(json::write_response(&reply)))
}

/// Serves a client: says what is done after `event`.
pub fn handle_client(phase: ClientPhase, event: ClientEvent) -> (step: (ClientPhase, ClientAction))
    ensures
        client_step(phase, event, step.0, step.1),
{
    match (phase, event) {
        (ClientPhase::SettingReadTimeout, ClientEvent::TimeoutSet(set)) => match set {
            Ok(_) => (ClientPhase::SettingWriteTimeout, ClientAction::SetWriteTimeout),
            Err(error) => (
                ClientPhase::Closed,
                ClientAction::Report(
                    "automation socket could not set read timeout: ".to_owned().concat(
                        error.as_str(),
                    ),
                ),
            ),
        },
        (ClientPhase::SettingWriteTimeout, ClientEvent::TimeoutSet(set)) => match set {
            Ok(_) => (ClientPhase::Reading, ClientAction::ReadRequest(MAX_REQUEST_BYTES + 1)),
            Err(error) => (
                ClientPhase::Closed,
                ClientAction::Report(
                    "automation socket could not set write timeout: ".to_owned().concat(
                        error.as_str(),
                    ),
                ),
            ),
        },
        (ClientPhase::Reading, ClientEvent::Read(read)) => match read_json(read) {
            Ok(value) => (ClientPhase::Submitting, ClientAction::Submit(request_kind(value))),
            Err(message) => refuse("invalid_request", message.as_str()),
        },
        (ClientPhase::Submitting, ClientEvent::Submitted) => (
            ClientPhase::Waiting,
            ClientAction::AwaitReply,
        ),
        (ClientPhase::Submitting, ClientEvent::QueueFull) => refuse(
            "busy",
            "automation request queue is full",
        ),
        (ClientPhase::Submitting, ClientEvent::QueueClosed) => refuse(
            "unavailable",
            "application is not accepting automation requests",
        ),
        (ClientPhase::Waiting, ClientEvent::Answered(reply)) => (
            ClientPhase::Closed,
            ClientAction::Reply(json::write_response(&reply)),
        ),
        (ClientPhase::Waiting, ClientEvent::TimedOut) => (
            ClientPhase::Cancelling,
            ClientAction::TryCancel,
        ),
        (ClientPhase::Waiting, ClientEvent::Disconnected) => refuse(
            "unavailable",
            "application stopped before handling the request",
        ),
        (ClientPhase::Cancelling, ClientEvent::CancelTried(cancelled)) => if cancelled {
            refuse("timeout", "automation request timed out before dispatch")
        } else {
            let reply: serde_json::Value = json::ok_reply(json::in_progress());
            (ClientPhase::Closed, ClientAction::Reply(json::write_response(&reply)))
        },
        _ => (ClientPhase::Closed, ClientAction::Close),
    }
}

/// The queue of requests that wait for the application.
#[derive(Debug)]
pub struct RequestQueue {
    pub waiting: usize,
}

/// What comes of a request that is submitted when `waiting` others wait: it joins them if
/// somebody takes requests from the queue and there is room. `closed` is whether nobody does.
pub open spec fn submission(waiting: int, closed: bool) -> ClientEvent {
    if closed {
        ClientEvent::QueueClosed
    } else if waiting >= MAX_PENDING_REQUESTS {
        ClientEvent::QueueFull
    } else {
        ClientEvent::Submitted
    }
}

/// How many requests wait after one was submitted.
pub open spec fn waiting_after(waiting: int, closed: bool) -> int {
    if submission(waiting, closed) is Submitted {
        waiting + 1
    } else {
        waiting
    }
}

/// How many requests wait after one was taken from the queue.
pub open spec fn waiting_left(waiting: int) -> int {
    if waiting > 0 {
        waiting - 1
    } else {
        waiting
    }
}

impl RequestQueue {
    /// A queue without requests.
    pub fn new() -> (queue: Self)
        ensures
            queue.waiting == 0,
    {
        RequestQueue { waiting: 0 }
    }

    /// Submits a request: says what comes of it. `closed` is whether nobody takes requests
    /// from the queue.
    pub fn submit(&mut self, closed: bool) -> (event: ClientEvent)
        ensures
            event == submission(old(self).waiting as int, closed),
            final(self).waiting == waiting_after(old(self).waiting as int, closed),
    {
        if closed {
            ClientEvent::QueueClosed
        } else if self.waiting >= MAX_PENDING_REQUESTS {
            ClientEvent::QueueFull
        } else {
            self.waiting = self.waiting + 1;
            ClientEvent::Submitted
        }
    }

    /// Takes note that a request was taken from the queue.
    pub fn take(&mut self)
        ensures
            final(self).waiting == waiting_left(old(self).waiting as int),
    {
        if self.waiting > 0 {
            self.waiting = self.waiting - 1;
        }
    }
}

/// Something that happens to a queue of requests.
pub enum QueueMove {
    /// A request is submitted; the queue may be closed.
    Submit(bool),
    /// A request is taken.
    Take,
}

/// How many requests wait after `moves`, in a queue that was empty.
pub open spec fn waiting_requests(moves: Seq<QueueMove>) -> int
    decreases moves.len(),
{
    if moves.len() == 0 {
        0
    } else {
        let before = waiting_requests(moves.drop_last());
        match moves.last() {
            QueueMove::Submit(closed) => waiting_after(before, closed),
            QueueMove::Take => waiting_left(before),
        }
    }
}

/// Never more than four requests wait for the application.
pub proof fn law_at_most_four_requests_wait(moves: Seq<QueueMove>)
    ensures
        0 <= waiting_requests(moves) <= 4,
    decreases moves.len(),
{
    if moves.len() > 0 {
        law_at_most_four_requests_wait(moves.drop_last());
    }
}

/// A client is told that the queue is full exactly when the application takes requests and
/// four of them wait already; otherwise, if the application takes requests, its own joins
/// them.
pub proof fn law_fifth_request_is_refused(
    moves: Seq<QueueMove>,
    next: ClientPhase,
    action: ClientAction,
)
    requires
        client_step(
            ClientPhase::Submitting,
            submission(waiting_requests(moves), false),
            next,
            action,
        ),
    ensures
        waiting_requests(moves) == 4 ==> replies_error(
            action,
            "busy"@,
            "automation request queue is full"@,
        ),
        waiting_requests(moves) < 4 ==> action == ClientAction::AwaitReply,
{
    law_at_most_four_requests_wait(moves);
}

/// A try to settle a queued request.
pub enum Claim {
    /// The application calls [`AutomationRequest::begin_dispatch`].
    Dispatch,
    /// The client's side calls [`cancel_request`].
    Cancel,
}

/// The state of a request after `claims`, one after the other.
pub open spec fn lifecycle_after(start: Lifecycle, claims: Seq<Claim>) -> Lifecycle
    decreases claims.len(),
{
    if claims.len() == 0 {
        start
    } else {
        let before = lifecycle_after(start, claims.drop_last());
        match claims.last() {
            Claim::Dispatch => after_claim(before),
            Claim::Cancel => after_cancel(before),
        }
    }
}

/// Whether the claim at `index` succeeds, when a queued request gets `claims`.
pub open spec fn claim_succeeds(claims: Seq<Claim>, index: int) -> bool {
    is_open(lifecycle_after(Lifecycle::Queued, claims.take(index)))
}

/// A request that was dispatched or cancelled stays so, whatever is tried.
pub proof fn law_settled_requests_stay(start: Lifecycle, claims: Seq<Claim>)
    requires
        start != Lifecycle::Queued,
    ensures
        lifecycle_after(start, claims) == start,
    decreases claims.len(),
{
    if claims.len() > 0 {
        law_settled_requests_stay(start, claims.drop_last());
    }
}

/// Of all tries to dispatch or cancel a queued request, the first one succeeds and no
/// other: a cancelled request is never dispatched, and none is dispatched twice.
pub proof fn law_first_claim_wins(claims: Seq<Claim>, index: int)
    requires
        0 <= index < claims.len(),
    ensures
        claim_succeeds(claims, index) == (index == 0),
    decreases index,
{
    if index > 0 {
        law_first_claim_wins(claims, index - 1);
        assert(claims.take(index).drop_last() =~= claims.take(index - 1));
        if index > 1 {
            assert(lifecycle_after(Lifecycle::Queued, claims.take(index - 1)) != Lifecycle::Queued);
        } else {
            assert(claims.take(0) =~= Seq::empty());
        }
    } else {
        assert(claims.take(0) =~= Seq::empty());
    }
}

/// A client that waited too long is told so if the application had not claimed its
/// request, which then never is; otherwise it is told that the request is in progress.
pub proof fn law_timeout(
    lifecycle: Lifecycle,
    claims: Seq<Claim>,
    next: ClientPhase,
    action: ClientAction,
)
    requires
        client_step(
            ClientPhase::Cancelling,
            ClientEvent::CancelTried(lifecycle == Lifecycle::Queued),
            next,
            action,
        ),
    ensures
        lifecycle == Lifecycle::Queued ==> replies_error(
            action,
            "timeout"@,
            "automation request timed out before dispatch"@,
        ) && lifecycle_after(after_cancel(lifecycle), claims) == Lifecycle::Cancelled,
        lifecycle == Lifecycle::Dispatching ==> replies(
            action,
            json::ok_view(json::in_progress_view()),
        ) && after_cancel(lifecycle) == Lifecycle::Dispatching,
{
    if lifecycle == Lifecycle::Queued {
        law_settled_requests_stay(after_cancel(lifecycle), claims);
    }
}

/// One step of the serving of a client.
pub struct ClientStep {
    pub phase: ClientPhase,
    pub event: ClientEvent,
    pub next: ClientPhase,
    pub action: ClientAction,
}

/// Whether `steps` are what happens to a client from when it has connected.
pub open spec fn client_run(steps: Seq<ClientStep>) -> bool {
    &&& steps.len() > 0 ==> steps[0].phase == ClientPhase::SettingReadTimeout
    &&& forall|i: int|
        #![trigger steps[i]]
        0 <= i < steps.len() ==> client_step(
            steps[i].phase,
            steps[i].event,
            steps[i].next,
            steps[i].action,
        )
    &&& forall|i: int|
        #![trigger steps[i]]
        0 < i < steps.len() ==> steps[i].phase == steps[i - 1].next
}

/// How many steps the serving of a client takes from `phase`, at most.
pub open spec fn steps_left(phase: ClientPhase) -> int {
    match phase {
        ClientPhase::SettingReadTimeout => 6,
        ClientPhase::SettingWriteTimeout => 5,
        ClientPhase::Reading => 4,
        ClientPhase::Submitting => 3,
        ClientPhase::Waiting => 2,
        ClientPhase::Cancelling => 1,
        ClientPhase::Closed => 0,
    }
}

/// Whether `event` is an answer to what was asked in `phase`.
pub open spec fn answers(phase: ClientPhase, event: ClientEvent) -> bool {
    match phase {
        ClientPhase::SettingReadTimeout => event is TimeoutSet,
        ClientPhase::SettingWriteTimeout => event is TimeoutSet,
        ClientPhase::Reading => event is Read,
        ClientPhase::Submitting => event is Submitted || event is QueueFull || event
            is QueueClosed,
        ClientPhase::Waiting => event is Answered || event is TimedOut || event is Disconnected,
        ClientPhase::Cancelling => event is CancelTried,
        ClientPhase::Closed => false,
    }
}

/// Once a connection is closed, it stays closed and nothing more is done.
proof fn lemma_stays_closed(steps: Seq<ClientStep>, from: int, to: int)
    requires
        client_run(steps),
        0 <= from < to < steps.len(),
        steps[from].next == ClientPhase::Closed,
    ensures
        steps[to].next == ClientPhase::Closed,
        steps[to].action == ClientAction::Close,
    decreases to - from,
{
    if to > from + 1 {
        lemma_stays_closed(steps, from, to - 1);
    }
    assert(steps[to].phase == steps[to - 1].next);
}

/// A client gets one reply at most.
pub proof fn law_one_reply(steps: Seq<ClientStep>, first: int, second: int)
    requires
        client_run(steps),
        0 <= first < second < steps.len(),
        steps[first].action is Reply,
    ensures
        !(steps[second].action is Reply),
{
    assert(client_step(
        steps[first].phase,
        steps[first].event,
        steps[first].next,
        steps[first].action,
    ));
    lemma_stays_closed(steps, first, second);
}

/// Every connection is closed, after six steps at the latest.
pub proof fn law_every_connection_closes(steps: Seq<ClientStep>, index: int)
    requires
        client_run(steps),
        0 <= index < steps.len(),
    ensures
        steps_left(steps[index].next) <= 5 - index || steps[index].next == ClientPhase::Closed,
        index >= 5 ==> steps[index].next == ClientPhase::Closed,
    decreases index,
{
    if index > 0 {
        law_every_connection_closes(steps, index - 1);
        assert(steps[index].phase == steps[index - 1].next);
    }
    assert(client_step(
        steps[index].phase,
        steps[index].event,
        steps[index].next,
        steps[index].action,
    ));
}

/// A client whose timeouts could be set is closed with a reply, always.
pub proof fn law_reply_is_owed(
    phase: ClientPhase,
    event: ClientEvent,
    next: ClientPhase,
    action: ClientAction,
)
    requires
        client_step(phase, event, next, action),
        answers(phase, event),
        phase != ClientPhase::SettingReadTimeout,
        phase != ClientPhase::SettingWriteTimeout,
        next == ClientPhase::Closed,
    ensures
        action is Reply,
{
}

/// A request with a member besides `op` is dispatched, never taken for the request for
/// the schema.
pub proof fn law_extra_members_are_dispatched(
    members: Map<Seq<char>, json::JsonView>,
    extra: Seq<char>,
)
    requires
        members.contains_key(extra),
        extra != "op"@,
    ensures
        kind_of(json::JsonView::Object(members)) == KindView::Dispatch(
            json::JsonView::Object(members),
        ),
{
    assert(!json::describe_view()->Object_0.contains_key(extra));
}

/// A value that is written as a line of at most 8192 bytes is read as a request for the same
/// value, if it holds no floating-point number and is not nested too deep.
pub proof fn law_written_values_are_requests(line: Seq<u8>, view: json::JsonView)
    requires
        json::is_response(line, view),
        json::plain_json(view, json::read_back_depth()),
        line.len() <= 8192,
    ensures
        json_request(Ok(line)) == Ok::<json::JsonView, Seq<char>>(view),
{
}

/// What is accepted as a request is one line of at most 8192 bytes that holds JSON.
pub proof fn law_accepted_requests_are_lines(read: Result<Seq<u8>, Seq<char>>)
    requires
        json_request(read) is Ok,
    ensures
        read matches Ok(bytes) && text::is_line(bytes, 8192) && json::reads_as(
            bytes.drop_last(),
            json_request(read)->Ok_0,
        ),
{
}

/// Whether `action` sends the client the JSON text of `view`, in UTF-8, and a line feed.
pub open spec fn sends(action: ClientAction, view: json::JsonView) -> bool {
    action matches ClientAction::Reply(line) && line@ == encode_utf8(json::json_text(view)).push(
        10u8,
    )
}

/// The object `{"status":"error","code":...,"message":...}`.
pub open spec fn failure(code: Seq<char>, message: Seq<char>) -> json::JsonView {
    json::JsonView::Object(
        map![
            "status"@ => json::JsonView::Text("error"@),
            "code"@ => json::JsonView::Text(code),
            "message"@ => json::JsonView::Text(message)
        ],
    )
}

/// The object `{"status":"ok","result":{"accepted":true,"in_progress":true}}`.
pub open spec fn progress() -> json::JsonView {
    json::JsonView::Object(
        map![
            "status"@ => json::JsonView::Text("ok"@),
            "result"@ => json::JsonView::Object(
                map![
                    "accepted"@ => json::JsonView::Bool(true),
                    "in_progress"@ => json::JsonView::Bool(true)
                ],
            )
        ],
    )
}

/// A client that waits is sent what the application answers, whatever that is, and the
/// connection ends. Two clients whose applications answer alike are sent the same bytes.
pub proof fn law_answers_are_sent_as_they_are(
    reply: serde_json::Value,
    next: ClientPhase,
    action: ClientAction,
    other: serde_json::Value,
    other_next: ClientPhase,
    other_action: ClientAction,
)
    requires
        client_step(ClientPhase::Waiting, ClientEvent::Answered(reply), next, action),
        client_step(ClientPhase::Waiting, ClientEvent::Answered(other), other_next, other_action),
    ensures
        sends(action, json::json_view(reply)),
        next == ClientPhase::Closed,
        action matches ClientAction::Reply(line) && (json::plain_json(json::json_view(reply), 127)
            ==> json::reads_as(line@.drop_last(), json::json_view(reply))),
        json::json_view(reply) == json::json_view(other) ==> (action matches ClientAction::Reply(
            line,
        ) && (other_action matches ClientAction::Reply(other_line) && line@ == other_line@)),
        json::plain_json(json::json_view(reply), 127) && json::plain_json(
            json::json_view(other),
            127,
        ) && json::json_view(reply) != json::json_view(other) ==> (action
            matches ClientAction::Reply(line) && (other_action matches ClientAction::Reply(
            other_line,
        ) && line@ != other_line@)),
{
}

/// A client reads that its request is in progress only after it waited too long and the
/// request could not be cancelled, unless the application itself answered so.
#[verifier::rlimit(40)]
pub proof fn law_progress_is_told_only_after_a_timeout(
    phase: ClientPhase,
    event: ClientEvent,
    next: ClientPhase,
    action: ClientAction,
    line: Vec<u8>,
)
    requires
        client_step(phase, event, next, action),
        action == ClientAction::Reply(line),
        json::reads_as(line@.drop_last(), progress()),
    ensures
        (phase == ClientPhase::Cancelling && event == ClientEvent::CancelTried(false)) || (phase
            == ClientPhase::Waiting && (event matches ClientEvent::Answered(reply)
            && (json::json_view(reply) == progress() || !json::plain_json(
            json::json_view(reply),
            127,
        )))),
{
    assert forall|code: Seq<char>, message: Seq<char>| #[trigger]
        json::error_view(code, message) != progress() by {
        json::law_failures_are_no_successes(json::in_progress_view(), code, message);
    }
    assert forall|code: Seq<char>, message: Seq<char>| !#[trigger] replies_error(
        action,
        code,
        message,
    ) by {
        if replies_error(action, code, message) {
            json::law_error_reads_back(line@, code, message);
            assert(json::error_view(code, message) != progress());
        }
    }
}

/// A client is told what became of its request: the queue was full, nobody took requests, the
/// application dropped it, the wait was too long before or after it was claimed.
pub proof fn law_clients_are_told_what_happened(
    phase: ClientPhase,
    event: ClientEvent,
    next: ClientPhase,
    action: ClientAction,
)
    requires
        client_step(phase, event, next, action),
    ensures
        phase == ClientPhase::Submitting && event is QueueFull ==> next == ClientPhase::Closed
            && sends(action, failure("busy"@, "automation request queue is full"@)),
        phase == ClientPhase::Submitting && event is QueueClosed ==> next == ClientPhase::Closed
            && sends(
            action,
            failure("unavailable"@, "application is not accepting automation requests"@),
        ),
        phase == ClientPhase::Waiting && event is Disconnected ==> next == ClientPhase::Closed
            && sends(
            action,
            failure("unavailable"@, "application stopped before handling the request"@),
        ),
        phase == ClientPhase::Cancelling && event == ClientEvent::CancelTried(true) ==> next
            == ClientPhase::Closed && sends(
            action,
            failure("timeout"@, "automation request timed out before dispatch"@),
        ),
        phase == ClientPhase::Cancelling && event == ClientEvent::CancelTried(false) ==> next
            == ClientPhase::Closed && sends(action, progress()),
{
}

/// A client is served in this order: its timeouts are set, its request is read, up to one byte
/// more than is allowed, and submitted, and its reply is waited for; only who waits too long
/// is cancelled. A timeout that cannot be set is reported, and ends the connection.
pub proof fn law_clients_are_served_in_order(
    phase: ClientPhase,
    event: ClientEvent,
    next: ClientPhase,
    action: ClientAction,
)
    requires
        client_step(phase, event, next, action),
    ensures
        phase == ClientPhase::SettingReadTimeout && event == ClientEvent::TimeoutSet(Ok(()))
            ==> next == ClientPhase::SettingWriteTimeout && action
            == ClientAction::SetWriteTimeout,
        phase == ClientPhase::SettingWriteTimeout && event == ClientEvent::TimeoutSet(Ok(()))
            ==> next == ClientPhase::Reading && action == ClientAction::ReadRequest(8193),
        phase == ClientPhase::SettingReadTimeout ==> (event matches ClientEvent::TimeoutSet(
            Err(error),
        ) ==> next == ClientPhase::Closed && (action matches ClientAction::Report(text) && text@
            == "automation socket could not set read timeout: "@ + error@)),
        phase == ClientPhase::SettingWriteTimeout ==> (event matches ClientEvent::TimeoutSet(
            Err(error),
        ) ==> next == ClientPhase::Closed && (action matches ClientAction::Report(text) && text@
            == "automation socket could not set write timeout: "@ + error@)),
        phase == ClientPhase::Submitting && event is Submitted ==> next == ClientPhase::Waiting
            && action == ClientAction::AwaitReply,
        phase == ClientPhase::Waiting && event is TimedOut ==> next == ClientPhase::Cancelling
            && action == ClientAction::TryCancel,
        action is TryCancel ==> phase == ClientPhase::Waiting && event is TimedOut,
        action is AwaitReply ==> phase == ClientPhase::Submitting && event is Submitted,
        action is Submit ==> phase == ClientPhase::Reading && (event matches ClientEvent::Read(
            Ok(_),
        )),
        action is Report ==> phase == ClientPhase::SettingReadTimeout || phase
            == ClientPhase::SettingWriteTimeout,
        phase == ClientPhase::Closed ==> next == ClientPhase::Closed && action
            == ClientAction::Close,
        !answers(phase, event) ==> next == ClientPhase::Closed && action == ClientAction::Close,
        next == ClientPhase::Closed <==> action is Reply || action is Report || action is Close,
{
}

/// What a client sent is submitted exactly if it is one line of at most 8192 bytes whose body
/// is JSON: as the request for the schema if it is that, and otherwise with the very value that
/// it holds. Whatever else a client sent is refused with the reason.
#[verifier::rlimit(40)]
pub proof fn law_requests_are_submitted_or_refused(
    bytes: Vec<u8>,
    next: ClientPhase,
    action: ClientAction,
)
    requires
        client_step(ClientPhase::Reading, ClientEvent::Read(Ok(bytes)), next, action),
    ensures
        bytes@.len() == 0 ==> next == ClientPhase::Closed && sends(
            action,
            failure("invalid_request"@, "empty request"@),
        ),
        bytes@.len() > 8192 || (bytes@.len() > 0 && bytes@.last() != 10u8) ==> next
            == ClientPhase::Closed && sends(
            action,
            failure(
                "invalid_request"@,
                "request must be one JSON line no longer than 8192 bytes"@,
            ),
        ),
        0 < bytes@.len() <= 8192 && bytes@.last() == 10u8 ==> match json::parsed_json(
            bytes@.drop_last(),
        ) {
            Ok(view) => next == ClientPhase::Submitting && (action matches ClientAction::Submit(
                kind,
            ) && match kind {
                AutomationRequestKind::Describe => view == json::JsonView::Object(
                    map!["op"@ => json::JsonView::Text("describe"@)],
                ),
                AutomationRequestKind::Dispatch(value) => json::json_view(value) == view && view
                    != json::JsonView::Object(map!["op"@ => json::JsonView::Text("describe"@)]),
            }),
            Err(message) => next == ClientPhase::Closed && sends(
                action,
                failure("invalid_request"@, "invalid JSON: "@ + message),
            ),
        },
{
}

/// A read that failed is told to the client.
pub proof fn law_failed_reads_are_told(error: String, next: ClientPhase, action: ClientAction)
    requires
        client_step(ClientPhase::Reading, ClientEvent::Read(Err(error)), next, action),
    ensures
        next == ClientPhase::Closed,
        sends(action, failure("invalid_request"@, "could not read request: "@ + error@)),
{
}

/// A request that waits is dispatched if the application claims it and cancelled if its client
/// gives up; either succeeds only on a request that waits, and then changes it.
pub proof fn law_claims_settle_a_request(lifecycle: Lifecycle)
    ensures
        is_open(lifecycle) <==> after_claim(lifecycle) != lifecycle,
        is_open(lifecycle) <==> after_cancel(lifecycle) != lifecycle,
        is_open(lifecycle) ==> after_claim(lifecycle) == Lifecycle::Dispatching,
        is_open(lifecycle) ==> after_cancel(lifecycle) == Lifecycle::Cancelled,
        !is_open(after_claim(lifecycle)),
        !is_open(after_cancel(lifecycle)),
        is_open(Lifecycle::Queued),
{
}

/// A request leads to the schema or to the dispatch of its value, never to both or neither.
pub proof fn law_requests_describe_or_dispatch(kind: AutomationRequestKind)
    ensures
        describes(kind) <==> dispatched(kind) is None,
        kind matches AutomationRequestKind::Dispatch(value) ==> dispatched(kind) == Some(
            json::json_view(value),
        ),
        kind is Describe ==> describes(kind),
{
}

/// A request joins the queue if and only if it is open and fewer than four wait; it then waits
/// itself, and no other request does. One that is taken waits no more.
pub proof fn law_the_queue_counts_its_requests(moves: Seq<QueueMove>, closed: bool)
    ensures
        submission(waiting_requests(moves), closed) is Submitted <==> !closed && waiting_requests(
            moves,
        ) < 4,
        submission(waiting_requests(moves), closed) is QueueClosed <==> closed,
        submission(waiting_requests(moves), closed) is QueueFull <==> !closed && waiting_requests(
            moves,
        ) == 4,
        waiting_requests(moves.push(QueueMove::Submit(closed))) - waiting_requests(moves) == if
            submission(waiting_requests(moves), closed) is Submitted {
            1int
        } else {
            0int
        },
        waiting_requests(moves.push(QueueMove::Take)) == if waiting_requests(moves) > 0 {
            waiting_requests(moves) - 1
        } else {
            0
        },
        waiting_requests(Seq::empty()) == 0,
{
    law_at_most_four_requests_wait(moves);
    assert(moves.push(QueueMove::Submit(closed)).drop_last() =~= moves);
    assert(moves.push(QueueMove::Take).drop_last() =~= moves);
}

/// The limits of the service: requests of 8192 bytes, four requests that wait, and ten seconds
/// for a client to send its request and to get its reply.
pub proof fn law_limits_of_the_service()
    ensures
        MAX_REQUEST_BYTES == 8192,
        MAX_PENDING_REQUESTS == 4,
        CLIENT_TIMEOUT_SECONDS == 10,
{
}

/// A new request can be claimed or cancelled, whatever it asks for.
pub proof fn law_new_requests_are_open(kind: AutomationRequestKind)
    ensures
        is_open(queued(kind).lifecycle),
        queued(kind).kind == kind,
{
}

} // verus!
