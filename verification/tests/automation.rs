use iced_dev_automation::automation::{
    cancel_request, decoded, handle_client, open_client, read_json, request_kind,
    AutomationRequestKind, ClientAction, ClientEvent, ClientPhase, Lifecycle, RequestQueue,
    MAX_PENDING_REQUESTS, MAX_REQUEST_BYTES,
};
use iced_dev_automation::json::{
    error_reply, is_schema_request, ok_reply, parse, write_response,
};
use iced_dev_automation::{AutomationRequest, DevAutomation};
use serde_json::Value;

fn object(members: Vec<(&str, Value)>) -> Value {
    Value::Object(members.into_iter().map(|(name, value)| (name.to_owned(), value)).collect())
}

fn string(text: &str) -> Value {
    Value::String(text.to_owned())
}

fn error_object(code: &str, message: &str) -> Value {
    object(vec![
        ("status", string("error")),
        ("code", string(code)),
        ("message", string(message)),
    ])
}

fn replied(step: (ClientPhase, ClientAction)) -> Value {
    assert_eq!(step.0, ClientPhase::Closed);
    match step.1 {
        ClientAction::Reply(line) => {
            assert_eq!(line.iter().filter(|byte| **byte == b'\n').count(), 1);
            assert_eq!(line.last(), Some(&b'\n'));
            serde_json::from_slice(&line).unwrap()
        }
        other => panic!("no reply: {:?}", other),
    }
}

#[test]
fn parses_a_json_line() {
    assert_eq!(
        read_json(Ok(b"{\"variant\":\"RefreshAll\"}\n".to_vec())),
        Ok(object(vec![("variant", string("RefreshAll"))]))
    );
}

#[test]
fn rejects_an_unterminated_request() {
    assert!(read_json(Ok(b"{\"variant\":\"RefreshAll\"}".to_vec())).is_err());
}

#[test]
fn recognizes_a_schema_request_only_when_it_has_no_extra_fields() {
    let describe = object(vec![("op", string("describe"))]);
    let extra = object(vec![("op", string("describe")), ("other", Value::Bool(true))]);

    assert!(is_schema_request(&describe));
    assert!(!is_schema_request(&extra));
}

#[test]
fn a_cancelled_request_cannot_begin_dispatch() {
    let mut request = AutomationRequest::new(AutomationRequestKind::Describe);
    assert!(cancel_request(&mut request.lifecycle));
    assert!(!request.begin_dispatch());
    assert_eq!(request.lifecycle, Lifecycle::Cancelled);
}

#[test]
fn a_claimed_request_cannot_be_cancelled_or_claimed_again() {
    let mut request = AutomationRequest::new(AutomationRequestKind::Describe);
    assert_eq!(request.lifecycle, Lifecycle::Queued);
    assert!(request.begin_dispatch());
    assert!(!request.begin_dispatch());
    assert!(!cancel_request(&mut request.lifecycle));
    assert_eq!(request.lifecycle, Lifecycle::Dispatching);
}

#[test]
fn tells_schema_requests_from_dispatches() {
    for value in [
        string("describe"),
        object(vec![]),
        object(vec![("op", string("other"))]),
        object(vec![("op", Value::Bool(true))]),
        object(vec![("other", string("describe"))]),
        Value::Array(vec![object(vec![("op", string("describe"))])]),
    ] {
        assert!(!is_schema_request(&value));
        let request = AutomationRequest::new(request_kind(value.clone()));
        assert!(!request.is_describe());
        assert_eq!(request.dispatch_value(), Some(&value));
    }

    let request = AutomationRequest::new(request_kind(object(vec![("op", string("describe"))])));
    assert!(request.is_describe());
    assert_eq!(request.dispatch_value(), None);
}

#[test]
fn replies_have_the_documented_shape() {
    let request = AutomationRequest::new(AutomationRequestKind::Describe);
    let accepted = object(vec![("accepted", Value::Bool(true))]);
    assert_eq!(
        request.respond_ok(accepted.clone()),
        object(vec![("status", string("ok")), ("result", accepted)])
    );

    let request = AutomationRequest::new(AutomationRequestKind::Describe);
    assert_eq!(
        request.respond_error("invalid_message", "unknown variant"),
        error_object("invalid_message", "unknown variant")
    );
}

#[test]
fn a_response_is_one_line_that_reads_back() {
    let reply = error_reply("code\n", "a \"quoted\"\r\nmessage \u{1F600}\u{0}");
    let line = write_response(&reply);
    assert_eq!(line.iter().filter(|byte| **byte == b'\n').count(), 1);
    assert_eq!(parse(&line[..line.len() - 1]), Ok(reply));

    for number in [Value::from(0), Value::from(u64::MAX), Value::from(i64::MIN)] {
        let reply = ok_reply(Value::Array(vec![number, Value::Null]));
        let line = write_response(&reply);
        assert_eq!(parse(&line[..line.len() - 1]), Ok(reply));
    }

    assert_eq!(
        write_response(&ok_reply(object(vec![("accepted", Value::Bool(true))]))),
        b"{\"result\":{\"accepted\":true},\"status\":\"ok\"}\n".to_vec()
    );
    assert_eq!(
        write_response(&error_reply("busy", "later")),
        b"{\"code\":\"busy\",\"message\":\"later\",\"status\":\"error\"}\n".to_vec()
    );
}

#[test]
fn replies_are_read_back_to_127_levels() {
    let mut value = Value::Bool(true);
    for _ in 0..126 {
        value = Value::Array(vec![value]);
    }
    let line = write_response(&ok_reply(value.clone()));
    assert_eq!(parse(&line[..line.len() - 1]), Ok(ok_reply(value.clone())));
    let line = write_response(&ok_reply(Value::Array(vec![value])));
    assert!(parse(&line[..line.len() - 1]).is_err());
}

#[test]
fn written_values_are_requests() {
    let value = object(vec![("variant", string("Open\n")), ("value", Value::from(-3))]);
    assert_eq!(read_json(Ok(write_response(&value))), Ok(value));
}

#[test]
fn refused_requests_say_why() {
    assert_eq!(
        read_json(Err("broken pipe".to_owned())),
        Err("could not read request: broken pipe".to_owned())
    );
    assert_eq!(read_json(Ok(Vec::new())), Err("empty request".to_owned()));
    assert_eq!(
        read_json(Ok(b"1".to_vec())),
        Err("request must be one JSON line no longer than 8192 bytes".to_owned())
    );
    let error = read_json(Ok(b"{\n".to_vec())).unwrap_err();
    assert!(error.starts_with("invalid JSON: "));
    assert!(error.len() > "invalid JSON: ".len());
    assert_eq!(decoded(Err("no value".to_owned())), Err("invalid JSON: no value".to_owned()));
    assert_eq!(decoded(Ok(Value::Null)), Ok(Value::Null));
}

#[test]
fn requests_have_at_most_8192_bytes() {
    assert_eq!(MAX_REQUEST_BYTES, 8192);
    assert_eq!(MAX_PENDING_REQUESTS, 4);
    let mut longest = vec![b' '; 8191];
    longest[0] = b'7';
    longest.push(b'\n');
    assert_eq!(longest.len(), 8192);
    assert_eq!(read_json(Ok(longest.clone())), Ok(Value::from(7)));
    longest.insert(1, b' ');
    assert_eq!(
        read_json(Ok(longest)),
        Err("request must be one JSON line no longer than 8192 bytes".to_owned())
    );
}

#[test]
fn serves_an_automation_client_from_start_to_reply() {
    let (phase, action) = open_client();
    assert!(matches!(action, ClientAction::SetReadTimeout));
    let (phase, action) = handle_client(phase, ClientEvent::TimeoutSet(Ok(())));
    assert!(matches!(action, ClientAction::SetWriteTimeout));
    let (phase, action) = handle_client(phase, ClientEvent::TimeoutSet(Ok(())));
    assert!(matches!(action, ClientAction::ReadRequest(8193)));
    let (phase, action) =
        handle_client(phase, ClientEvent::Read(Ok(b"{\"op\":\"describe\"}\n".to_vec())));
    assert!(matches!(action, ClientAction::Submit(AutomationRequestKind::Describe)));
    let (phase, action) = handle_client(phase, ClientEvent::Submitted);
    assert!(matches!(action, ClientAction::AwaitReply));
    let reply = ok_reply(object(vec![("version", Value::from(1))]));
    assert_eq!(replied(handle_client(phase, ClientEvent::Answered(reply.clone()))), reply);
}

#[test]
fn a_dispatch_is_submitted_as_it_was_sent() {
    let read = ClientEvent::Read(Ok(b"{\"variant\":\"Refresh\"}\n".to_vec()));
    match handle_client(ClientPhase::Reading, read) {
        (ClientPhase::Submitting, ClientAction::Submit(AutomationRequestKind::Dispatch(value))) => {
            assert_eq!(value, object(vec![("variant", string("Refresh"))]));
        }
        other => panic!("not submitted: {:?}", other),
    }
}

#[test]
fn automation_failures_are_answered() {
    let read = ClientEvent::Read(Ok(Vec::new()));
    assert_eq!(
        replied(handle_client(ClientPhase::Reading, read)),
        error_object("invalid_request", "empty request")
    );
    assert_eq!(
        replied(handle_client(ClientPhase::Submitting, ClientEvent::QueueFull)),
        error_object("busy", "automation request queue is full")
    );
    assert_eq!(
        replied(handle_client(ClientPhase::Submitting, ClientEvent::QueueClosed)),
        error_object("unavailable", "application is not accepting automation requests")
    );
    assert_eq!(
        replied(handle_client(ClientPhase::Waiting, ClientEvent::Disconnected)),
        error_object("unavailable", "application stopped before handling the request")
    );
}

#[test]
fn a_timeout_before_dispatch_cancels_and_a_later_one_reports_progress() {
    let mut queued = AutomationRequest::new(AutomationRequestKind::Describe);
    let (phase, action) = handle_client(ClientPhase::Waiting, ClientEvent::TimedOut);
    assert!(matches!(action, ClientAction::TryCancel));
    let tried = cancel_request(&mut queued.lifecycle);
    assert_eq!(
        replied(handle_client(phase, ClientEvent::CancelTried(tried))),
        error_object("timeout", "automation request timed out before dispatch")
    );
    assert!(!queued.begin_dispatch());

    let mut claimed = AutomationRequest::new(AutomationRequestKind::Describe);
    assert!(claimed.begin_dispatch());
    let tried = cancel_request(&mut claimed.lifecycle);
    assert_eq!(
        replied(handle_client(phase, ClientEvent::CancelTried(tried))),
        object(vec![
            ("status", string("ok")),
            (
                "result",
                object(vec![("accepted", Value::Bool(true)), ("in_progress", Value::Bool(true))])
            ),
        ])
    );
}

#[test]
fn automation_timeouts_that_cannot_be_set_are_reported() {
    let failed = || ClientEvent::TimeoutSet(Err("invalid".to_owned()));
    match handle_client(ClientPhase::SettingReadTimeout, failed()) {
        (ClientPhase::Closed, ClientAction::Report(text)) => {
            assert_eq!(text, "automation socket could not set read timeout: invalid");
        }
        other => panic!("not reported: {:?}", other),
    }
    match handle_client(ClientPhase::SettingWriteTimeout, failed()) {
        (ClientPhase::Closed, ClientAction::Report(text)) => {
            assert_eq!(text, "automation socket could not set write timeout: invalid");
        }
        other => panic!("not reported: {:?}", other),
    }
}

#[test]
fn a_closed_automation_connection_gets_no_second_reply() {
    for event in [
        ClientEvent::Answered(Value::Null),
        ClientEvent::QueueFull,
        ClientEvent::CancelTried(true),
        ClientEvent::Read(Ok(b"1\n".to_vec())),
    ] {
        let (phase, action) = handle_client(ClientPhase::Closed, event);
        assert_eq!(phase, ClientPhase::Closed);
        assert!(matches!(action, ClientAction::Close));
    }
}

#[test]
fn the_fifth_waiting_request_is_refused() {
    let mut queue = RequestQueue::new();
    queue.take();
    for waiting in 0..MAX_PENDING_REQUESTS {
        assert_eq!(queue.waiting, waiting);
        assert!(matches!(queue.submit(false), ClientEvent::Submitted));
    }
    assert!(matches!(queue.submit(true), ClientEvent::QueueClosed));
    let event = queue.submit(false);
    assert!(matches!(event, ClientEvent::QueueFull));
    assert_eq!(queue.waiting, 4);
    assert_eq!(
        replied(handle_client(ClientPhase::Submitting, event)),
        error_object("busy", "automation request queue is full")
    );

    queue.take();
    assert!(matches!(queue.submit(true), ClientEvent::QueueClosed));
    assert_eq!(queue.waiting, 3);
    assert!(matches!(queue.submit(false), ClientEvent::Submitted));
    assert_eq!(queue.waiting, 4);
}

#[derive(Debug, PartialEq)]
struct Refresh;

impl DevAutomation for Refresh {
    fn from_automation_value(value: Value) -> Result<Self, serde_json::Error> {
        serde_json::from_value::<String>(value["variant"].clone()).map(|_| Refresh)
    }

    fn automation_schema() -> Value {
        string("Refresh")
    }
}

#[test]
fn messages_are_decoded_and_described() {
    let sent = object(vec![("variant", string("Refresh"))]);
    let request = AutomationRequest::new(request_kind(sent));
    let value = request.dispatch_value().unwrap().clone();
    assert_eq!(Refresh::from_automation_value(value).unwrap(), Refresh);
    assert!(Refresh::from_automation_value(Value::Null).is_err());
    assert_eq!(Refresh::automation_schema(), string("Refresh"));
}
