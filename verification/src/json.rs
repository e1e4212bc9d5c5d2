//! JSON values, the replies made of them, and the lines they are sent as.

use crate::text;
use vstd::prelude::*;
use vstd::utf8::*;

verus! {

/// A JSON value, as `serde_json` holds it.
#[verifier::external_type_specification]
#[verifier::external_body]
pub struct ExValue(serde_json::Value);

/// An error of `serde_json`.
#[verifier::external_type_specification]
#[verifier::external_body]
pub struct ExError(serde_json::Error);

/// What a JSON value holds. A number that `serde_json` holds as a floating-point one is known
/// by its JSON text.
#[verifier::ext_equal]
pub enum JsonView {
    Null,
    Bool(bool),
    Integer(int),
    Fraction(Seq<char>),
    Text(Seq<char>),
    Array(Seq<JsonView>),
    Object(Map<Seq<char>, JsonView>),
}

/// The contents of a JSON value.
pub uninterp spec fn json_view(value: serde_json::Value) -> JsonView;

/// What `serde_json::from_slice` reads from `bytes`: the value, or the message
/// of its error.
pub uninterp spec fn parsed_json(bytes: Seq<u8>) -> Result<JsonView, Seq<char>>;

/// The compact JSON text that `serde_json` writes for a value.
pub uninterp spec fn json_text(view: JsonView) -> Seq<char>;

/// Whether a value holds no floating-point number and is nested at most `depth` deep.
pub open spec fn plain_json(view: JsonView, depth: nat) -> bool
    decreases depth,
{
    match view {
        JsonView::Null => true,
        JsonView::Bool(_) => true,
        JsonView::Integer(_) => true,
        JsonView::Fraction(_) => false,
        JsonView::Text(_) => true,
        JsonView::Array(items) => depth > 0 && forall|i: int|
            0 <= i < items.len() ==> plain_json(#[trigger] items[i], (depth - 1) as nat),
        JsonView::Object(members) => depth > 0 && forall|key: Seq<char>|
            members.contains_key(key) ==> plain_json(#[trigger] members[key], (depth - 1) as nat),
    }
}

/// Whether `bytes` are read as the value `view`.
pub open spec fn reads_as(bytes: Seq<u8>, view: JsonView) -> bool {
    parsed_json(bytes) == Ok::<JsonView, Seq<char>>(view)
}

/// How deep the values are nested of which it is stated that they read back.
pub open spec fn read_back_depth() -> nat {
    127
}

/// Whether no two members have one name.
pub open spec fn distinct_names(members: Seq<(String, serde_json::Value)>) -> bool {
    forall|i: int, j: int|
        0 <= i < j < members.len() ==> #[trigger] members[i].0@ != #[trigger] members[j].0@
}

/// The members of an object that is built from `members`, which have distinct names.
pub open spec fn members_view(members: Seq<(String, serde_json::Value)>) -> Map<
    Seq<char>,
    JsonView,
>
    decreases members.len(),
{
    if members.len() == 0 {
        Map::empty()
    } else {
        members_view(members.drop_last()).insert(
            members.last().0@,
            json_view(members.last().1),
        )
    }
}

/// Calls `serde_json::from_slice`. The value and the text of the error depend on
/// the bytes alone.
#[verifier::external_body]
fn parse_value(bytes: &[u8]) -> (parsed: Result<serde_json::Value, String>)
    ensures
        parsed_json(bytes@) == parsed_view(parsed),
{
    serde_json::from_slice(bytes).map_err(|error| error.to_string())
}

/// Calls the `Display` of `serde_json::Value`, which writes compact JSON. Control
/// characters in strings are escaped, so the text holds no line feed. A value
/// without floating-point numbers is read back from its text as it was; of those
/// numbers it is not claimed, since one may be read back as a neighbouring one, nor
/// of values that are nested deeper, since `serde_json` reads only 127 levels.
#[verifier::external_body]
fn value_text(value: &serde_json::Value) -> (text: String)
    ensures
        text@ == json_text(json_view(*value)),
        !text@.contains('\n'),
        plain_json(json_view(*value), read_back_depth()) ==> reads_as(
            encode_utf8(text@),
            json_view(*value),
        ),
{
    value.to_string()
}

/// Calls `serde_json::Value::as_object` and, on the object, `serde_json::Map::len`:
/// the number of members of an object.
#[verifier::external_body]
fn object_len(value: &serde_json::Value) -> (len: Option<usize>)
    ensures
        match json_view(*value) {
            JsonView::Object(members) => members.dom().finite() && len == Some(
                members.dom().len() as usize,
            ) && members.dom().len() <= usize::MAX,
            _ => len is None,
        },
{
    value.as_object().map(|object| object.len())
}

/// Calls `serde_json::Value::get` with a string: the member of that name, if the
/// value is an object that has one.
#[verifier::external_body]
fn member<'a>(value: &'a serde_json::Value, name: &str) -> (found: Option<&'a serde_json::Value>)
    ensures
        match json_view(*value) {
            JsonView::Object(members) => if members.contains_key(name@) {
                found is Some && json_view(*found->0) == members[name@]
            } else {
                found is None
            },
            _ => found is None,
        },
{
    value.get(name)
}

/// Calls `serde_json::Value::as_str`: the text of a string.
#[verifier::external_body]
fn text_value<'a>(value: &'a serde_json::Value) -> (found: Option<&'a str>)
    ensures
        match json_view(*value) {
            JsonView::Text(text) => found is Some && found->0@ == text,
            _ => found is None,
        },
{
    value.as_str()
}

/// Makes a `serde_json::Value::String`.
#[verifier::external_body]
fn json_string(text: String) -> (value: serde_json::Value)
    ensures
        json_view(value) == JsonView::Text(text@),
{
    serde_json::Value::String(text)
}

/// Makes a `serde_json::Value::Bool`.
#[verifier::external_body]
fn json_bool(flag: bool) -> (value: serde_json::Value)
    ensures
        json_view(value) == JsonView::Bool(flag),
{
    serde_json::Value::Bool(flag)
}

/// Collects members into a `serde_json::Map` and makes a
/// `serde_json::Value::Object` of it. The names are distinct, since which of two members
/// with one name stays is left open.
#[verifier::external_body]
fn json_object(members: Vec<(String, serde_json::Value)>) -> (value: serde_json::Value)
    requires
        distinct_names(members@),
    ensures
        json_view(value) == JsonView::Object(members_view(members@)),
{
    serde_json::Value::Object(members.into_iter().collect())
}

/// What a reading of JSON gave, by its contents.
pub open spec fn parsed_view(parsed: Result<serde_json::Value, String>) -> Result<
    JsonView,
    Seq<char>,
> {
    match parsed {
        Ok(value) => Ok(json_view(value)),
        Err(message) => Err(message@),
    }
}

/// Reads one JSON value that fills `bytes`.
pub fn parse(bytes: &[u8]) -> (parsed: Result<serde_json::Value, String>)
    ensures
        parsed_view(parsed) == parsed_json(bytes@),
{
    parse_value(bytes)
}

/// The request that asks for the schema, `{"op":"describe"}`.
pub open spec fn describe_view() -> JsonView {
    JsonView::Object(map!["op"@ => JsonView::Text("describe"@)])
}

/// Whether a value is the request for the schema: an object whose only member is
/// `op`, with the string `describe`.
pub fn is_schema_request(value: &serde_json::Value) -> (schema: bool)
    ensures
        schema == (json_view(*value) == describe_view()),
{
    let single: bool = match object_len(value) {
        Some(len) => len == 1,
        None => false,
    };
    let describes: bool = match member(value, "op") {
        Some(operation) => match text_value(operation) {
            Some(name) => name.to_owned() == "describe".to_owned(),
            None => false,
        },
        None => false,
    };
    proof {
        if single && describes {
            let members = json_view(*value)->Object_0;
            assert(members.dom().contains("op"@));
            assert(members.dom() =~= set!["op"@]) by {
                assert forall|key: Seq<char>| members.dom().contains(key) implies key == "op"@ by {
                    if key != "op"@ {
                        let rest = members.dom().remove("op"@);
                        assert(rest.contains(key));
                        assert(rest.len() == 0);
                    }
                }
            }
            assert(members =~= describe_view()->Object_0);
        }
        if json_view(*value) == describe_view() {
            let members = json_view(*value)->Object_0;
            assert(members.dom() =~= Set::empty().insert("op"@));
            assert(members.dom().len() == 1);
        }
    }
    single && describes
}

/// A successful reply: `{"status":"ok","result":...}`.
pub open spec fn ok_view(result: JsonView) -> JsonView {
    JsonView::Object(map!["status"@ => JsonView::Text("ok"@), "result"@ => result])
}

/// A failed reply: `{"status":"error","code":...,"message":...}`.
pub open spec fn error_view(code: Seq<char>, message: Seq<char>) -> JsonView {
    JsonView::Object(
        map![
            "status"@ => JsonView::Text("error"@),
            "code"@ => JsonView::Text(code),
            "message"@ => JsonView::Text(message)
        ],
    )
}

/// The result of a request that began before its client stopped waiting.
pub open spec fn in_progress_view() -> JsonView {
    JsonView::Object(
        map!["accepted"@ => JsonView::Bool(true), "in_progress"@ => JsonView::Bool(true)],
    )
}

/// Makes a successful reply.
pub fn ok_reply(result: serde_json::Value) -> (reply: serde_json::Value)
    ensures
        json_view(reply) == ok_view(json_view(result)),
{
    let mut members: Vec<(String, serde_json::Value)> = Vec::new();
    members.push(("status".to_owned(), json_string("ok".to_owned())));
    let ghost first = members@;
    members.push(("result".to_owned(), result));
    proof {
        reveal_with_fuel(members_view, 3);
        assert(members@.drop_last() =~= first);
        assert(first.drop_last() =~= Seq::empty());
        reveal_strlit("status");
        reveal_strlit("result");
        assert("status"@[0] == 's' && "result"@[0] == 'r');
    }
    json_object(members)
}

/// Makes a failed reply.
pub fn error_reply(code: &str, message: &str) -> (reply: serde_json::Value)
    ensures
        json_view(reply) == error_view(code@, message@),
{
    let mut members: Vec<(String, serde_json::Value)> = Vec::new();
    members.push(("status".to_owned(), json_string("error".to_owned())));
    let ghost first = members@;
    members.push(("code".to_owned(), json_string(code.to_owned())));
    let ghost second = members@;
    members.push(("message".to_owned(), json_string(message.to_owned())));
    proof {
        reveal_with_fuel(members_view, 4);
        assert(members@.drop_last() =~= second);
        assert(second.drop_last() =~= first);
        assert(first.drop_last() =~= Seq::empty());
        reveal_strlit("status");
        reveal_strlit("code");
        reveal_strlit("message");
        assert("status"@.len() == 6 && "code"@.len() == 4 && "message"@.len() == 7);
    }
    json_object(members)
}

/// Makes the result of a request that began before its client stopped waiting.
pub fn in_progress() -> (result: serde_json::Value)
    ensures
        json_view(result) == in_progress_view(),
{
    let mut members: Vec<(String, serde_json::Value)> = Vec::new();
    members.push(("accepted".to_owned(), json_bool(true)));
    let ghost first = members@;
    members.push(("in_progress".to_owned(), json_bool(true)));
    proof {
        reveal_with_fuel(members_view, 3);
        assert(members@.drop_last() =~= first);
        assert(first.drop_last() =~= Seq::empty());
        reveal_strlit("accepted");
        reveal_strlit("in_progress");
        assert("accepted"@.len() == 8 && "in_progress"@.len() == 11);
    }
    json_object(members)
}

/// The line that a reply is sent as: its JSON text and a line feed.
pub open spec fn response_line(view: JsonView) -> Seq<u8> {
    encode_utf8(json_text(view)).push(text::NEWLINE)
}

/// Whether `line` is what a client is sent as the reply `view`: the reply's JSON text
/// and the only line feed in it, at its end. A client that reads what stands before the
/// line feed gets the reply back, if it holds no floating-point number and is not nested
/// too deep.
pub open spec fn is_response(line: Seq<u8>, view: JsonView) -> bool {
    &&& line == response_line(view)
    &&& !line.drop_last().contains(text::NEWLINE)
    &&& plain_json(view, read_back_depth()) ==> reads_as(line.drop_last(), view)
}

/// The line that a reply is sent as.
pub fn write_response(response: &serde_json::Value) -> (line: Vec<u8>)
    ensures
        is_response(line@, json_view(*response)),
{
    let text: String = value_text(response);
    proof {
        text::lemma_encode_newline(text@);
    }
    let mut line: Vec<u8> = text.as_str().as_bytes_vec();
    line.push(text::NEWLINE);
    assert(line@.drop_last() =~= encode_utf8(text@));
    line
}

/// A client reads a failed reply as it was meant, whatever its code and message hold.
pub proof fn law_error_reads_back(line: Seq<u8>, code: Seq<char>, message: Seq<char>)
    requires
        is_response(line, error_view(code, message)),
    ensures
        reads_as(line.drop_last(), error_view(code, message)),
{
    reveal_with_fuel(plain_json, 2);
}

/// A client reads a successful reply as it was meant, if the result holds no floating-point
/// number and is not nested too deep.
pub proof fn law_ok_reads_back(line: Seq<u8>, result: JsonView)
    requires
        plain_json(result, (read_back_depth() - 1) as nat),
        is_response(line, ok_view(result)),
    ensures
        reads_as(line.drop_last(), ok_view(result)),
{
    reveal_with_fuel(plain_json, 2);
}

/// The reserved request is the object whose only member is `op`, with the string `describe`;
/// no other value is.
pub proof fn law_the_schema_request_is_reserved(view: JsonView)
    ensures
        view == describe_view() <==> (view matches JsonView::Object(members) && members.dom()
            == set!["op"@] && members["op"@] == JsonView::Text("describe"@)),
{
    if let JsonView::Object(members) = view {
        if members.dom() == set!["op"@] && members["op"@] == JsonView::Text("describe"@) {
            assert(members =~= describe_view()->Object_0);
        }
        if view == describe_view() {
            assert(members.dom() =~= set!["op"@]);
        }
    }
}

/// A successful reply has two members, the status `ok` and the result as it was given. A
/// failed one has three, the status `error`, the code and the message as they were given.
pub proof fn law_replies_hold_what_was_given(
    result: JsonView,
    code: Seq<char>,
    message: Seq<char>,
)
    ensures
        ok_view(result) matches JsonView::Object(members) && members.dom() == set![
            "status"@,
            "result"@,
        ] && members["status"@] == JsonView::Text("ok"@) && members["result"@] == result,
        error_view(code, message) matches JsonView::Object(members) && members.dom() == set![
            "status"@,
            "code"@,
            "message"@,
        ] && members["status"@] == JsonView::Text("error"@) && members["code"@] == JsonView::Text(
            code,
        ) && members["message"@] == JsonView::Text(message),
        in_progress_view() matches JsonView::Object(members) && members.dom() == set![
            "accepted"@,
            "in_progress"@,
        ] && members["accepted"@] == JsonView::Bool(true) && members["in_progress"@]
            == JsonView::Bool(true),
{
    reveal_strlit("status");
    reveal_strlit("result");
    reveal_strlit("code");
    reveal_strlit("message");
    reveal_strlit("accepted");
    reveal_strlit("in_progress");
    assert("status"@.len() == 6 && "code"@.len() == 4 && "message"@.len() == 7);
    assert("accepted"@.len() == 8 && "in_progress"@.len() == 11);
    assert("status"@[0] == 's' && "result"@[0] == 'r');
    assert(ok_view(result)->Object_0.dom() =~= set!["status"@, "result"@]);
    assert(error_view(code, message)->Object_0.dom() =~= set!["status"@, "code"@, "message"@]);
    assert(in_progress_view()->Object_0.dom() =~= set!["accepted"@, "in_progress"@]);
}

/// No failed reply is a successful one.
pub proof fn law_failures_are_no_successes(
    result: JsonView,
    code: Seq<char>,
    message: Seq<char>,
)
    ensures
        error_view(code, message) != ok_view(result),
{
    law_replies_hold_what_was_given(result, code, message);
    reveal_strlit("ok");
    reveal_strlit("error");
    assert("ok"@.len() == 2 && "error"@.len() == 5);
    if error_view(code, message) == ok_view(result) {
        assert(JsonView::Text("ok"@) == JsonView::Text("error"@));
    }
}

/// A reply is sent as its JSON text, in UTF-8, and one line feed, which stands at the end; and
/// two replies that can be read back are never sent as the same line.
pub proof fn law_a_line_tells_its_reply(line: Seq<u8>, view: JsonView, other: JsonView)
    requires
        is_response(line, view),
    ensures
        line == encode_utf8(json_text(view)) + seq![10u8],
        forall|i: int| 0 <= i < line.len() - 1 ==> line[i] != 10u8,
        plain_json(view, 127) && plain_json(other, 127) && is_response(line, other) ==> view
            == other,
{
    assert(line =~= encode_utf8(json_text(view)) + seq![10u8]);
    assert forall|i: int| 0 <= i < line.len() - 1 implies line[i] != 10u8 by {
        assert(line.drop_last()[i] == line[i]);
    }
}

/// Which values can be read back: those without floating-point numbers, nested not too deep.
pub proof fn law_plain_values(view: JsonView, depth: nat)
    ensures
        view matches JsonView::Fraction(_) ==> !plain_json(view, depth),
        view is Null || view is Bool || view is Integer || view is Text ==> plain_json(view, depth),
        view matches JsonView::Array(items) ==> plain_json(view, depth + 1) == (forall|i: int|
            0 <= i < items.len() ==> plain_json(#[trigger] items[i], depth)),
        view matches JsonView::Object(members) ==> plain_json(view, depth + 1) == (forall|
            key: Seq<char>,
        |
            members.contains_key(key) ==> plain_json(#[trigger] members[key], depth)),
        read_back_depth() == 127,
{
}

/// What was read is what the value holds, or the message of the error.
pub proof fn law_readings_are_kept(value: serde_json::Value, message: String)
    ensures
        parsed_view(Ok(value)) == Ok::<JsonView, Seq<char>>(json_view(value)),
        parsed_view(Err(message)) == Err::<JsonView, Seq<char>>(message@),
{
}

} // verus!
