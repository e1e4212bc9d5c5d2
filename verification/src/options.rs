//! Command-line options for the debug sockets.
//!
//! Arguments and paths are byte strings, as Unix has them.

use crate::text;
use vstd::prelude::*;
use vstd::utf8::*;

verus! {

/// What is printed when help is asked for.
pub const USAGE: &'static str = "Usage: application [--screenshot-socket PATH] [--automation-socket PATH]\n\n--screenshot-socket PATH  Start the debug screenshot socket.\n--automation-socket PATH  Start the debug automation socket.";

/// The byte that separates the components of a path.
pub const SEPARATOR: u8 = 47;

/// The byte that alone makes the component of the current directory.
pub const DOT: u8 = 46;

/// The components of a path as they stand between its separators, empty ones too.
pub open spec fn segments(path: Seq<u8>) -> Seq<Seq<u8>>
    decreases path.len(),
{
    if path.len() == 0 {
        seq![Seq::<u8>::empty()]
    } else {
        let before = segments(path.drop_last());
        if path.last() == SEPARATOR {
            before.push(Seq::<u8>::empty())
        } else {
            before.drop_last().push(before.last().push(path.last()))
        }
    }
}

/// Whether a segment tells nothing: it is empty, or it is `.` and not the first one.
pub open spec fn is_idle(segment: Seq<u8>, index: int) -> bool {
    segment.len() == 0 || (segment == seq![DOT] && index > 0)
}

/// The segments that tell something.
pub open spec fn telling(segments: Seq<Seq<u8>>) -> Seq<Seq<u8>>
    decreases segments.len(),
{
    if segments.len() == 0 {
        Seq::empty()
    } else {
        let before = telling(segments.drop_last());
        if is_idle(segments.last(), segments.len() - 1) {
            before
        } else {
            before.push(segments.last())
        }
    }
}

/// Whether a path begins at the root.
pub open spec fn is_absolute(path: Seq<u8>) -> bool {
    path.len() > 0 && path[0] == SEPARATOR
}

/// Whether two paths are the same: both begin at the root or neither does, and they have
/// the same components, where repeated and trailing separators and a `.` that does not
/// come first do not count. Links and `..` are not resolved.
pub open spec fn same_paths(left: Seq<u8>, right: Seq<u8>) -> bool {
    &&& is_absolute(left) == is_absolute(right)
    &&& telling(segments(left)) == telling(segments(right))
}

/// The byte strings of a vector.
pub open spec fn contents(parts: Seq<Vec<u8>>) -> Seq<Seq<u8>> {
    parts.map_values(|part: Vec<u8>| part@)
}

/// Whether a segment tells nothing; `first` is whether it is the first one.
fn idle(segment: &Vec<u8>, first: bool) -> (idle: bool)
    ensures
        idle == is_idle(segment@, if first { 0 } else { 1 }),
{
    if segment.len() == 0 {
        return true;
    }
    let dot: bool = segment.len() == 1 && segment[0] == DOT;
    assert(dot == (segment@ =~= seq![DOT]));
    dot && !first
}

/// The components of a path.
fn components(path: &[u8]) -> (parts: Vec<Vec<u8>>)
    ensures
        contents(parts@) == telling(segments(path@)),
{
    let mut parts: Vec<Vec<u8>> = Vec::new();
    let mut current: Vec<u8> = Vec::new();
    let mut first: bool = true;
    let mut i: usize = 0;
    assert(path@.take(0) =~= Seq::empty());
    assert(segments(path@.take(0)).drop_last() =~= Seq::empty());
    assert(contents(parts@) =~= Seq::empty());
    while i < path.len()
        invariant
            i <= path@.len(),
            segments(path@.take(i as int)).len() > 0,
            segments(path@.take(i as int)).last() == current@,
            first == (segments(path@.take(i as int)).len() == 1),
            contents(parts@) == telling(segments(path@.take(i as int)).drop_last()),
        decreases path@.len() - i,
    {
        let ghost read = segments(path@.take(i as int));
        let ghost next = segments(path@.take(i + 1));
        assert(path@.take(i + 1).drop_last() =~= path@.take(i as int));
        assert(path@.take(i + 1).last() == path@[i as int]);
        let byte: u8 = path[i];
        if byte == SEPARATOR {
            assert(next == read.push(Seq::<u8>::empty()));
            assert(next.drop_last() =~= read);
            let skip: bool = idle(&current, first);
            let segment: Vec<u8> = current;
            let ghost before = parts@;
            if !skip {
                parts.push(segment);
                assert(contents(parts@) =~= contents(before).push(segment@));
            }
            current = Vec::new();
            first = false;
        } else {
            assert(next.drop_last() =~= read.drop_last());
            current.push(byte);
        }
        i += 1;
    }
    assert(path@.take(path@.len() as int) =~= path@);
    let ghost before = parts@;
    if !idle(&current, first) {
        parts.push(current);
        assert(contents(parts@) =~= contents(before).push(current@));
    }
    parts
}

/// Whether two lists of byte strings are equal.
fn same_lists(left: &Vec<Vec<u8>>, right: &Vec<Vec<u8>>) -> (same: bool)
    ensures
        same == (contents(left@) == contents(right@)),
{
    if left.len() != right.len() {
        assert(contents(left@).len() != contents(right@).len());
        return false;
    }
    let mut i: usize = 0;
    while i < left.len()
        invariant
            left@.len() == right@.len(),
            i <= left@.len(),
            forall|k: int| 0 <= k < i ==> left@[k]@ == right@[k]@,
        decreases left@.len() - i,
    {
        if !text::same_bytes(left[i].as_slice(), right[i].as_slice()) {
            assert(contents(left@)[i as int] != contents(right@)[i as int]);
            return false;
        }
        i += 1;
    }
    assert(contents(left@) =~= contents(right@));
    true
}

/// Whether two paths are the same.
pub fn same_path(left: &[u8], right: &[u8]) -> (same: bool)
    ensures
        same == same_paths(left@, right@),
{
    let left_absolute: bool = left.len() > 0 && left[0] == SEPARATOR;
    let right_absolute: bool = right.len() > 0 && right[0] == SEPARATOR;
    let left_parts: Vec<Vec<u8>> = components(left);
    let right_parts: Vec<Vec<u8>> = components(right);
    left_absolute == right_absolute && same_lists(&left_parts, &right_parts)
}

/// Paths for the optional debug sockets.
#[derive(Debug)]
pub struct DevOptions {
    /// Path for the rendered-viewport screenshot socket.
    pub screenshot_socket: Option<Vec<u8>>,
    /// Path for the tagged-message automation socket.
    pub automation_socket: Option<Vec<u8>>,
}

/// What a command line asks for.
#[derive(Debug)]
pub enum Invocation {
    /// To print [`USAGE`].
    Help,
    /// To start the sockets.
    Run(DevOptions),
}

/// Paths for the debug sockets, by their contents.
#[verifier::ext_equal]
pub struct OptionsView {
    pub screenshot_socket: Option<Seq<u8>>,
    pub automation_socket: Option<Seq<u8>>,
}

/// What a command line asks for, by its contents.
#[verifier::ext_equal]
pub enum InvocationView {
    Help,
    Run(OptionsView),
}

/// A path, by its contents.
pub open spec fn path_view(path: Option<Vec<u8>>) -> Option<Seq<u8>> {
    match path {
        Some(bytes) => Some(bytes@),
        None => None,
    }
}

impl View for DevOptions {
    type V = OptionsView;

    open spec fn view(&self) -> OptionsView {
        OptionsView {
            screenshot_socket: path_view(self.screenshot_socket),
            automation_socket: path_view(self.automation_socket),
        }
    }
}

/// What a command line asks for, or why it is refused, by its contents.
pub open spec fn invocation_view(parsed: Result<Invocation, String>) -> Result<
    InvocationView,
    Seq<char>,
> {
    match parsed {
        Ok(Invocation::Help) => Ok(InvocationView::Help),
        Ok(Invocation::Run(options)) => Ok(InvocationView::Run(options@)),
        Err(message) => Err(message@),
    }
}

impl Default for DevOptions {
    fn default() -> (options: Self)
        ensures
            options@ == no_options(),
    {
        DevOptions { screenshot_socket: None, automation_socket: None }
    }
}

/// Options that start no socket.
pub open spec fn no_options() -> OptionsView {
    OptionsView { screenshot_socket: None, automation_socket: None }
}

/// The text that `String::from_utf8_lossy` makes of `bytes`.
pub uninterp spec fn lossy_text(bytes: Seq<u8>) -> Seq<char>;

/// Calls `String::from_utf8_lossy`. Bytes that are UTF-8 give the text that they encode;
/// what stands for others is left to that function.
#[verifier::external_body]
fn shown_text(bytes: &[u8]) -> (text: String)
    ensures
        text@ == lossy_text(bytes@),
        valid_utf8(bytes@) ==> text@ == decode_utf8(bytes@),
{
    String::from_utf8_lossy(bytes).into_owned()
}

/// An argument as it is shown to people: the text that it encodes, if it encodes one.
pub open spec fn shown_argument(argument: Seq<u8>) -> Seq<char> {
    if valid_utf8(argument) {
        decode_utf8(argument)
    } else {
        lossy_text(argument)
    }
}

/// Options with their values checked: the sockets may not have the same path.
pub open spec fn checked(options: OptionsView) -> Result<InvocationView, Seq<char>> {
    match (options.screenshot_socket, options.automation_socket) {
        (Some(screenshot), Some(automation)) => if same_paths(screenshot, automation) {
            Err("--screenshot-socket and --automation-socket must use different paths"@)
        } else {
            Ok(InvocationView::Run(options))
        },
        _ => Ok(InvocationView::Run(options)),
    }
}

/// What a command line asks for, from the arguments that are left and the options that
/// came before. The first argument that asks for help or cannot be taken decides.
pub open spec fn invocation(args: Seq<Seq<u8>>, options: OptionsView) -> Result<
    InvocationView,
    Seq<char>,
>
    decreases args.len(),
{
    if args.len() == 0 {
        checked(options)
    } else if args[0] == encode_utf8("--screenshot-socket"@) {
        if args.len() == 1 {
            Err("--screenshot-socket requires a Unix-socket path"@)
        } else if options.screenshot_socket is Some {
            Err("--screenshot-socket can be specified only once"@)
        } else {
            invocation(
                args.skip(2),
                OptionsView { screenshot_socket: Some(args[1]), ..options },
            )
        }
    } else if args[0] == encode_utf8("--automation-socket"@) {
        if args.len() == 1 {
            Err("--automation-socket requires a Unix-socket path"@)
        } else if options.automation_socket is Some {
            Err("--automation-socket can be specified only once"@)
        } else {
            invocation(
                args.skip(2),
                OptionsView { automation_socket: Some(args[1]), ..options },
            )
        }
    } else if args[0] == encode_utf8("--help"@) || args[0] == encode_utf8("-h"@) {
        Ok(InvocationView::Help)
    } else {
        Err("unknown argument: "@ + shown_argument(args[0]))
    }
}

impl DevOptions {
    /// Parses `--screenshot-socket PATH` and `--automation-socket PATH`. `args` are the
    /// arguments without the name of the program.
    pub fn from_cli(args: &Vec<Vec<u8>>) -> (parsed: Result<Invocation, String>)
        ensures
            invocation_view(parsed) == invocation(contents(args@), no_options()),
    {
        let mut options: DevOptions = DevOptions::default();
        let mut i: usize = 0;
        let ghost all = contents(args@);
        assert(all.skip(0) =~= all);
        while i < args.len()
            invariant
                i <= args@.len(),
                all == contents(args@),
                invocation(all, no_options()) == invocation(all.skip(i as int), options@),
            decreases args@.len() - i,
        {
            let ghost left = all.skip(i as int);
            assert(left[0] == args@[i as int]@);
            assert(left.len() == args@.len() - i);
            let argument: &[u8] = args[i].as_slice();
            if text::same_bytes(argument, "--screenshot-socket".as_bytes()) {
                if args.len() - i == 1 {
                    return Err("--screenshot-socket requires a Unix-socket path".to_owned());
                }
                if options.screenshot_socket.is_some() {
                    return Err("--screenshot-socket can be specified only once".to_owned());
                }
                assert(left[1] == args@[i + 1]@);
                assert(left.skip(2) =~= all.skip(i + 2));
                let path: Vec<u8> = vstd::slice::slice_to_vec(args[i + 1].as_slice());
                options.screenshot_socket = Some(path);
                i += 2;
            } else if text::same_bytes(argument, "--automation-socket".as_bytes()) {
                if args.len() - i == 1 {
                    return Err("--automation-socket requires a Unix-socket path".to_owned());
                }
                if options.automation_socket.is_some() {
                    return Err("--automation-socket can be specified only once".to_owned());
                }
                assert(left[1] == args@[i + 1]@);
                assert(left.skip(2) =~= all.skip(i + 2));
                let path: Vec<u8> = vstd::slice::slice_to_vec(args[i + 1].as_slice());
                options.automation_socket = Some(path);
                i += 2;
            } else if text::same_bytes(argument, "--help".as_bytes()) || text::same_bytes(
                argument,
                "-h".as_bytes(),
            ) {
                return Ok(Invocation::Help);
            } else {
                return Err("unknown argument: ".to_owned().concat(shown_text(argument).as_str()));
            }
        }
        assert(all.skip(i as int) =~= Seq::empty());
        match (&options.screenshot_socket, &options.automation_socket) {
            (Some(screenshot), Some(automation)) => {
                if same_path(screenshot.as_slice(), automation.as_slice()) {
                    return Err(
                        "--screenshot-socket and --automation-socket must use different paths".to_owned(),
                    );
                }
            },
            _ => {},
        }
        Ok(Invocation::Run(options))
    }
}

/// The two options are different byte strings.
proof fn lemma_names_differ()
    ensures
        encode_utf8("--screenshot-socket"@) != encode_utf8("--automation-socket"@),
{
    reveal_strlit("--screenshot-socket");
    reveal_strlit("--automation-socket");
    is_ascii_chars_encode_utf8("--screenshot-socket"@);
    is_ascii_chars_encode_utf8("--automation-socket"@);
    assert("--screenshot-socket"@[2] == 's');
    assert("--automation-socket"@[2] == 'a');
}

/// Sockets that are started have different paths.
pub proof fn law_started_sockets_differ(args: Seq<Seq<u8>>, options: OptionsView)
    ensures
        invocation(args, options) matches Ok(InvocationView::Run(run)) ==> (
        run.screenshot_socket is Some && run.automation_socket is Some ==> !same_paths(
            run.screenshot_socket->0,
            run.automation_socket->0,
        )),
    decreases args.len(),
{
    if args.len() > 1 {
        law_started_sockets_differ(
            args.skip(2),
            OptionsView { screenshot_socket: Some(args[1]), ..options },
        );
        law_started_sockets_differ(
            args.skip(2),
            OptionsView { automation_socket: Some(args[1]), ..options },
        );
    }
}

/// Whether `args` hold the option `name` with the value `path`.
pub open spec fn given(args: Seq<Seq<u8>>, name: Seq<u8>, path: Seq<u8>) -> bool {
    exists|i: int| 0 <= i < args.len() - 1 && #[trigger] args[i] == name && args[i + 1] == path
}

/// What is given among the arguments that are left is given among all of them.
proof fn lemma_given_earlier(args: Seq<Seq<u8>>, name: Seq<u8>, path: Seq<u8>)
    requires
        args.len() >= 2,
        given(args.skip(2), name, path),
    ensures
        given(args, name, path),
{
    let left = args.skip(2);
    let i = choose|i: int|
        0 <= i < left.len() - 1 && #[trigger] left[i] == name && left[i + 1] == path;
    assert(args[i + 2] == name && args[i + 3] == path);
}

/// A socket is started only if its option is given, and at the path that is given.
pub proof fn law_only_given_sockets_are_started(args: Seq<Seq<u8>>, options: OptionsView)
    ensures
        invocation(args, options) matches Ok(InvocationView::Run(run)) ==> {
            &&& run.screenshot_socket != options.screenshot_socket ==> (run.screenshot_socket
                matches Some(path) && given(args, encode_utf8("--screenshot-socket"@), path))
            &&& run.automation_socket != options.automation_socket ==> (run.automation_socket
                matches Some(path) && given(args, encode_utf8("--automation-socket"@), path))
        },
    decreases args.len(),
{
    let screenshot = encode_utf8("--screenshot-socket"@);
    let automation = encode_utf8("--automation-socket"@);
    if args.len() >= 2 && invocation(args, options) is Ok && (args[0] == screenshot || args[0]
        == automation) {
        let next = if args[0] == screenshot {
            OptionsView { screenshot_socket: Some(args[1]), ..options }
        } else {
            OptionsView { automation_socket: Some(args[1]), ..options }
        };
        law_only_given_sockets_are_started(args.skip(2), next);
        assert(given(args, args[0], args[1])) by {
            let i: int = 0;
            assert(args[i] == args[0] && args[i + 1] == args[1]);
        }
        if let Ok(InvocationView::Run(run)) = invocation(args, options) {
            if let Some(path) = run.screenshot_socket {
                if given(args.skip(2), screenshot, path) {
                    lemma_given_earlier(args, screenshot, path);
                }
            }
            if let Some(path) = run.automation_socket {
                if given(args.skip(2), automation, path) {
                    lemma_given_earlier(args, automation, path);
                }
            }
        }
    }
}

/// An argument that is no option is refused, and the message shows it as it was written.
pub proof fn law_unknown_arguments_are_shown(
    argument: Seq<char>,
    rest: Seq<Seq<u8>>,
    options: OptionsView,
)
    requires
        argument != "--screenshot-socket"@,
        argument != "--automation-socket"@,
        argument != "--help"@,
        argument != "-h"@,
    ensures
        invocation(seq![encode_utf8(argument)] + rest, options) == Err::<
            InvocationView,
            Seq<char>,
        >("unknown argument: "@ + argument),
{
    encode_utf8_valid_utf8(argument);
    encode_utf8_decode_utf8(argument);
    encode_utf8_decode_utf8("--screenshot-socket"@);
    encode_utf8_decode_utf8("--automation-socket"@);
    encode_utf8_decode_utf8("--help"@);
    encode_utf8_decode_utf8("-h"@);
    assert((seq![encode_utf8(argument)] + rest)[0] == encode_utf8(argument));
}

/// The two options may come in either order: both sockets are started at their paths, or
/// the paths are refused because they are the same.
pub proof fn law_options_come_in_any_order(screenshot: Seq<u8>, automation: Seq<u8>)
    ensures
        invocation(
            seq![
                encode_utf8("--screenshot-socket"@),
                screenshot,
                encode_utf8("--automation-socket"@),
                automation,
            ],
            no_options(),
        ) == checked(
            OptionsView {
                screenshot_socket: Some(screenshot),
                automation_socket: Some(automation),
            },
        ),
        invocation(
            seq![
                encode_utf8("--automation-socket"@),
                automation,
                encode_utf8("--screenshot-socket"@),
                screenshot,
            ],
            no_options(),
        ) == checked(
            OptionsView {
                screenshot_socket: Some(screenshot),
                automation_socket: Some(automation),
            },
        ),
{
    lemma_names_differ();
    let first = encode_utf8("--screenshot-socket"@);
    let second = encode_utf8("--automation-socket"@);
    let one = seq![first, screenshot, second, automation];
    let other = seq![second, automation, first, screenshot];
    assert(one.skip(2) =~= seq![second, automation]);
    assert(other.skip(2) =~= seq![first, screenshot]);
    assert(seq![second, automation].skip(2) =~= Seq::empty());
    assert(seq![first, screenshot].skip(2) =~= Seq::empty());
    reveal_with_fuel(invocation, 3);
}

/// An option that is given twice is refused, whatever the paths are.
pub proof fn law_options_are_given_once(first: Seq<u8>, second: Seq<u8>, rest: Seq<Seq<u8>>)
    ensures
        invocation(
            seq![
                encode_utf8("--screenshot-socket"@),
                first,
                encode_utf8("--screenshot-socket"@),
                second,
            ] + rest,
            no_options(),
        ) is Err,
        invocation(
            seq![
                encode_utf8("--automation-socket"@),
                first,
                encode_utf8("--automation-socket"@),
                second,
            ] + rest,
            no_options(),
        ) is Err,
{
    lemma_names_differ();
    let screenshot = encode_utf8("--screenshot-socket"@);
    let automation = encode_utf8("--automation-socket"@);
    let twice = seq![screenshot, first, screenshot, second] + rest;
    let again = seq![automation, first, automation, second] + rest;
    assert(twice.skip(2) =~= seq![screenshot, second] + rest);
    assert(again.skip(2) =~= seq![automation, second] + rest);
    reveal_with_fuel(invocation, 2);
}

/// The first argument decides how the rest is read: an option takes the argument behind it and
/// sets its own socket and no other, once; help ends the reading, and so does what is no option.
#[verifier::rlimit(40)]
pub proof fn law_arguments_are_read_one_after_the_other(
    path: Seq<u8>,
    rest: Seq<Seq<u8>>,
    options: OptionsView,
)
    ensures
        options.screenshot_socket is None ==> invocation(
            seq![encode_utf8("--screenshot-socket"@), path] + rest,
            options,
        ) == invocation(
            rest,
            OptionsView {
                screenshot_socket: Some(path),
                automation_socket: options.automation_socket,
            },
        ),
        options.automation_socket is None ==> invocation(
            seq![encode_utf8("--automation-socket"@), path] + rest,
            options,
        ) == invocation(
            rest,
            OptionsView {
                screenshot_socket: options.screenshot_socket,
                automation_socket: Some(path),
            },
        ),
        options.screenshot_socket is Some ==> invocation(
            seq![encode_utf8("--screenshot-socket"@), path] + rest,
            options,
        ) == Err::<InvocationView, Seq<char>>(
            "--screenshot-socket"@ + " can be specified only once"@,
        ),
        options.automation_socket is Some ==> invocation(
            seq![encode_utf8("--automation-socket"@), path] + rest,
            options,
        ) == Err::<InvocationView, Seq<char>>(
            "--automation-socket"@ + " can be specified only once"@,
        ),
        invocation(seq![encode_utf8("--screenshot-socket"@)], options) == Err::<
            InvocationView,
            Seq<char>,
        >("--screenshot-socket"@ + " requires a Unix-socket path"@),
        invocation(seq![encode_utf8("--automation-socket"@)], options) == Err::<
            InvocationView,
            Seq<char>,
        >("--automation-socket"@ + " requires a Unix-socket path"@),
        invocation(seq![encode_utf8("--help"@)] + rest, options) == Ok::<
            InvocationView,
            Seq<char>,
        >(InvocationView::Help),
        invocation(seq![encode_utf8("-h"@)] + rest, options) == Ok::<InvocationView, Seq<char>>(
            InvocationView::Help,
        ),
        !valid_utf8(path) ==> invocation(seq![path] + rest, options) == Err::<
            InvocationView,
            Seq<char>,
        >("unknown argument: "@ + lossy_text(path)),
{
    let screenshot = encode_utf8("--screenshot-socket"@);
    let automation = encode_utf8("--automation-socket"@);
    lemma_names_differ();
    encode_utf8_decode_utf8("--screenshot-socket"@);
    encode_utf8_decode_utf8("--automation-socket"@);
    encode_utf8_decode_utf8("--help"@);
    encode_utf8_decode_utf8("-h"@);
    encode_utf8_valid_utf8("--screenshot-socket"@);
    encode_utf8_valid_utf8("--automation-socket"@);
    encode_utf8_valid_utf8("--help"@);
    encode_utf8_valid_utf8("-h"@);
    reveal_strlit("--screenshot-socket");
    reveal_strlit("--automation-socket");
    reveal_strlit("--help");
    reveal_strlit("-h");
    reveal_strlit(" can be specified only once");
    reveal_strlit(" requires a Unix-socket path");
    reveal_strlit("--screenshot-socket can be specified only once");
    reveal_strlit("--automation-socket can be specified only once");
    reveal_strlit("--screenshot-socket requires a Unix-socket path");
    reveal_strlit("--automation-socket requires a Unix-socket path");
    assert("--screenshot-socket"@.len() == 19 && "--automation-socket"@.len() == 19);
    assert("--help"@.len() == 6 && "-h"@.len() == 2);
    assert("--screenshot-socket"@ + " can be specified only once"@
        =~= "--screenshot-socket can be specified only once"@);
    assert("--automation-socket"@ + " can be specified only once"@
        =~= "--automation-socket can be specified only once"@);
    assert("--screenshot-socket"@ + " requires a Unix-socket path"@
        =~= "--screenshot-socket requires a Unix-socket path"@);
    assert("--automation-socket"@ + " requires a Unix-socket path"@
        =~= "--automation-socket requires a Unix-socket path"@);
    assert((seq![screenshot, path] + rest).skip(2) =~= rest);
    assert((seq![automation, path] + rest).skip(2) =~= rest);
    assert((seq![screenshot, path] + rest)[0] == screenshot);
    assert((seq![automation, path] + rest)[0] == automation);
    assert((seq![encode_utf8("--help"@)] + rest)[0] == encode_utf8("--help"@));
    assert((seq![encode_utf8("-h"@)] + rest)[0] == encode_utf8("-h"@));
    assert((seq![path] + rest)[0] == path);
}

/// When all arguments are read, the sockets are started as they were given, unless both were
/// given at the same path.
pub proof fn law_given_sockets_are_started(options: OptionsView)
    ensures
        match (options.screenshot_socket, options.automation_socket) {
            (Some(screenshot), Some(automation)) => if same_paths(screenshot, automation) {
                invocation(Seq::empty(), options) == Err::<InvocationView, Seq<char>>(
                    "--screenshot-socket and --automation-socket must use different paths"@,
                )
            } else {
                invocation(Seq::empty(), options) == Ok::<InvocationView, Seq<char>>(
                    InvocationView::Run(options),
                )
            },
            _ => invocation(Seq::empty(), options) == Ok::<InvocationView, Seq<char>>(
                InvocationView::Run(options),
            ),
        },
        no_options().screenshot_socket is None,
        no_options().automation_socket is None,
{
}

/// Options are seen as what they hold.
pub proof fn law_options_are_seen_as_they_are(options: DevOptions, message: String)
    ensures
        options@.screenshot_socket is Some <==> options.screenshot_socket is Some,
        options@.automation_socket is Some <==> options.automation_socket is Some,
        options.screenshot_socket matches Some(path) ==> options@.screenshot_socket == Some(path@),
        options.automation_socket matches Some(path) ==> options@.automation_socket == Some(path@),
        invocation_view(Ok(Invocation::Run(options))) == Ok::<InvocationView, Seq<char>>(
            InvocationView::Run(options@),
        ),
        invocation_view(Ok(Invocation::Help)) == Ok::<InvocationView, Seq<char>>(
            InvocationView::Help,
        ),
        invocation_view(Err(message)) == Err::<InvocationView, Seq<char>>(message@),
{
}

/// A path has a segment at least.
proof fn lemma_some_segment(path: Seq<u8>)
    ensures
        segments(path).len() > 0,
    decreases path.len(),
{
    if path.len() > 0 {
        lemma_some_segment(path.drop_last());
    }
}

/// What stands behind the last separator of a path is its last segment.
proof fn lemma_last_segment(path: Seq<u8>, name: Seq<u8>)
    requires
        !name.contains(47u8),
    ensures
        segments(path.push(47u8) + name) == segments(path).push(name),
    decreases name.len(),
{
    lemma_some_segment(path);
    if name.len() == 0 {
        assert(path.push(47u8) + name =~= path.push(47u8));
        assert(path.push(47u8).drop_last() =~= path);
        assert(name =~= Seq::empty());
    } else {
        let front = name.drop_last();
        assert forall|i: int| 0 <= i < front.len() implies front[i] != 47u8 by {
            assert(name[i] == front[i]);
        }
        lemma_last_segment(path, front);
        let all = path.push(47u8) + name;
        assert(all.drop_last() =~= path.push(47u8) + front);
        assert(all.last() == name.last());
        assert(name.last() == name[name.len() - 1]);
        assert(segments(path).push(front).drop_last() =~= segments(path));
        assert(front.push(name.last()) =~= name);
    }
}

/// A path without a separator is its own only segment.
proof fn lemma_only_segment(name: Seq<u8>)
    requires
        !name.contains(47u8),
    ensures
        segments(name) == seq![name],
    decreases name.len(),
{
    if name.len() == 0 {
        assert(name =~= Seq::empty());
    } else {
        let front = name.drop_last();
        assert forall|i: int| 0 <= i < front.len() implies front[i] != 47u8 by {
            assert(name[i] == front[i]);
        }
        lemma_only_segment(front);
        assert(name.last() == name[name.len() - 1]);
        assert(front.push(name.last()) =~= name);
        assert(seq![front].drop_last().push(front.push(name.last())) =~= seq![name]);
    }
}

/// Behind a separator, a segment that is empty or a dot tells nothing, and any other tells
/// itself.
proof fn lemma_telling(path: Seq<u8>, name: Seq<u8>)
    requires
        !name.contains(47u8),
    ensures
        telling(segments(path.push(47u8) + name)) == if name.len() == 0 || name == seq![46u8] {
            telling(segments(path))
        } else {
            telling(segments(path)).push(name)
        },
        is_absolute(path.push(47u8) + name) == (path.len() == 0 || path[0] == 47u8),
{
    lemma_some_segment(path);
    lemma_last_segment(path, name);
    assert(segments(path).push(name).drop_last() =~= segments(path));
}

/// Two paths are the same if and only if their last components are and what stands before them
/// is, wherever the components are no dots.
pub proof fn law_paths_are_compared_by_components(
    left: Seq<u8>,
    right: Seq<u8>,
    first: Seq<u8>,
    second: Seq<u8>,
)
    requires
        !first.contains(47u8),
        !second.contains(47u8),
        first.len() > 0 && first != seq![46u8],
        second.len() > 0 && second != seq![46u8],
    ensures
        same_paths(left.push(47u8) + first, right.push(47u8) + second) <==> first == second
            && same_paths(left.push(47u8), right.push(47u8)),
{
    lemma_telling(left, first);
    lemma_telling(right, second);
    lemma_telling(left, Seq::empty());
    lemma_telling(right, Seq::empty());
    assert(left.push(47u8) + Seq::empty() =~= left.push(47u8));
    assert(right.push(47u8) + Seq::empty() =~= right.push(47u8));
    let one = telling(segments(left));
    let two = telling(segments(right));
    if one.push(first) == two.push(second) {
        assert(one =~= one.push(first).drop_last());
        assert(two =~= two.push(second).drop_last());
        assert(one.push(first).last() == two.push(second).last());
    }
}

/// Separators at the end, repeated ones, and a dot behind one do not count.
pub proof fn law_idle_segments_do_not_count(path: Seq<u8>)
    requires
        path.len() > 0,
    ensures
        same_paths(path.push(47u8), path),
        same_paths(path.push(47u8).push(47u8), path),
        same_paths(path.push(47u8).push(46u8), path),
{
    assert(!Seq::<u8>::empty().contains(47u8));
    assert(!seq![46u8].contains(47u8));
    lemma_telling(path, Seq::empty());
    lemma_telling(path.push(47u8), Seq::empty());
    lemma_telling(path, seq![46u8]);
    assert(path.push(47u8) + Seq::empty() =~= path.push(47u8));
    assert(path.push(47u8).push(47u8) + Seq::empty() =~= path.push(47u8).push(47u8));
    assert(path.push(47u8) + seq![46u8] =~= path.push(47u8).push(46u8));
}

/// Paths without separators are the same only if they are equal, and a path that begins at the
/// root is the same as none that does not.
pub proof fn law_plain_paths_are_compared_byte_by_byte(left: Seq<u8>, right: Seq<u8>)
    ensures
        !left.contains(47u8) && !right.contains(47u8) ==> (same_paths(left, right) <==> left
            == right),
        left.len() > 0 && left[0] == 47u8 && (right.len() == 0 || right[0] != 47u8)
            ==> !same_paths(left, right),
{
    if !left.contains(47u8) && !right.contains(47u8) {
        lemma_only_segment(left);
        lemma_only_segment(right);
        assert(seq![left].drop_last() =~= Seq::empty());
        assert(seq![right].drop_last() =~= Seq::empty());
        assert(telling(Seq::<Seq<u8>>::empty()) =~= Seq::empty());
        assert(telling(seq![left]) =~= if left.len() == 0 {
            Seq::empty()
        } else {
            seq![left]
        });
        assert(telling(seq![right]) =~= if right.len() == 0 {
            Seq::empty()
        } else {
            seq![right]
        });
        if left.len() > 0 {
            assert(left[0] != 47u8) by {
                assert(left.contains(left[0]));
            }
        }
        if right.len() > 0 {
            assert(right[0] != 47u8) by {
                assert(right.contains(right[0]));
            }
        }
        if telling(seq![left]) == telling(seq![right]) {
            if left.len() == 0 {
                assert(telling(seq![right]).len() == 0);
                assert(left =~= right);
            } else {
                assert(telling(seq![right]).len() == 1);
                assert(telling(seq![left])[0] == telling(seq![right])[0]);
            }
        }
    }
}

/// To be the same path is an equivalence.
pub proof fn law_same_paths_is_an_equivalence(first: Seq<u8>, second: Seq<u8>, third: Seq<u8>)
    ensures
        same_paths(first, first),
        same_paths(first, second) == same_paths(second, first),
        same_paths(first, second) && same_paths(second, third) ==> same_paths(first, third),
{
}

/// What does not begin at the root has a component.
proof fn lemma_some_component(path: Seq<u8>)
    requires
        path.len() > 0,
        path[0] != 47u8,
    ensures
        segments(path)[0].len() > 0,
        telling(segments(path)).len() > 0,
    decreases path.len(),
{
    let front = path.drop_last();
    lemma_some_segment(front);
    if front.len() == 0 {
        assert(front =~= Seq::empty());
        assert(segments(path) =~= seq![seq![path[0]]]);
        assert(segments(path).drop_last() =~= Seq::empty());
        assert(telling(Seq::<Seq<u8>>::empty()).len() == 0);
    } else {
        assert(front[0] == path[0]);
        lemma_some_component(front);
        lemma_first_tells(segments(path));
    }
}

/// A first segment that is not empty tells itself.
proof fn lemma_first_tells(parts: Seq<Seq<u8>>)
    requires
        parts.len() > 0,
        parts[0].len() > 0,
    ensures
        telling(parts).len() > 0,
    decreases parts.len(),
{
    if parts.len() > 1 {
        lemma_first_tells(parts.drop_last());
    }
}

/// The root is the same as itself with a dot, a path with a component is not the root, and a
/// path of one component is not the same as one with another component before it.
#[verifier::rlimit(40)]
pub proof fn law_paths_have_their_number_of_components(
    path: Seq<u8>,
    name: Seq<u8>,
    last: Seq<u8>,
)
    requires
        !name.contains(47u8),
        !last.contains(47u8),
        last.len() > 0 && last != seq![46u8],
    ensures
        same_paths(seq![47u8, 46u8], seq![47u8]),
        !same_paths(seq![47u8], path.push(47u8) + last),
        !same_paths(name, path.push(47u8) + last),
        path.len() > 0 && path[0] != 47u8 ==> !same_paths(seq![47u8], path),
{
    let root = Seq::<u8>::empty();
    assert(!root.contains(47u8));
    assert(!seq![46u8].contains(47u8));
    lemma_telling(root, root);
    lemma_telling(root, seq![46u8]);
    lemma_telling(path, last);
    lemma_only_segment(root);
    lemma_only_segment(name);
    assert(root.push(47u8) + root =~= seq![47u8]);
    assert(root.push(47u8) + seq![46u8] =~= seq![47u8, 46u8]);
    assert(seq![root].drop_last() =~= Seq::empty());
    assert(seq![name].drop_last() =~= Seq::empty());
    assert(telling(Seq::<Seq<u8>>::empty()).len() == 0);
    assert(telling(seq![root]).len() == 0);
    assert(telling(seq![name]).len() <= 1);
    if name.len() > 0 {
        assert(name.contains(name[0]));
    }
    if path.len() > 0 && path[0] != 47u8 {
        lemma_some_component(path);
    }
}

/// Arguments are seen as what they hold, in their order.
pub proof fn law_arguments_are_seen_as_they_are(parts: Seq<Vec<u8>>, index: int)
    requires
        0 <= index < parts.len(),
    ensures
        contents(parts).len() == parts.len(),
        contents(parts)[index] == parts[index]@,
{
}

} // verus!
