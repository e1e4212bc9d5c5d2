use iced_dev_automation::options::{same_path, Invocation, USAGE};
use iced_dev_automation::DevOptions;

fn parsed(args: &[&str]) -> Result<Invocation, String> {
    DevOptions::from_cli(&args.iter().map(|argument| argument.as_bytes().to_vec()).collect())
}

fn run(args: &[&str]) -> (Option<Vec<u8>>, Option<Vec<u8>>) {
    match parsed(args) {
        Ok(Invocation::Run(options)) => (options.screenshot_socket, options.automation_socket),
        other => panic!("not run: {:?}", other),
    }
}

#[test]
fn sockets_are_optional_and_come_in_any_order() {
    assert_eq!(run(&[]), (None, None));
    assert_eq!(run(&["--screenshot-socket", "/s"]), (Some(b"/s".to_vec()), None));
    assert_eq!(run(&["--automation-socket", "/a"]), (None, Some(b"/a".to_vec())));
    let both = (Some(b"/s".to_vec()), Some(b"/a".to_vec()));
    assert_eq!(run(&["--screenshot-socket", "/s", "--automation-socket", "/a"]), both);
    assert_eq!(run(&["--automation-socket", "/a", "--screenshot-socket", "/s"]), both);
    let none = DevOptions::default();
    assert_eq!((none.screenshot_socket, none.automation_socket), (None, None));
}

#[test]
fn help_is_asked_for_by_either_name() {
    assert!(matches!(parsed(&["--help"]), Ok(Invocation::Help)));
    assert!(matches!(parsed(&["-h", "unknown"]), Ok(Invocation::Help)));
    assert!(matches!(parsed(&["--screenshot-socket", "/s", "-h"]), Ok(Invocation::Help)));
    assert_eq!(run(&["--screenshot-socket", "--help"]), (Some(b"--help".to_vec()), None));
    assert_eq!(
        USAGE,
        "Usage: application [--screenshot-socket PATH] [--automation-socket PATH]\n\n\
         --screenshot-socket PATH  Start the debug screenshot socket.\n\
         --automation-socket PATH  Start the debug automation socket."
    );
}

#[test]
fn refused_command_lines_say_why() {
    for (args, message) in [
        (vec!["--verbose"], "unknown argument: --verbose"),
        (vec![""], "unknown argument: "),
        (vec!["\u{e9}=\u{1F600}", "--help"], "unknown argument: \u{e9}=\u{1F600}"),
        (vec!["--screenshot-socket"], "--screenshot-socket requires a Unix-socket path"),
        (vec!["--automation-socket"], "--automation-socket requires a Unix-socket path"),
        (
            vec!["--screenshot-socket", "/s", "--screenshot-socket", "/t"],
            "--screenshot-socket can be specified only once",
        ),
        (
            vec!["--automation-socket", "/s", "--automation-socket", "/t", "--help"],
            "--automation-socket can be specified only once",
        ),
        (
            vec!["--automation-socket", "/run/x", "--screenshot-socket", "/run//./x/"],
            "--screenshot-socket and --automation-socket must use different paths",
        ),
    ] {
        assert_eq!(parsed(&args).unwrap_err(), message);
    }
}

#[test]
fn arguments_need_not_be_text() {
    let odd = b"\xffx".to_vec();
    assert_eq!(
        DevOptions::from_cli(&vec![odd.clone()]).unwrap_err(),
        "unknown argument: \u{fffd}x"
    );
    match DevOptions::from_cli(&vec![b"--automation-socket".to_vec(), odd.clone()]) {
        Ok(Invocation::Run(options)) => assert_eq!(options.automation_socket, Some(odd)),
        other => panic!("not run: {:?}", other),
    }
}

#[test]
fn paths_are_compared_as_std_compares_them() {
    let paths = [
        "", "/", "//", ".", "./", "..", "a", "./a", "././a", "a/", "a/.", "a//", "/a", "/./a",
        "//a", "a/b", "a/./b", "a//b", "a/../b", "/a/b/", "b", "...", ".a", "a.", "/.", "/..", "/a/.b",
    ];
    for left in paths {
        for right in paths {
            assert_eq!(
                same_path(left.as_bytes(), right.as_bytes()),
                std::path::Path::new(left) == std::path::Path::new(right),
                "{} {}",
                left,
                right
            );
        }
    }
}
