use eqtune::control::{
    acquire_lock, bind_control_listener, bind_tried, path_inspected, socket_probed, stale_removed,
    BindStep, Binding, Found, Locking, Probe,
};
use eqtune::error::{EqError, Fault};
use eqtune::ipc::{
    check_request_bounds, check_response, dispatch, take_request_bytes, Response,
    MAX_REQUEST_BYTES, MAX_RESPONSE_BYTES,
};
use eqtune::text::{
    contains, decimal, is_blank, join_texts, place, same_text, signed_decimal, trim, Piece, Place,
};

fn text(e: &EqError) -> String {
    let mut out = String::new();
    for piece in e.message() {
        match piece {
            Piece::Words(t) => out.push_str(&t),
            Piece::Figure(_, _) => panic!("unexpected figure"),
        }
    }
    out
}

const HOUR: u64 = 3_600_000_000_000;

#[test]
fn check_request_bounds_rejects_over_the_size_cap() {
    let now = 5;
    let far = now + HOUR;
    assert!(check_request_bounds(MAX_REQUEST_BYTES, now, far).is_ok());
    assert!(text(&check_request_bounds(MAX_REQUEST_BYTES + 1, now, far).unwrap_err())
        .contains("exceeds"));
}

#[test]
fn check_request_bounds_rejects_a_reached_deadline() {
    let now = 77;
    assert!(text(&check_request_bounds(0, now, now).unwrap_err()).contains("in time"));
}

#[test]
fn read_request_line_caps_a_newlineless_flood() {
    let flood = vec![b'x'; MAX_REQUEST_BYTES + 16];
    let mut line = Vec::new();
    let mut error = None;
    for chunk in flood.chunks(8192) {
        match take_request_bytes(&mut line, chunk, 0, HOUR) {
            Ok(taken) => assert!(!taken.complete && taken.consumed == chunk.len()),
            Err(e) => {
                error = Some(e);
                break;
            }
        }
    }
    assert!(text(&error.unwrap()).contains("exceeds"));
}

#[test]
fn a_request_line_ends_at_its_newline() {
    let mut line = Vec::new();
    let taken = take_request_bytes(&mut line, b"\"Sta", 0, 10).unwrap();
    assert!(!taken.complete);
    assert_eq!(taken.consumed, 4);
    let taken = take_request_bytes(&mut line, b"tus\"\nrest", 1, 10).unwrap();
    assert!(taken.complete);
    assert_eq!(taken.consumed, 5);
    assert_eq!(line, b"\"Status\"");
    let mut late = Vec::new();
    let e = take_request_bytes(&mut late, b"x\n", 10, 10).unwrap_err();
    assert_eq!(e.fault, Fault::RequestTooLate);
}

#[test]
fn response_reader_rejects_an_oversized_line() {
    let e = check_response(MAX_RESPONSE_BYTES + 1).unwrap_err();
    assert!(text(&e).contains("response exceeds"));
    assert!(check_response(MAX_RESPONSE_BYTES).is_ok());
}

#[test]
fn response_reader_rejects_an_empty_reply() {
    let e = check_response(0).unwrap_err();
    assert!(text(&e).contains("without a response"));
}

#[test]
fn a_failed_request_is_answered_with_its_failure() {
    let r = dispatch(Err(EqError::plain(Fault::NoBands)));
    assert!(matches!(r, Response::Error(e) if e.fault == Fault::NoBands));
    assert!(matches!(dispatch(Ok(Response::Done)), Response::Done));
}

/// What stands at the socket's path.
#[derive(PartialEq)]
enum Path {
    Nothing,
    File,
    Stale,
    Live,
}

fn bind(path: &mut Path) -> Result<(), EqError> {
    let mut step = bind_control_listener();
    loop {
        step = match step {
            BindStep::Bind { last } => {
                let b = if *path == Path::Nothing {
                    Binding::Bound
                } else {
                    Binding::InUse("Address already in use".into())
                };
                bind_tried(last, b, "/s")
            }
            BindStep::Inspect { again } => {
                let found = match path {
                    Path::Nothing => Found::Missing,
                    Path::File => Found::Other,
                    _ => Found::Socket,
                };
                path_inspected(again, found, "/s")
            }
            BindStep::Probe => {
                let p = if *path == Path::Live { Probe::Connected } else { Probe::Refused };
                socket_probed(p, "/s")
            }
            BindStep::Remove => {
                *path = Path::Nothing;
                stale_removed(None, "/s")
            }
            BindStep::Bound => return Ok(()),
            BindStep::Fail(e) => return Err(e),
        }
    }
}

#[test]
fn control_socket_replaces_stale_socket_but_not_live_listener() {
    assert!(bind(&mut Path::Nothing).is_ok());
    assert!(bind(&mut Path::Stale).is_ok());
    let mut live = Path::Live;
    let error = bind(&mut live).unwrap_err();
    assert!(text(&error).contains("already listening"));
    assert!(live == Path::Live);
}

#[test]
fn control_socket_does_not_delete_an_unrelated_file() {
    let mut file = Path::File;
    let error = bind(&mut file).unwrap_err();
    assert!(text(&error).contains("not a Unix socket"));
    assert!(file == Path::File);
}

#[test]
fn socket_failures_are_told() {
    let say = |s| match s {
        BindStep::Fail(e) => (text(&e), e.cause().map(|c| c.to_owned())),
        other => panic!("expected a failure, got {other:?}"),
    };
    let why = || "Permission denied (os error 13)".to_string();
    let told = |words: &str| (words.to_string(), Some(why()));
    assert_eq!(
        say(bind_tried(false, Binding::Failed(why()), "/s")),
        told("could not bind control socket /s")
    );
    assert_eq!(
        say(bind_tried(true, Binding::InUse(why()), "/s")),
        told("could not bind control socket /s")
    );
    assert_eq!(
        say(path_inspected(false, Found::Failed(why()), "/s")),
        told("could not inspect control socket /s")
    );
    assert_eq!(
        say(path_inspected(true, Found::Failed(why()), "/s")),
        told("could not recheck control socket /s")
    );
    assert_eq!(
        say(path_inspected(true, Found::Other, "/s")),
        ("control socket path changed to a non-socket while probing: /s".to_string(), None)
    );
    assert_eq!(
        say(socket_probed(Probe::Failed(why()), "/s")),
        told("could not probe existing control socket /s")
    );
    assert_eq!(
        say(stale_removed(Some(why()), "/s")),
        told("could not remove stale control socket /s")
    );
    assert!(matches!(socket_probed(Probe::Missing, "/s"), BindStep::Bind { last: true }));
}

#[test]
fn daemon_lock_allows_only_one_holder() {
    assert!(acquire_lock(Locking::Locked, "/l").is_ok());
    let held = acquire_lock(Locking::Held, "/l").unwrap_err();
    assert!(text(&held).contains("already running"));
    assert_eq!(held.cause(), None);
    let e = acquire_lock(Locking::NotOpened("Read-only file system".into()), "/l").unwrap_err();
    assert_eq!(text(&e), "could not open daemon lock /l");
    assert_eq!(e.cause(), Some("Read-only file system"));
    let e = acquire_lock(Locking::Failed("Bad file descriptor".into()), "/l").unwrap_err();
    assert_eq!(text(&e), "could not lock daemon lock /l");
    assert_eq!(e.cause(), Some("Bad file descriptor"));
}

#[test]
fn numbers_are_written_in_decimal() {
    for n in [0u64, 7, 10, 99, 100, 65_536, u64::MAX] {
        assert_eq!(decimal(n), n.to_string());
    }
    for n in [0i32, -1, 113, i32::MIN, i32::MAX] {
        assert_eq!(signed_decimal(n), n.to_string());
    }
}

#[test]
fn texts_are_trimmed_like_strings() {
    for t in ["", " ", "a", " a ", "\t a b\n", "\u{a0}x\u{3000}", "\u{85}", "\u{200b}x", "é "] {
        assert_eq!(trim(t), t.trim());
        assert_eq!(is_blank(t), t.trim().is_empty());
    }
}

#[test]
fn texts_are_searched_and_joined() {
    assert!(contains("abcabd", "abd"));
    assert!(contains("abc", ""));
    assert!(contains("", ""));
    assert!(!contains("ab", "abc"));
    assert!(!contains("abcab", "abd"));
    assert!(contains("xé☃y", "☃y"));
    assert_eq!(join_texts(&[], ", "), "");
    assert_eq!(join_texts(&["a".into()], ", "), "a");
    assert_eq!(join_texts(&["a".into(), "b".into(), "c".into()], ", "), "a, b, c");
}

#[test]
fn names_stand_in_the_order_of_strings() {
    let names = ["", "a", "ab", "b", "A", "é", "zz", "☃", "\u{10ffff}", "\u{ffff}"];
    for a in names {
        for b in names {
            let expected = match a.cmp(b) {
                std::cmp::Ordering::Less => Place::Before,
                std::cmp::Ordering::Equal => Place::Same,
                std::cmp::Ordering::Greater => Place::After,
            };
            assert!(place(a, b) == expected, "{a:?} {b:?}");
            assert_eq!(same_text(a, b), a == b);
        }
    }
}
