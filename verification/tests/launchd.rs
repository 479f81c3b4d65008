use eqtune::error::EqError;
use eqtune::launchd::{
    classify_service_query, install_binary, launchctl_done, load_or_restart_daemon,
    plist_contents, query_service_loaded, reload_args, remove_file_if_exists, same_file,
    service_is_loaded, service_is_running, service_state_is_running, signing_result, stage_done,
    staging_discarded, state_checked, uninstall, uninstall_agent_removed,
    uninstall_binary_removed, uninstall_queried, uninstall_unloaded, Answer, Ended, InstallStep,
    Job, LaunchStep, Phase, Removed, Stage, UninstallStep,
};
use eqtune::paths::{
    config_path, domain, install_tmp_path, installed_bin, join, lock_path, log_path, plist_path,
    quarantine_suffix, quarantine_tried, service, session_path, socket_path, support_dir,
    with_suffix,
};
use eqtune::text::Piece;

fn text(e: &EqError) -> String {
    let mut out = String::new();
    for piece in e.message() {
        match piece {
            Piece::Words(t) => out.push_str(&t),
            Piece::Figure(_, _) => panic!("unexpected figure"),
        }
    }
    out
}

#[test]
fn plist_has_essentials() {
    let p = plist_contents("/x/eqtune", "/x/log");
    assert!(p.contains("<string>app.eqtune.daemon</string>"));
    assert!(p.contains("<string>/x/eqtune</string>"));
    assert!(p.contains("<string>daemon</string>"));
    assert!(p.contains("RunAtLoad"));
    assert!(p.contains("KeepAlive"));
}

#[test]
fn plist_is_written_out_exactly() {
    let expected = r#"<?xml version="1.0" encoding="UTF-8"?>
<!DOCTYPE plist PUBLIC "-//Apple//DTD PLIST 1.0//EN" "http://www.apple.com/DTDs/PropertyList-1.0.dtd">
<plist version="1.0">
<dict>
    <key>Label</key>
    <string>app.eqtune.daemon</string>
    <key>ProgramArguments</key>
    <array>
        <string>/b</string>
        <string>daemon</string>
    </array>
    <key>RunAtLoad</key>
    <true/>
    <key>KeepAlive</key>
    <true/>
    <key>StandardOutPath</key>
    <string>/l</string>
    <key>StandardErrorPath</key>
    <string>/l</string>
</dict>
</plist>
"#;
    assert_eq!(plist_contents("/b", "/l"), expected);
}

#[test]
fn reload_args_restarts_a_loaded_service_in_place() {
    let args = reload_args(true, "gui/501", "gui/501/app.eqtune.daemon", "/x.plist");
    assert_eq!(args, ["kickstart", "-k", "gui/501/app.eqtune.daemon"].map(String::from));
}

#[test]
fn reload_args_bootstraps_when_nothing_is_loaded() {
    let args = reload_args(false, "gui/501", "gui/501/app.eqtune.daemon", "/x.plist");
    assert_eq!(args, ["bootstrap", "gui/501", "/x.plist"].map(String::from));
}

#[test]
fn service_state_parser_accepts_running_state_tolerantly() {
    assert!(service_state_is_running("\tstate = running\n\tprogram = /x/eqtune\n"));
    assert!(service_state_is_running("state=running\n"));
    assert!(service_state_is_running("   state   =   running   \n"));
    assert!(service_state_is_running("\tstate = running (pid 4321)\n"));
    assert!(!service_state_is_running("\tstate = spawn failed\n\tstate = active\n"));
    assert!(!service_state_is_running("\tstate = not running\n"));
    assert!(!service_state_is_running("\tlast exit state = running\n"));
    assert!(!service_state_is_running("\tprogram = /usr/bin/running\n"));
}

#[test]
fn service_state_parser_takes_odd_lines() {
    assert!(!service_state_is_running(""));
    assert!(!service_state_is_running("\n\n"));
    assert!(!service_state_is_running("state running"));
    assert!(!service_state_is_running("state = "));
    assert!(!service_state_is_running("state = runningx"));
    assert!(!service_state_is_running("state == running"));
    assert!(service_state_is_running("a = b\r\nstate = running\r\n"));
    assert!(service_state_is_running("a = b\nstate = running"));
    assert!(service_state_is_running("state = running = x"));
}

#[test]
fn service_query_distinguishes_absence_from_real_failure() {
    assert!(classify_service_query(true, Some(0), "").unwrap());
    assert!(!classify_service_query(
        false,
        Some(113),
        "Could not find service \"app.eqtune.daemon\" in domain"
    )
    .unwrap());
    assert!(classify_service_query(false, Some(1), "Operation not permitted").is_err());
    assert!(classify_service_query(false, Some(113), "unexpected failure").is_err());
}

#[test]
fn service_query_failures_are_told() {
    let e = classify_service_query(false, Some(1), "  Operation not permitted\n").unwrap_err();
    assert_eq!(text(&e), "could not query launchd service (status 1): Operation not permitted");
    let e = classify_service_query(false, None, "").unwrap_err();
    assert_eq!(text(&e), "could not query launchd service (status terminated by signal): ");
    let e = classify_service_query(false, Some(-5), "x").unwrap_err();
    assert_eq!(text(&e), "could not query launchd service (status -5): x");
}

fn answer(success: bool, code: i32, stdout: &str, stderr: &str) -> Result<Answer, String> {
    Ok(Answer {
        success,
        status_code: Some(code),
        stdout: stdout.into(),
        stderr: stderr.into(),
    })
}

#[test]
fn a_failed_query_is_no_proof_of_anything() {
    assert!(query_service_loaded(Err("no launchctl".into())).is_err());
    assert!(!service_is_loaded(Err("no launchctl".into())));
    assert!(service_is_loaded(answer(true, 0, "", "")));
    assert!(!service_is_loaded(answer(false, 1, "", "boom")));
    assert!(!service_is_running(Err("no launchctl".into())));
    assert!(service_is_running(answer(true, 0, "state = running", "")));
    assert!(!service_is_running(answer(false, 1, "state = running", "")));
}

fn job() -> Job {
    Job {
        domain: "gui/501".into(),
        service: "gui/501/app.eqtune.daemon".into(),
        plist: "/x.plist".into(),
    }
}

fn args_of(step: &LaunchStep) -> (Vec<String>, Phase) {
    match step {
        LaunchStep::Launchctl { args, phase } => (args.clone(), *phase),
        other => panic!("expected launchctl, got {other:?}"),
    }
}

#[test]
fn a_healthy_loaded_job_is_restarted_in_place() {
    let job = job();
    let (args, phase) = args_of(&load_or_restart_daemon(true, &job));
    assert_eq!(args[0], "kickstart");
    let step = launchctl_done(phase, Ended::Success, &job);
    let LaunchStep::Check(phase) = step else { panic!("expected a check") };
    assert!(matches!(state_checked(phase, true, &job), LaunchStep::Finish(Ok(()))));
}

#[test]
fn a_restart_that_never_runs_falls_back_to_a_fresh_load() {
    let job = job();
    let mut step = launchctl_done(Phase::Restart, Ended::Success, &job);
    let mut checks = 0;
    while let LaunchStep::Check(phase) = step {
        checks += 1;
        step = state_checked(phase, false, &job);
    }
    assert_eq!(checks, 20);
    let (args, phase) = args_of(&step);
    assert_eq!(args, ["bootout", "gui/501/app.eqtune.daemon"]);
    assert_eq!(phase, Phase::Unload);

    let mut step = launchctl_done(phase, Ended::Failure("exit status: 3".into()), &job);
    let mut attempts = 0;
    loop {
        match step {
            LaunchStep::Launchctl { args, phase } => {
                attempts += 1;
                assert_eq!(args, ["bootstrap", "gui/501", "/x.plist"]);
                step = launchctl_done(phase, Ended::Failure("exit status: 5".into()), &job);
            }
            LaunchStep::Finish(r) => {
                assert_eq!(attempts, 20);
                assert_eq!(
                    text(&r.unwrap_err()),
                    "launchctl bootstrap failed after retrying (exit status: 5)"
                );
                break;
            }
            LaunchStep::Check(_) => panic!("no check before a successful load"),
        }
    }
}

#[test]
fn a_loaded_job_that_never_runs_is_an_error() {
    let job = job();
    let (_, phase) = args_of(&load_or_restart_daemon(false, &job));
    let mut step = launchctl_done(phase, Ended::Success, &job);
    let mut checks = 0;
    let error = loop {
        match step {
            LaunchStep::Check(phase) => {
                checks += 1;
                step = state_checked(phase, false, &job);
            }
            LaunchStep::Finish(r) => break r.unwrap_err(),
            other => panic!("unexpected {other:?}"),
        }
    };
    assert_eq!(checks, 20);
    assert_eq!(
        text(&error),
        "launchd loaded app.eqtune.daemon, but the daemon did not reach the running state"
    );
}

#[test]
fn launchctl_failures_are_told() {
    let job = job();
    let fail = |phase, ended| match launchctl_done(phase, ended, &job) {
        LaunchStep::Finish(Err(e)) => text(&e),
        other => panic!("expected a failure, got {other:?}"),
    };
    assert_eq!(
        fail(Phase::Restart, Ended::Failure("exit status: 1".into())),
        "launchctl kickstart failed (exit status: 1)"
    );
    assert_eq!(
        fail(Phase::Load, Ended::Failure("exit status: 1".into())),
        "launchctl bootstrap failed (exit status: 1)"
    );
    assert_eq!(fail(Phase::Reload(3), Ended::NotRun("not found".into())), "not found");
}

#[test]
fn uninstall_deletes_nothing_before_the_service_is_gone() {
    assert!(matches!(uninstall(), UninstallStep::Query));
    assert!(matches!(uninstall_queried(Ok(true)), UninstallStep::Bootout));
    assert!(matches!(uninstall_queried(Ok(false)), UninstallStep::RemoveAgent));
    let unknown = query_service_loaded(Err("no launchctl".into()));
    assert!(matches!(uninstall_queried(unknown), UninstallStep::Finish(Err(_))));
    assert!(matches!(uninstall_unloaded(Ended::Success), UninstallStep::RemoveAgent));
    match uninstall_unloaded(Ended::Failure("exit status: 5".into())) {
        UninstallStep::Finish(Err(e)) => {
            assert_eq!(text(&e), "launchctl bootout failed (exit status: 5)");
        }
        other => panic!("expected a failure, got {other:?}"),
    }
    assert!(matches!(
        uninstall_agent_removed(Removed::Missing, "/a.plist"),
        UninstallStep::RemoveBinary
    ));
    assert!(matches!(
        uninstall_binary_removed(Removed::Gone, "/eqtune"),
        UninstallStep::Finish(Ok(()))
    ));
}

#[test]
fn uninstall_file_removal_is_idempotent_and_truthful() {
    remove_file_if_exists(Removed::Gone, "installed binary", "/x/eqtune").unwrap();
    remove_file_if_exists(Removed::Missing, "installed binary", "/x/eqtune").unwrap();
    let why = Removed::Failed("Is a directory (os error 21)".into());
    let error = remove_file_if_exists(why, "LaunchAgent plist", "/x/not-a-file").unwrap_err();
    assert_eq!(text(&error), "could not remove LaunchAgent plist /x/not-a-file");
    assert_eq!(error.cause(), Some("Is a directory (os error 21)"));
}

/// A destination and its staged copy, in memory.
struct Files {
    source: &'static str,
    staged: Option<&'static str>,
    dest: &'static str,
}

fn replace(files: &mut Files, same: bool, sign: Result<(), EqError>) -> Result<bool, EqError> {
    let mut sign = Some(sign);
    let mut step = install_binary(Ok(same));
    loop {
        step = match step {
            InstallStep::Do(stage) => {
                let r = match stage {
                    Stage::Copy => {
                        files.staged = Some(files.source);
                        Ok(())
                    }
                    Stage::SetMode => Ok(()),
                    Stage::Sign => sign.take().unwrap(),
                    Stage::Rename => {
                        files.dest = files.staged.take().unwrap();
                        Ok(())
                    }
                };
                stage_done(stage, r)
            }
            InstallStep::Discard(e) => {
                files.staged = None;
                staging_discarded(e)
            }
            InstallStep::Finish(r) => return r,
        }
    }
}

#[test]
fn install_binary_skips_same_source_and_dest() {
    let mut files = Files { source: "installed", staged: None, dest: "installed" };
    let same = same_file((1, 2), Some((1, 2)));
    assert!(!replace(&mut files, same, Ok(())).unwrap());
    assert_eq!(files.dest, "installed");
}

#[test]
fn install_binary_copies_distinct_source() {
    let mut files = Files { source: "release", staged: None, dest: "old" };
    let same = same_file((1, 2), Some((1, 3)));
    assert!(replace(&mut files, same, Ok(())).unwrap());
    assert_eq!(files.dest, "release");
    assert!(!same_file((1, 2), None));
    assert!(!same_file((1, 2), Some((2, 2))));
}

#[test]
fn install_binary_removes_staged_copy_when_signing_fails() {
    let mut files = Files { source: "release", staged: None, dest: "old" };
    let failure = signing_result(false, "/x/eqtune", "exit status: 1", "sign failed\n");
    let err = replace(&mut files, false, failure).unwrap_err();
    assert_eq!(text(&err), "codesign failed for /x/eqtune (exit status: 1): sign failed");
    assert_eq!(files.dest, "old");
    assert!(files.staged.is_none());
    assert!(signing_result(true, "/x", "", "").is_ok());
}

#[test]
fn paths_lie_below_the_home_directory() {
    assert_eq!(support_dir("/Users/a"), "/Users/a/Library/Application Support/eqtune");
    assert_eq!(installed_bin("/Users/a"), "/Users/a/Library/Application Support/eqtune/eqtune");
    assert_eq!(log_path("/Users/a"), "/Users/a/Library/Application Support/eqtune/daemon.log");
    assert_eq!(
        plist_path("/Users/a"),
        "/Users/a/Library/LaunchAgents/app.eqtune.daemon.plist"
    );
    assert_eq!(
        config_path("/Users/a"),
        "/Users/a/Library/Application Support/eqtune/config.toml"
    );
    assert_eq!(
        session_path("/Users/a/"),
        "/Users/a/Library/Application Support/eqtune/session.toml"
    );
    assert_eq!(socket_path(""), "Library/Application Support/eqtune/eqtune.sock");
    assert_eq!(lock_path("/h"), "/h/Library/Application Support/eqtune/eqtune.lock");
    assert_eq!(join("/a/", "b"), "/a/b");
}

#[test]
fn names_are_put_together() {
    assert_eq!(domain(501), "gui/501");
    assert_eq!(service("gui/501"), "gui/501/app.eqtune.daemon");
    assert_eq!(install_tmp_path("/x/eqtune", 42), "/x/eqtune.installing.42");
    assert_eq!(quarantine_suffix(0), ".corrupt");
    assert_eq!(quarantine_suffix(1), ".corrupt.1");
    assert_eq!(quarantine_suffix(1203), ".corrupt.1203");
}

#[test]
fn siblings_stay_in_their_directory() {
    assert_eq!(with_suffix("/a/config.toml", ".tmp"), "/a/config.toml.tmp");
    assert_eq!(with_suffix("config.toml", ".tmp"), "config.toml.tmp");
    assert_eq!(with_suffix("a//b/./", ".tmp"), "a/b.tmp");
    assert_eq!(with_suffix("./b", ".tmp"), "./b.tmp");
    assert_eq!(with_suffix("/b", ".tmp"), "/b.tmp");
    assert_eq!(with_suffix("", ".tmp"), "config.tmp");
    assert_eq!(with_suffix("/", ".tmp"), "/config.tmp");
    assert_eq!(with_suffix("a/..", ".tmp"), "a/../config.tmp");
    assert_eq!(with_suffix(".hidden", ".tmp"), ".hidden.tmp");
    for path in ["/a/b", "a//b/./", "./b", "", "/", "a/..", "..", ".", "a/./b//", "//a"] {
        let path = std::path::Path::new(path);
        let mut name = path
            .file_name()
            .unwrap_or_else(|| "config".as_ref())
            .to_os_string();
        name.push(".x");
        assert_eq!(
            with_suffix(path.to_str().unwrap(), ".x"),
            path.with_file_name(name).to_str().unwrap()
        );
    }
}

fn set_aside(path: &str, files: &[String]) -> String {
    let mut earlier = 0;
    loop {
        let name = with_suffix(path, &quarantine_suffix(earlier));
        match quarantine_tried(earlier, files.contains(&name)) {
            Some(next) => earlier = next,
            None => return name,
        }
    }
}

#[test]
fn an_earlier_set_aside_file_stays() {
    let mut files = Vec::new();
    for expected in [
        "/a/config.toml.corrupt",
        "/a/config.toml.corrupt.1",
        "/a/config.toml.corrupt.2",
    ] {
        let name = set_aside("/a/config.toml", &files);
        assert_eq!(name, expected);
        files.push(name);
    }
    files.remove(1);
    assert_eq!(set_aside("/a/config.toml", &files), "/a/config.toml.corrupt.1");
    assert_eq!(quarantine_tried(u64::MAX, true), None);
    assert_eq!(quarantine_tried(u64::MAX, false), None);
    assert_eq!(quarantine_tried(7, false), None);
    assert_eq!(quarantine_tried(7, true), Some(8));
}
