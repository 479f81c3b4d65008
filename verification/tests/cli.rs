use eqtune::cli::{absolute_path, export_path, print_response, to_request, Command};
use eqtune::dsp::{Band, BandKind};
use eqtune::error::{EqError, Fault};
use eqtune::ipc::{Request, Response, Status, Tuning};
use eqtune::library::PresetBackup;
use eqtune::number::{Double, Single};
use eqtune::prompt::{
    backup_question, choose_reset, confirm_reset, read_line_trimmed_from, reset_intro,
    take_backup, OffChoice, Outcome, ResetChoice, Unresolved,
};
use eqtune::text::{Piece, Style};

fn single(x: f32) -> Single {
    Single::from_bits(x.to_bits())
}

fn compact(x: f32) -> String {
    format!("{x:.2}").trim_end_matches('0').trim_end_matches('.').to_string()
}

fn frequency(x: f32) -> String {
    if x >= 1000.0 {
        format!("{} kHz", compact(x / 1000.0))
    } else {
        format!("{} Hz", compact(x))
    }
}

fn line(pieces: &[Piece]) -> String {
    let mut out = String::new();
    for piece in pieces {
        match piece {
            Piece::Words(t) => out.push_str(t),
            Piece::Figure(style, x) => {
                let x = f32::from_bits(x.bits);
                out.push_str(&match style {
                    Style::Plain => format!("{x}"),
                    Style::Signed => format!("{x:+}"),
                    Style::Frequency => frequency(x),
                    Style::Gain => format!("{x:+.1} dB"),
                    Style::Quality => compact(x),
                    Style::FrequencyCell => format!("{:>8}", frequency(x)),
                    Style::GainCell => format!("{:>8}", format!("{x:+.1} dB")),
                });
            }
        }
    }
    out
}

fn lines(v: &[Vec<Piece>]) -> Vec<String> {
    v.iter().map(|l| line(l)).collect()
}

fn here() -> Result<String, String> {
    Ok("/work".to_string())
}

fn band(freq: f32, gain_db: f32, q: f32) -> Band {
    Band {
        kind: BandKind::Peaking,
        freq: single(freq),
        gain_db: single(gain_db),
        q: single(q),
    }
}

fn tuning() -> Tuning {
    Tuning {
        enabled: true,
        preset: "bright".into(),
        preamp_db: single(-8.0),
        bands: vec![band(1000.0, 4.5, 1.41), band(8000.0, 9.5, 2.0)],
    }
}

fn show(cmd: Command, resp: Response) -> Vec<String> {
    lines(&print_response(&cmd, &resp, &here()).unwrap())
}

#[test]
fn prompt_input_distinguishes_eof_from_an_explicit_empty_line() {
    let error = read_line_trimmed_from(None).unwrap_err();
    assert!(line(&error.message()).contains("input closed"));

    assert_eq!(read_line_trimmed_from(Some("\n".into())).unwrap(), "");
    assert_eq!(read_line_trimmed_from(Some("  overwrite \n".into())).unwrap(), "overwrite");
}

#[test]
fn export_path_defaults_to_current_directory() {
    let got = export_path("daily", &None, &here()).unwrap();
    assert_eq!(got, "/work/daily.toml");
}

#[test]
fn relative_paths_are_resolved_against_current_directory() {
    let got = absolute_path("presets/daily.toml", &here()).unwrap();
    assert_eq!(got, "/work/presets/daily.toml");
    assert_eq!(absolute_path("/x.toml", &Err("gone".into())).unwrap(), "/x.toml");
    let e = absolute_path("x.toml", &Err("gone".into())).unwrap_err();
    assert_eq!(line(&e.message()), "gone");
}

#[test]
fn commands_become_requests() {
    let ask = |cmd| to_request(&cmd, &here()).unwrap();
    assert!(matches!(ask(Command::On), Request::Enable));
    assert!(matches!(ask(Command::Off), Request::Disable));
    assert!(matches!(ask(Command::Status), Request::Status));
    assert!(matches!(ask(Command::Presets), Request::ListPresets));
    assert!(matches!(
        ask(Command::PresetShow { name: Some("pro".into()) }),
        Request::ShowPreset(Some(n)) if n == "pro"
    ));
    assert!(matches!(ask(Command::PresetShow { name: None }), Request::ShowPreset(None)));
    assert!(matches!(ask(Command::Preset { name: "pro".into() }), Request::SetPreset(n) if n == "pro"));
    assert!(matches!(
        ask(Command::PresetSave { name: "a".into() }),
        Request::SavePreset { name } if name == "a"
    ));
    assert!(matches!(
        ask(Command::PresetClone { source: "a".into(), dest: "b".into() }),
        Request::ClonePreset { source, dest } if source == "a" && dest == "b"
    ));
    assert!(matches!(
        ask(Command::PresetRm { names: vec!["a".into(), "b".into()] }),
        Request::DeletePresets { names } if names == ["a", "b"]
    ));
    assert!(matches!(
        ask(Command::PresetRename { from: "a".into(), to: "b".into() }),
        Request::RenamePreset { from, to } if from == "a" && to == "b"
    ));
    assert!(matches!(
        ask(Command::PresetExport { name: "a".into(), path: Some("x.toml".into()) }),
        Request::ExportPreset { name, path } if name == "a" && path == "/work/x.toml"
    ));
    assert!(matches!(
        ask(Command::PresetImport { path: "/y.toml".into(), name: None }),
        Request::ImportPreset { path, name: None } if path == "/y.toml"
    ));
    let (f, g, q) = (single(2000.0), single(-6.0), single(1.0));
    assert!(matches!(
        ask(Command::Band { freq: f, gain_db: g, q }),
        Request::SetBand { kind: BandKind::Peaking, freq, gain_db, q: k }
            if freq == f && gain_db == g && k == q
    ));
    assert!(matches!(ask(Command::BandRm { freq: f }), Request::RemoveBand { freq } if freq == f));
    assert!(matches!(ask(Command::Preamp { db: g }), Request::SetPreamp(db) if db == g));
    assert!(matches!(ask(Command::Limiter { on: true }), Request::SetLimiter(true)));
    assert!(matches!(ask(Command::Lowpower { on: false }), Request::SetAutoOffLowPower(false)));
    assert!(matches!(ask(Command::Idle { on: true }), Request::SetAutoOffIdle(true)));
    assert!(matches!(
        ask(Command::Reset { name: Some("pro".into()) }),
        Request::ResetPreset { name } if name == "pro"
    ));
    assert!(matches!(ask(Command::Reset { name: None }), Request::Reset));
    let nowhere: Result<String, String> = Err("gone".into());
    assert!(to_request(&Command::PresetExport { name: "a".into(), path: None }, &nowhere).is_err());
}

#[test]
fn an_edit_shows_the_curve_with_its_band_flagged() {
    let (freq, gain_db, q) = (single(7900.0), single(9.5), single(2.0));
    assert_eq!(
        show(Command::Band { freq, gain_db, q }, Response::Tuning(tuning())),
        [
            "band 7.9 kHz → +9.5 dB (Q2)",
            "bright (enabled) · preamp -8.0 dB",
            "     1 kHz   +4.5 dB  Q1.41",
            "     8 kHz   +9.5 dB  Q2   ← changed",
        ]
    );
}

fn flagged(freqs: &[f32], changed: f32) -> usize {
    let (gain_db, q) = (single(0.0), single(1.0));
    let bands = freqs
        .iter()
        .map(|f| Band { kind: BandKind::Peaking, freq: single(*f), gain_db, q })
        .collect();
    let command = Command::Band { freq: single(changed), gain_db, q };
    let lines = show(command, Response::Tuning(Tuning { bands, ..tuning() }));
    let marks: Vec<usize> =
        (2..lines.len()).filter(|i| lines[*i].ends_with("   ← changed")).collect();
    assert_eq!(marks.len(), 1, "{lines:?}");
    marks[0] - 2
}

#[test]
fn the_nearest_band_is_flagged_wherever_the_bands_lie() {
    assert_eq!(flagged(&[10.0, 1000.0], 1000.0), 1);
    assert_eq!(flagged(&[10.0, 1000.0], 12.0), 0);
    assert_eq!(flagged(&[30_000.0, 5.0, -7.0], -6.5), 2);
    assert_eq!(flagged(&[1000.0, 3000.0], 2000.0), 0, "the first of two equally near");
    assert_eq!(flagged(&[f32::INFINITY, 1e30, 1e-40], 0.0), 2);
    assert_eq!(flagged(&[f32::NAN, f32::INFINITY], 5.0), 1);
}

#[test]
fn the_flag_goes_by_the_rounded_distance() {
    // The second band is nearer by half a hertz, but both distances round to ten million.
    assert_eq!(flagged(&[1.0e7, -1.0e7], -0.25), 0);
    let freqs = [
        0.0, 1e-45, 2.5e-41, 1.2e-38, 0.3, 19.99, 1000.0, 1000.06, 16_777_216.0, 1e20, f32::MAX,
        -0.0, -3e-39, -999.5, -2e7, f32::MIN,
    ];
    for f in freqs {
        for window in freqs.windows(3) {
            let nearest = (0..3)
                .min_by(|i, j| (window[*i] - f).abs().total_cmp(&(window[*j] - f).abs()))
                .unwrap();
            assert_eq!(flagged(window, f), nearest, "{window:?} {f}");
        }
    }
}

#[test]
fn tunings_are_shown_after_their_command() {
    let first = |cmd| show(cmd, Response::Tuning(tuning()))[0].clone();
    assert_eq!(first(Command::On), "eqtune on");
    assert_eq!(first(Command::Preset { name: "pro".into() }), "preset → pro");
    assert_eq!(first(Command::PresetSave { name: "a".into() }), "saved preset → a");
    assert_eq!(
        first(Command::PresetClone { source: "a".into(), dest: "b".into() }),
        "cloned preset a → b"
    );
    assert_eq!(
        first(Command::PresetRename { from: "a".into(), to: "b".into() }),
        "renamed preset a → b"
    );
    assert_eq!(
        first(Command::PresetImport { path: "x".into(), name: Some("n".into()) }),
        "imported preset n ← /work/x"
    );
    assert_eq!(
        first(Command::PresetImport { path: "x".into(), name: None }),
        "imported preset ← /work/x"
    );
    assert_eq!(first(Command::Preamp { db: single(4.0) }), "preamp → +4.0 dB");
    assert_eq!(first(Command::Reset { name: None }), "reset to shipped defaults");
    assert_eq!(first(Command::Reset { name: Some("pro".into()) }), "reset preset → pro");
    assert_eq!(first(Command::PresetShow { name: None }), "bright · preamp -8.0 dB");
}

#[test]
fn a_flat_tuning_has_no_bands() {
    let flat = Tuning {
        enabled: false,
        preset: "flat".into(),
        preamp_db: single(0.0),
        bands: vec![],
    };
    assert_eq!(
        show(Command::On, Response::Tuning(flat)),
        ["eqtune on", "flat (disabled) · preamp +0.0 dB", "  (no bands — flat)"]
    );
}

#[test]
fn a_removed_band_is_named() {
    let removed = band(2000.0, 1.0, 1.0);
    let say = |freq: f32| {
        show(
            Command::BandRm { freq: single(freq) },
            Response::BandRemoved { tuning: tuning(), removed },
        )[0]
        .clone()
    };
    assert_eq!(say(2000.0), "removed band 2 kHz");
    assert_eq!(say(1999.75), "removed band 2 kHz (nearest to 2 kHz)");
}

#[test]
fn switches_are_confirmed() {
    let say = |cmd| show(cmd, Response::Done)[0].clone();
    assert_eq!(say(Command::Off), "eqtune off — native Apple audio restored");
    assert_eq!(say(Command::Limiter { on: true }), "limiter: on");
    assert_eq!(say(Command::Lowpower { on: false }), "auto-off in Low Power Mode: off");
    assert_eq!(say(Command::Idle { on: true }), "auto-off when idle: on");
    assert_eq!(
        say(Command::PresetExport { name: "a".into(), path: None }),
        "exported preset a → /work/a.toml"
    );
    assert_eq!(say(Command::On), "ok");
}

#[test]
fn the_status_is_shown_line_by_line() {
    let status = Status {
        user_intent: true,
        engine_running: true,
        suspension_reason: None,
        active_preset: "bright".into(),
        preamp_db: single(7.0),
        band_count: 3,
        limiter: true,
        output_uid: Some("BuiltInSpeakerDevice".into()),
        output_name: Some("MacBook Pro Speakers".into()),
        output_rate_hz: Some(Double::from_bits(48_000.0f64.to_bits())),
        output_stream: Some("48000 Hz, 2 ch, Float32, interleaved".into()),
        last_engine_error: None,
        retry_attempts: 0,
        retry_limit: 6,
        retry_in_seconds: None,
        retry_exhausted: false,
        bypassed: false,
        dirty_presets: vec!["bright".into()],
        low_power: false,
        auto_off_low_power: true,
        auto_off_idle: true,
    };
    assert_eq!(
        show(Command::Status, Response::Status(Box::new(status))),
        [
            "enabled:       true",
            "preset:        bright",
            "preamp:        +7 dB",
            "bands:         3",
            "limiter:       true",
            "output device: MacBook Pro Speakers",
            "low power:     off",
            "auto-off LPM:  on",
            "auto-off idle: on",
            "idle suspend:  no",
        ]
    );
}

#[test]
fn presets_are_listed_with_the_active_one_marked() {
    let list = || Response::Presets {
        active: "b".into(),
        names: vec!["a".into(), "b".into()],
    };
    assert_eq!(show(Command::Presets, list()), ["  a", "* b"]);
    assert_eq!(
        show(Command::PresetRm { names: vec!["x".into(), "y".into()] }, list()),
        ["deleted presets: x, y", "  a", "* b"]
    );
}

#[test]
fn failures_and_warnings_are_shown() {
    let e = EqError::plain(Fault::NoBandMatches {
        freq: single(2900.0),
        nearest: single(2000.0),
    });
    let shown = print_response(
        &Command::BandRm { freq: single(2900.0) },
        &Response::Error(e),
        &here(),
    );
    assert_eq!(
        line(&shown.unwrap_err()),
        "error: no band matches 2900 Hz; nearest configured band is 2000 Hz"
    );
    assert_eq!(
        show(
            Command::Reset { name: None },
            Response::ResetWouldOverwrite { names: vec!["bright".into(), "pro".into()] }
        ),
        ["reset would replace modified shipped presets: bright, pro"]
    );
    assert_eq!(
        show(
            Command::Off,
            Response::UnsavedSession { tuning: tuning(), dirty_presets: vec![] }
        )[0],
        "unsaved tuning changes"
    );
}

#[test]
fn off_asks_about_the_active_preset() {
    let u = Unresolved::new(&tuning(), vec!["bright".into()]);
    let intro = lines(&u.intro(&tuning()));
    assert_eq!(intro[0], "eqtune off — native Apple audio restored");
    assert_eq!(intro[1], "unsaved tuning changes for preset 'bright'");
    assert_eq!(intro.len(), 5);
    assert_eq!(
        u.question(),
        "Preserve this tuning? [s]ave by name / [o]verwrite bright / [d]iscard: "
    );
    assert!(matches!(u.choice("s"), OffChoice::AskName));
    assert!(matches!(u.choice("save"), OffChoice::AskName));
    assert!(matches!(u.choice("o"), OffChoice::Send(Request::SaveSessionOverwrite)));
    assert!(matches!(u.choice(""), OffChoice::Send(Request::DiscardSession)));
    assert!(matches!(u.choice("discard"), OffChoice::Send(Request::DiscardSession)));
    assert!(matches!(u.choice("x"), OffChoice::Again(t) if t == "enter s, o, or d"));
    assert_eq!(
        u.name_question(),
        "Preset name (new name, or bright/mellow/pro to overwrite that built-in): "
    );
    assert!(matches!(
        u.name_given("daily".into()),
        OffChoice::Send(Request::SaveSessionAs { name }) if name == "daily"
    ));
    assert!(matches!(
        u.name_given("".into()),
        OffChoice::Again(t) if t == "preset name must not be empty"
    ));
}

#[test]
fn off_names_the_other_presets_with_edits() {
    let u = Unresolved::new(&tuning(), vec!["mellow".into(), "pro".into()]);
    assert_eq!(
        lines(&u.intro(&tuning())),
        ["eqtune off — native Apple audio restored", "unsaved tuning changes to: mellow, pro"]
    );
    assert_eq!(u.question(), "Keep those edits? [o]verwrite mellow, pro / [d]iscard: ");
    assert!(matches!(u.choice("s"), OffChoice::Again(t) if t == "enter o or d"));

    let custom = Tuning { preset: "daily".into(), ..tuning() };
    let u = Unresolved::new(&custom, vec!["daily".into(), "mellow".into()]);
    assert_eq!(lines(&u.intro(&custom)).len(), 5);
    assert_eq!(
        u.name_question(),
        "Preset name (new name, daily to overwrite it, or bright/mellow/pro to overwrite that built-in): "
    );
}

#[test]
fn a_resolved_session_is_told() {
    let u = Unresolved::new(&tuning(), vec!["bright".into(), "mellow".into()]);
    let tell = |req: Request| match u.answered(&req, &Response::Tuning(tuning()), &here()) {
        Outcome::Resolved(v) => lines(&v),
        Outcome::Again(l) => panic!("{}", line(&l)),
    };
    let saved = tell(Request::SaveSessionAs { name: "x".into() });
    assert_eq!(saved[0], "saved tuning");
    assert_eq!(
        saved[1],
        "unsaved edits to mellow are still open — the next `eqtune off` will ask about them"
    );
    assert_eq!(tell(Request::SaveSessionOverwrite)[0], "overwrote bright, mellow");
    assert_eq!(tell(Request::DiscardSession)[0], "discarded tuning changes");
    let refused = Response::Error(EqError::about(Fault::PresetExists, "x"));
    match u.answered(&Request::SaveSessionAs { name: "x".into() }, &refused, &here()) {
        Outcome::Again(l) => assert_eq!(line(&l), "error: preset already exists: x"),
        Outcome::Resolved(_) => panic!("a refused save resolves nothing"),
    }
    match u.answered(&Request::DiscardSession, &Response::Done, &here()) {
        Outcome::Resolved(v) => {
            assert_eq!(lines(&v), ["eqtune off — native Apple audio restored"]);
        }
        Outcome::Again(l) => panic!("{}", line(&l)),
    }
}

#[test]
fn reset_asks_before_it_overwrites() {
    assert_eq!(
        lines(&reset_intro(&["bright".into(), "pro".into()])),
        [
            "reset will restore shipped preset values for: bright, pro",
            "The current local versions of those presets differ from the shipped originals.",
        ]
    );
    assert_eq!(choose_reset("s"), ResetChoice::SaveCopies);
    assert_eq!(choose_reset("save"), ResetChoice::SaveCopies);
    assert_eq!(choose_reset("r"), ResetChoice::Reset);
    assert_eq!(choose_reset(""), ResetChoice::Reset);
    assert_eq!(choose_reset("cancel"), ResetChoice::Cancel);
    assert_eq!(choose_reset("?"), ResetChoice::Again);
    assert_eq!(backup_question("pro"), "Save current pro as [pro-custom]: ");
}

#[test]
fn reset_copies_get_different_names() {
    let mut backups: Vec<PresetBackup> = Vec::new();
    assert!(take_backup(&mut backups, "bright", "").is_none());
    assert!(take_backup(&mut backups, "pro", "mine").is_none());
    assert_eq!(
        take_backup(&mut backups, "mellow", "mine").unwrap(),
        "backup name already used in this reset: mine"
    );
    assert_eq!(backups.len(), 2);
    assert_eq!(backups[0].dest, "bright-custom");
    assert_eq!(backups[1].source, "pro");
    match confirm_reset(None, backups) {
        Request::ConfirmReset { backups } => assert_eq!(backups.len(), 2),
        other => panic!("{other:?}"),
    }
    assert!(matches!(
        confirm_reset(Some("pro".into()), vec![]),
        Request::ConfirmResetPreset { name, .. } if name == "pro"
    ));
}
