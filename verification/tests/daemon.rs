use eqtune::config::{Config, Source};
use eqtune::daemon::initial_engine_state;
use eqtune::dsp::{Band, BandKind, MAX_BANDS};
use eqtune::error::{EqError, Fault, Quantity};
use eqtune::ipc::{dispatch, Request, Response, ResponsePoint, Status, Tuning};
use eqtune::library::{
    delete_presets, export_preset, import_preset, is_shipped_preset_name,
    modified_shipped_presets, rename_preset, reset_preset, reset_shipped_presets,
    shipped_preset_names, validate_new_preset_name, validate_preset_name, PresetBackup,
    PresetFile,
};
use eqtune::number::{Double, Single};
use eqtune::preset::{Preset, Presets};
use eqtune::recovery::{Recovery, RETRY_LIMIT, SECOND};
use eqtune::state::{After, Daemon, Step, SESSION_MIRROR_MIN_INTERVAL};
use eqtune::sys::{OutputTarget, StreamFacts};
use eqtune::text::Piece;

fn single(x: f32) -> Single {
    Single::from_bits(x.to_bits())
}

fn band(freq: f32, gain_db: f32, q: f32) -> Band {
    Band {
        kind: BandKind::Peaking,
        freq: single(freq),
        gain_db: single(gain_db),
        q: single(q),
    }
}

fn preset(bands: Vec<Band>, preamp_db: f32) -> Preset {
    Preset { bands, preamp_db: single(preamp_db) }
}

fn text(e: &EqError) -> String {
    let mut out = String::new();
    for piece in e.message() {
        match piece {
            Piece::Words(t) => out.push_str(&t),
            Piece::Figure(_, x) => out.push_str(&format!("{}", f32::from_bits(x.bits))),
        }
    }
    out
}

fn double(x: f64) -> Double {
    Double::from_bits(x.to_bits())
}

fn target(id: u32, rate: f64) -> OutputTarget {
    OutputTarget {
        id,
        uid: "uid".into(),
        name: "Speakers".into(),
        sample_rate: double(rate),
        stream: StreamFacts {
            sample_rate: double(rate),
            rate_text: format!("{rate}"),
            format_id: u32::from_be_bytes(*b"lpcm"),
            format_flags: 1,
            bytes_per_frame: 8,
            channels: 2,
            bits_per_channel: 32,
        },
    }
}

fn copy(p: &Presets, name: &str) -> Preset {
    p.get(name).unwrap().clone()
}

/// A daemon with the world around it in memory.
struct World {
    d: Daemon,
    /// The config file.
    disk: Option<Config>,
    /// The session draft.
    draft: Option<Config>,
    /// Config writes fail.
    read_only: bool,
    /// The draft cannot be removed.
    stuck: bool,
    /// Starting the engine fails.
    no_tap: bool,
    /// The peak that a measurement finds.
    peak: f32,
    /// What a preset file holds.
    file: Option<PresetFile>,
    starts: usize,
    stops: usize,
    pushes: usize,
    writes: usize,
    now: u64,
}

fn daemon_with(config: Config) -> World {
    World {
        d: Daemon {
            user_intent: config.enabled,
            saved_config: config.clone(),
            config,
            engine: None,
            engine_target_on: false,
            low_power: false,
            observed_output_id: None,
            recovery: Recovery::new(),
            last_engine_error: None,
            idle_suspended: false,
            bypassed: false,
            draft_dirty: false,
            draft_last_write: None,
        },
        disk: None,
        draft: None,
        read_only: false,
        stuck: false,
        no_tap: true,
        peak: 0.0,
        file: None,
        starts: 0,
        stops: 0,
        pushes: 0,
        writes: 0,
        now: 1_000 * SECOND,
    }
}

impl World {
    fn drive(&mut self, first: Step) -> Option<Result<Response, EqError>> {
        let mut step = first;
        loop {
            step = match step {
                Step::Start { after, retry, .. } => {
                    self.starts += 1;
                    let r = if self.no_tap {
                        Err("no tap".to_string())
                    } else {
                        Ok(target(1, 48_000.0))
                    };
                    self.d.started(after, retry, r, self.now)
                }
                Step::Stop(then) => {
                    self.stops += 1;
                    self.d.stopped(then)
                }
                Step::Save { next, saving } => {
                    self.writes += 1;
                    let failed = if self.read_only {
                        Some("not a directory".to_string())
                    } else {
                        self.disk = Some(next.clone());
                        None
                    };
                    self.d.saved(next, saving, failed, self.now)
                }
                Step::WriteDraft { draft, at, mirror } => {
                    self.draft = Some(draft);
                    self.d.draft_written(at, mirror, true)
                }
                Step::RemoveDraft(reply) => {
                    let stayed = if self.stuck {
                        Some(("/session.toml".to_string(), "is a directory".to_string()))
                    } else {
                        self.draft = None;
                        None
                    };
                    self.d.draft_removed(reply, stayed)
                }
                Step::Push { reply, failed, .. } => {
                    self.pushes += 1;
                    self.d.pushed(reply, failed)
                }
                Step::ReadPreset { name, .. } => {
                    let file = self.file.take().ok_or_else(|| "no such file".to_string());
                    self.d.preset_read(file, name)
                }
                Step::WritePreset { file, .. } => {
                    self.file = Some(file);
                    self.d.preset_written(None)
                }
                Step::MeasurePeak { .. } => {
                    let peak = Ok(single(self.peak));
                    self.d.peak_measured(peak, self.now)
                }
                Step::MeasureResponse { rate, .. } => {
                    let point = ResponsePoint {
                        frequency_hz: single(1000.0),
                        gain_db: single(2.5),
                    };
                    self.d.response_measured(Ok((
                        rate.unwrap_or(double(44_100.0)),
                        vec![point],
                    )))
                }
                Step::Finish(r) => return Some(r),
                Step::Idle => return None,
            }
        }
    }

    fn apply(&mut self, req: Request) -> Result<Response, EqError> {
        let step = self.d.apply(req, self.now);
        self.drive(step).unwrap()
    }

    fn flush(&mut self, now: u64) {
        let step = self.d.maybe_flush_draft(now);
        assert!(self.drive(step).is_none());
    }

    fn preamp(&mut self, db: f32) -> Result<Response, EqError> {
        self.apply(Request::SetPreamp(single(db)))
    }

    fn working(&self, name: &str) -> &Preset {
        self.d.config.presets.get(name).unwrap()
    }

    fn saved(&self, name: &str) -> &Preset {
        self.d.saved_config.presets.get(name).unwrap()
    }

    fn clean(&self) -> bool {
        self.d.config.same(&self.d.saved_config)
    }

    fn running(config: Config) -> World {
        let mut w = daemon_with(config);
        w.no_tap = false;
        w.apply(Request::Enable).unwrap();
        assert!(w.d.engine.is_some());
        w
    }
}

fn tuning(r: Response) -> Tuning {
    match r {
        Response::Tuning(t) => t,
        other => panic!("expected tuning response, got {other:?}"),
    }
}

fn status(w: &mut World) -> Status {
    match w.apply(Request::Status).unwrap() {
        Response::Status(s) => *s,
        other => panic!("expected status, got {other:?}"),
    }
}

#[test]
fn preset_show_reads_without_switching_or_persisting() {
    let mut w = daemon_with(Config::default());
    let before = w.d.config.clone();
    let t = tuning(w.apply(Request::ShowPreset(Some("mellow".into()))).unwrap());
    assert_eq!(t.preset, "mellow");
    assert_eq!(t.preamp_db, before.presets.get("mellow").unwrap().preamp_db);
    assert_eq!(t.bands, before.presets.get("mellow").unwrap().bands);
    assert!(w.d.config.same(&before));
    assert!(w.d.saved_config.same(&before));
    assert!(w.disk.is_none());
}

#[test]
fn preset_show_without_a_name_uses_the_active_working_tuning() {
    let mut w = daemon_with(Config::default());
    w.preamp(-3.0).unwrap();
    let t = tuning(w.apply(Request::ShowPreset(None)).unwrap());
    assert_eq!(t.preset, "bright");
    assert_eq!(t.preamp_db, single(-3.0));
    assert_eq!(w.saved("bright").preamp_db, single(-8.0));
}

#[test]
fn preset_show_rejects_an_unknown_name() {
    let mut w = daemon_with(Config::default());
    match w.apply(Request::ShowPreset(Some("missing".into()))).unwrap() {
        Response::Error(e) => assert_eq!(text(&e), "no such preset: missing"),
        other => panic!("expected an error, got {other:?}"),
    }
}

#[test]
fn limiter_toggle_persists_without_committing_tuning_edits() {
    let mut w = daemon_with(Config::default());
    w.preamp(-3.0).unwrap();
    w.apply(Request::SetLimiter(false)).unwrap();
    assert!(!w.d.config.limiter);
    assert!(!w.d.saved_config.limiter);
    assert!(w.d.has_unsaved_session());
    assert_eq!(w.working("bright").preamp_db, single(-3.0));
    assert_eq!(w.saved("bright").preamp_db, single(-8.0));
    let on_disk = w.disk.unwrap();
    assert!(!on_disk.limiter);
    assert_eq!(on_disk.presets.get("bright").unwrap().preamp_db, single(-8.0));
}

#[test]
fn limiter_save_failure_leaves_state_untouched_and_retryable() {
    let mut w = daemon_with(Config::default());
    w.read_only = true;
    assert!(w.apply(Request::SetLimiter(false)).is_err());
    assert!(w.d.config.limiter);
    assert!(w.d.saved_config.limiter);
    w.read_only = false;
    w.apply(Request::SetLimiter(false)).unwrap();
    assert!(!w.d.config.limiter);
    assert!(!w.disk.unwrap().limiter);
}

#[test]
fn preset_clone_copies_source_contents_and_selects_it() {
    let mut w = daemon_with(Config::default());
    let source = copy(&w.d.saved_config.presets, "mellow");
    w.apply(Request::ClonePreset { source: "mellow".into(), dest: "night".into() }).unwrap();
    assert_eq!(w.d.config.active_preset, "night");
    assert!(w.working("night").same(&source));
    assert!(!w.d.has_unsaved_session());
    assert!(w.disk.unwrap().presets.get("night").unwrap().same(&source));
}

#[test]
fn preset_delete_removes_active_and_selects_another() {
    let mut c = Config { active_preset: "mellow".into(), ..Config::default() };
    delete_presets(&mut c, &["mellow".into()]).unwrap();
    assert!(!c.presets.contains_key("mellow"));
    assert!(c.presets.contains_key(&c.active_preset));
    assert_eq!(c.active_preset, "bright");
}

#[test]
fn preset_delete_rejects_last_preset() {
    let mut c = Config::default();
    c.presets.remove("mellow");
    c.presets.remove("pro");
    c.active_preset = "bright".into();
    let e = delete_presets(&mut c, &["bright".into()]).unwrap_err();
    assert_eq!(text(&e), "cannot delete every preset");
    assert!(c.presets.contains_key("bright"));
}

#[test]
fn preset_delete_removes_multiple_presets_atomically() {
    let mut c = Config::default();
    c.presets.insert("daily".into(), preset(vec![], 0.0));
    c.active_preset = "daily".into();
    delete_presets(&mut c, &["daily".into(), "mellow".into()]).unwrap();
    assert!(!c.presets.contains_key("daily"));
    assert!(!c.presets.contains_key("mellow"));
    assert!(c.presets.contains_key(&c.active_preset));
}

#[test]
fn preset_delete_rejects_duplicate_or_all_names_without_mutating() {
    let mut c = Config::default();
    let before = c.clone();
    let e = delete_presets(&mut c, &["bright".into(), "bright".into()]).unwrap_err();
    assert_eq!(text(&e), "duplicate preset name: bright");
    assert!(c.same(&before));

    let all = c.presets.names();
    assert!(delete_presets(&mut c, &all).is_err());
    assert!(c.same(&before));

    let e = delete_presets(&mut c, &["bright".into(), "gone".into()]).unwrap_err();
    assert_eq!(text(&e), "no such preset: gone");
    let e = delete_presets(&mut c, &[]).unwrap_err();
    assert_eq!(text(&e), "at least one preset name is required");
    assert!(c.same(&before));
}

#[test]
fn preset_rename_moves_preset_and_updates_active_name() {
    let mut c = Config { active_preset: "bright".into(), ..Config::default() };
    let bright = copy(&c.presets, "bright");
    rename_preset(&mut c, "bright", "daily").unwrap();
    assert!(!c.presets.contains_key("bright"));
    assert_eq!(c.active_preset, "daily");
    assert!(c.presets.get("daily").unwrap().same(&bright));
    rename_preset(&mut c, "daily", "bright").unwrap();
    assert!(c.same(&Config::default()), "renaming back gives the config there was");
}

#[test]
fn preset_rename_refuses_a_taken_or_unknown_name() {
    let mut c = Config::default();
    let e = rename_preset(&mut c, "bright", "pro").unwrap_err();
    assert_eq!(text(&e), "preset already exists: pro");
    let e = rename_preset(&mut c, "gone", "x").unwrap_err();
    assert_eq!(text(&e), "no such preset: gone");
    assert!(c.same(&Config::default()));
    rename_preset(&mut c, "bright", "bright").unwrap();
    assert!(c.same(&Config::default()));
}

#[test]
fn preset_names_are_restricted_for_new_presets() {
    let c = Config::default();
    for name in ["", "two words", " lead", "trail ", "emoji-☃"] {
        assert!(validate_new_preset_name(&c.presets, name).is_err());
    }
    assert!(validate_new_preset_name(&c.presets, "bright").is_err());
    assert!(validate_new_preset_name(&c.presets, "daily.v2").is_ok());
}

#[test]
fn preset_name_failures_are_told() {
    let say = |name: &str| text(&validate_preset_name(name).unwrap_err());
    assert_eq!(say(""), "preset name must not be empty");
    assert_eq!(say(&"x".repeat(65)), "preset name must be at most 64 characters");
    assert!(validate_preset_name(&"x".repeat(64)).is_ok());
    assert_eq!(say(&"é".repeat(33)), "preset name must be at most 64 characters");
    assert_eq!(say(" a"), "preset name must not have leading or trailing whitespace");
    assert_eq!(say("a\u{3000}"), "preset name must not have leading or trailing whitespace");
    assert_eq!(
        say("a b"),
        "preset name may only contain ASCII letters, digits, '-', '_', or '.'"
    );
    assert!(validate_preset_name("Az09-_.").is_ok());
}

#[test]
fn preset_export_writes_shareable_toml() {
    let c = Config::default();
    let file = export_preset(&c, "bright").unwrap();
    assert_eq!(file.name, "bright");
    assert!(file.preset().same(c.presets.get("bright").unwrap()));
    assert_eq!(text(&export_preset(&c, "gone").unwrap_err()), "no such preset: gone");
}

fn shared(c: &Config, name: &str, preamp: Option<f32>) -> PresetFile {
    let mellow = copy(&c.presets, "mellow");
    PresetFile {
        name: name.into(),
        bands: mellow.bands.clone(),
        preamp_db: preamp.map(single).unwrap_or(mellow.preamp_db),
    }
}

#[test]
fn preset_import_reads_file_and_selects_preset() {
    let mut c = Config::default();
    let file = shared(&c, "shared", None);
    import_preset(&mut c, &file, None).unwrap();
    assert_eq!(c.active_preset, "shared");
    assert!(c.presets.get("shared").unwrap().same(&file.preset()));
}

#[test]
fn preset_import_name_override_wins() {
    let mut c = Config::default();
    let file = shared(&c, "shared", None);
    import_preset(&mut c, &file, Some("renamed-share")).unwrap();
    assert!(!c.presets.contains_key("shared"));
    assert_eq!(c.active_preset, "renamed-share");
    assert!(c.presets.get("renamed-share").unwrap().same(&file.preset()));
}

#[test]
fn preset_import_rejects_duplicate_or_invalid_values() {
    let mut c = Config::default();
    let duplicate = shared(&c, "bright", None);
    let invalid = shared(&c, "too-loud", Some(99.0));
    assert!(import_preset(&mut c, &duplicate, None).is_err());
    let e = import_preset(&mut c, &invalid, None).unwrap_err();
    assert_eq!(e.fault, Fault::OutOfRange(Quantity::Preamp));
    assert!(c.same(&Config::default()));
}

#[test]
fn import_rejects_preset_exceeding_max_bands() {
    let mut c = Config::default();
    let bands: Vec<Band> = (0..=MAX_BANDS).map(|i| band(20.0 + i as f32, 1.0, 1.0)).collect();
    assert_eq!(bands.len(), MAX_BANDS + 1);
    let file = PresetFile { name: "big".into(), bands, preamp_db: single(0.0) };
    assert!(import_preset(&mut c, &file, None).is_err());
    assert!(!c.presets.contains_key("big"));
}

#[test]
fn an_exported_preset_can_be_imported_again() {
    let mut w = daemon_with(Config::default());
    w.apply(Request::ExportPreset { name: "pro".into(), path: "/pro.toml".into() }).unwrap();
    w.apply(Request::ImportPreset { path: "/pro.toml".into(), name: Some("pro2".into()) })
        .unwrap();
    assert_eq!(w.d.saved_config.active_preset, "pro2");
    assert!(w.saved("pro2").same(w.saved("pro")));
    let e = w
        .apply(Request::ImportPreset { path: "/gone.toml".into(), name: None })
        .unwrap_err();
    assert_eq!(text(&e), "no such file");
    assert!(w
        .apply(Request::ExportPreset { name: "gone".into(), path: "/x".into() })
        .is_err());
}

#[test]
fn tuning_edits_are_unsaved_until_resolved() {
    let mut w = daemon_with(Config::default());
    let saved_bright = copy(&w.d.saved_config.presets, "bright");
    w.preamp(-3.0).unwrap();
    assert!(!w.clean());
    w.apply(Request::SaveSessionAs { name: "daily".into() }).unwrap();
    assert!(w.clean());
    assert_eq!(w.d.config.active_preset, "daily");
    assert!(w.working("bright").same(&saved_bright));
    assert_eq!(w.working("daily").preamp_db, single(-3.0));
}

#[test]
fn session_save_as_can_overwrite_shipped_preset_name() {
    let mut w = daemon_with(Config::default());
    let original_bright = copy(&w.d.saved_config.presets, "bright");
    w.apply(Request::SetPreset("mellow".into())).unwrap();
    w.preamp(-3.0).unwrap();
    w.apply(Request::SaveSessionAs { name: "bright".into() }).unwrap();
    assert!(w.clean());
    assert_eq!(w.d.config.active_preset, "bright");
    assert!(!w.saved("bright").same(&original_bright));
    assert_eq!(w.saved("bright").preamp_db, single(-3.0));
}

#[test]
fn session_save_as_rejects_another_custom_preset_name() {
    let mut w = daemon_with(Config::default());
    w.apply(Request::SavePreset { name: "daily".into() }).unwrap();
    w.apply(Request::SavePreset { name: "desk".into() }).unwrap();
    w.preamp(-3.0).unwrap();
    let err = w.apply(Request::SaveSessionAs { name: "daily".into() }).unwrap_err();
    assert!(text(&err).contains("preset already exists"));
}

#[test]
fn session_save_as_own_name_overwrites_the_active_custom_preset() {
    let mut w = daemon_with(Config::default());
    w.apply(Request::SavePreset { name: "daily".into() }).unwrap();
    w.preamp(-3.0).unwrap();
    w.apply(Request::SaveSessionAs { name: "daily".into() }).unwrap();
    assert!(w.clean());
    assert_eq!(w.d.config.active_preset, "daily");
    assert_eq!(w.saved("daily").preamp_db, single(-3.0));
}

#[test]
fn session_overwrite_commits_active_preset_name() {
    let mut w = daemon_with(Config::default());
    w.preamp(-3.0).unwrap();
    w.apply(Request::SaveSessionOverwrite).unwrap();
    assert!(w.clean());
    assert_eq!(w.d.config.active_preset, "bright");
    assert_eq!(w.saved("bright").preamp_db, single(-3.0));
}

#[test]
fn session_discard_reverts_to_saved_config() {
    let mut w = daemon_with(Config::default());
    let saved = w.d.saved_config.clone();
    w.preamp(-3.0).unwrap();
    w.apply(Request::DiscardSession).unwrap();
    assert!(w.d.config.same(&saved));
    assert!(w.d.saved_config.same(&saved));
}

#[test]
fn off_returns_unsaved_session_when_tuning_is_dirty() {
    let mut w = daemon_with(Config::default());
    w.preamp(-3.0).unwrap();
    let resp = w.apply(Request::Disable).unwrap();
    assert!(matches!(resp, Response::UnsavedSession { .. }));
}

#[test]
fn off_reports_the_presets_that_actually_carry_unsaved_edits() {
    let mut w = daemon_with(Config::default());
    w.preamp(-3.0).unwrap();
    w.apply(Request::SetPreset("mellow".into())).unwrap();
    match w.apply(Request::Disable).unwrap() {
        Response::UnsavedSession { tuning, dirty_presets } => {
            assert_eq!(tuning.preset, "mellow");
            assert_eq!(dirty_presets, vec!["bright".to_string()]);
        }
        other => panic!("expected UnsavedSession, got {other:?}"),
    }
}

#[test]
fn save_session_as_keeps_unsaved_edits_to_other_presets_open() {
    let mut w = daemon_with(Config::default());
    w.preamp(-3.0).unwrap();
    w.apply(Request::SetPreset("mellow".into())).unwrap();
    assert!(w.d.has_unsaved_session());
    w.apply(Request::SaveSessionAs { name: "party".into() }).unwrap();
    assert_eq!(w.d.saved_config.active_preset, "party");
    assert!(w.saved("party").same(w.saved("mellow")));
    assert_eq!(
        w.working("bright").preamp_db,
        single(-3.0),
        "bright's unsaved edit must survive the save-as"
    );
    assert_eq!(w.saved("bright").preamp_db, single(-8.0));
    assert!(w.d.has_unsaved_session(), "the remaining edit stays an open session");
    assert!(w.draft.is_some(), "…and stays mirrored for a daemon restart");
}

#[test]
fn preset_clone_is_blocked_by_an_unsaved_session() {
    let mut w = daemon_with(Config::default());
    w.preamp(-3.0).unwrap();
    let err = w
        .apply(Request::ClonePreset { source: "mellow".into(), dest: "night".into() })
        .unwrap_err();
    assert!(text(&err).contains("unsaved tuning changes"));
    assert!(!w.d.config.presets.contains_key("night"));
    assert_eq!(
        w.working("bright").preamp_db,
        single(-3.0),
        "the working edit must not be dropped"
    );
}

fn edit(c: &mut Config, name: &str, preamp: f32) {
    let mut p = copy(&c.presets, name);
    p.preamp_db = single(preamp);
    c.presets.insert(name.into(), p);
}

#[test]
fn reset_preset_restores_shipped_preset() {
    let mut c = Config::default();
    let defaults = Config::default();
    for name in ["bright", "mellow", "pro"] {
        edit(&mut c, name, -3.0);
        reset_preset(&mut c, name).unwrap();
        assert!(c.presets.get(name).unwrap().same(defaults.presets.get(name).unwrap()));
        c.presets.remove(name);
        reset_preset(&mut c, name).unwrap();
        assert!(c.presets.get(name).unwrap().same(defaults.presets.get(name).unwrap()));
    }
    let e = reset_preset(&mut c, "custom").unwrap_err();
    assert_eq!(text(&e), "no shipped preset: custom");
}

#[test]
fn reset_all_restores_shipped_presets_and_preserves_custom_presets() {
    let mut c = Config::default();
    let defaults = Config::default();
    c.presets.insert("daily".into(), preset(vec![], -4.0));
    for name in ["bright", "mellow", "pro"] {
        edit(&mut c, name, -3.0);
    }
    reset_shipped_presets(&mut c);
    for name in ["bright", "mellow", "pro"] {
        assert!(c.presets.get(name).unwrap().same(defaults.presets.get(name).unwrap()));
    }
    assert!(c.presets.contains_key("daily"));
    assert_eq!(c.active_preset, "bright");
}

#[test]
fn reset_requests_restore_shipped_presets_from_saved_config() {
    let mut config = Config::default();
    config.presets.insert("daily".into(), preset(vec![], -4.0));
    for name in ["bright", "mellow", "pro"] {
        edit(&mut config, name, -3.0);
    }
    let mut w = daemon_with(config);
    let defaults = Config::default();

    w.preamp(1.0).unwrap();
    let blocked = w.apply(Request::ResetPreset { name: "bright".into() }).unwrap_err();
    assert!(text(&blocked).contains("unsaved tuning changes"));

    w.apply(Request::DiscardSession).unwrap();
    let resp = w.apply(Request::ResetPreset { name: "bright".into() }).unwrap();
    assert!(matches!(resp, Response::ResetWouldOverwrite { .. }));
    w.apply(Request::ConfirmResetPreset { name: "bright".into(), backups: vec![] }).unwrap();
    assert!(w.saved("bright").same(defaults.presets.get("bright").unwrap()));
    assert_eq!(w.saved("mellow").preamp_db, single(-3.0));
    assert!(w.d.saved_config.presets.contains_key("daily"));

    match w.apply(Request::Reset).unwrap() {
        Response::ResetWouldOverwrite { names } => assert_eq!(names, ["mellow", "pro"]),
        other => panic!("expected a question, got {other:?}"),
    }
    w.apply(Request::ConfirmReset { backups: vec![] }).unwrap();
    for name in ["bright", "mellow", "pro"] {
        assert!(w.saved(name).same(defaults.presets.get(name).unwrap()));
    }
    assert!(w.d.saved_config.presets.contains_key("daily"));
    assert_eq!(w.d.saved_config.active_preset, "bright");
    assert!(
        matches!(w.apply(Request::Reset).unwrap(), Response::Tuning(_)),
        "a second reset has nothing to ask"
    );
}

fn backup(source: &str, dest: &str) -> PresetBackup {
    PresetBackup { source: source.into(), dest: dest.into() }
}

#[test]
fn confirmed_reset_can_save_modified_builtin_copy_first() {
    let mut config = Config::default();
    edit(&mut config, "bright", -3.0);
    let modified_bright = copy(&config.presets, "bright");
    let mut w = daemon_with(config);
    let resp = w.apply(Request::ResetPreset { name: "bright".into() }).unwrap();
    assert!(matches!(resp, Response::ResetWouldOverwrite { .. }));
    w.apply(Request::ConfirmResetPreset {
        name: "bright".into(),
        backups: vec![backup("bright", "my-bright")],
    })
    .unwrap();
    assert!(w.saved("bright").same(Config::default().presets.get("bright").unwrap()));
    assert!(w.saved("my-bright").same(&modified_bright));
}

#[test]
fn reset_backups_are_checked() {
    let mut w = daemon_with(Config::default());
    let refuse = |w: &mut World, b: PresetBackup| {
        text(&w.apply(Request::ConfirmReset { backups: vec![b] }).unwrap_err())
    };
    assert_eq!(
        refuse(&mut w, backup("daily", "x")),
        "can only back up shipped presets during reset: daily"
    );
    assert_eq!(refuse(&mut w, backup("bright", "pro")), "preset already exists: pro");
    assert_eq!(
        refuse(&mut w, backup("bright", "a b")),
        "preset name may only contain ASCII letters, digits, '-', '_', or '.'"
    );
    assert!(w.clean() && w.disk.is_none());
    w.apply(Request::DeletePresets { names: vec!["bright".into()] }).unwrap();
    assert_eq!(refuse(&mut w, backup("bright", "x")), "no such preset: bright");
}

#[test]
fn reset_recreates_deleted_shipped_preset_without_overwrite_warning() {
    let mut config = Config::default();
    config.presets.remove("bright");
    let mut w = daemon_with(config);
    let resp = w.apply(Request::ResetPreset { name: "bright".into() }).unwrap();
    assert!(matches!(resp, Response::Tuning(_)));
    assert!(w.saved("bright").same(Config::default().presets.get("bright").unwrap()));
}

#[test]
fn shipped_names_are_known() {
    assert_eq!(shipped_preset_names(), ["bright", "mellow", "pro"]);
    assert!(is_shipped_preset_name("pro"));
    assert!(!is_shipped_preset_name("daily"));
    let mut c = Config::default();
    edit(&mut c, "pro", -1.0);
    assert_eq!(modified_shipped_presets(&c, &shipped_preset_names()).unwrap(), ["pro"]);
    let e = modified_shipped_presets(&c, &["daily".into()]).unwrap_err();
    assert_eq!(text(&e), "no shipped preset: daily");
}

fn set_band(w: &mut World, kind: BandKind, freq: f32, gain: f32, q: f32) -> Result<Response, EqError> {
    w.apply(Request::SetBand {
        kind,
        freq: single(freq),
        gain_db: single(gain),
        q: single(q),
    })
}

#[test]
fn set_band_rejects_exceeding_max_bands() {
    let mut w = daemon_with(Config::default());
    w.d.config.presets.insert("empty".into(), preset(vec![], 0.0));
    w.d.config.active_preset = "empty".into();
    for i in 0..MAX_BANDS {
        set_band(&mut w, BandKind::Peaking, 20.0 + i as f32, 3.0, 1.0).unwrap();
    }
    assert_eq!(w.working("empty").bands.len(), MAX_BANDS);
    let resp = set_band(&mut w, BandKind::Peaking, 19_000.0, 3.0, 1.0).unwrap();
    match resp {
        Response::Error(e) => assert_eq!(
            text(&e),
            "cannot add band: preset already has the maximum of 64 bands"
        ),
        other => panic!("expected an error, got {other:?}"),
    }
    assert_eq!(w.working("empty").bands.len(), MAX_BANDS);
    set_band(&mut w, BandKind::Peaking, 20.0, -3.0, 2.0).unwrap();
    assert_eq!(w.working("empty").bands.len(), MAX_BANDS);
    assert_eq!(w.working("empty").bands[0], band(20.0, -3.0, 2.0));
    assert_eq!(w.working("empty").bands[1], band(21.0, 3.0, 1.0));
}

#[test]
fn set_band_keeps_the_kind_of_a_shelf() {
    let mut config = Config::default();
    let shelf = Band { kind: BandKind::LowShelf, ..band(80.0, -5.0, 0.7) };
    config.presets.insert("bright".into(), preset(vec![shelf, band(1000.0, 2.0, 1.0)], -8.0));
    let mut w = daemon_with(config);
    let t = tuning(set_band(&mut w, BandKind::Peaking, 80.0, 3.0, 1.0).unwrap());
    assert_eq!(
        t.bands,
        [
            Band { kind: BandKind::LowShelf, ..band(80.0, 3.0, 1.0) },
            band(1000.0, 2.0, 1.0)
        ]
    );
    let t = tuning(set_band(&mut w, BandKind::HighShelf, 8000.0, 3.0, 1.0).unwrap());
    assert_eq!(t.bands[2].kind, BandKind::HighShelf, "a new band has the requested kind");
}

#[test]
fn set_band_updates_a_close_band_and_sorts_a_new_one_in() {
    let mut w = daemon_with(Config::default());
    let t = tuning(set_band(&mut w, BandKind::HighShelf, 2000.4, -1.0, 0.7).unwrap());
    assert_eq!(t.bands.len(), 10);
    assert_eq!(t.bands[6], band(2000.0, -1.0, 0.7), "an update keeps the kind");
    let t = tuning(set_band(&mut w, BandKind::Peaking, 2000.5, 2.0, 1.0).unwrap());
    assert_eq!(t.bands.len(), 11);
    assert_eq!(t.bands[7], band(2000.5, 2.0, 1.0));
    let freqs: Vec<f32> = t.bands.iter().map(|b| f32::from_bits(b.freq.bits)).collect();
    let mut sorted = freqs.clone();
    sorted.sort_by(f32::total_cmp);
    assert_eq!(freqs, sorted);
    let e = set_band(&mut w, BandKind::Peaking, 10.0, 2.0, 1.0).unwrap_err();
    assert_eq!(e.fault, Fault::OutOfRange(Quantity::Frequency));
}

#[test]
fn remove_band_removes_exactly_one_matching_band() {
    let mut w = daemon_with(Config::default());
    let original = copy(&w.d.config.presets, "bright").bands;
    let expected = *original.iter().find(|b| b.freq == single(2_000.0)).unwrap();
    let response = w.apply(Request::RemoveBand { freq: single(2_000.25) }).unwrap();
    let Response::BandRemoved { tuning, removed } = response else {
        panic!("expected a band-removed response");
    };
    assert_eq!(removed, expected);
    assert_eq!(tuning.bands.len(), original.len() - 1);
    assert!(!tuning.bands.contains(&expected));
    assert!(w.d.has_unsaved_session());
}

#[test]
fn remove_band_rejects_a_distant_frequency_without_mutating() {
    let mut w = daemon_with(Config::default());
    let before = w.d.config.clone();
    match dispatch(w.apply(Request::RemoveBand { freq: single(2_900.0) })) {
        Response::Error(e) => assert_eq!(
            text(&e),
            "no band matches 2900 Hz; nearest configured band is 2000 Hz"
        ),
        other => panic!("expected an error, got {other:?}"),
    }
    assert!(w.d.config.same(&before));
    assert!(!w.d.has_unsaved_session());
}

#[test]
fn remove_band_rejects_an_empty_preset() {
    let mut config = Config::default();
    config.presets.insert("bright".into(), preset(vec![], -8.0));
    let mut w = daemon_with(config.clone());
    match dispatch(w.apply(Request::RemoveBand { freq: single(1_000.0) })) {
        Response::Error(e) => assert_eq!(text(&e), "active preset has no bands to remove"),
        other => panic!("expected an error, got {other:?}"),
    }
    assert!(w.d.config.same(&config));
}

#[test]
fn edits_need_the_active_preset_itself() {
    let mut w = daemon_with(Config { active_preset: "gone".into(), ..Config::default() });
    let e = w.preamp(-3.0).unwrap_err();
    assert_eq!(text(&e), "active preset 'gone' is missing");
    assert!(w.apply(Request::RemoveBand { freq: single(1000.0) }).is_err());
    assert!(w.apply(Request::SetPreampAuto).is_err());
    assert!(set_band(&mut w, BandKind::Peaking, 1000.0, 1.0, 1.0).is_err());
    let mut empty = daemon_with(Config { presets: Presets::new(), ..Config::default() });
    let e = empty.apply(Request::SavePreset { name: "x".into() }).unwrap_err();
    assert_eq!(text(&e), "no active preset to save");
}

#[test]
fn disable_persists_enabled_off() {
    let mut w = daemon_with(Config { enabled: true, ..Config::default() });
    let resp = w.apply(Request::Disable).unwrap();
    assert!(matches!(resp, Response::Done));
    assert!(!w.d.config.enabled);
    assert!(!w.d.saved_config.enabled);
    assert!(!w.disk.unwrap().enabled, "off must be persisted for the next startup");
}

#[test]
fn disabling_lowpower_auto_off_does_not_lift_an_idle_suspension() {
    let mut w = daemon_with(Config { enabled: true, ..Config::default() });
    w.d.idle_suspended = true;
    w.d.engine_target_on = false;
    w.apply(Request::SetAutoOffLowPower(false)).unwrap();
    assert!(
        !w.d.engine_target_on,
        "lifting LPM suppression must not override an idle suspension"
    );
    assert!(w.d.idle_suspended);
}

#[test]
fn disable_with_a_failing_save_still_stops_the_engine_and_a_retry_persists() {
    let mut w = daemon_with(Config { enabled: true, ..Config::default() });
    w.d.engine_target_on = true;
    w.read_only = true;
    let e = w.apply(Request::Disable).unwrap_err();
    assert_eq!(e.fault, Fault::OffNotSaved);
    assert!(
        !w.d.engine_target_on,
        "off must stop the engine even if the config write fails"
    );
    assert!(w.d.config.enabled);
    assert!(w.d.saved_config.enabled);
    w.read_only = false;
    w.apply(Request::Disable).unwrap();
    assert!(!w.d.config.enabled);
    assert!(!w.disk.unwrap().enabled);
}

#[test]
fn a_failed_off_persist_does_not_let_a_later_reconcile_restart_the_engine() {
    let mut w = daemon_with(Config { enabled: true, ..Config::default() });
    w.d.engine_target_on = true;
    w.read_only = true;
    assert!(w.apply(Request::Disable).is_err());
    assert!(!w.d.user_intent, "off clears the live intent even when the persist fails");
    assert!(w.d.config.enabled, "the stale on-disk value is left untouched for a retry");
    w.read_only = false;
    w.apply(Request::SetAutoOffLowPower(false)).unwrap();
    assert!(
        !w.d.engine_target_on,
        "lifting the LPM policy must read the live off-intent, not the stale enabled=true"
    );
    assert_eq!(w.starts, 0);
}

#[test]
fn redundant_disable_skips_the_config_write() {
    let mut w = daemon_with(Config::default());
    w.apply(Request::Disable).unwrap();
    assert!(w.disk.is_none());
    assert_eq!(w.writes, 0);
}

#[test]
fn preset_switch_save_failure_leaves_state_untouched_and_a_retry_persists() {
    let mut w = daemon_with(Config::default());
    w.read_only = true;
    assert!(w.apply(Request::SetPreset("mellow".into())).is_err());
    assert_eq!(w.d.config.active_preset, "bright");
    assert_eq!(w.d.saved_config.active_preset, "bright");
    w.read_only = false;
    w.apply(Request::SetPreset("mellow".into())).unwrap();
    assert_eq!(w.d.config.active_preset, "mellow");
    assert_eq!(w.disk.unwrap().active_preset, "mellow");
}

#[test]
fn preset_delete_save_failure_leaves_state_untouched_and_a_retry_persists() {
    let mut w = daemon_with(Config::default());
    w.read_only = true;
    let names = vec!["mellow".to_string()];
    assert!(w.apply(Request::DeletePresets { names: names.clone() }).is_err());
    assert!(w.d.config.presets.contains_key("mellow"));
    assert!(w.d.saved_config.presets.contains_key("mellow"));
    assert!(!w.d.has_unsaved_session());
    w.read_only = false;
    w.apply(Request::DeletePresets { names }).unwrap();
    assert!(!w.d.config.presets.contains_key("mellow"));
    assert!(!w.disk.unwrap().presets.contains_key("mellow"));
}

#[test]
fn session_overwrite_save_failure_keeps_the_session_open() {
    let mut w = daemon_with(Config::default());
    w.preamp(-3.0).unwrap();
    assert!(w.d.has_unsaved_session());
    w.read_only = true;
    assert!(w.apply(Request::SaveSessionOverwrite).is_err());
    assert!(w.d.has_unsaved_session());
    assert!(w.draft.is_some());
    w.read_only = false;
    w.apply(Request::SaveSessionOverwrite).unwrap();
    assert!(!w.d.has_unsaved_session());
    assert!(w.draft.is_none());
    assert_eq!(w.disk.unwrap().active().unwrap().preamp_db, single(-3.0));
}

#[test]
fn reset_all_leaves_an_idle_suspension_intact() {
    let mut w = daemon_with(Config { enabled: true, ..Config::default() });
    w.d.idle_suspended = true;
    w.read_only = true;
    assert!(w.apply(Request::ConfirmReset { backups: vec![] }).is_err());
    assert!(w.d.idle_suspended, "a failed reset must not disturb the suspension");
    w.read_only = false;
    w.apply(Request::ConfirmReset { backups: vec![] }).unwrap();
    assert!(
        w.d.idle_suspended,
        "a successful reset leaves the suspension for the resume probe to lift"
    );
    assert!(!w.d.engine_target_on, "reset must not turn the engine target back on");
}

#[test]
fn preset_switch_commits_immediately_and_is_not_an_unsaved_session() {
    let mut w = daemon_with(Config::default());
    w.apply(Request::SetPreset("bright".into())).unwrap();
    assert!(w.disk.is_none());
    w.apply(Request::SetPreset("mellow".into())).unwrap();
    assert_eq!(w.d.saved_config.active_preset, "mellow");
    assert!(!w.d.has_unsaved_session());
    assert!(w.draft.is_none());
    assert_eq!(w.disk.as_ref().unwrap().active_preset, "mellow");
    match w.apply(Request::SetPreset("gone".into())).unwrap() {
        Response::Error(e) => assert_eq!(text(&e), "no such preset: gone"),
        other => panic!("expected an error, got {other:?}"),
    }
}

#[test]
fn live_edits_mirror_a_session_draft_and_committing_removes_it() {
    let mut w = daemon_with(Config::default());
    w.preamp(-3.0).unwrap();
    let draft = w.draft.as_ref().unwrap();
    assert_eq!(
        draft.presets.get(&draft.active_preset).unwrap().preamp_db,
        single(-3.0),
        "the unsaved edit must be mirrored to the session file"
    );
    w.apply(Request::SaveSessionOverwrite).unwrap();
    assert!(w.draft.is_none(), "a committed session must remove the draft mirror");
}

#[test]
fn a_burst_of_edits_coalesces_into_one_deferred_mirror_write() {
    let mut w = daemon_with(Config::default());
    let t0 = w.now;
    let mirrored = |w: &World| w.draft.as_ref().unwrap().active().unwrap().preamp_db;
    w.preamp(-3.0).unwrap();
    assert!(w.draft.is_some(), "the first edit mirrors immediately");
    assert!(!w.d.draft_dirty);
    w.preamp(-4.0).unwrap();
    w.preamp(-5.0).unwrap();
    assert!(w.d.draft_dirty, "a burst within the interval defers the write");
    assert_eq!(mirrored(&w), single(-3.0), "the deferred edits are not flushed yet");
    w.flush(t0 + SESSION_MIRROR_MIN_INTERVAL / 2);
    assert!(w.d.draft_dirty, "still within the interval — nothing flushed");
    w.flush(t0 + SESSION_MIRROR_MIN_INTERVAL * 2);
    assert!(!w.d.draft_dirty, "the interval elapsed — the coalesced write lands");
    assert_eq!(mirrored(&w), single(-5.0), "the mirror now holds the latest edit");
}

#[test]
fn discarding_a_session_removes_the_draft_mirror() {
    let mut w = daemon_with(Config::default());
    w.preamp(-3.0).unwrap();
    assert!(w.draft.is_some());
    w.apply(Request::DiscardSession).unwrap();
    assert!(w.draft.is_none(), "a discarded session must remove the draft mirror");
}

#[test]
fn discard_surfaces_a_draft_that_could_not_be_removed() {
    let mut w = daemon_with(Config::default());
    w.preamp(-3.0).unwrap();
    w.stuck = true;
    let err = w.apply(Request::DiscardSession).unwrap_err();
    assert_eq!(
        text(&err),
        "the tuning was applied, but the resolved session draft at /session.toml could not be \
         removed (is a directory); a daemon restart would restore it as unsaved tuning — remove \
         the file manually"
    );
    assert!(w.clean());
}

#[test]
fn initial_engine_state_starts_suspended_when_idle_auto_off_is_on() {
    assert_eq!(initial_engine_state(true, true, false), (false, true));
    assert_eq!(initial_engine_state(true, false, false), (true, false));
    assert_eq!(initial_engine_state(false, true, false), (false, false));
    assert_eq!(initial_engine_state(false, false, false), (false, false));
    assert_eq!(initial_engine_state(true, false, true), (false, false));
    assert_eq!(initial_engine_state(true, true, true), (false, true));
}

const DELAYS: [u64; 6] = [1, 2, 4, 8, 16, 30];

#[test]
fn recovery_uses_the_bounded_backoff_schedule() {
    let start = 5 * SECOND;
    let mut recovery = Recovery::new();
    recovery.schedule_initial(start);
    assert_eq!(recovery.next_retry, Some(start + DELAYS[0] * SECOND));
    assert_eq!(recovery.retries_attempted, 0);
    for (attempt, delay) in DELAYS.iter().enumerate().skip(1) {
        let failure = start + attempt as u64 * 100 * SECOND;
        recovery.retry_failed(failure);
        assert_eq!(recovery.retries_attempted, attempt);
        assert_eq!(recovery.next_retry, Some(failure + delay * SECOND));
        assert!(!recovery.exhausted);
    }
    recovery.retry_failed(start + 1_000 * SECOND);
    assert_eq!(recovery.retries_attempted, DELAYS.len());
    assert!(recovery.next_retry.is_none());
    assert!(recovery.exhausted);
    assert_eq!(RETRY_LIMIT, DELAYS.len());
}

#[test]
fn recovery_reset_opens_a_fresh_incident_budget() {
    let start = 5 * SECOND;
    let mut recovery = Recovery::new();
    recovery.schedule_initial(start);
    for attempt in 0..DELAYS.len() {
        recovery.retry_failed(start + attempt as u64 * SECOND);
    }
    assert!(recovery.exhausted);
    recovery.reset();
    assert_eq!(recovery.retries_attempted, 0);
    assert!(recovery.next_retry.is_none());
    assert!(!recovery.exhausted);
    recovery.schedule_initial(start);
    assert_eq!(recovery.next_retry, Some(start + SECOND));
    assert!(!recovery.due(start));
    assert!(recovery.due(start + SECOND));
    recovery.pause();
    assert!(!recovery.due(u64::MAX));
}

#[test]
fn exhausted_recovery_cannot_reconcile_an_extra_attempt() {
    let mut w = daemon_with(Config::default());
    w.d.user_intent = true;
    w.d.engine_target_on = true;
    w.d.recovery.exhausted = true;
    w.d.recovery.retries_attempted = DELAYS.len();
    let step = w.d.reconcile(After::Poll);
    assert!(w.drive(step).is_none());
    assert_eq!(w.starts, 0);
    assert!(w.d.engine.is_none());
    assert!(w.d.last_engine_error.is_none());
    assert!(w.d.recovery.exhausted);
}

#[test]
fn status_explains_recovery_and_unsaved_presets() {
    let mut w = daemon_with(Config::default());
    w.d.user_intent = true;
    w.d.engine_target_on = true;
    w.d.last_engine_error = Some("runtime input stream layout changed".into());
    w.d.recovery.schedule_initial(w.now);
    edit(&mut w.d.config, "bright", -3.0);
    let s = status(&mut w);
    assert!(s.user_intent);
    assert!(!s.engine_running);
    assert_eq!(s.suspension_reason.as_deref(), Some("recovering"));
    assert_eq!(s.retry_attempts, 0);
    assert_eq!(s.retry_limit, 6);
    assert_eq!(s.retry_in_seconds, Some(1));
    assert!(!s.retry_exhausted);
    assert_eq!(s.last_engine_error.as_deref(), Some("runtime input stream layout changed"));
    assert_eq!(s.dirty_presets, ["bright"]);
    assert!(!s.bypassed);
    assert!(s.output_uid.is_none());
}

#[test]
fn status_distinguishes_policy_and_exhaustion_suspensions() {
    let mut w = daemon_with(Config { enabled: true, ..Config::default() });
    let reason = |w: &World| w.d.suspension_reason().unwrap();
    w.d.user_intent = true;
    w.d.engine_target_on = false;
    w.d.low_power = true;
    assert_eq!(reason(&w), "low-power");
    w.d.low_power = false;
    w.d.idle_suspended = true;
    assert_eq!(reason(&w), "idle");
    w.d.idle_suspended = false;
    w.d.engine_target_on = true;
    w.d.recovery.exhausted = true;
    assert_eq!(reason(&w), "recovery-exhausted");
    w.d.recovery.exhausted = false;
    assert_eq!(reason(&w), "starting");
    w.d.user_intent = false;
    assert_eq!(reason(&w), "user-off");
}

#[test]
fn status_rounds_the_retry_up() {
    let mut w = daemon_with(Config::default());
    w.d.recovery.next_retry = Some(w.now + 1_500_000_000);
    assert_eq!(status(&mut w).retry_in_seconds, Some(2));
    w.d.recovery.next_retry = Some(w.now + 999_999);
    assert_eq!(status(&mut w).retry_in_seconds, Some(0));
    w.d.recovery.next_retry = Some(w.now - 1);
    assert_eq!(status(&mut w).retry_in_seconds, Some(0));
}

#[test]
fn status_describes_the_running_output() {
    let mut w = World::running(Config::default());
    let s = status(&mut w);
    assert!(s.engine_running && s.suspension_reason.is_none());
    assert_eq!(s.output_uid.as_deref(), Some("uid"));
    assert_eq!(s.output_name.as_deref(), Some("Speakers"));
    assert_eq!(s.output_rate_hz, Some(double(48_000.0)));
    assert_eq!(
        s.output_stream.as_deref(),
        Some("48000 Hz, 2 ch, Float32, interleaved")
    );
    assert_eq!(s.band_count, 10);
    assert_eq!(s.preamp_db, single(-8.0));
}

#[test]
fn presets_are_listed() {
    let mut w = daemon_with(Config::default());
    match w.apply(Request::ListPresets).unwrap() {
        Response::Presets { active, names } => {
            assert_eq!(active, "bright");
            assert_eq!(names, ["bright", "mellow", "pro"]);
        }
        other => panic!("{other:?}"),
    }
}

#[test]
fn on_persists_the_intent_even_when_the_start_fails() {
    let mut w = daemon_with(Config::default());
    let e = w.apply(Request::Enable).unwrap_err();
    assert_eq!(
        text(&e),
        "native output is active; automatic recovery is scheduled after 1 second"
    );
    assert_eq!(w.starts, 1);
    assert!(w.d.user_intent && w.d.engine_target_on);
    assert!(w.disk.as_ref().unwrap().enabled);
    assert_eq!(w.d.last_engine_error.as_deref(), Some("no tap"));
    assert_eq!(w.d.recovery.next_retry, Some(w.now + SECOND));
    w.read_only = true;
    w.d.saved_config.enabled = false;
    w.d.config.enabled = false;
    assert_eq!(w.apply(Request::Enable).unwrap_err().fault, Fault::OnNotSaved);
}

#[test]
fn on_overrides_power_saving_and_exhaustion() {
    let mut w = daemon_with(Config::default());
    w.no_tap = false;
    w.d.low_power = true;
    w.d.recovery.exhausted = true;
    let t = tuning(w.apply(Request::Enable).unwrap());
    assert!(t.enabled);
    assert!(!w.d.recovery.exhausted);
    w.apply(Request::Enable).unwrap();
    assert_eq!(w.starts, 1, "a running engine is left alone");
    assert!(matches!(w.apply(Request::Disable).unwrap(), Response::Done));
    assert_eq!(w.stops, 1);
    assert!(w.d.engine.is_none());
}

fn poll(w: &mut World, step: Step) {
    assert!(w.drive(step).is_none());
}

#[test]
fn failed_starts_are_retried_six_times() {
    let mut w = daemon_with(Config::default());
    w.apply(Request::Enable).unwrap_err();
    for _ in 0..100 {
        w.now += SECOND;
        let step = w.d.follow_recovery(w.now);
        poll(&mut w, step);
    }
    assert_eq!(w.starts, 7, "the first attempt and six retries");
    assert!(w.d.recovery.exhausted);
    let step = w.d.follow_default_device(Some(9), None);
    poll(&mut w, step);
    assert_eq!(w.starts, 8, "a new output opens a fresh incident");
    assert!(!w.d.recovery.exhausted);
}

#[test]
fn an_engine_failure_is_recovered_from() {
    let mut w = World::running(Config::default());
    let step = w.d.follow_engine_health(None, w.now);
    poll(&mut w, step);
    assert!(w.d.engine.is_some());
    let step = w.d.follow_engine_health(Some("layout changed".into()), w.now);
    poll(&mut w, step);
    assert!(w.d.engine.is_none() && w.d.user_intent && w.d.engine_target_on);
    assert_eq!(w.stops, 1);
    w.now += SECOND;
    let step = w.d.follow_recovery(w.now);
    poll(&mut w, step);
    assert!(w.d.engine.is_some());
    assert_eq!(w.d.recovery, Recovery::new());
}

#[test]
fn the_engine_follows_its_output() {
    let mut w = World::running(Config::default());
    let step = w.d.follow_default_device(None, Some(double(48_000.2)));
    poll(&mut w, step);
    assert_eq!((w.starts, w.stops), (1, 0));
    let step = w.d.follow_default_device(None, Some(double(44_100.0)));
    poll(&mut w, step);
    assert_eq!((w.starts, w.stops), (2, 1));
    let step = w.d.follow_default_device(Some(3), None);
    poll(&mut w, step);
    assert_eq!((w.starts, w.stops), (3, 2));
    assert_eq!(w.d.observed_output_id, Some(3));
    w.apply(Request::Disable).unwrap();
    let step = w.d.follow_default_device(Some(4), None);
    poll(&mut w, step);
    assert_eq!(w.starts, 3, "an engine that is off stays off");
}

#[test]
fn power_saving_suspends_and_resumes() {
    let mut w = World::running(Config::default());
    let step = w.d.follow_low_power(true);
    poll(&mut w, step);
    assert!(w.d.engine.is_none() && w.d.user_intent);
    let step = w.d.follow_low_power(true);
    poll(&mut w, step);
    assert_eq!(w.stops, 1);
    let step = w.d.follow_low_power(false);
    poll(&mut w, step);
    assert!(w.d.engine.is_some());
    w.apply(Request::SetAutoOffLowPower(false)).unwrap();
    let step = w.d.follow_low_power(true);
    poll(&mut w, step);
    assert!(w.d.engine.is_some(), "the policy is off");
    w.apply(Request::SetAutoOffLowPower(true)).unwrap();
    assert!(w.d.engine.is_none(), "switching the policy on applies it at once");
}

#[test]
fn sustained_silence_suspends_and_activity_resumes() {
    let mut w = World::running(Config::default());
    let step = w.d.follow_idle_activity(479_999, true);
    poll(&mut w, step);
    assert!(w.d.engine.is_some());
    let step = w.d.follow_idle_activity(480_000, true);
    poll(&mut w, step);
    assert!(w.d.engine.is_none() && w.d.idle_suspended);
    let step = w.d.follow_idle_activity(0, false);
    poll(&mut w, step);
    assert!(w.d.engine.is_none());
    w.d.low_power = true;
    let step = w.d.follow_idle_activity(0, true);
    poll(&mut w, step);
    assert!(w.d.engine.is_none(), "power saving keeps it off");
    w.d.low_power = false;
    let step = w.d.follow_idle_activity(0, true);
    poll(&mut w, step);
    assert!(w.d.engine.is_some() && !w.d.idle_suspended);
}

#[test]
fn switching_the_idle_policy_off_resumes() {
    let mut w = World::running(Config::default());
    let step = w.d.follow_idle_activity(480_000, true);
    poll(&mut w, step);
    w.apply(Request::SetAutoOffIdle(false)).unwrap();
    assert!(w.d.engine.is_some() && !w.d.idle_suspended);
    let step = w.d.follow_idle_activity(u64::MAX, true);
    poll(&mut w, step);
    assert!(w.d.engine.is_some());
}

#[test]
fn a_toggle_reports_a_start_that_failed() {
    let mut w = daemon_with(Config { enabled: true, ..Config::default() });
    w.d.low_power = true;
    let e = w.apply(Request::SetAutoOffLowPower(false)).unwrap_err();
    assert_eq!(text(&e), "no tap");
    assert!(!w.d.saved_config.auto_off_low_power, "the switch itself is persisted");
}

#[test]
fn edits_reach_a_running_engine() {
    let mut w = World::running(Config::default());
    w.preamp(-3.0).unwrap();
    assert_eq!(w.pushes, 1);
    w.apply(Request::SetLimiter(false)).unwrap();
    assert_eq!(w.pushes, 2);
    w.apply(Request::SetBypass(true)).unwrap();
    assert_eq!(w.pushes, 3);
    assert!(status(&mut w).bypassed);
    assert!(w.d.settings().bypassed && !w.d.settings().limiter);
    assert_eq!(w.d.settings().preamp_db, single(-3.0));
}

#[test]
fn preamp_auto_offsets_the_peak() {
    let mut w = daemon_with(Config::default());
    w.peak = 11.5;
    let t = tuning(w.apply(Request::SetPreampAuto).unwrap());
    assert_eq!(t.preamp_db, single(-11.5));
    w.peak = -2.0;
    let t = tuning(w.apply(Request::SetPreampAuto).unwrap());
    assert_eq!(t.preamp_db, single(0.0));
    w.peak = 61.0;
    assert_eq!(
        w.apply(Request::SetPreampAuto).unwrap_err().fault,
        Fault::OutOfRange(Quantity::Preamp)
    );
}

#[test]
fn the_response_is_reported_at_the_output_rate() {
    let mut w = World::running(Config::default());
    match w.apply(Request::GetResponse).unwrap() {
        Response::FrequencyResponse(r) => {
            assert_eq!(r.sample_rate_hz, double(48_000.0));
            assert_eq!(r.preamp_db, single(-8.0));
            assert_eq!(r.points.len(), 1);
        }
        other => panic!("{other:?}"),
    }
}

#[test]
fn a_restart_restores_the_state() {
    let saved = Config { enabled: true, auto_off_idle: false, ..Config::default() };
    let mut w = daemon_with(saved.clone());
    w.no_tap = false;
    w.d = Daemon::new(saved.clone(), None, false, Some(1));
    let step = w.d.startup();
    poll(&mut w, step);
    assert!(w.d.engine.is_some());

    let mut draft = saved.clone();
    edit(&mut draft, "bright", -3.0);
    let lazy = Config { auto_off_idle: true, ..saved };
    let draft = Config { auto_off_idle: true, ..draft };
    w.d = Daemon::new(lazy, Some(draft), false, Some(1));
    let step = w.d.startup();
    poll(&mut w, step);
    assert!(w.d.engine.is_none() && w.d.idle_suspended && w.d.user_intent);
    assert!(w.d.has_unsaved_session());
    assert_eq!(w.d.dirty_preset_names(), ["bright"]);
}

fn restarted(w: &World) -> Daemon {
    let saved = match &w.disk {
        Some(c) => Config::load_from(Source::Parsed(c.clone())),
        None => Config::load_from(Source::Missing),
    };
    let (saved, unusable) = saved.unwrap();
    assert!(unusable.is_none());
    let source = match &w.draft {
        Some(c) => Source::Parsed(c.clone()),
        None => Source::Missing,
    };
    let (draft, unusable) = Config::load_session(source, &saved);
    assert!(unusable.is_none());
    Daemon::new(saved, draft, false, None)
}

#[test]
fn a_session_survives_a_restart_and_a_resolved_one_stays_resolved() {
    let mut w = daemon_with(Config::default());
    w.preamp(-3.0).unwrap();
    w.apply(Request::SetPreset("mellow".into())).unwrap();
    w.now += SESSION_MIRROR_MIN_INTERVAL;
    w.flush(w.now);
    w.apply(Request::SetAutoOffIdle(false)).unwrap();
    w.read_only = true;
    w.apply(Request::SetLimiter(false)).unwrap_err();
    w.read_only = false;
    let d = restarted(&w);
    assert!(d.saved_config.same(&w.d.saved_config));
    assert!(d.config.same(&w.d.config));
    assert!(d.has_unsaved_session());
    assert_eq!(d.dirty_preset_names(), ["bright"]);

    w.apply(Request::DiscardSession).unwrap();
    let d = restarted(&w);
    assert!(!d.has_unsaved_session());
    assert!(d.config.same(&w.d.config));
    assert_eq!(d.config.active_preset, "mellow");
    assert!(!d.config.auto_off_idle);
}

#[test]
fn an_exhausted_incident_waits_for_a_fresh_one() {
    let mut w = daemon_with(Config::default());
    w.apply(Request::Enable).unwrap_err();
    for _ in 0..100 {
        w.now += SECOND;
        let step = w.d.follow_recovery(w.now);
        poll(&mut w, step);
    }
    assert_eq!(w.starts, 7);
    w.apply(Request::SetAutoOffIdle(true)).unwrap();
    w.apply(Request::SetAutoOffLowPower(true)).unwrap();
    w.apply(Request::SetPreset("pro".into())).unwrap();
    w.preamp(-1.0).unwrap();
    w.apply(Request::SaveSessionOverwrite).unwrap();
    let step = w.d.follow_low_power(false);
    poll(&mut w, step);
    let step = w.d.follow_idle_activity(0, true);
    poll(&mut w, step);
    let step = w.d.follow_default_device(None, None);
    poll(&mut w, step);
    assert_eq!(w.starts, 7);
    w.apply(Request::Enable).unwrap_err();
    assert_eq!(w.starts, 8);
}
