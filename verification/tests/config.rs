use eqtune::config::{
    default_true, validate_band, validate_preamp, validate_preset, validate_range, Config,
    Quarantine, Source,
};
use eqtune::dsp::{Band, BandKind, MAX_BANDS};
use eqtune::error::{Fault, Quantity};
use eqtune::number::Single;
use eqtune::preset::{Preset, Presets};
use eqtune::text::{Piece, Style};

fn single(x: f32) -> Single {
    Single::from_bits(x.to_bits())
}

fn band(freq: f32, gain_db: f32, q: f32) -> Band {
    Band { kind: BandKind::Peaking, freq: single(freq), gain_db: single(gain_db), q: single(q) }
}

fn preset(bands: Vec<Band>, preamp_db: f32) -> Preset {
    Preset { bands, preamp_db: single(preamp_db) }
}

fn text(pieces: Vec<Piece>) -> String {
    let mut out = String::new();
    for piece in pieces {
        match piece {
            Piece::Words(t) => out.push_str(&t),
            Piece::Figure(Style::Plain, x) => out.push_str(&format!("{}", f32::from_bits(x.bits))),
            Piece::Figure(_, _) => panic!("unexpected style"),
        }
    }
    out
}

#[test]
fn active_falls_back_to_a_remaining_preset_when_name_is_missing() {
    let c = Config { active_preset: "nonexistent".into(), ..Config::default() };
    assert!(!c.presets.contains_key("nonexistent"));
    assert!(c.active().is_some(), "must fall back to a remaining preset");
    assert!(c.active().unwrap().same(c.presets.get("bright").unwrap()), "the first by name");
}

#[test]
fn active_of_an_empty_library_is_none() {
    let c = Config { presets: Presets::new(), ..Config::default() };
    assert!(c.active().is_none());
}

#[test]
fn default_active_is_bright() {
    let c = Config::default();
    assert_eq!(c.active_preset, "bright");
    assert_eq!(c.active().unwrap().bands.len(), 10);
    assert!(!c.presets.contains_key("original"), "original should be removed");
    assert!(c.limiter);
    assert!(c.auto_follow_new_devices);
    assert!(c.auto_off_low_power);
    assert!(c.auto_off_idle);
    assert!(!c.enabled);
}

#[test]
fn library_has_expected_presets() {
    let c = Config::default();
    for name in ["bright", "mellow", "pro"] {
        assert!(c.presets.contains_key(name), "missing preset {name}");
    }
    for gone in ["flat", "macbook-pro", "original", "air-desk", "air-lap", "engineer"] {
        assert!(!c.presets.contains_key(gone), "{gone} should be gone");
    }
    assert_eq!(c.presets.get("bright").unwrap().bands.len(), 10);
    assert_eq!(c.presets.get("bright").unwrap().preamp_db, single(-8.0));
    assert_eq!(c.presets.get("pro").unwrap().bands.len(), 28);
}

#[test]
fn shipped_curves_have_their_points() {
    let c = Config::default();
    let bright = [
        (32.0, 7.5),
        (64.0, 9.0),
        (125.0, 11.0),
        (250.0, 7.5),
        (500.0, 4.0),
        (1000.0, 4.5),
        (2000.0, 7.5),
        (4000.0, 7.5),
        (8000.0, 9.5),
        (16000.0, 7.0),
    ];
    let mellow = [
        (32.0, 3.0),
        (64.0, 2.0),
        (125.0, 1.0),
        (250.0, -2.0),
        (500.0, -3.0),
        (1000.0, -4.0),
        (2000.0, -7.0),
        (4000.0, -1.0),
        (8000.0, 2.0),
        (16000.0, 2.0),
    ];
    let pro = [
        (20.0, 0.0),
        (25.0, 1.0),
        (31.5, 2.0),
        (40.0, 1.5),
        (50.0, 1.5),
        (63.0, 1.5),
        (80.0, -2.0),
        (100.0, -6.0),
        (125.0, -15.0),
        (160.0, -7.0),
        (200.0, -3.0),
        (250.0, -2.0),
        (315.0, -1.0),
        (400.0, -1.0),
        (500.0, 0.0),
        (630.0, 0.0),
        (800.0, 0.5),
        (1000.0, 0.75),
        (1250.0, 1.0),
        (1600.0, 0.75),
        (2000.0, 0.0),
        (2500.0, 0.75),
        (3150.0, 1.0),
        (4000.0, 1.0),
        (5000.0, 0.0),
        (6300.0, -1.0),
        (8000.0, 0.5),
        (10000.0, 0.5),
    ];
    for (name, points) in [("bright", &bright[..]), ("mellow", &mellow[..]), ("pro", &pro[..])] {
        let bands = &c.presets.get(name).unwrap().bands;
        assert_eq!(bands.len(), points.len());
        for (b, (freq, gain)) in bands.iter().zip(points) {
            assert_eq!(*b, band(*freq, *gain, 1.41));
        }
    }
    assert_eq!(c.presets.get("mellow").unwrap().preamp_db, single(0.0));
    assert_eq!(c.presets.get("pro").unwrap().preamp_db, single(0.0));
}

#[test]
fn load_missing_returns_default() {
    let (c, quarantine) = Config::load_from(Source::Missing).unwrap();
    assert!(c.same(&Config::default()));
    assert!(quarantine.is_none());
}

#[test]
fn load_surfaces_an_unreadable_file() {
    let e = Config::load_from(Source::Failed("permission denied".into())).unwrap_err();
    assert_eq!(text(e.message()), "permission denied");
}

#[test]
fn load_from_recovers_from_corrupt_config() {
    let (recovered, quarantine) =
        Config::load_from(Source::Malformed("expected a key".into())).unwrap();
    assert!(recovered.same(&Config::default()));
    match quarantine {
        Some(Quarantine::Unreadable(reason)) => assert_eq!(reason, "expected a key"),
        other => panic!("expected a quarantine, got {other:?}"),
    }
}

fn wide_bands(n: usize) -> Vec<Band> {
    (0..n).map(|i| band(20.0 + i as f32, 1.0, 1.0)).collect()
}

#[test]
fn load_from_recovers_from_over_cap_preset() {
    let mut c = Config::default();
    c.presets.insert("big".into(), preset(wide_bands(MAX_BANDS + 1), 0.0));
    let (recovered, quarantine) = Config::load_from(Source::Parsed(c)).unwrap();
    assert!(recovered.same(&Config::default()));
    match quarantine {
        Some(Quarantine::Unrunnable(name, e)) => {
            assert_eq!(name, "big");
            assert_eq!(e.fault, Fault::TooManyBands(65));
            assert_eq!(
                text(e.message()),
                "preset has too many bands (65); the maximum is 64"
            );
        }
        other => panic!("expected a quarantine, got {other:?}"),
    }
}

#[test]
fn load_from_accepts_preset_at_the_band_cap() {
    let mut c = Config::default();
    c.presets.insert("full".into(), preset(wide_bands(MAX_BANDS), 0.0));
    let (loaded, quarantine) = Config::load_from(Source::Parsed(c)).unwrap();
    assert_eq!(loaded.presets.get("full").unwrap().bands.len(), MAX_BANDS);
    assert!(quarantine.is_none());
}

#[test]
fn save_then_load_roundtrips() {
    let c = Config { active_preset: "flat".to_string(), ..Config::default() };
    let (back, quarantine) = Config::load_from(Source::Parsed(c.clone())).unwrap();
    assert!(c.same(&back));
    assert!(quarantine.is_none());
}

#[test]
fn load_from_quarantines_a_preset_with_out_of_range_values() {
    for bad in [
        band(1000.0, 0.0, 0.0),
        band(f32::NAN, 0.0, 1.0),
        band(1000.0, f32::INFINITY, 1.0),
    ] {
        let mut c = Config::default();
        c.presets.insert("poison".into(), preset(vec![bad], 0.0));
        let (recovered, quarantine) = Config::load_from(Source::Parsed(c)).unwrap();
        assert!(recovered.same(&Config::default()));
        match quarantine {
            Some(Quarantine::Unrunnable(name, _)) => assert_eq!(name, "poison"),
            other => panic!("expected a quarantine, got {other:?}"),
        }
    }
}

#[test]
fn first_unusable_preset_goes_by_name() {
    let mut c = Config::default();
    c.presets.insert("zz".into(), preset(vec![], 99.0));
    c.presets.insert("aa".into(), preset(vec![band(1.0, 0.0, 1.0)], 0.0));
    let (name, e) = c.first_unusable_preset().unwrap();
    assert_eq!(name, "aa");
    assert_eq!(e.fault, Fault::OutOfRange(Quantity::Frequency));
    assert!(Config::default().first_unusable_preset().is_none());
}

#[test]
fn band_validation_accepts_practical_values() {
    validate_band(single(20.0), single(-24.0), single(0.1)).unwrap();
    validate_band(single(20_000.0), single(24.0), single(10.0)).unwrap();
    validate_band(single(1000.0), single(0.0), single(1.41)).unwrap();
}

#[test]
fn band_validation_rejects_invalid_values() {
    for (freq, gain, q) in [
        (0.0, 0.0, 1.0),
        (20_001.0, 0.0, 1.0),
        (1000.0, -24.1, 1.0),
        (1000.0, 24.1, 1.0),
        (1000.0, 0.0, 0.0),
        (1000.0, 0.0, 10.1),
        (f32::NAN, 0.0, 1.0),
        (1000.0, f32::INFINITY, 1.0),
        (1000.0, 0.0, f32::NEG_INFINITY),
    ] {
        assert!(validate_band(single(freq), single(gain), single(q)).is_err());
    }
}

#[test]
fn preamp_validation_accepts_safe_range() {
    validate_preamp(single(-60.0)).unwrap();
    validate_preamp(single(0.0)).unwrap();
    validate_preamp(single(12.0)).unwrap();
}

#[test]
fn preamp_validation_rejects_invalid_values() {
    for db in [-60.1, 12.1, f32::NAN, f32::INFINITY] {
        assert!(validate_preamp(single(db)).is_err());
    }
}

#[test]
fn validation_errors_name_the_bounds() {
    let say = |q, x: f32| text(validate_range(q, single(x)).unwrap_err().message());
    assert_eq!(say(Quantity::Frequency, 0.0), "frequency must be between 20 Hz and 20000 Hz");
    assert_eq!(say(Quantity::Gain, 25.0), "gain must be between -24 dB and 24 dB");
    assert_eq!(say(Quantity::Q, 0.0), "Q must be between 0.1 and 10");
    assert_eq!(say(Quantity::Preamp, 13.0), "preamp must be between -60 dB and 12 dB");
    assert_eq!(say(Quantity::Gain, f32::NAN), "gain must be a finite number");
}

#[test]
fn validation_agrees_with_float_comparison() {
    for x in [
        -25.0f32, -24.0, -23.999, -0.0, 0.0, 1e-40, 0.0999, 0.1, 0.11, 9.99, 10.0, 10.001, 19.999,
        20.0, 24.0, 24.001, 20_000.0, 20_000.002, 1e30,
    ] {
        let ok = |q| validate_range(q, single(x)).is_ok();
        assert_eq!(ok(Quantity::Frequency), (20.0..=20_000.0).contains(&x));
        assert_eq!(ok(Quantity::Gain), (-24.0..=24.0).contains(&x));
        assert_eq!(ok(Quantity::Q), (0.1..=10.0).contains(&x));
        assert_eq!(ok(Quantity::Preamp), (-60.0..=12.0).contains(&x));
    }
}

#[test]
fn zeros_of_both_signs_are_the_same_tuning() {
    let a = preset(vec![band(1000.0, 0.0, 1.0)], 0.0);
    let b = preset(vec![band(1000.0, -0.0, 1.0)], -0.0);
    assert!(a.same(&b));
    assert!(validate_preset(&a).is_ok());
}

#[test]
fn a_missing_switch_is_on() {
    assert!(default_true());
}

#[test]
fn a_draft_restores_contents_only() {
    let saved = Config { active_preset: "mellow".into(), ..Config::default() };
    let mut draft = Config { limiter: false, enabled: true, ..Config::default() };
    draft.presets.insert("bright".into(), preset(vec![], -3.0));
    draft.presets.insert("smuggled".into(), preset(vec![], 0.0));
    draft.presets.remove("pro");

    let (session, quarantine) = Config::load_session(Source::Parsed(draft), &saved);
    let session = session.unwrap();
    assert!(quarantine.is_none());
    assert_eq!(session.active_preset, "mellow");
    assert!(session.limiter);
    assert!(!session.enabled);
    assert_eq!(session.presets.get("bright").unwrap().preamp_db, single(-3.0));
    assert!(session.presets.get("pro").unwrap().same(saved.presets.get("pro").unwrap()));
    assert!(!session.presets.contains_key("smuggled"));
    assert_eq!(session.presets.names(), ["bright", "mellow", "pro"]);
}

#[test]
fn an_unusable_draft_is_moved_aside() {
    let saved = Config::default();
    for source in [Source::Failed("io".into()), Source::Malformed("toml".into())] {
        let (session, quarantine) = Config::load_session(source, &saved);
        assert!(session.is_none());
        assert!(matches!(quarantine, Some(Quarantine::Unreadable(_))));
    }
    let mut draft = Config::default();
    draft.presets.insert("bright".into(), preset(vec![], 99.0));
    let (session, quarantine) = Config::load_session(Source::Parsed(draft), &saved);
    assert!(session.is_none());
    assert!(matches!(quarantine, Some(Quarantine::Unrunnable(name, _)) if name == "bright"));
    let (session, quarantine) = Config::load_session(Source::Missing, &saved);
    assert!(session.is_none() && quarantine.is_none());
}

#[test]
fn presets_are_kept_in_name_order() {
    let mut p = Presets::new();
    for name in ["b", "é", "a", "aa", "B", "z"] {
        p.insert(name.into(), preset(vec![], 0.0));
    }
    let mut expected = vec!["b", "é", "a", "aa", "B", "z"];
    expected.sort();
    assert_eq!(p.names(), expected);
    assert_eq!(p.len(), 6);
    assert!(p.remove("aa").is_some());
    assert!(p.remove("aa").is_none());
    p.insert("a".into(), preset(vec![], -1.0));
    assert_eq!(p.len(), 5);
    assert_eq!(p.get("a").unwrap().preamp_db, single(-1.0));
    assert_eq!(p.name_at(0), "B");
}

#[test]
fn load_from_quarantines_an_empty_library() {
    let c = Config { presets: Presets::new(), ..Config::default() };
    let (recovered, quarantine) = Config::load_from(Source::Parsed(c)).unwrap();
    assert!(recovered.same(&Config::default()));
    assert!(matches!(quarantine, Some(Quarantine::NoPresets)));
}
