use eqtune::dsp::{
    active_bands, block_is_silent, frequency_distance, Band, BandKind, EqSettings, Processor,
    Stamps, MAX_BANDS, SILENCE_SKIP_BLOCKS,
};
use eqtune::gap::gap_bits;
use eqtune::number::{Double, Single};

fn single(x: f32) -> Single {
    Single::from_bits(x.to_bits())
}

fn band(kind: BandKind, freq: f32, gain_db: f32, q: f32) -> Band {
    Band { kind, freq: single(freq), gain_db: single(gain_db), q: single(q) }
}

fn peak(freq: f32) -> Band {
    band(BandKind::Peaking, freq, 6.0, 1.0)
}

fn settings(bands: &[Band], bypassed: bool, stamps: &mut Stamps) -> EqSettings {
    EqSettings::with_bypass(bands, single(0.0), false, bypassed, 480, stamps)
}

fn block(x: f32, n: usize) -> Vec<Single> {
    vec![single(x); n]
}

#[test]
fn processor_applies_and_handles_band_count_change() {
    let mut stamps = Stamps::new();
    let mut p = Processor::new(2);
    let s2 = EqSettings::new(&[peak(500.0), peak(2_000.0)], single(3.0), true, 480, &mut stamps);
    let plan = p.run(&s2, false, 512 * 2, 2);
    assert!(plan.synced);
    assert_eq!(plan.frames, 512);
    assert_eq!(plan.active, 2);
    let s1 = EqSettings::new(
        &[band(BandKind::Peaking, 3000.0, 4.0, 2.0)],
        single(0.0),
        false,
        480,
        &mut stamps,
    );
    assert!(p.run(&s1, false, 512 * 2, 2).synced);
    assert_eq!(p.layout().len(), 1, "new snapshot must resize the cascade");
}

#[test]
fn initial_bypass_snaps_to_the_dry_path() {
    let mut stamps = Stamps::new();
    let mut p = Processor::new(2);
    let s = EqSettings::with_bypass(&[peak(1_000.0)], single(6.0), true, true, 480, &mut stamps);
    let plan = p.run(&s, false, 128 * 2, 2);
    assert!(plan.snap);
    assert_eq!(plan.ramp, 0);
    assert!(!p.wet());
}

#[test]
fn bypass_ramps_for_its_frames_and_then_rests() {
    let mut stamps = Stamps::new();
    let b = band(BandKind::Peaking, 100.0, 12.0, 5.0);
    let mut p = Processor::new(1);
    p.run(&settings(&[b], false, &mut stamps), false, 64, 1);
    let dry = settings(&[b], true, &mut stamps);
    let first = p.run(&dry, false, 1, 1);
    assert_eq!(first.ramp, 480);
    assert_eq!(p.resets(), [false], "the same band keeps its memory");
    let rest = p.run(&dry, false, 480, 1);
    assert_eq!(rest.ramp, 479);
    assert_eq!(p.run(&dry, false, 480, 1).ramp, 0);
}

#[test]
fn zero_db_bands_are_dropped_from_coeffs() {
    let mut stamps = Stamps::new();
    let bands = vec![
        band(BandKind::Peaking, 100.0, 0.0, 1.0),
        band(BandKind::Peaking, 1000.0, 4.0, 1.0),
        band(BandKind::LowShelf, 80.0, 0.0, 0.7),
    ];
    let s = EqSettings::new(&bands, single(0.0), false, 480, &mut stamps);
    assert_eq!(s.bands().len(), 1, "only the non-zero-gain band should produce a coefficient");
    assert_eq!(s.bands()[0], bands[1]);
}

#[test]
fn nearly_flat_bands_are_dropped_at_the_threshold() {
    let kept = active_bands(&[
        band(BandKind::Peaking, 100.0, 0.000_999, 1.0),
        band(BandKind::Peaking, 200.0, 0.001, 1.0),
        band(BandKind::Peaking, 300.0, -0.001, 1.0),
        band(BandKind::Peaking, 400.0, -0.0009, 1.0),
    ]);
    assert_eq!(kept.len(), 2);
    assert_eq!(kept[0].freq, single(200.0));
    assert_eq!(kept[1].freq, single(300.0));
}

#[test]
fn processor_takes_a_full_set_of_bands() {
    let mut stamps = Stamps::new();
    let mut p = Processor::new(2);
    let bands: Vec<Band> = (0..MAX_BANDS)
        .map(|i| band(BandKind::Peaking, 100.0 + i as f32 * 100.0, 3.0, 1.0))
        .collect();
    let s = EqSettings::new(&bands, single(0.0), false, 480, &mut stamps);
    assert_eq!(s.bands().len(), MAX_BANDS);
    p.run(&s, false, 128 * 2, 2);
    assert_eq!(p.layout().len(), MAX_BANDS);
}

#[test]
fn changed_or_shifted_bands_do_not_inherit_filter_memory() {
    let mut stamps = Stamps::new();
    let mut p = Processor::new(1);
    p.run(&settings(&[peak(1_000.0), peak(5_000.0)], false, &mut stamps), false, 32, 1);
    let inserted = settings(&[peak(200.0), peak(1_000.0), peak(5_000.0)], false, &mut stamps);
    p.run(&inserted, true, 32, 1);
    assert_eq!(p.resets(), [true, true, true]);
    let edited = settings(
        &[peak(200.0), band(BandKind::Peaking, 1_000.0, 7.0, 1.0), peak(5_000.0)],
        false,
        &mut stamps,
    );
    p.run(&edited, true, 32, 1);
    assert_eq!(p.resets(), [false, true, false]);
}

#[test]
fn sustained_silence_skips_then_resumes() {
    let mut stamps = Stamps::new();
    let mut p = Processor::new(2);
    let s = EqSettings::new(&[peak(1_000.0)], single(3.0), true, 480, &mut stamps);
    for i in 0..(SILENCE_SKIP_BLOCKS + 5) {
        let plan = p.run(&s, true, 256 * 2, 2);
        assert_eq!(plan.zero, i >= SILENCE_SKIP_BLOCKS);
    }
    let plan = p.run(&s, false, 256 * 2, 2);
    assert!(!plan.zero, "audio after silence must be EQ'd");
    assert_eq!(plan.frames, 256);
}

#[test]
fn entering_silence_skip_clears_filter_memory() {
    let mut stamps = Stamps::new();
    let mut p = Processor::new(1);
    let s = EqSettings::new(&[peak(20.0)], single(0.0), false, 480, &mut stamps);
    p.run(&s, false, 64, 1);
    let mut clears = 0;
    for _ in 0..=SILENCE_SKIP_BLOCKS {
        if p.run(&s, true, 64, 1).clear {
            clears += 1;
        }
    }
    assert_eq!(clears, 1, "the first skipped block must clear stale filter state");
    assert!(!p.run(&s, true, 64, 1).clear, "and only the first");
}

#[test]
fn run_reports_input_silence() {
    let mut stamps = Stamps::new();
    let mut p = Processor::new(2);
    let s = EqSettings::new(&[peak(1_000.0)], single(3.0), true, 480, &mut stamps);
    let quiet = block(0.0, 256 * 2);
    assert!(p.run(&s, block_is_silent(&quiet), quiet.len(), 2).silent);
    let loud = block(0.5, 256 * 2);
    assert!(!p.run(&s, block_is_silent(&loud), loud.len(), 2).silent);
}

#[test]
fn silence_agrees_with_the_float_threshold() {
    for x in [0.0f32, -0.0, 1e-5, 9.9e-5, 1e-4, -1e-4, 1.1e-4, -0.3, f32::NAN, f32::INFINITY] {
        assert_eq!(block_is_silent(&[single(x)]), x.abs() < 1e-4, "{x}");
    }
    assert!(block_is_silent(&[]));
}

#[test]
fn run_resyncs_cascade_only_on_new_generation() {
    let mut stamps = Stamps::new();
    let mut p = Processor::new(1);
    let three = settings(&[peak(200.0), peak(1000.0), peak(5000.0)], false, &mut stamps);
    p.run(&three, false, 128, 1);
    assert_eq!(p.layout().len(), 3, "first snapshot syncs three sections");
    let one_stale = settings(&[peak(1000.0)], false, &mut Stamps::new());
    assert!(!p.run(&one_stale, false, 128, 1).synced);
    assert_eq!(p.layout().len(), 3, "a snapshot with the same generation must be skipped");
    let one_fresh = settings(&[peak(1000.0)], false, &mut stamps);
    assert!(p.run(&one_fresh, false, 128, 1).synced);
    assert_eq!(p.layout().len(), 1, "a distinct generation must resync to one section");
}

#[test]
fn a_block_without_channels_changes_nothing() {
    let mut stamps = Stamps::new();
    let mut p = Processor::new(2);
    let plan = p.run(&settings(&[peak(1000.0)], true, &mut stamps), true, 10, 0);
    assert!(plan.silent && !plan.synced && !plan.zero);
    assert_eq!(p.layout().len(), 0);
    assert!(p.wet());
}

#[test]
fn settings_hold_what_they_were_given() {
    let mut stamps = Stamps::new();
    let s = EqSettings::with_bypass(&[peak(1000.0)], single(-8.0), true, true, 480, &mut stamps);
    assert_eq!(s.preamp_db(), single(-8.0));
    assert!(s.limiter());
    assert!(s.bypassed());
    assert!(!EqSettings::new(&[], single(0.0), false, 480, &mut stamps).bypassed());
}

#[test]
fn distances_agree_with_float_subtraction() {
    let values = [
        20.0f32, 20.5, 31.5, 63.7, 125.0, 999.9, 1000.25, 1999.75, 2000.0, 2000.49, 2000.5,
        12_345.678, 19_999.998, 20_000.0,
    ];
    for a in values {
        for b in values {
            let exact = frequency_distance(single(a), single(b));
            let float = (a - b).abs();
            assert_eq!(exact as f64 / 524_288.0, float as f64, "{a} and {b}");
        }
    }
}

#[test]
fn doubles_round_like_floats() {
    for x in [
        0.0f64, -1.0, 0.4, 0.5, 0.6, 1.5, 2.5, 44_100.0, 48_000.0, 47_999.5, 47_999.499, 96_000.25,
        4_294_967_295.0, 1e12, f64::INFINITY, f64::NAN, f64::NEG_INFINITY,
    ] {
        assert_eq!(Double::from_bits(x.to_bits()).round(), x.round() as u32, "{x}");
    }
}

#[test]
fn no_two_snapshots_have_the_same_stamp() {
    let mut stamps = Stamps::new();
    let mut p = Processor::new(1);
    for _ in 0..5 {
        let s = settings(&[peak(1000.0)], false, &mut stamps);
        assert!(p.run(&s, false, 8, 1).synced, "an equal snapshot is another one");
        assert!(!p.run(&s, false, 8, 1).synced);
    }
    assert_eq!(stamps.take(), 5);
    assert_eq!(stamps.take(), 6);
    assert!(!stamps.are_spent());
}

#[test]
fn the_gap_is_that_of_single_precision_subtraction() {
    assert_eq!(gap_bits(single(1000.0), single(10.0)), 990.0_f32.to_bits());
    assert_eq!(gap_bits(single(f32::MAX), single(f32::MIN)), f32::INFINITY.to_bits());
    assert_eq!(gap_bits(single(1.0), single(f32::INFINITY)), f32::INFINITY.to_bits());
    assert!(f32::from_bits(gap_bits(single(f32::INFINITY), single(f32::INFINITY))).is_nan());
    assert!(f32::from_bits(gap_bits(single(f32::NAN), single(1.0))).is_nan());
    // A fixed walk over bit patterns of every sign and exponent.
    let mut bits: u32 = 0x1234_5678;
    let mut last: u32 = 0;
    for _ in 0..200_000 {
        bits = bits.wrapping_mul(1_664_525).wrapping_add(1_013_904_223);
        // Near numbers cancel; far ones absorb each other.
        let near = bits ^ (last & 0x83ff_ffff);
        for (x, y) in [(bits, last), (bits, near)] {
            let (a, b) = (f32::from_bits(x), f32::from_bits(y));
            if a.is_finite() && b.is_finite() {
                let gap = gap_bits(Single::from_bits(x), Single::from_bits(y));
                assert_eq!(gap, (a - b).abs().to_bits(), "{a:e} {b:e}");
            }
        }
        last = bits;
    }
}
