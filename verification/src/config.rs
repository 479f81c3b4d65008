//! Persistent configuration: named presets (each an ordered set of EQ bands plus a preamp)
//! and global audio toggles.
//!
//! Ships a working default, so a first run needs no config file.

use vstd::prelude::*;
use vstd::string::*;
use vstd::arithmetic::power2::*;
use crate::dsp::{valid_frequency, Band, BandKind, MAX_BANDS, MAX_BAND_FREQ_BITS, MIN_BAND_FREQ_BITS};
use crate::error::{about, plain, EqError, ErrorView, Fault, Quantity};
use crate::number::{equality_is_numeric, rank_orders_values, Single};
use crate::preset::{
    is_listing, listing, listing_exists, same_contents, Contents, Preset, PresetView, Presets,
};
use crate::text::{name_before, same_text};

verus! {

/// Top-level config: the active preset name, global audio toggles, and all presets.
#[derive(Debug)]
pub struct Config {
    pub active_preset: String,
    pub limiter: bool,
    pub auto_follow_new_devices: bool,
    /// Turn the engine off while the machine saves power (an explicit `on` overrides it).
    pub auto_off_low_power: bool,
    /// Turn the engine off after sustained silence and on again with new activity.
    pub auto_off_idle: bool,
    /// The user's last explicit on or off, restored when the daemon starts.
    pub enabled: bool,
    pub presets: Presets,
}

/// What a [`Config`] holds.
#[verifier::ext_equal]
pub ghost struct ConfigView {
    pub active_preset: Seq<char>,
    pub limiter: bool,
    pub auto_follow_new_devices: bool,
    pub auto_off_low_power: bool,
    pub auto_off_idle: bool,
    pub enabled: bool,
    pub presets: Contents,
}

impl View for Config {
    type V = ConfigView;

    open spec fn view(&self) -> ConfigView {
        ConfigView {
            active_preset: self.active_preset@,
            limiter: self.limiter,
            auto_follow_new_devices: self.auto_follow_new_devices,
            auto_off_low_power: self.auto_off_low_power,
            auto_off_idle: self.auto_off_idle,
            enabled: self.enabled,
            presets: self.presets@,
        }
    }
}

impl Clone for Config {
    fn clone(&self) -> (c: Config)
        ensures
            c@ == self@,
    {
        Config {
            active_preset: self.active_preset.clone(),
            limiter: self.limiter,
            auto_follow_new_devices: self.auto_follow_new_devices,
            auto_off_low_power: self.auto_off_low_power,
            auto_off_idle: self.auto_off_idle,
            enabled: self.enabled,
            presets: self.presets.clone(),
        }
    }
}

impl ConfigView {
    /// Numeric equality of two configs.
    pub open spec fn equals(self, other: ConfigView) -> bool {
        &&& self.active_preset == other.active_preset
        &&& self.limiter == other.limiter
        &&& self.auto_follow_new_devices == other.auto_follow_new_devices
        &&& self.auto_off_low_power == other.auto_off_low_power
        &&& self.auto_off_idle == other.auto_off_idle
        &&& self.enabled == other.enabled
        &&& same_contents(self.presets, other.presets)
    }

    /// The currently selected preset, or the first by name if the active name does not
    /// resolve; none where there are no presets.
    pub open spec fn active(self) -> Option<PresetView> {
        if self.presets.contains_key(self.active_preset) {
            Some(self.presets[self.active_preset])
        } else if listing(self.presets).len() > 0 {
            Some(self.presets[listing(self.presets)[0]])
        } else {
            None
        }
    }

    /// Every preset can be run.
    pub open spec fn runnable(self) -> bool {
        forall|n: Seq<char>| #[trigger]
            self.presets.contains_key(n) ==> preset_fault(self.presets[n]) is None
    }

    /// The daemon can work with the config: there are presets, and every one can be run.
    pub open spec fn usable(self) -> bool {
        self.runnable() && self.presets.dom().len() > 0
    }
}

// --- preset validation -------------------------------------------------------
// The single definition of what makes a preset runnable by the real-time engine.

/// -24 dB.
pub const MIN_BAND_GAIN_BITS: u32 = 0xc1c0_0000;

/// 24 dB.
pub const MAX_BAND_GAIN_BITS: u32 = 0x41c0_0000;

/// 0.1.
pub const MIN_Q_BITS: u32 = 0x3dcc_cccd;

/// 10.
pub const MAX_Q_BITS: u32 = 0x4120_0000;

/// -60 dB.
pub const MIN_PREAMP_BITS: u32 = 0xc270_0000;

/// 12 dB.
pub const MAX_PREAMP_BITS: u32 = 0x4140_0000;

/// The smallest permitted figure.
pub open spec fn lowest(q: Quantity) -> Single {
    match q {
        Quantity::Frequency => Single { bits: MIN_BAND_FREQ_BITS },
        Quantity::Gain => Single { bits: MIN_BAND_GAIN_BITS },
        Quantity::Q => Single { bits: MIN_Q_BITS },
        Quantity::Preamp => Single { bits: MIN_PREAMP_BITS },
    }
}

/// The largest permitted figure.
pub open spec fn highest(q: Quantity) -> Single {
    match q {
        Quantity::Frequency => Single { bits: MAX_BAND_FREQ_BITS },
        Quantity::Gain => Single { bits: MAX_BAND_GAIN_BITS },
        Quantity::Q => Single { bits: MAX_Q_BITS },
        Quantity::Preamp => Single { bits: MAX_PREAMP_BITS },
    }
}

/// What is wrong with a figure.
pub open spec fn figure_fault(q: Quantity, x: Single) -> Option<Fault> {
    if !x.finite() {
        Some(Fault::NotFinite(q))
    } else if lowest(q).value() <= x.value() <= highest(q).value() {
        None
    } else {
        Some(Fault::OutOfRange(q))
    }
}

/// What is wrong with a band.
pub open spec fn band_fault(freq: Single, gain_db: Single, q: Single) -> Option<Fault> {
    if figure_fault(Quantity::Frequency, freq) is Some {
        figure_fault(Quantity::Frequency, freq)
    } else if figure_fault(Quantity::Gain, gain_db) is Some {
        figure_fault(Quantity::Gain, gain_db)
    } else {
        figure_fault(Quantity::Q, q)
    }
}

/// What is wrong with the first of the bands that cannot be run.
pub open spec fn bands_fault(bands: Seq<Band>) -> Option<Fault>
    decreases bands.len(),
{
    if bands.len() == 0 {
        None
    } else {
        let fault = bands_fault(bands.drop_last());
        if fault is Some {
            fault
        } else {
            band_fault(bands.last().freq, bands.last().gain_db, bands.last().q)
        }
    }
}

/// What is wrong with a preset.
pub open spec fn preset_fault(p: PresetView) -> Option<Fault> {
    if p.bands.len() > MAX_BANDS {
        Some(Fault::TooManyBands(p.bands.len() as usize))
    } else if figure_fault(Quantity::Preamp, p.preamp_db) is Some {
        figure_fault(Quantity::Preamp, p.preamp_db)
    } else {
        bands_fault(p.bands)
    }
}

/// The bands of a runnable preset are valid one by one.
pub proof fn runnable_bands(bands: Seq<Band>)
    ensures
        bands_fault(bands) is None <==> forall|i: int|
            0 <= i < bands.len() ==> band_fault(
                (#[trigger] bands[i]).freq,
                bands[i].gain_db,
                bands[i].q,
            ) is None,
    decreases bands.len(),
{
    if bands.len() > 0 {
        let d = bands.drop_last();
        runnable_bands(d);
        assert forall|i: int| 0 <= i < d.len() implies #[trigger] d[i] == bands[i] by {}
        if bands_fault(bands) is None {
            assert forall|i: int| 0 <= i < bands.len() implies band_fault(
                (#[trigger] bands[i]).freq,
                bands[i].gain_db,
                bands[i].q,
            ) is None by {
                if i < d.len() {
                    assert(d[i] == bands[i]);
                }
            }
        } else if forall|i: int|
            0 <= i < bands.len() ==> band_fault(
                (#[trigger] bands[i]).freq,
                bands[i].gain_db,
                bands[i].q,
            ) is None {
            assert forall|i: int| 0 <= i < d.len() implies band_fault(
                (#[trigger] d[i]).freq,
                d[i].gain_db,
                d[i].q,
            ) is None by {
                assert(d[i] == bands[i]);
            }
            assert(bands.last() == bands[bands.len() - 1]);
        }
    }
}

fn lowest_of(q: Quantity) -> (s: Single)
    ensures
        s == lowest(q),
{
    match q {
        Quantity::Frequency => Single::from_bits(MIN_BAND_FREQ_BITS),
        Quantity::Gain => Single::from_bits(MIN_BAND_GAIN_BITS),
        Quantity::Q => Single::from_bits(MIN_Q_BITS),
        Quantity::Preamp => Single::from_bits(MIN_PREAMP_BITS),
    }
}

fn highest_of(q: Quantity) -> (s: Single)
    ensures
        s == highest(q),
{
    match q {
        Quantity::Frequency => Single::from_bits(MAX_BAND_FREQ_BITS),
        Quantity::Gain => Single::from_bits(MAX_BAND_GAIN_BITS),
        Quantity::Q => Single::from_bits(MAX_Q_BITS),
        Quantity::Preamp => Single::from_bits(MAX_PREAMP_BITS),
    }
}

/// A validation's outcome: what was found wrong, said without a subject.
pub open spec fn verdict(fault: Option<Fault>) -> Result<(), ErrorView> {
    match fault {
        Some(f) => Err(plain(f)),
        None => Ok(()),
    }
}

/// What a result of this library holds.
pub open spec fn outcome<T>(r: Result<T, EqError>) -> Result<T, ErrorView> {
    match r {
        Ok(t) => Ok(t),
        Err(e) => Err(e@),
    }
}

/// Check that a figure is finite and in its range.
pub fn validate_range(q: Quantity, x: Single) -> (r: Result<(), EqError>)
    ensures
        outcome(r) == verdict(figure_fault(q, x)),
{
    if !x.is_finite() {
        return Err(EqError::plain(Fault::NotFinite(q)));
    }
    let low = lowest_of(q);
    let high = highest_of(q);
    if low.at_most(x) && x.at_most(high) {
        Ok(())
    } else {
        Err(EqError::plain(Fault::OutOfRange(q)))
    }
}

/// Check a frequency.
pub fn validate_freq(freq: Single) -> (r: Result<(), EqError>)
    ensures
        outcome(r) == verdict(figure_fault(Quantity::Frequency, freq)),
        r is Ok <==> valid_frequency(freq),
{
    validate_range(Quantity::Frequency, freq)
}

/// Check a preamp gain.
pub fn validate_preamp(db: Single) -> (r: Result<(), EqError>)
    ensures
        outcome(r) == verdict(figure_fault(Quantity::Preamp, db)),
{
    validate_range(Quantity::Preamp, db)
}

/// Check a band's frequency, gain, and Q, in this order.
pub fn validate_band(freq: Single, gain_db: Single, q: Single) -> (r: Result<(), EqError>)
    ensures
        outcome(r) == verdict(band_fault(freq, gain_db, q)),
{
    match validate_freq(freq) {
        Err(e) => return Err(e),
        Ok(()) => {},
    }
    match validate_range(Quantity::Gain, gain_db) {
        Err(e) => return Err(e),
        Ok(()) => {},
    }
    validate_range(Quantity::Q, q)
}

/// Check that the real-time engine can run a preset: at most [`MAX_BANDS`] bands, and every
/// figure finite and in its range.
pub fn validate_preset(preset: &Preset) -> (r: Result<(), EqError>)
    ensures
        outcome(r) == verdict(preset_fault(preset@)),
{
    if preset.bands.len() > MAX_BANDS {
        return Err(EqError::plain(Fault::TooManyBands(preset.bands.len())));
    }
    match validate_preamp(preset.preamp_db) {
        Err(e) => return Err(e),
        Ok(()) => {},
    }
    let mut i: usize = 0;
    while i < preset.bands.len()
        invariant
            i <= preset.bands.len() <= MAX_BANDS,
            figure_fault(Quantity::Preamp, preset.preamp_db) is None,
            bands_fault(preset.bands@.take(i as int)) is None,
        decreases preset.bands.len() - i,
    {
        let band = preset.bands[i];
        let r = validate_band(band.freq, band.gain_db, band.q);
        proof {
            assert(preset.bands@.take(i + 1).drop_last() =~= preset.bands@.take(i as int));
        }
        match r {
            Err(e) => {
                proof {
                    fault_stays(preset.bands@, i + 1);
                }
                return Err(e);
            },
            Ok(()) => {},
        }
        i += 1;
    }
    assert(preset.bands@.take(preset.bands.len() as int) =~= preset.bands@);
    Ok(())
}

proof fn fault_stays(bands: Seq<Band>, n: int)
    requires
        0 <= n <= bands.len(),
        bands_fault(bands.take(n)) is Some,
    ensures
        bands_fault(bands) == bands_fault(bands.take(n)),
    decreases bands.len() - n,
{
    if n < bands.len() {
        assert(bands.take(n + 1).drop_last() =~= bands.take(n));
        fault_stays(bands, n + 1);
    } else {
        assert(bands.take(n) =~= bands);
    }
}

// --- shipped presets -----------------------------------------------------------

/// 1.41: about one octave.
pub const GRAPHIC_Q_BITS: u32 = 0x3fb4_7ae1;

/// -8 dB.
pub const BRIGHT_PREAMP_BITS: u32 = 0xc100_0000;

/// A graphic-EQ-style curve: peaking filters at about one octave through the given points,
/// each the bits of a frequency (Hz) and a gain (dB).
pub open spec fn graphic(points: Seq<(u32, u32)>) -> Seq<Band> {
    Seq::new(
        points.len(),
        |i: int|
            Band {
                kind: BandKind::Peaking,
                freq: Single { bits: points[i].0 },
                gain_db: Single { bits: points[i].1 },
                q: Single { bits: GRAPHIC_Q_BITS },
            },
    )
}

fn peak(freq: u32, gain_db: u32) -> (b: Band)
    ensures
        b == (Band {
            kind: BandKind::Peaking,
            freq: Single { bits: freq },
            gain_db: Single { bits: gain_db },
            q: Single { bits: GRAPHIC_Q_BITS },
        }),
{
    Band {
        kind: BandKind::Peaking,
        freq: Single::from_bits(freq),
        gain_db: Single::from_bits(gain_db),
        q: Single::from_bits(GRAPHIC_Q_BITS),
    }
}

/// The points of the `bright` curve.
pub open spec fn bright_points() -> Seq<(u32, u32)> {
    seq![
        (0x4200_0000u32, 0x40f0_0000u32),  // 32 Hz, 7.5 dB
        (0x4280_0000u32, 0x4110_0000u32),  // 64 Hz, 9 dB
        (0x42fa_0000u32, 0x4130_0000u32),  // 125 Hz, 11 dB
        (0x437a_0000u32, 0x40f0_0000u32),  // 250 Hz, 7.5 dB
        (0x43fa_0000u32, 0x4080_0000u32),  // 500 Hz, 4 dB
        (0x447a_0000u32, 0x4090_0000u32),  // 1000 Hz, 4.5 dB
        (0x44fa_0000u32, 0x40f0_0000u32),  // 2000 Hz, 7.5 dB
        (0x457a_0000u32, 0x40f0_0000u32),  // 4000 Hz, 7.5 dB
        (0x45fa_0000u32, 0x4118_0000u32),  // 8000 Hz, 9.5 dB
        (0x467a_0000u32, 0x40e0_0000u32),  // 16000 Hz, 7 dB
    ]
}

/// The points of the `mellow` curve.
pub open spec fn mellow_points() -> Seq<(u32, u32)> {
    seq![
        (0x4200_0000u32, 0x4040_0000u32),  // 32 Hz, 3 dB
        (0x4280_0000u32, 0x4000_0000u32),  // 64 Hz, 2 dB
        (0x42fa_0000u32, 0x3f80_0000u32),  // 125 Hz, 1 dB
        (0x437a_0000u32, 0xc000_0000u32),  // 250 Hz, -2 dB
        (0x43fa_0000u32, 0xc040_0000u32),  // 500 Hz, -3 dB
        (0x447a_0000u32, 0xc080_0000u32),  // 1000 Hz, -4 dB
        (0x44fa_0000u32, 0xc0e0_0000u32),  // 2000 Hz, -7 dB
        (0x457a_0000u32, 0xbf80_0000u32),  // 4000 Hz, -1 dB
        (0x45fa_0000u32, 0x4000_0000u32),  // 8000 Hz, 2 dB
        (0x467a_0000u32, 0x4000_0000u32),  // 16000 Hz, 2 dB
    ]
}

/// The points of the `pro` curve: sub-bass lift and a deep notch at 125 Hz.
pub open spec fn pro_points() -> Seq<(u32, u32)> {
    seq![
        (0x41a0_0000u32, 0x0000_0000u32),  // 20 Hz, 0 dB
        (0x41c8_0000u32, 0x3f80_0000u32),  // 25 Hz, 1 dB
        (0x41fc_0000u32, 0x4000_0000u32),  // 31.5 Hz, 2 dB
        (0x4220_0000u32, 0x3fc0_0000u32),  // 40 Hz, 1.5 dB
        (0x4248_0000u32, 0x3fc0_0000u32),  // 50 Hz, 1.5 dB
        (0x427c_0000u32, 0x3fc0_0000u32),  // 63 Hz, 1.5 dB
        (0x42a0_0000u32, 0xc000_0000u32),  // 80 Hz, -2 dB
        (0x42c8_0000u32, 0xc0c0_0000u32),  // 100 Hz, -6 dB
        (0x42fa_0000u32, 0xc170_0000u32),  // 125 Hz, -15 dB
        (0x4320_0000u32, 0xc0e0_0000u32),  // 160 Hz, -7 dB
        (0x4348_0000u32, 0xc040_0000u32),  // 200 Hz, -3 dB
        (0x437a_0000u32, 0xc000_0000u32),  // 250 Hz, -2 dB
        (0x439d_8000u32, 0xbf80_0000u32),  // 315 Hz, -1 dB
        (0x43c8_0000u32, 0xbf80_0000u32),  // 400 Hz, -1 dB
        (0x43fa_0000u32, 0x0000_0000u32),  // 500 Hz, 0 dB
        (0x441d_8000u32, 0x0000_0000u32),  // 630 Hz, 0 dB
        (0x4448_0000u32, 0x3f00_0000u32),  // 800 Hz, 0.5 dB
        (0x447a_0000u32, 0x3f40_0000u32),  // 1000 Hz, 0.75 dB
        (0x449c_4000u32, 0x3f80_0000u32),  // 1250 Hz, 1 dB
        (0x44c8_0000u32, 0x3f40_0000u32),  // 1600 Hz, 0.75 dB
        (0x44fa_0000u32, 0x0000_0000u32),  // 2000 Hz, 0 dB
        (0x451c_4000u32, 0x3f40_0000u32),  // 2500 Hz, 0.75 dB
        (0x4544_e000u32, 0x3f80_0000u32),  // 3150 Hz, 1 dB
        (0x457a_0000u32, 0x3f80_0000u32),  // 4000 Hz, 1 dB
        (0x459c_4000u32, 0x0000_0000u32),  // 5000 Hz, 0 dB
        (0x45c4_e000u32, 0xbf80_0000u32),  // 6300 Hz, -1 dB
        (0x45fa_0000u32, 0x3f00_0000u32),  // 8000 Hz, 0.5 dB
        (0x461c_4000u32, 0x3f00_0000u32),  // 10000 Hz, 0.5 dB
    ]
}

fn bright_bands() -> (v: Vec<Band>)
    ensures
        v@ == graphic(bright_points()),
{
    let mut v: Vec<Band> = Vec::new();
    v.push(peak(0x4200_0000, 0x40f0_0000));
    v.push(peak(0x4280_0000, 0x4110_0000));
    v.push(peak(0x42fa_0000, 0x4130_0000));
    v.push(peak(0x437a_0000, 0x40f0_0000));
    v.push(peak(0x43fa_0000, 0x4080_0000));
    v.push(peak(0x447a_0000, 0x4090_0000));
    v.push(peak(0x44fa_0000, 0x40f0_0000));
    v.push(peak(0x457a_0000, 0x40f0_0000));
    v.push(peak(0x45fa_0000, 0x4118_0000));
    v.push(peak(0x467a_0000, 0x40e0_0000));
    assert(v@ =~= graphic(bright_points()));
    v
}

fn mellow_bands() -> (v: Vec<Band>)
    ensures
        v@ == graphic(mellow_points()),
{
    let mut v: Vec<Band> = Vec::new();
    v.push(peak(0x4200_0000, 0x4040_0000));
    v.push(peak(0x4280_0000, 0x4000_0000));
    v.push(peak(0x42fa_0000, 0x3f80_0000));
    v.push(peak(0x437a_0000, 0xc000_0000));
    v.push(peak(0x43fa_0000, 0xc040_0000));
    v.push(peak(0x447a_0000, 0xc080_0000));
    v.push(peak(0x44fa_0000, 0xc0e0_0000));
    v.push(peak(0x457a_0000, 0xbf80_0000));
    v.push(peak(0x45fa_0000, 0x4000_0000));
    v.push(peak(0x467a_0000, 0x4000_0000));
    assert(v@ =~= graphic(mellow_points()));
    v
}

fn pro_bands() -> (v: Vec<Band>)
    ensures
        v@ == graphic(pro_points()),
{
    let mut v: Vec<Band> = Vec::new();
    v.push(peak(0x41a0_0000, 0x0000_0000));
    v.push(peak(0x41c8_0000, 0x3f80_0000));
    v.push(peak(0x41fc_0000, 0x4000_0000));
    v.push(peak(0x4220_0000, 0x3fc0_0000));
    v.push(peak(0x4248_0000, 0x3fc0_0000));
    v.push(peak(0x427c_0000, 0x3fc0_0000));
    v.push(peak(0x42a0_0000, 0xc000_0000));
    v.push(peak(0x42c8_0000, 0xc0c0_0000));
    v.push(peak(0x42fa_0000, 0xc170_0000));
    v.push(peak(0x4320_0000, 0xc0e0_0000));
    v.push(peak(0x4348_0000, 0xc040_0000));
    v.push(peak(0x437a_0000, 0xc000_0000));
    v.push(peak(0x439d_8000, 0xbf80_0000));
    v.push(peak(0x43c8_0000, 0xbf80_0000));
    v.push(peak(0x43fa_0000, 0x0000_0000));
    v.push(peak(0x441d_8000, 0x0000_0000));
    v.push(peak(0x4448_0000, 0x3f00_0000));
    v.push(peak(0x447a_0000, 0x3f40_0000));
    v.push(peak(0x449c_4000, 0x3f80_0000));
    v.push(peak(0x44c8_0000, 0x3f40_0000));
    v.push(peak(0x44fa_0000, 0x0000_0000));
    v.push(peak(0x451c_4000, 0x3f40_0000));
    v.push(peak(0x4544_e000, 0x3f80_0000));
    v.push(peak(0x457a_0000, 0x3f80_0000));
    v.push(peak(0x459c_4000, 0x0000_0000));
    v.push(peak(0x45c4_e000, 0xbf80_0000));
    v.push(peak(0x45fa_0000, 0x3f00_0000));
    v.push(peak(0x461c_4000, 0x3f00_0000));
    assert(v@ =~= graphic(pro_points()));
    v
}


/// The shipped presets.
pub open spec fn shipped() -> Contents {
    Contents::empty().insert(
        "bright"@,
        PresetView {
            bands: graphic(bright_points()),
            preamp_db: Single { bits: BRIGHT_PREAMP_BITS },
        },
    ).insert(
        "mellow"@,
        PresetView { bands: graphic(mellow_points()), preamp_db: Single { bits: 0 } },
    ).insert(
        "pro"@,
        PresetView { bands: graphic(pro_points()), preamp_db: Single { bits: 0 } },
    )
}

/// The config of a first run.
pub open spec fn default_config() -> ConfigView {
    ConfigView {
        active_preset: "bright"@,
        limiter: true,
        auto_follow_new_devices: true,
        auto_off_low_power: true,
        auto_off_idle: true,
        enabled: false,
        presets: shipped(),
    }
}

/// A figure is permitted exactly when its rank lies between those of the bounds.
pub proof fn permitted_by_rank(q: Quantity, x: Single)
    ensures
        figure_fault(q, x) is None <==> x.finite() && lowest(q).rank() <= x.rank()
            <= highest(q).rank(),
{
    if x.finite() {
        rank_orders_values(lowest(q), x);
        rank_orders_values(x, lowest(q));
        rank_orders_values(x, highest(q));
        rank_orders_values(highest(q), x);
    }
}

/// A point that a curve of a runnable preset may have.
spec fn playable(point: (u32, u32)) -> bool {
    &&& MIN_BAND_FREQ_BITS <= point.0 <= MAX_BAND_FREQ_BITS
    &&& point.1 <= MAX_BAND_GAIN_BITS || 0x8000_0000 <= point.1 <= MIN_BAND_GAIN_BITS
}

proof fn playable_curve(points: Seq<(u32, u32)>)
    requires
        forall|i: int| 0 <= i < points.len() ==> playable(#[trigger] points[i]),
    ensures
        bands_fault(graphic(points)) is None,
{
    let bands = graphic(points);
    assert forall|i: int| 0 <= i < bands.len() implies band_fault(
        (#[trigger] bands[i]).freq,
        bands[i].gain_db,
        bands[i].q,
    ) is None by {
        assert(playable(points[i]));
        permitted_by_rank(Quantity::Frequency, bands[i].freq);
        permitted_by_rank(Quantity::Gain, bands[i].gain_db);
        permitted_by_rank(Quantity::Q, bands[i].q);
    }
    runnable_bands(bands);
}

/// The engine can run every shipped preset.
pub proof fn shipped_presets_run()
    ensures
        default_config().runnable(),
{
    playable_curve(bright_points());
    playable_curve(mellow_points());
    playable_curve(pro_points());
    permitted_by_rank(Quantity::Preamp, Single { bits: BRIGHT_PREAMP_BITS });
    permitted_by_rank(Quantity::Preamp, Single { bits: 0 });
}

/// The default config can be loaded again once it is saved.
pub proof fn the_default_is_usable()
    ensures
        default_config().usable(),
        default_config().presets.dom().finite(),
{
    shipped_presets_run();
    let d = default_config().presets.dom();
    assert(d.finite());
    assert(d.contains("bright"@));
    if d.len() == 0 {
        d.lemma_len0_is_empty();
    }
}

/// A runnable preset equals itself: it holds no figure that is not a number.
pub proof fn runnable_equals_itself(p: PresetView)
    requires
        preset_fault(p) is None,
    ensures
        p.equals(p),
{
    runnable_bands(p.bands);
}

/// A runnable config equals itself.
pub proof fn config_equals_itself(c: ConfigView)
    requires
        c.runnable(),
    ensures
        c.equals(c),
{
    assert forall|n: Seq<char>| #[trigger] c.presets.contains_key(n) implies c.presets[n].equals(
        c.presets[n],
    ) by {
        runnable_equals_itself(c.presets[n]);
    }
}

/// What a switch is set to where an older config file does not say: on.
pub fn default_true() -> (b: bool)
    ensures
        b,
{
    true
}

/// The shipped presets.
pub fn shipped_presets() -> (p: Presets)
    ensures
        p@ == shipped(),
{
    let mut p = Presets::new();
    p.insert(
        "bright".to_owned(),
        Preset { bands: bright_bands(), preamp_db: Single::from_bits(BRIGHT_PREAMP_BITS) },
    );
    p.insert(
        "mellow".to_owned(),
        Preset { bands: mellow_bands(), preamp_db: Single::from_bits(0) },
    );
    p.insert("pro".to_owned(), Preset { bands: pro_bands(), preamp_db: Single::from_bits(0) });
    p
}

impl Default for Config {
    fn default() -> (c: Config)
        ensures
            c@ == default_config(),
    {
        Config {
            active_preset: "bright".to_owned(),
            limiter: true,
            auto_follow_new_devices: true,
            auto_off_low_power: true,
            auto_off_idle: true,
            enabled: false,
            presets: shipped_presets(),
        }
    }
}

impl Config {
    /// Whether two configs are numerically equal.
    pub fn same(&self, other: &Config) -> (r: bool)
        ensures
            r == self@.equals(other@),
    {
        same_text(&self.active_preset, &other.active_preset) && self.limiter == other.limiter
            && self.auto_follow_new_devices == other.auto_follow_new_devices
            && self.auto_off_low_power == other.auto_off_low_power && self.auto_off_idle
            == other.auto_off_idle && self.enabled == other.enabled && self.presets.same(
            &other.presets,
        )
    }

    /// The currently selected preset, or any remaining preset if the active name no longer
    /// resolves (e.g. right after the active preset was deleted).
    pub fn active(&self) -> (r: Option<&Preset>)
        ensures
            match r {
                Some(p) => self@.active() == Some(p@),
                None => self@.active() is None,
            },
    {
        match self.presets.get(&self.active_preset) {
            Some(p) => Some(p),
            None => {
                if self.presets.len() > 0 {
                    Some(self.presets.preset_at(0))
                } else {
                    None
                }
            },
        }
    }
}

// --- loading ---------------------------------------------------------------------

/// The place of the first preset in the listing that cannot be run.
pub open spec fn first_unusable(m: Contents, i: int) -> bool {
    &&& 0 <= i < listing(m).len()
    &&& preset_fault(m[listing(m)[i]]) is Some
    &&& forall|j: int| 0 <= j < i ==> preset_fault(m[#[trigger] listing(m)[j]]) is None
}

impl Config {
    /// The name and validation error of the first preset, in name order, that the real-time
    /// engine could not run, or `None` if every preset is usable.
    pub fn first_unusable_preset(&self) -> (r: Option<(&str, EqError)>)
        ensures
            match r {
                Some((name, e)) => exists|i: int| #[trigger]
                    first_unusable(self@.presets, i) && name@ == listing(self@.presets)[i]
                        && e@ == plain(preset_fault(self@.presets[name@])->0),
                None => self@.runnable(),
            },
            r is None <==> self@.runnable(),
            r is Some ==> self@.presets.dom().len() > 0,
    {
        let n = self.presets.len();
        let ghost m = self.presets@;
        let mut i: usize = 0;
        while i < n
            invariant
                i <= n,
                m == self.presets@,
                n == listing(m).len(),
                n == m.dom().len(),
                is_listing(listing(m), m),
                forall|j: int| 0 <= j < i ==> preset_fault(m[#[trigger] listing(m)[j]]) is None,
            decreases n - i,
        {
            match validate_preset(self.presets.preset_at(i)) {
                Err(e) => {
                    let name = self.presets.name_at(i);
                    assert(first_unusable(self@.presets, i as int));
                    return Some((name, e));
                },
                Ok(()) => {},
            }
            i += 1;
        }
        proof {
            assert forall|k: Seq<char>| #[trigger] m.contains_key(k) implies preset_fault(
                m[k],
            ) is None by {
                assert(listing(m).contains(k));
                let j = choose|j: int| 0 <= j < listing(m).len() && listing(m)[j] == k;
                assert(preset_fault(m[listing(m)[j]]) is None);
            }
        }
        None
    }
}

/// What reading a config file gave.
#[derive(Debug)]
pub enum Source {
    /// There is no such file.
    Missing,
    /// The file cannot be read, for this reason.
    Failed(String),
    /// The file does not hold a config, for this reason.
    Malformed(String),
    /// The file holds this config.
    Parsed(Config),
}

/// Why a config file is moved out of the way.
#[derive(Debug)]
pub enum Quarantine {
    /// The file cannot be read or does not hold a config.
    Unreadable(String),
    /// The preset with this name cannot be run.
    Unrunnable(String, EqError),
    /// There are no presets, and nothing could be tuned.
    NoPresets,
}

/// `q` says why `source` is unusable.
pub open spec fn explains(q: Quarantine, source: Source) -> bool {
    match source {
        Source::Failed(reason) => q matches Quarantine::Unreadable(r) && r@ == reason@,
        Source::Malformed(reason) => q matches Quarantine::Unreadable(r) && r@ == reason@,
        Source::Parsed(c) => if c@.presets.dom().len() == 0 {
            q is NoPresets
        } else {
            q matches Quarantine::Unrunnable(name, e) && exists|i: int| #[trigger]
                first_unusable(c@.presets, i) && name@ == listing(c@.presets)[i] && e@ == plain(
                    preset_fault(c@.presets[name@])->0,
                )
        },
        Source::Missing => false,
    }
}

/// `r` is what a config file comes to.
pub open spec fn loaded(source: Source, r: Result<(Config, Option<Quarantine>), EqError>) -> bool {
    match source {
        Source::Missing => r matches Ok((c, q)) && c@ == default_config() && q is None,
        Source::Failed(reason) => r matches Err(e) && e@ == about(Fault::Outside, reason@),
        Source::Malformed(_) => falls_back(r, source),
        Source::Parsed(d) => if d@.runnable() && d@.presets.dom().len() > 0 {
            r matches Ok((c, q)) && c@ == d@ && q is None
        } else {
            falls_back(r, source)
        },
    }
}

/// `r` is what a session draft comes to.
pub open spec fn restored(
    source: Source,
    saved: ConfigView,
    r: (Option<Config>, Option<Quarantine>),
) -> bool {
    match source {
        Source::Missing => r.0 is None && r.1 is None,
        Source::Parsed(d) if d@.runnable() => r.0 matches Some(c) && c@ == with_draft(saved, d@)
            && r.1 is None,
        _ => r.0 is None && match r.1 {
            Some(why) => explains(why, source),
            None => false,
        },
    }
}

/// `r` is the default config, with the reason why `source` is set aside.
pub open spec fn falls_back(
    r: Result<(Config, Option<Quarantine>), EqError>,
    source: Source,
) -> bool {
    match r {
        Ok((c, Some(why))) => c@ == default_config() && explains(why, source),
        _ => false,
    }
}

impl Config {
    /// Decide what a config file's contents mean: defaults where there is none; the config
    /// itself where it has presets and all of them can be run; and otherwise defaults, with the
    /// reason to move the file aside. An unusable config is not an error: it would be one again
    /// at every restart.
    pub fn load_from(source: Source) -> (r: Result<(Config, Option<Quarantine>), EqError>)
        ensures
            loaded(source, r),
    {
        match source {
            Source::Missing => Ok((Config::default(), None)),
            Source::Failed(reason) => Err(EqError::outside(reason)),
            Source::Malformed(reason) =>
                Ok((Config::default(), Some(Quarantine::Unreadable(reason)))),
            Source::Parsed(config) => {
                if config.presets.len() == 0 {
                    return Ok((Config::default(), Some(Quarantine::NoPresets)));
                }
                let unusable = match config.first_unusable_preset() {
                    Some((name, e)) => Some(Quarantine::Unrunnable(name.to_owned(), e)),
                    None => None,
                };
                match unusable {
                    None => Ok((config, None)),
                    Some(q) => Ok((Config::default(), Some(q))),
                }
            },
        }
    }
}

/// The saved config with the preset contents of a draft, for the names that both have.
pub open spec fn with_draft(saved: ConfigView, draft: ConfigView) -> ConfigView {
    ConfigView {
        presets: Contents::new(
            |n: Seq<char>| saved.presets.contains_key(n),
            |n: Seq<char>|
                if draft.presets.contains_key(n) {
                    draft.presets[n]
                } else {
                    saved.presets[n]
                },
        ),
        ..saved
    }
}

impl Config {
    /// Restore an unsaved session from the draft that an earlier run left behind. Only preset
    /// contents are taken from the draft, for names that the saved config knows: a draft can
    /// neither add nor delete a preset, and the active preset and the toggles stay those of
    /// the saved config. A draft that cannot be read or run is moved aside and ignored.
    pub fn load_session(source: Source, saved: &Config) -> (r: (
        Option<Config>,
        Option<Quarantine>,
    ))
        ensures
            restored(source, saved@, r),
    {
        match source {
            Source::Missing => (None, None),
            Source::Failed(reason) => (None, Some(Quarantine::Unreadable(reason))),
            Source::Malformed(reason) => (None, Some(Quarantine::Unreadable(reason))),
            Source::Parsed(draft) => {
                let unusable = match draft.first_unusable_preset() {
                    Some((name, e)) => Some(Quarantine::Unrunnable(name.to_owned(), e)),
                    None => None,
                };
                match unusable {
                    None => (Some(merge_draft(saved, &draft)), None),
                    Some(q) => (None, Some(q)),
                }
            },
        }
    }
}

fn merge_draft(saved: &Config, draft: &Config) -> (c: Config)
    ensures
        c@ == with_draft(saved@, draft@),
{
    let mut c = saved.clone();
    let n = draft.presets.len();
    let ghost s = listing(draft@.presets);
    let mut i: usize = 0;
    while i < n
        invariant
            i <= n,
            n == s.len(),
            s == listing(draft@.presets),
            is_listing(s, draft@.presets),
            c@ == (ConfigView { presets: c@.presets, ..saved@ }),
            c@.presets.dom() == saved@.presets.dom(),
            forall|k: Seq<char>| #[trigger]
                c@.presets.contains_key(k) ==> c@.presets[k] == if s.take(i as int).contains(k) {
                    draft@.presets[k]
                } else {
                    saved@.presets[k]
                },
        decreases n - i,
    {
        let name = draft.presets.name_at(i);
        let ghost before = c@;
        if saved.presets.contains_key(name) {
            c.presets.insert(name.to_owned(), draft.presets.preset_at(i).clone());
            assert(saved@.presets.dom().contains(name@));
        }
        proof {
            assert(c@.presets.dom() =~= saved@.presets.dom());
            let done = s.take(i as int);
            let more = s.take(i + 1);
            assert(more =~= done.push(name@));
            assert forall|k: Seq<char>| #[trigger] c@.presets.contains_key(k) implies c@.presets[k]
                == if s.take(i + 1).contains(k) {
                draft@.presets[k]
            } else {
                saved@.presets[k]
            } by {
                assert(before.presets.dom().contains(k));
                if k == name@ {
                    assert(more[i as int] == k);
                    assert(saved@.presets.dom().contains(k));
                } else if more.contains(k) {
                    let j = choose|j: int| 0 <= j < more.len() && more[j] == k;
                    assert(done[j] == k);
                } else if done.contains(k) {
                    let j = choose|j: int| 0 <= j < done.len() && done[j] == k;
                    assert(more[j] == k);
                }
            }
        }
        i += 1;
    }
    proof {
        assert(s.take(n as int) =~= s);
        assert(c@.presets =~= with_draft(saved@, draft@).presets) by {
            assert forall|k: Seq<char>| #[trigger] c@.presets.contains_key(k) implies c@.presets[k]
                == with_draft(saved@, draft@).presets[k] by {
                assert(saved@.presets.dom().contains(k));
                assert(s.contains(k) <==> draft@.presets.contains_key(k));
            }
            assert forall|k: Seq<char>| c@.presets.contains_key(k) <==> with_draft(
                saved@,
                draft@,
            ).presets.contains_key(k) by {
                assert(c@.presets.dom().contains(k) <==> saved@.presets.dom().contains(k));
            }
        }
        assert(c@ =~= with_draft(saved@, draft@));
    }
    c
}

/// Restoring a draft adds no preset and deletes none, keeps the active preset and every
/// toggle, and gives a config that can be run.
pub proof fn draft_changes_contents_only(saved: ConfigView, draft: ConfigView)
    requires
        saved.runnable(),
        draft.runnable(),
    ensures
        with_draft(saved, draft).presets.dom() == saved.presets.dom(),
        with_draft(saved, draft).active_preset == saved.active_preset,
        with_draft(saved, draft).limiter == saved.limiter,
        with_draft(saved, draft).auto_follow_new_devices == saved.auto_follow_new_devices,
        with_draft(saved, draft).auto_off_low_power == saved.auto_off_low_power,
        with_draft(saved, draft).auto_off_idle == saved.auto_off_idle,
        with_draft(saved, draft).enabled == saved.enabled,
        with_draft(saved, draft).runnable(),
{
    assert(with_draft(saved, draft).presets.dom() =~= saved.presets.dom());
}

/// A draft that was mirrored from a working config with the saved config's names brings back
/// that working config's contents.
pub proof fn draft_restores_the_session(saved: ConfigView, working: ConfigView)
    requires
        working.presets.dom() == saved.presets.dom(),
    ensures
        with_draft(saved, working).presets == working.presets,
{
    let m = with_draft(saved, working).presets;
    assert forall|n: Seq<char>| m.contains_key(n) <==> working.presets.contains_key(n) by {
        assert(working.presets.dom().contains(n) <==> saved.presets.dom().contains(n));
    }
    assert(m =~= working.presets);
}

// --- what the ranges are -----------------------------------------------------------

/// The number is finite and lies between two whole numbers, ends included.
pub open spec fn within(x: Single, low: int, high: int) -> bool {
    x.finite() && low * pow2(149) <= x.value() <= high * pow2(149)
}

/// The number is finite and lies between one tenth and ten, ends included.
pub open spec fn within_q(x: Single) -> bool {
    x.finite() && pow2(149) <= 10 * x.value() && x.value() <= 10 * pow2(149)
}

/// A number whose significand is `n` shifted by `k` places, with the exponent that undoes the
/// shift, is the whole number `n`.
proof fn shifted_number(bits: u32, n: int, k: nat)
    requires
        ({
            let x = Single { bits };
            let m = x.magnitude_bits();
            &&& 0x80_0000 <= m
            &&& m / 0x80_0000 - 1 == 149 - k
            &&& k <= 149
            &&& 0x80_0000 + m % 0x80_0000 == n * pow2(k)
        }),
    ensures
        (Single { bits }).negative() ==> (Single { bits }).value() == (-n) * pow2(149),
        !(Single { bits }).negative() ==> (Single { bits }).value() == n * pow2(149),
{
    let e = (149 - k) as nat;
    lemma_pow2_adds(k, e);
    let a = pow2(k) as int;
    let b = pow2(e) as int;
    assert((n * a) * b == n * (a * b)) by (nonlinear_arith);
    assert(-(n * (a * b)) == (-n) * (a * b)) by (nonlinear_arith);
}

proof fn whole_numbers()
    ensures
        (Single { bits: 0x41a0_0000 }).value() == 20 * pow2(149),
        (Single { bits: 0xc1c0_0000 }).value() == (-24) * pow2(149),
        (Single { bits: 0x41c0_0000 }).value() == 24 * pow2(149),
        (Single { bits: 0x469c_4000 }).value() == 20000 * pow2(149),
        (Single { bits: 0xc270_0000 }).value() == (-60) * pow2(149),
        (Single { bits: 0x4120_0000 }).value() == 10 * pow2(149),
        (Single { bits: 0x4140_0000 }).value() == 12 * pow2(149),
{
    lemma2_to64();
    shifted_number(0x41a0_0000, 20, 19);
    shifted_number(0xc1c0_0000, 24, 19);
    shifted_number(0x41c0_0000, 24, 19);
    shifted_number(0x469c_4000, 20000, 9);
    shifted_number(0xc270_0000, 60, 18);
    shifted_number(0x4120_0000, 10, 20);
    shifted_number(0x4140_0000, 12, 20);
}

/// Frequencies lie between 20 Hz and 20 kHz, gains between -24 dB and 24 dB, preamps between
/// -60 dB and 12 dB, and Qs between a tenth and ten: a figure is permitted exactly there, and a
/// refusal says whether it is not finite or out of its range.
pub proof fn figures_have_their_ranges(q: Quantity, x: Single)
    ensures
        figure_fault(q, x) is None <==> match q {
            Quantity::Frequency => within(x, 20, 20000),
            Quantity::Gain => within(x, -24, 24),
            Quantity::Preamp => within(x, -60, 12),
            Quantity::Q => within_q(x),
        },
        !x.finite() ==> figure_fault(q, x) == Some(Fault::NotFinite(q)),
        x.finite() && figure_fault(q, x) is Some ==> figure_fault(q, x) == Some(
            Fault::OutOfRange(q),
        ),
{
    whole_numbers();
    if q == Quantity::Q && x.finite() {
        lemma2_to64();
        lemma_pow2_adds(27, 122);
        lemma_pow2_pos(122);
        let p = pow2(122) as int;
        let tenth = Single { bits: 0x3dcc_cccd };
        let below = Single { bits: 0x3dcc_cccc };
        assert(tenth.value() == 0xcc_cccd * p);
        assert(below.value() == 0xcc_cccc * p);
        rank_orders_values(x, tenth);
        rank_orders_values(x, below);
        rank_orders_values(below, x);
        if x.value() < tenth.value() {
            assert(x.rank() <= below.rank());
            assert(x.value() <= below.value());
        }
    }
}

/// A preset can be run exactly when it has at most 64 bands, its preamp is permitted, and the
/// frequency, the gain, and the Q of every band are.
pub proof fn what_makes_a_preset_runnable(p: PresetView)
    ensures
        preset_fault(p) is None <==> {
            &&& p.bands.len() <= 64
            &&& within(p.preamp_db, -60, 12)
            &&& forall|i: int|
                0 <= i < p.bands.len() ==> within((#[trigger] p.bands[i]).freq, 20, 20000)
                    && within(p.bands[i].gain_db, -24, 24) && within_q(p.bands[i].q)
        },
{
    figures_have_their_ranges(Quantity::Preamp, p.preamp_db);
    runnable_bands(p.bands);
    assert forall|i: int| 0 <= i < p.bands.len() implies (band_fault(
        (#[trigger] p.bands[i]).freq,
        p.bands[i].gain_db,
        p.bands[i].q,
    ) is None <==> within(p.bands[i].freq, 20, 20000) && within(p.bands[i].gain_db, -24, 24)
        && within_q(p.bands[i].q)) by {
        what_makes_a_band_runnable(p.bands[i]);
    }
}

/// A band can be run exactly when its frequency, its gain, and its Q are permitted.
pub proof fn what_makes_a_band_runnable(b: Band)
    ensures
        band_fault(b.freq, b.gain_db, b.q) is None <==> within(b.freq, 20, 20000) && within(
            b.gain_db,
            -24,
            24,
        ) && within_q(b.q),
{
    figures_have_their_ranges(Quantity::Frequency, b.freq);
    figures_have_their_ranges(Quantity::Gain, b.gain_db);
    figures_have_their_ranges(Quantity::Q, b.q);
}

/// Two presets are told apart by the preamp, the number of bands, and the kind, the frequency,
/// the gain, and the Q of every band: they are equal exactly when none of these differs.
pub proof fn presets_differ_in_any_figure(a: PresetView, b: PresetView)
    ensures
        a.equals(b) <==> {
            &&& a.preamp_db.equals(b.preamp_db)
            &&& a.bands.len() == b.bands.len()
            &&& forall|i: int|
                0 <= i < a.bands.len() ==> (#[trigger] a.bands[i]).kind == b.bands[i].kind
                    && a.bands[i].freq.equals(b.bands[i].freq) && a.bands[i].gain_db.equals(
                    b.bands[i].gain_db,
                ) && a.bands[i].q.equals(b.bands[i].q)
        },
        preset_fault(a) is None && preset_fault(b) is None ==> (a.equals(b) <==> {
            &&& a.preamp_db.value() == b.preamp_db.value()
            &&& a.bands.len() == b.bands.len()
            &&& forall|i: int|
                0 <= i < a.bands.len() ==> (#[trigger] a.bands[i]).kind == b.bands[i].kind
                    && a.bands[i].freq.value() == b.bands[i].freq.value()
                    && a.bands[i].gain_db.value() == b.bands[i].gain_db.value()
                    && a.bands[i].q.value() == b.bands[i].q.value()
        }),
{
    if preset_fault(a) is None && preset_fault(b) is None {
        runnable_bands(a.bands);
        runnable_bands(b.bands);
        equality_is_numeric(a.preamp_db, b.preamp_db);
        if a.bands.len() == b.bands.len() {
            assert forall|i: int| 0 <= i < a.bands.len() implies (#[trigger] a.bands[i]).equals(
                b.bands[i],
            ) == (a.bands[i].kind == b.bands[i].kind && a.bands[i].freq.value()
                == b.bands[i].freq.value() && a.bands[i].gain_db.value()
                == b.bands[i].gain_db.value() && a.bands[i].q.value() == b.bands[i].q.value()) by {
                let x = a.bands[i];
                let y = b.bands[i];
                assert(band_fault(x.freq, x.gain_db, x.q) is None);
                assert(band_fault(y.freq, y.gain_db, y.q) is None);
                equality_is_numeric(x.freq, y.freq);
                equality_is_numeric(x.gain_db, y.gain_db);
                equality_is_numeric(x.q, y.q);
            }
        }
    }
}

/// Two configs are told apart by the active preset, by every switch, by a name that only one of
/// them has, and by the contents of a preset that both have.
pub proof fn configs_differ_in_any_part(a: ConfigView, b: ConfigView)
    ensures
        a.active_preset != b.active_preset ==> !a.equals(b),
        a.limiter != b.limiter ==> !a.equals(b),
        a.auto_follow_new_devices != b.auto_follow_new_devices ==> !a.equals(b),
        a.auto_off_low_power != b.auto_off_low_power ==> !a.equals(b),
        a.auto_off_idle != b.auto_off_idle ==> !a.equals(b),
        a.enabled != b.enabled ==> !a.equals(b),
        (exists|n: Seq<char>| #[trigger]
            a.presets.contains_key(n) && !b.presets.contains_key(n)) ==> !a.equals(b),
        (exists|n: Seq<char>| #[trigger]
            b.presets.contains_key(n) && !a.presets.contains_key(n)) ==> !a.equals(b),
        (exists|n: Seq<char>| #[trigger]
            a.presets.contains_key(n) && !a.presets[n].equals(b.presets[n])) ==> !a.equals(b),
        a.runnable() && a == b ==> a.equals(b),
{
    if a.runnable() {
        config_equals_itself(a);
    }
    if a.equals(b) {
        assert forall|n: Seq<char>| a.presets.contains_key(n) <==> b.presets.contains_key(n) by {
            assert(a.presets.dom().contains(n) <==> b.presets.dom().contains(n));
        }
    }
}

/// The preset in use is the selected one where there is one of that name; otherwise it is the
/// one whose name comes before all others; and there is none only where there are no presets.
pub proof fn the_preset_in_use(c: ConfigView)
    requires
        c.presets.dom().finite(),
    ensures
        c.presets.contains_key(c.active_preset) ==> c.active() == Some(c.presets[c.active_preset]),
        c.active() is None <==> c.presets.dom().len() == 0,
        !c.presets.contains_key(c.active_preset) && c.presets.dom().len() > 0 ==> exists|n:
            Seq<char>| #[trigger]
            c.presets.contains_key(n) && c.active() == Some(c.presets[n]) && (forall|k: Seq<char>|
                #[trigger] c.presets.contains_key(k) && k != n ==> name_before(n, k)),
{
    let m = c.presets;
    let s = listing(m);
    listing_exists(m);
    if m.dom().len() == 0 {
        m.dom().lemma_len0_is_empty();
        if s.len() > 0 {
            assert(s.contains(s[0]));
        }
        if m.contains_key(c.active_preset) {
            assert(m.dom().contains(c.active_preset));
        }
    } else {
        let x = m.dom().choose();
        assert(m.contains_key(x));
        assert(s.contains(x));
        let n = s[0];
        assert(s.contains(n));
        assert(m.contains_key(n));
        assert forall|k: Seq<char>| #[trigger] m.contains_key(k) && k != n implies name_before(
            n,
            k,
        ) by {
            assert(s.contains(k));
            let i = choose|i: int| 0 <= i < s.len() && s[i] == k;
            assert(name_before(s[0], s[i]));
        }
    }
}

/// A draft brings back the contents it has of every preset that is saved under the same name;
/// presets that the draft does not have stay as they are saved.
pub proof fn what_a_draft_brings_back(saved: ConfigView, draft: ConfigView, n: Seq<char>)
    ensures
        with_draft(saved, draft).presets.contains_key(n) <==> saved.presets.contains_key(n),
        saved.presets.contains_key(n) && draft.presets.contains_key(n) ==> with_draft(
            saved,
            draft,
        ).presets[n] == draft.presets[n],
        saved.presets.contains_key(n) && !draft.presets.contains_key(n) ==> with_draft(
            saved,
            draft,
        ).presets[n] == saved.presets[n],
        with_draft(saved, draft) == (ConfigView {
            presets: with_draft(saved, draft).presets,
            ..saved
        }),
{
}

/// Whatever stands in the config file, what is loaded can be used: there are presets, and every
/// one can be run. A config that can be used is loaded as it is, and its file stays; one that
/// cannot be used, or read as a config, is set aside, and the defaults take its place. Only a
/// file that could not be read at all is a failure.
pub proof fn what_is_loaded_can_be_used(
    source: Source,
    r: Result<(Config, Option<Quarantine>), EqError>,
)
    requires
        loaded(source, r),
    ensures
        r is Err <==> source is Failed,
        r matches Ok((c, q)) ==> c@.runnable() && c@.presets.dom().len() > 0,
        source is Missing ==> r->Ok_0.1 is None && r->Ok_0.0@.presets == shipped(),
        source matches Source::Parsed(d) ==> {
            let good = d@.presets.dom().len() > 0 && forall|n: Seq<char>| #[trigger]
                d@.presets.contains_key(n) ==> preset_fault(d@.presets[n]) is None;
            &&& good ==> r->Ok_0.0@ == d@ && r->Ok_0.1 is None
            &&& !good ==> r->Ok_0.0@.presets == shipped() && r->Ok_0.1 is Some
        },
        source is Malformed ==> r->Ok_0.1 is Some && r->Ok_0.0@.presets == shipped(),
{
    the_default_is_usable();
}

/// The reason why a file is set aside is true: the words of the reader where it could not be
/// read, and otherwise the name of a preset that cannot be run, with what is wrong with it.
pub proof fn the_reason_for_setting_aside_is_true(source: Source, q: Quarantine)
    requires
        explains(q, source),
        source matches Source::Parsed(c) ==> c@.presets.dom().finite(),
    ensures
        source matches Source::Malformed(m) ==> (q matches Quarantine::Unreadable(w) && w@ == m@),
        source matches Source::Failed(m) ==> (q matches Quarantine::Unreadable(w) && w@ == m@),
        source matches Source::Parsed(c) ==> {
            &&& c@.presets.dom().len() == 0 ==> q is NoPresets
            &&& q matches Quarantine::Unrunnable(name, e) ==> c@.presets.contains_key(name@)
                && preset_fault(c@.presets[name@]) is Some && e@.fault == preset_fault(
                c@.presets[name@],
            )->0
            &&& !(q is Unreadable)
        },
{
    if let Source::Parsed(c) = source {
        let m = c@.presets;
        listing_exists(m);
        if let Quarantine::Unrunnable(name, e) = q {
            if m.dom().len() > 0 {
                let i = choose|i: int| #[trigger]
                    first_unusable(m, i) && name@ == listing(m)[i] && e@ == plain(
                        preset_fault(m[name@])->0,
                    );
                assert(listing(m).contains(listing(m)[i]));
            }
        }
    }
}

/// A session draft is restored exactly when every preset in it can be run; what is restored has
/// the names and the settings of the saved config. A draft that is there and not restored is set
/// aside.
pub proof fn which_drafts_are_restored(
    source: Source,
    saved: ConfigView,
    r: (Option<Config>, Option<Quarantine>),
)
    requires
        restored(source, saved, r),
    ensures
        source matches Source::Parsed(d) ==> (r.0 is Some <==> forall|n: Seq<char>| #[trigger]
            d@.presets.contains_key(n) ==> preset_fault(d@.presets[n]) is None),
        !(source is Parsed) ==> r.0 is None,
        r.0 is Some ==> r.1 is None,
        r.1 is Some <==> !(source is Missing) && r.0 is None,
        r.0 matches Some(c) ==> {
            &&& c@.active_preset == saved.active_preset
            &&& c@.limiter == saved.limiter
            &&& c@.auto_off_low_power == saved.auto_off_low_power
            &&& c@.auto_off_idle == saved.auto_off_idle
            &&& c@.enabled == saved.enabled
            &&& forall|n: Seq<char>| #[trigger]
                c@.presets.contains_key(n) <==> saved.presets.contains_key(n)
        },
{
}

/// A validation passes exactly where nothing is wrong, and otherwise fails with what is wrong.
pub proof fn validations_tell_what_is_wrong(fault: Option<Fault>, r: Result<(), EqError>)
    requires
        outcome(r) == verdict(fault),
    ensures
        r is Ok <==> fault is None,
        r matches Err(e) ==> Some(e@.fault) == fault,
{
}

} // verus!
