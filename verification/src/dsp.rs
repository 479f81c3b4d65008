//! The bands of an equalizer curve, the settings a running engine is given, and the decisions
//! of the real-time processor: when it adopts new settings, which filter memories it drops,
//! when it skips silence, and how far a bypass transition has come.
//!
//! Filter design and the per-sample arithmetic are floating-point work and live with the
//! audio callback; this module holds everything that decides what the callback does.

use vstd::prelude::*;
use vstd::arithmetic::power2::*;
use vstd::arithmetic::mul::*;
use vstd::bits::*;
use crate::gap::{
    exact_gap, gap, round_to_single, rounding_at_most_doubles, rounding_scales, spacing,
    spacing_facts, to_single, INFINITY_BITS,
};
use crate::number::{
    magnitude_monotone, magnitude_not_negative, magnitude_of, rank_orders_values, Single,
};

verus! {

/// The kind of filter a [`Band`] represents.
#[derive(Clone, Copy, Debug, PartialEq, Eq, Structural)]
pub enum BandKind {
    Peaking,
    LowShelf,
    HighShelf,
}

/// One parametric band: filter kind, center or corner frequency (Hz), gain (dB), and Q.
#[derive(Clone, Copy, Debug, PartialEq, Eq, Structural)]
pub struct Band {
    pub kind: BandKind,
    pub freq: Single,
    pub gain_db: Single,
    pub q: Single,
}

/// The largest number of bands a preset may hold.
pub const MAX_BANDS: usize = 64;

/// 20 Hz.
pub const MIN_BAND_FREQ_BITS: u32 = 0x41a0_0000;

/// 20 000 Hz.
pub const MAX_BAND_FREQ_BITS: u32 = 0x469c_4000;

/// 0.001 dB: bands closer to flat than this are identity filters.
pub const IDENTITY_GAIN_BITS: u32 = 0x3a83_126f;

/// 0.0001: samples smaller than this are silent.
pub const SILENCE_BITS: u32 = 0x38d1_b717;

/// Processing is skipped after this many silent blocks in a row.
pub const SILENCE_SKIP_BLOCKS: u32 = 3;

impl Band {
    /// Numeric equality of two bands, figure by figure.
    pub open spec fn equals(self, other: Band) -> bool {
        &&& self.kind == other.kind
        &&& self.freq.equals(other.freq)
        &&& self.gain_db.equals(other.gain_db)
        &&& self.q.equals(other.q)
    }

    /// Whether the band changes the sound at all: its gain is at least 0.001 dB either way.
    pub open spec fn audible(self) -> bool {
        !self.gain_db.nan() && self.gain_db.magnitude_bits() >= IDENTITY_GAIN_BITS
    }

    /// Whether two bands are numerically equal.
    pub fn same(&self, other: &Band) -> (r: bool)
        ensures
            r == self.equals(*other),
    {
        self.kind == other.kind && self.freq.same(other.freq) && self.gain_db.same(other.gain_db)
            && self.q.same(other.q)
    }

    /// Whether the band changes the sound at all.
    pub fn is_audible(&self) -> (r: bool)
        ensures
            r == self.audible(),
    {
        self.gain_db.reaches(Single::from_bits(IDENTITY_GAIN_BITS))
    }
}

// --- distances between frequencies -------------------------------------------

/// A frequency that a band may have: 20 Hz to 20 kHz.
pub open spec fn valid_frequency(f: Single) -> bool {
    &&& f.finite()
    &&& (Single { bits: MIN_BAND_FREQ_BITS }).value() <= f.value()
    &&& f.value() <= (Single { bits: MAX_BAND_FREQ_BITS }).value()
}

/// A valid frequency in units of two to the power of -19 hertz. Every valid frequency is a
/// whole number of them.
pub open spec fn units(f: Single) -> int {
    (0x80_0000 + f.bits % 0x80_0000) * pow2((f.bits / 0x80_0000 - 131) as nat)
}

/// Half a hertz, in the units of [`units`].
pub const HALF_HERTZ: u64 = 0x4_0000;

/// The bits of a valid frequency.
pub proof fn frequency_bits(f: Single)
    ensures
        valid_frequency(f) <==> MIN_BAND_FREQ_BITS <= f.bits <= MAX_BAND_FREQ_BITS,
{
    let lo = Single { bits: MIN_BAND_FREQ_BITS };
    let hi = Single { bits: MAX_BAND_FREQ_BITS };
    if f.finite() {
        rank_orders_values(lo, f);
        rank_orders_values(f, hi);
        rank_orders_values(f, lo);
        rank_orders_values(hi, f);
    }
}

/// A valid frequency's value is its number of units.
pub proof fn units_measure_frequency(f: Single)
    requires
        valid_frequency(f),
    ensures
        f.value() == units(f) * pow2(130),
        0 < units(f) < 0x4_0000_0000,
{
    frequency_bits(f);
    let k = (f.bits / 0x80_0000 - 131) as nat;
    let s = 0x80_0000 + f.bits % 0x80_0000;
    lemma_pow2_adds(k, 130);
    lemma_mul_is_associative(s as int, pow2(k) as int, pow2(130) as int);
    lemma_pow2_pos(k);
    lemma2_to64();
    assert(k <= 10);
    if k < 10 {
        lemma_pow2_strictly_increases(k, 10);
    }
    let p = pow2(k) as int;
    assert(0 < s * p < 0x100_0000 * 1024) by (nonlinear_arith)
        requires
            0 < p <= 1024,
            0 < s < 0x100_0000,
    ;
}

/// The order of valid frequencies is that of their bits and of their units.
pub proof fn frequency_order(a: Single, b: Single)
    requires
        valid_frequency(a),
        valid_frequency(b),
    ensures
        a.value() < b.value() <==> a.bits < b.bits,
        a.bits < b.bits <==> units(a) < units(b),
        a.bits == b.bits <==> units(a) == units(b),
{
    frequency_bits(a);
    frequency_bits(b);
    rank_orders_values(a, b);
    units_measure_frequency(a);
    units_measure_frequency(b);
    lemma_pow2_pos(130);
    let p = pow2(130) as int;
    let x = units(a);
    let y = units(b);
    assert(x < y <==> x * p < y * p) by (nonlinear_arith)
        requires
            p > 0,
    ;
    assert(x == y <==> x * p == y * p) by (nonlinear_arith)
        requires
            p > 0,
    ;
}

/// The distance between two frequencies as single-precision subtraction gives it.
pub open spec fn distance(a: Single, b: Single) -> nat {
    to_single(
        if units(a) < units(b) {
            (units(b) - units(a)) as nat
        } else {
            (units(a) - units(b)) as nat
        },
    )
}

/// Two bands count as the same band when they are closer than half a hertz.
pub open spec fn close(a: Single, b: Single) -> bool {
    -HALF_HERTZ < units(a) - units(b) < HALF_HERTZ
}

/// Rounding to single precision does not move a distance across half a hertz.
pub proof fn close_is_a_short_distance(a: Single, b: Single)
    ensures
        close(a, b) <==> distance(a, b) < HALF_HERTZ,
{
    let d = if units(a) < units(b) {
        (units(b) - units(a)) as nat
    } else {
        (units(a) - units(b)) as nat
    };
    spacing_facts(d);
    if d >= 0x100_0000 {
        let step = spacing(d) as int;
        let q = d as int / step;
        assert(q * step >= 0x80_0000) by (nonlinear_arith)
            requires
                q >= 0x80_0000,
                step >= 1,
        ;
        assert((q + 1) * step >= 0x80_0000) by (nonlinear_arith)
            requires
                q >= 0x80_0000,
                step >= 1,
        ;
    } else {
        assert(d % 1 == 0);
        assert(d / 1 == d);
    }
}

/// Between valid frequencies, [`distance`] is the distance of any two numbers, in coarser
/// units.
pub proof fn distance_of_frequencies(a: Single, b: Single)
    requires
        valid_frequency(a),
        valid_frequency(b),
    ensures
        gap(a, b) == distance(a, b) * pow2(130),
{
    units_measure_frequency(a);
    units_measure_frequency(b);
    frequency_order(a, b);
    frequency_order(b, a);
    let p = pow2(130) as int;
    let x = units(a);
    let y = units(b);
    let d = if x < y {
        (y - x) as nat
    } else {
        (x - y) as nat
    };
    assert((x - y) * p == x * p - y * p) by (nonlinear_arith);
    assert((y - x) * p == y * p - x * p) by (nonlinear_arith);
    assert(exact_gap(a, b) == d * pow2(130));
    rounding_scales(d, 130);
    rounding_at_most_doubles(d);
    lemma2_to64();
    lemma_pow2_pos(130);
    lemma_pow2_adds(130, 124);
    lemma_pow2_strictly_increases(64, 124);
    let h = pow2(124) as int;
    let n = to_single(d) as int;
    assert(magnitude_of(INFINITY_BITS as int) == 0x80_0000 * (p * h));
    assert(n * p < 0x80_0000 * (p * h)) by (nonlinear_arith)
        requires
            0 <= n < h,
            p > 0,
    ;
}

/// The number of units of a valid frequency.
fn count_units(f: Single) -> (n: u64)
    requires
        valid_frequency(f),
    ensures
        n == units(f),
        n < 0x4_0000_0000,
{
    proof {
        frequency_bits(f);
        units_measure_frequency(f);
    }
    let k: u64 = (f.bits / 0x80_0000 - 131) as u64;
    let s: u64 = (0x80_0000 + f.bits % 0x80_0000) as u64;
    let p: u64 = 1u64 << k;
    proof {
        lemma2_to64();
        if k < 10 {
            lemma_pow2_strictly_increases(k as nat, 10);
        }
        lemma_u64_shl_is_mul(1, k);
    }
    s * p
}

/// The distance between two valid frequencies, as single-precision subtraction gives it.
pub fn frequency_distance(a: Single, b: Single) -> (d: u64)
    requires
        valid_frequency(a),
        valid_frequency(b),
    ensures
        d == distance(a, b),
{
    let x = count_units(a);
    let y = count_units(b);
    if x < y {
        round_to_single(y - x)
    } else {
        round_to_single(x - y)
    }
}

// --- settings ----------------------------------------------------------------

/// The bands of `bands` that change the sound, in their order.
pub open spec fn audible_bands(bands: Seq<Band>) -> Seq<Band> {
    bands.filter(|b: Band| b.audible())
}

/// The bands that change the sound. The others are identity filters, which would cost a
/// section per sample and do nothing.
pub fn active_bands(bands: &[Band]) -> (out: Vec<Band>)
    ensures
        out@ == audible_bands(bands@),
{
    let mut out: Vec<Band> = Vec::new();
    let mut i: usize = 0;
    while i < bands.len()
        invariant
            i <= bands.len(),
            out@ == audible_bands(bands@.take(i as int)),
        decreases bands.len() - i,
    {
        proof {
            reveal_with_fuel(Seq::filter, 2);
            assert(bands@.take(i + 1).drop_last() =~= bands@.take(i as int));
        }
        if bands[i].is_audible() {
            out.push(bands[i]);
        }
        i += 1;
    }
    assert(bands@.take(bands.len() as int) =~= bands@);
    out
}

/// What [`EqSettings`] hold.
pub ghost struct SettingsView {
    pub bands: Seq<Band>,
    pub preamp_db: Single,
    pub limiter: bool,
    pub bypassed: bool,
    pub ramp_frames: u32,
    pub generation: u64,
}

/// An immutable snapshot of everything the real-time processor needs to know: the bands that
/// become filter sections, the preamp, the limiter flag, and the runtime bypass endpoint.
///
/// The fields are private, so a snapshot's contents and its generation stamp cannot drift
/// apart.
#[derive(Debug)]
pub struct EqSettings {
    bands: Vec<Band>,
    preamp_db: Single,
    limiter: bool,
    bypassed: bool,
    ramp_frames: u32,
    generation: u64,
}

impl View for EqSettings {
    type V = SettingsView;

    closed spec fn view(&self) -> SettingsView {
        SettingsView {
            bands: self.bands@,
            preamp_db: self.preamp_db,
            limiter: self.limiter,
            bypassed: self.bypassed,
            ramp_frames: self.ramp_frames,
            generation: self.generation,
        }
    }
}

/// The source of the stamps on snapshots. A program has one of them, and every snapshot takes
/// the next stamp from it.
#[derive(Debug)]
pub struct Stamps {
    next: u64,
}

impl View for Stamps {
    type V = u64;

    /// The stamp that comes next.
    closed spec fn view(&self) -> u64 {
        self.next
    }
}

impl Stamps {
    /// Stamps from zero on.
    pub fn new() -> (s: Stamps)
        ensures
            s@ == 0,
    {
        Stamps { next: 0 }
    }

    /// Whether all stamps are given out.
    pub fn are_spent(&self) -> (r: bool)
        ensures
            r == (self@ == u64::MAX),
    {
        self.next == u64::MAX
    }

    /// The next stamp.
    pub fn take(&mut self) -> (stamp: u64)
        requires
            old(self)@ < u64::MAX,
        ensures
            stamp == old(self)@,
            final(self)@ == old(self)@ + 1,
    {
        let stamp: u64 = self.next;
        self.next = stamp + 1;
        stamp
    }
}

/// What a snapshot is made of.
pub ghost struct Order {
    pub bands: Seq<Band>,
    pub preamp_db: Single,
    pub limiter: bool,
    pub bypassed: bool,
    pub ramp_frames: u32,
}

/// The snapshot that is made to an order, with a stamp.
pub open spec fn snapshot(o: Order, stamp: u64) -> SettingsView {
    SettingsView {
        bands: audible_bands(o.bands),
        preamp_db: o.preamp_db,
        limiter: o.limiter,
        bypassed: o.bypassed,
        ramp_frames: o.ramp_frames,
        generation: stamp,
    }
}

impl EqSettings {
    /// A snapshot that plays the equalized signal.
    pub fn new(
        bands: &[Band],
        preamp_db: Single,
        limiter: bool,
        ramp_frames: u32,
        stamps: &mut Stamps,
    ) -> (s: EqSettings)
        requires
            audible_bands(bands@).len() <= MAX_BANDS,
            old(stamps)@ < u64::MAX,
        ensures
            s@ == snapshot(
                (Order { bands: bands@, preamp_db, limiter, bypassed: false, ramp_frames }),
                old(stamps)@,
            ),
            final(stamps)@ == old(stamps)@ + 1,
    {
        Self::with_bypass(bands, preamp_db, limiter, false, ramp_frames, stamps)
    }

    /// A snapshot with a runtime dry-path endpoint. Bands at (essentially) 0 dB are left out:
    /// they are identity filters. `ramp_frames` is the length of a bypass transition. The
    /// snapshot takes its stamp from `stamps`, so that no other one from there has it.
    pub fn with_bypass(
        bands: &[Band],
        preamp_db: Single,
        limiter: bool,
        bypassed: bool,
        ramp_frames: u32,
        stamps: &mut Stamps,
    ) -> (s: EqSettings)
        requires
            audible_bands(bands@).len() <= MAX_BANDS,
            old(stamps)@ < u64::MAX,
        ensures
            s@ == snapshot(
                (Order { bands: bands@, preamp_db, limiter, bypassed, ramp_frames }),
                old(stamps)@,
            ),
            final(stamps)@ == old(stamps)@ + 1,
    {
        EqSettings {
            bands: active_bands(bands),
            preamp_db,
            limiter,
            bypassed,
            ramp_frames,
            generation: stamps.take(),
        }
    }

    /// The bands that become filter sections, in cascade order.
    pub fn bands(&self) -> (b: &[Band])
        ensures
            b@ == self@.bands,
    {
        self.bands.as_slice()
    }

    /// The preamp gain in decibels.
    pub fn preamp_db(&self) -> (p: Single)
        ensures
            p == self@.preamp_db,
    {
        self.preamp_db
    }

    /// Whether the soft limiter is applied.
    pub fn limiter(&self) -> (l: bool)
        ensures
            l == self@.limiter,
    {
        self.limiter
    }

    /// Whether the output is the untouched input.
    pub fn bypassed(&self) -> (b: bool)
        ensures
            b == self@.bypassed,
    {
        self.bypassed
    }
}

// --- silence -----------------------------------------------------------------

/// Whether every sample is quieter than the silence threshold.
pub open spec fn silent_block(buf: Seq<Single>) -> bool {
    forall|i: int| 0 <= i < buf.len() ==> (#[trigger] buf[i]).magnitude_bits() < SILENCE_BITS
}

/// Whether every sample in `buf` is quieter than the silence threshold.
pub fn block_is_silent(buf: &[Single]) -> (r: bool)
    ensures
        r == silent_block(buf@),
{
    let mut i: usize = 0;
    while i < buf.len()
        invariant
            i <= buf.len(),
            forall|j: int| 0 <= j < i ==> (#[trigger] buf[j]).magnitude_bits() < SILENCE_BITS,
        decreases buf.len() - i,
    {
        if !buf[i].below(Single::from_bits(SILENCE_BITS)) {
            assert(buf@[i as int].magnitude_bits() >= SILENCE_BITS);
            return false;
        }
        i += 1;
    }
    true
}

// --- the processor -----------------------------------------------------------

/// What the processor remembers between blocks.
#[verifier::ext_equal]
pub ghost struct ProcessorView {
    /// How many channels have a cascade.
    pub lanes: usize,
    /// The band of each filter section.
    pub layout: Seq<Band>,
    /// For each section, whether the latest adoption of settings dropped its memory.
    pub resets: Seq<bool>,
    /// The stamp of the settings in force.
    pub last: Option<u64>,
    /// How many silent blocks in a row came last.
    pub silent_blocks: u32,
    /// Whether the signal is, or is on its way to, the equalized one.
    pub wet: bool,
    /// Frames left of a bypass transition.
    pub ramp: u32,
}

/// What the audio callback has to do with one block.
#[derive(Clone, Copy, Debug, PartialEq, Eq, Structural)]
pub struct BlockPlan {
    /// The input was silent.
    pub silent: bool,
    /// New settings were adopted: resize the cascades to the layout, drop the memory of the
    /// sections marked in the resets, and set every section's coefficients.
    pub synced: bool,
    /// Set the dry/wet mix to its endpoint at once.
    pub snap: bool,
    /// Drop the memory of every section.
    pub clear: bool,
    /// Fill the block with zeros instead of processing it.
    pub zero: bool,
    /// Frames to process.
    pub frames: usize,
    /// Channels to process in each frame.
    pub active: usize,
    /// Frames left of a bypass transition when the block begins.
    pub ramp: u32,
}

/// The memory of section `i` belongs to another band than the one it is to play.
pub open spec fn stale(layout: Seq<Band>, bands: Seq<Band>, i: int) -> bool {
    i >= layout.len() || !layout[i].equals(bands[i])
}

/// The processor once it has taken up the settings `s`.
pub open spec fn adopted(p: ProcessorView, s: SettingsView) -> ProcessorView {
    if p.last == Some(s.generation) {
        p
    } else {
        ProcessorView {
            layout: s.bands,
            resets: Seq::new(s.bands.len(), |i: int| stale(p.layout, s.bands, i)),
            last: Some(s.generation),
            wet: !s.bypassed,
            ramp: if p.last is None {
                0
            } else if p.wet == s.bypassed {
                s.ramp_frames
            } else {
                p.ramp
            },
            ..p
        }
    }
}

/// The number of silent blocks in a row after one more block.
pub open spec fn silence_run(count: u32, silent: bool) -> u32 {
    if !silent {
        0
    } else if count == u32::MAX {
        count
    } else {
        (count + 1) as u32
    }
}

/// The processor after a block of `samples` samples in `channels` channels.
pub open spec fn after_block(
    p: ProcessorView,
    s: SettingsView,
    silent: bool,
    samples: usize,
    channels: usize,
) -> ProcessorView {
    if channels == 0 {
        p
    } else {
        let a = adopted(p, s);
        let count = silence_run(a.silent_blocks, silent);
        let frames = samples / channels;
        ProcessorView {
            silent_blocks: count,
            ramp: if count > SILENCE_SKIP_BLOCKS {
                a.ramp
            } else if frames >= a.ramp {
                0
            } else {
                (a.ramp - frames) as u32
            },
            ..a
        }
    }
}

/// What is to be done with a block of `samples` samples in `channels` channels.
pub open spec fn block_plan(
    p: ProcessorView,
    s: SettingsView,
    silent: bool,
    samples: usize,
    channels: usize,
) -> BlockPlan {
    let count = silence_run(p.silent_blocks, silent);
    let runs = channels > 0 && count <= SILENCE_SKIP_BLOCKS;
    BlockPlan {
        silent,
        synced: channels > 0 && p.last != Some(s.generation),
        snap: channels > 0 && p.last is None,
        clear: channels > 0 && count == SILENCE_SKIP_BLOCKS + 1,
        zero: channels > 0 && count > SILENCE_SKIP_BLOCKS,
        frames: if runs {
            samples / channels
        } else {
            0
        },
        active: if !runs {
            0
        } else if channels < p.lanes {
            channels
        } else {
            p.lanes
        },
        ramp: if runs {
            adopted(p, s).ramp
        } else {
            0
        },
    }
}

/// A processor for `channels` channels that has seen no settings yet.
pub open spec fn unused(channels: usize) -> ProcessorView {
    ProcessorView {
        lanes: channels,
        layout: Seq::empty(),
        resets: Seq::empty(),
        last: None,
        silent_blocks: 0,
        wet: true,
        ramp: 0,
    }
}

/// The deciding half of the real-time processor. It is owned by the audio thread, and its
/// vectors are reserved on construction so that adopting settings does not allocate there.
#[derive(Debug)]
pub struct Processor {
    lanes: usize,
    layout: Vec<Band>,
    resets: Vec<bool>,
    last_generation: Option<u64>,
    silent_blocks: u32,
    wet: bool,
    ramp_remaining: u32,
}

impl View for Processor {
    type V = ProcessorView;

    closed spec fn view(&self) -> ProcessorView {
        ProcessorView {
            lanes: self.lanes,
            layout: self.layout@,
            resets: self.resets@,
            last: self.last_generation,
            silent_blocks: self.silent_blocks,
            wet: self.wet,
            ramp: self.ramp_remaining,
        }
    }
}

impl Processor {
    /// A processor for `channels` channels that has seen no settings yet.
    pub fn new(channels: usize) -> (p: Processor)
        ensures
            p@ == unused(channels),
    {
        Processor {
            lanes: channels,
            layout: Vec::with_capacity(MAX_BANDS),
            resets: Vec::with_capacity(MAX_BANDS),
            last_generation: None,
            silent_blocks: 0,
            wet: true,
            ramp_remaining: 0,
        }
    }

    /// For each section of the layout, whether the latest adoption dropped its memory.
    pub fn resets(&self) -> (r: &[bool])
        ensures
            r@ == self@.resets,
    {
        self.resets.as_slice()
    }

    /// The band of each filter section.
    pub fn layout(&self) -> (b: &[Band])
        ensures
            b@ == self@.layout,
    {
        self.layout.as_slice()
    }

    /// Whether the signal is, or is on its way to, the equalized one.
    pub fn wet(&self) -> (w: bool)
        ensures
            w == self@.wet,
    {
        self.wet
    }

    fn adopt(&mut self, settings: &EqSettings)
        requires
            old(self)@.last != Some(settings@.generation),
        ensures
            final(self)@ == adopted(old(self)@, settings@),
    {
        if self.last_generation.is_none() {
            self.ramp_remaining = 0;
        } else if self.wet == settings.bypassed {
            self.ramp_remaining = settings.ramp_frames;
        }
        self.wet = !settings.bypassed;
        let n = settings.bands.len();
        self.resets.clear();
        let mut i: usize = 0;
        while i < n
            invariant
                i <= n,
                n == settings.bands.len(),
                self.lanes == old(self).lanes,
                self.layout@ == old(self).layout@,
                self.resets@ =~= Seq::new(
                    i as nat,
                    |j: int| stale(old(self).layout@, settings.bands@, j),
                ),
                self.last_generation == old(self).last_generation,
                self.silent_blocks == old(self).silent_blocks,
                self.wet == !settings.bypassed,
                self.ramp_remaining == adopted(old(self)@, settings@).ramp,
            decreases n - i,
        {
            let reset = i >= self.layout.len() || !self.layout[i].same(&settings.bands[i]);
            self.resets.push(reset);
            i += 1;
        }
        self.layout.clear();
        let mut k: usize = 0;
        while k < n
            invariant
                k <= n,
                n == settings.bands.len(),
                self.lanes == old(self).lanes,
                self.layout@ =~= settings.bands@.take(k as int),
                self.resets@ =~= Seq::new(
                    n as nat,
                    |j: int| stale(old(self).layout@, settings.bands@, j),
                ),
                self.last_generation == old(self).last_generation,
                self.silent_blocks == old(self).silent_blocks,
                self.wet == !settings.bypassed,
                self.ramp_remaining == adopted(old(self)@, settings@).ramp,
            decreases n - k,
        {
            self.layout.push(settings.bands[k]);
            k += 1;
        }
        self.last_generation = Some(settings.generation);
        assert(self@ =~= adopted(old(self)@, settings@));
    }

    /// Decide what to do with one block: take up `settings` if they are new, keep count of
    /// silence, and move a bypass transition on by the frames that will be processed.
    /// `silent` says whether the block's input is silent, `samples` its length.
    pub fn run(
        &mut self,
        settings: &EqSettings,
        silent: bool,
        samples: usize,
        channels: usize,
    ) -> (plan: BlockPlan)
        ensures
            final(self)@ == after_block(old(self)@, settings@, silent, samples, channels),
            plan == block_plan(old(self)@, settings@, silent, samples, channels),
    {
        if channels == 0 {
            return BlockPlan {
                silent,
                synced: false,
                snap: false,
                clear: false,
                zero: false,
                frames: 0,
                active: 0,
                ramp: 0,
            };
        }
        let first = self.last_generation.is_none();
        let synced = match self.last_generation {
            Some(g) => g != settings.generation,
            None => true,
        };
        if synced {
            self.adopt(settings);
        }
        if silent {
            if self.silent_blocks < u32::MAX {
                self.silent_blocks = self.silent_blocks + 1;
            }
            if self.silent_blocks > SILENCE_SKIP_BLOCKS {
                assert(self@ =~= after_block(old(self)@, settings@, silent, samples, channels));
                return BlockPlan {
                    silent,
                    synced,
                    snap: first,
                    clear: self.silent_blocks == SILENCE_SKIP_BLOCKS + 1,
                    zero: true,
                    frames: 0,
                    active: 0,
                    ramp: 0,
                };
            }
        } else {
            self.silent_blocks = 0;
        }
        let frames = samples / channels;
        let ramp = self.ramp_remaining;
        if frames >= ramp as usize {
            self.ramp_remaining = 0;
        } else {
            self.ramp_remaining = ramp - frames as u32;
        }
        assert(self@ =~= after_block(old(self)@, settings@, silent, samples, channels));
        BlockPlan {
            silent,
            synced,
            snap: first,
            clear: false,
            zero: false,
            frames,
            active: if channels < self.lanes {
                channels
            } else {
                self.lanes
            },
            ramp,
        }
    }
}

/// Settings that are already in force are not taken up again: the layout and the filter
/// memories stay as they are.
pub proof fn settings_in_force_change_nothing(
    p: ProcessorView,
    s: SettingsView,
    silent: bool,
    samples: usize,
    channels: usize,
)
    requires
        p.last == Some(s.generation),
    ensures
        !block_plan(p, s, silent, samples, channels).synced,
        after_block(p, s, silent, samples, channels).layout == p.layout,
        after_block(p, s, silent, samples, channels).last == p.last,
        after_block(p, s, silent, samples, channels).wet == p.wet,
{
}

/// After any block the settings it was run with are in force.
pub proof fn a_block_puts_its_settings_in_force(
    p: ProcessorView,
    s: SettingsView,
    silent: bool,
    samples: usize,
    channels: usize,
)
    requires
        channels > 0,
        p.last != Some(s.generation),
    ensures
        after_block(p, s, silent, samples, channels).last == Some(s.generation),
        after_block(p, s, silent, samples, channels).layout == s.bands,
        after_block(p, s, silent, samples, channels).wet == !s.bypassed,
{
}

/// The snapshots that are made to orders one after the other, with the stamps from `first` on.
pub open spec fn snapshots(orders: Seq<Order>, first: u64) -> Seq<SettingsView> {
    Seq::new(orders.len(), |i: int| snapshot(orders[i], (first + i) as u64))
}

/// No two snapshots have the same stamp, not even when they were made to equal orders: each
/// has a larger one than those before it. So the processor takes up every other snapshot than
/// the one in force.
pub proof fn snapshots_are_told_apart(
    orders: Seq<Order>,
    first: u64,
    i: int,
    j: int,
    p: ProcessorView,
    silent: bool,
    samples: usize,
    channels: usize,
)
    requires
        first + orders.len() <= u64::MAX,
        0 <= i < j < orders.len(),
        channels > 0,
    ensures
        ({
            let s = snapshots(orders, first);
            &&& s[i].generation < s[j].generation
            &&& p.last == Some(s[i].generation) ==> block_plan(
                p,
                s[j],
                silent,
                samples,
                channels,
            ).synced
            &&& p.last == Some(s[j].generation) ==> block_plan(
                p,
                s[i],
                silent,
                samples,
                channels,
            ).synced
        }),
{
}

/// A section keeps its filter memory exactly when the band that made it still plays in the
/// same place; a band that moved, changed, or is new starts from rest.
pub proof fn memory_stays_with_its_band(p: ProcessorView, s: SettingsView, i: int)
    requires
        p.last != Some(s.generation),
        0 <= i < s.bands.len(),
    ensures
        adopted(p, s).resets.len() == s.bands.len(),
        !adopted(p, s).resets[i] <==> i < p.layout.len() && p.layout[i].equals(s.bands[i]),
{
}

/// The processor after `n` silent blocks.
pub open spec fn after_silence(
    p: ProcessorView,
    s: SettingsView,
    samples: usize,
    channels: usize,
    n: nat,
) -> ProcessorView
    decreases n,
{
    if n == 0 {
        p
    } else {
        after_block(
            after_silence(p, s, samples, channels, (n - 1) as nat),
            s,
            true,
            samples,
            channels,
        )
    }
}

proof fn silence_counts(p: ProcessorView, s: SettingsView, samples: usize, channels: usize, n: nat)
    requires
        channels > 0,
        p.silent_blocks == 0,
    ensures
        after_silence(p, s, samples, channels, n).silent_blocks == if n < u32::MAX {
            n as u32
        } else {
            u32::MAX
        },
    decreases n,
{
    if n > 0 {
        silence_counts(p, s, samples, channels, (n - 1) as nat);
    }
}

/// Sustained silence: the first three silent blocks are processed, so that filters ring out;
/// the fourth clears every filter memory; from the fourth on, blocks are zeroed. One block
/// with sound in it is processed again.
pub proof fn sustained_silence_is_skipped(
    p: ProcessorView,
    s: SettingsView,
    samples: usize,
    channels: usize,
    n: nat,
)
    requires
        channels > 0,
        p.silent_blocks == 0,
    ensures
        ({
            let q = after_silence(p, s, samples, channels, n);
            let next = block_plan(q, s, true, samples, channels);
            &&& next.zero <==> n >= SILENCE_SKIP_BLOCKS
            &&& next.clear <==> n == SILENCE_SKIP_BLOCKS
            &&& !block_plan(q, s, false, samples, channels).zero
            &&& after_block(q, s, false, samples, channels).silent_blocks == 0
        }),
{
    silence_counts(p, s, samples, channels, n);
}

/// The processor after `n` audible blocks of `samples` samples.
pub open spec fn after_sound(
    p: ProcessorView,
    s: SettingsView,
    samples: usize,
    channels: usize,
    n: nat,
) -> ProcessorView
    decreases n,
{
    if n == 0 {
        p
    } else {
        after_block(
            after_sound(p, s, samples, channels, (n - 1) as nat),
            s,
            false,
            samples,
            channels,
        )
    }
}

/// A bypass transition under settings in force ends once as many frames as it had left have
/// been processed, and not before.
pub proof fn bypass_transition_ends(
    p: ProcessorView,
    s: SettingsView,
    samples: usize,
    channels: usize,
    n: nat,
)
    requires
        channels > 0,
        p.last == Some(s.generation),
    ensures
        after_sound(p, s, samples, channels, n).last == p.last,
        after_sound(p, s, samples, channels, n).ramp == if n * (samples / channels) >= p.ramp {
            0
        } else {
            p.ramp - n * (samples / channels)
        },
    decreases n,
{
    let f = (samples / channels) as int;
    if n > 0 {
        bypass_transition_ends(p, s, samples, channels, (n - 1) as nat);
        let m = n - 1;
        assert(n * f == m * f + f) by (nonlinear_arith)
            requires
                m == n - 1,
        ;
        assert(m * f >= 0) by (nonlinear_arith)
            requires
                m >= 0,
                f >= 0,
        ;
    } else {
        assert(0 * f == 0);
    }
}

/// Every block with channels is either played or zeroed. It is zeroed exactly when it is the
/// fourth silent one in a row or a later one. What is played is played whole, on every channel
/// that there is a cascade for, whether the settings are new or have been in force for long.
/// Without channels nothing happens.
pub proof fn every_block_is_played_or_zeroed(
    p: ProcessorView,
    s: SettingsView,
    silent: bool,
    samples: usize,
    channels: usize,
)
    ensures
        ({
            let plan = block_plan(p, s, silent, samples, channels);
            let after = after_block(p, s, silent, samples, channels);
            &&& plan.silent == silent
            &&& after.lanes == p.lanes
            &&& channels == 0 ==> after == p && plan.frames == 0 && plan.active == 0
                && !plan.zero && !plan.clear && !plan.synced && !plan.snap
            &&& channels > 0 ==> {
                &&& plan.zero <==> silent && p.silent_blocks >= 3
                &&& plan.clear <==> silent && p.silent_blocks == 3
                &&& !plan.zero ==> plan.frames == samples as int / channels as int
                &&& !plan.zero ==> plan.active <= channels && plan.active <= p.lanes && (
                plan.active == channels || plan.active == p.lanes)
                &&& plan.zero ==> plan.frames == 0 && plan.active == 0
                &&& plan.synced <==> p.last != Some(s.generation)
                &&& plan.snap <==> p.last is None
                &&& !silent ==> after.silent_blocks == 0
                &&& silent && p.silent_blocks < u32::MAX ==> after.silent_blocks
                    == p.silent_blocks + 1
                &&& p.silent_blocks == u32::MAX && silent ==> after.silent_blocks == u32::MAX
            }
        }),
{
}

/// A block under a snapshot that is in force is treated like the block before it: of two
/// blocks in a row with sound in them, the second is played on as many channels and over as
/// many frames as the first, with the same sections and without dropping a filter memory.
pub proof fn an_unchanged_snapshot_plays_on(
    p: ProcessorView,
    s: SettingsView,
    samples: usize,
    channels: usize,
)
    requires
        channels > 0,
    ensures
        ({
            let first = block_plan(p, s, false, samples, channels);
            let q = after_block(p, s, false, samples, channels);
            let second = block_plan(q, s, false, samples, channels);
            let r = after_block(q, s, false, samples, channels);
            &&& second.frames == first.frames
            &&& second.active == first.active
            &&& !second.zero
            &&& !second.clear
            &&& !second.synced
            &&& !second.snap
            &&& r.layout == q.layout
            &&& r.resets == q.resets
            &&& r.wet == q.wet
            &&& r.last == q.last
        }),
{
}

/// A bypass transition is as long as the snapshot says, and begins exactly when the endpoint
/// changes: the first snapshot is in force at once, an equal endpoint lets a transition under
/// way go on, and the frames of a block are taken off what is left of it.
pub proof fn a_bypass_change_is_faded(
    p: ProcessorView,
    s: SettingsView,
    silent: bool,
    samples: usize,
    channels: usize,
)
    requires
        channels > 0,
    ensures
        ({
            let plan = block_plan(p, s, silent, samples, channels);
            let after = after_block(p, s, silent, samples, channels);
            let frames = samples as int / channels as int;
            &&& p.last != Some(s.generation) ==> after.wet == !s.bypassed
            &&& p.last == Some(s.generation) ==> after.wet == p.wet
            &&& !plan.zero && p.last is None ==> plan.ramp == 0
            &&& !plan.zero && p.last is Some && p.last != Some(s.generation) && p.wet
                == s.bypassed ==> plan.ramp == s.ramp_frames
            &&& !plan.zero && p.last is Some && (p.last == Some(s.generation) || p.wet
                != s.bypassed) ==> plan.ramp == p.ramp
            &&& !plan.zero && frames >= plan.ramp ==> after.ramp == 0
            &&& !plan.zero && frames < plan.ramp ==> after.ramp == plan.ramp - frames
            &&& plan.zero && p.last is None ==> after.ramp == 0
            &&& plan.zero && p.last is Some && p.last != Some(s.generation) && p.wet
                == s.bypassed ==> after.ramp == s.ramp_frames
            &&& plan.zero && p.last is Some && (p.last == Some(s.generation) || p.wet
                != s.bypassed) ==> after.ramp == p.ramp
        }),
{
}

/// A snapshot holds what was ordered: the preamp, the limiter, the bypass endpoint, and of the
/// bands exactly those that are at least 0.001 dB away from flat, as often as they were given.
pub proof fn a_snapshot_holds_what_was_ordered(o: Order, stamp: u64)
    ensures
        ({
            let s = snapshot(o, stamp);
            &&& s.preamp_db == o.preamp_db
            &&& s.limiter == o.limiter
            &&& s.bypassed == o.bypassed
            &&& s.ramp_frames == o.ramp_frames
            &&& s.generation == stamp
            &&& forall|b: Band|
                #![trigger s.bands.to_multiset().count(b)]
                s.bands.to_multiset().count(b) == if 0x3a83_126f <= b.gain_db.magnitude_bits()
                    <= 0x7f80_0000 {
                    o.bands.to_multiset().count(b)
                } else {
                    0
                }
        }),
{
    assert forall|b: Band|
        #![trigger snapshot(o, stamp).bands.to_multiset().count(b)]
        snapshot(o, stamp).bands.to_multiset().count(b) == if 0x3a83_126f
            <= b.gain_db.magnitude_bits() <= 0x7f80_0000 {
            o.bands.to_multiset().count(b)
        } else {
            0
        } by {
        audible_counts(o.bands, b);
    }
}

proof fn audible_counts(bands: Seq<Band>, b: Band)
    ensures
        audible_bands(bands).to_multiset().count(b) == if b.audible() {
            bands.to_multiset().count(b)
        } else {
            0
        },
    decreases bands.len(),
{
    broadcast use vstd::seq_lib::group_to_multiset_ensures;

    reveal_with_fuel(Seq::filter, 2);
    if bands.len() > 0 {
        let d = bands.drop_last();
        audible_counts(d, b);
        assert(bands =~= d.push(bands.last()));
    } else {
        assert(audible_bands(bands) =~= Seq::empty());
        assert(bands =~= Seq::empty());
    }
}

/// The bands of a snapshot stand in the order they were given in: what is given last comes last,
/// and what is given before it is not affected by it.
pub proof fn a_snapshot_keeps_the_order(o: Order, more: Band, stamp: u64)
    ensures
        ({
            let s = snapshot(o, stamp);
            let t = snapshot(Order { bands: o.bands.push(more), ..o }, stamp);
            t.bands == s.bands || t.bands == s.bands.push(more)
        }),
{
    reveal_with_fuel(Seq::filter, 2);
    assert(o.bands.push(more).drop_last() =~= o.bands);
}

/// A block is silent exactly when every sample lies strictly between minus and plus 0.0001, so
/// that a silent block of two parts has two silent parts, and silence has no sign.
pub proof fn silence_is_in_every_sample(a: Seq<Single>, b: Seq<Single>)
    ensures
        silent_block(a) <==> forall|i: int|
            0 <= i < a.len() ==> (#[trigger] a[i]).finite() && -(Single {
                bits: 0x38d1_b717,
            }).value() < a[i].value() < (Single { bits: 0x38d1_b717 }).value(),
        silent_block(a + b) <==> silent_block(a) && silent_block(b),
{
    let limit = Single { bits: 0x38d1_b717 };
    assert forall|i: int| 0 <= i < a.len() implies ((#[trigger] a[i]).magnitude_bits()
        < SILENCE_BITS) == (a[i].finite() && -limit.value() < a[i].value() < limit.value()) by {
        let x = a[i];
        magnitude_not_negative(x.magnitude_bits());
        if x.finite() {
            magnitude_monotone(x.magnitude_bits(), limit.bits as int);
            magnitude_monotone(limit.bits as int, x.magnitude_bits());
        }
    }
    if silent_block(a + b) {
        assert forall|i: int| 0 <= i < a.len() implies (#[trigger] a[i]).magnitude_bits()
            < SILENCE_BITS by {
            assert((a + b)[i] == a[i]);
        }
        assert forall|i: int| 0 <= i < b.len() implies (#[trigger] b[i]).magnitude_bits()
            < SILENCE_BITS by {
            assert((a + b)[a.len() + i] == b[i]);
        }
    }
    if silent_block(a) && silent_block(b) {
        assert forall|i: int| 0 <= i < (a + b).len() implies (#[trigger] (a
            + b)[i]).magnitude_bits() < SILENCE_BITS by {
            if i < a.len() {
                assert((a + b)[i] == a[i]);
            } else {
                assert((a + b)[i] == b[i - a.len()]);
            }
        }
    }
}

/// Two valid frequencies are close exactly when they are less than half a hertz apart.
pub proof fn close_means_within_half_a_hertz(a: Single, b: Single)
    requires
        valid_frequency(a),
        valid_frequency(b),
    ensures
        close(a, b) <==> -pow2(148) < a.value() - b.value() < pow2(148),
{
    units_measure_frequency(a);
    units_measure_frequency(b);
    lemma2_to64();
    lemma_pow2_adds(18, 130);
    lemma_pow2_pos(130);
    let p = pow2(130) as int;
    let x = units(a);
    let y = units(b);
    let h = HALF_HERTZ as int;
    assert(x * p - y * p == (x - y) * p) by (nonlinear_arith);
    assert((x - y) * p < h * p <==> x - y < h) by (nonlinear_arith)
        requires
            p > 0,
    ;
    assert(-(h * p) < (x - y) * p <==> -h < x - y) by (nonlinear_arith)
        requires
            p > 0,
    ;
}

/// The first block that a new processor sees is played on all of its channels, under the
/// settings it comes with: they are in force at once, without a transition, and every section
/// starts from rest.
pub proof fn a_new_processor_plays_at_once(
    s: SettingsView,
    silent: bool,
    samples: usize,
    channels: usize,
)
    requires
        channels > 0,
    ensures
        ({
            let p = unused(channels);
            let plan = block_plan(p, s, silent, samples, channels);
            let after = after_block(p, s, silent, samples, channels);
            &&& plan.active == channels
            &&& plan.frames == samples as int / channels as int
            &&& plan.synced && plan.snap && !plan.zero && !plan.clear
            &&& plan.ramp == 0
            &&& after.last == Some(s.generation)
            &&& after.layout == s.bands
            &&& after.wet == !s.bypassed
            &&& forall|i: int| 0 <= i < s.bands.len() ==> #[trigger] after.resets[i]
        }),
{
}

/// A block under new settings lays out one section for each of their bands, and drops the
/// memory of exactly those sections that played another band, or none, before.
pub proof fn new_settings_keep_matching_memories(
    p: ProcessorView,
    s: SettingsView,
    silent: bool,
    samples: usize,
    channels: usize,
)
    requires
        channels > 0,
        p.last != Some(s.generation),
    ensures
        ({
            let after = after_block(p, s, silent, samples, channels);
            &&& after.layout == s.bands
            &&& after.resets.len() == s.bands.len()
            &&& forall|i: int|
                0 <= i < s.bands.len() ==> (!(#[trigger] after.resets[i]) <==> i < p.layout.len()
                    && p.layout[i].kind == s.bands[i].kind && p.layout[i].freq.equals(
                    s.bands[i].freq,
                ) && p.layout[i].gain_db.equals(s.bands[i].gain_db) && p.layout[i].q.equals(
                    s.bands[i].q,
                ))
        }),
{
}

} // verus!
