//! What each request and each poll comes to: which preset, which bands, which setting, and which
//! part of the engine's life it changes, what it leaves alone, and what is played and answered
//! afterwards.

use vstd::prelude::*;
use vstd::arithmetic::power2::*;
use crate::config::{
    band_fault, config_equals_itself, configs_differ_in_any_part, figures_have_their_ranges,
    preset_fault, presets_differ_in_any_figure, runnable_bands, shipped, the_preset_in_use,
    what_makes_a_band_runnable, within, within_q, ConfigView,
};
use crate::dsp::{close, close_means_within_half_a_hertz, valid_frequency, Band};
use crate::error::{ErrorView, Fault, Quantity};
use crate::gap::gap;
use crate::ipc::{RequestView, ResponsePoint, ResponseView, TuningView};
use crate::library::{
    an_export_is_the_preset, an_import_adds_one_preset, backed_up, backups_are_kept,
    deleting_is_exact, deleting_keeps_the_selection, modified_presets_are_found, name_fault,
    renaming_moves_one_preset, resetting_all, resetting_one_changes_just_it, shipped_names,
    which_names_are_free, BackupView, FileView,
};
use crate::number::{magnitude_not_negative, magnitude_of, Double, Single};
use crate::preset::{is_listing, listing, listing_exists, Contents, PresetView};
use crate::recovery::SECOND;
use crate::state;
use crate::state::{
    After, DaemonView, EngineView, Mirror, Move, Reply, SavingView, SettingView, StepView, Stopped,
};
use crate::sys::TargetView;
use crate::text::name_before;
use crate::tuning::{
    adding_a_band_adds_just_it, a_new_band_needs_room, in_frequency_order, removal,
    removal_takes_the_nearest, updating_a_band_changes_gain_and_q, valid_frequencies, Removal,
};

verus! {

// --- words ---------------------------------------------------------------------------------

/// The request is answered with a failure.
pub open spec fn fails(m: Move) -> bool {
    m.1 matches StepView::Finish(Err(_)) || m.1 matches StepView::Finish(Ok(ResponseView::Error(_)))
}

/// The request is answered with a failure, and nothing changes.
pub open spec fn refused(d: DaemonView, m: Move) -> bool {
    m.0 == d && fails(m)
}

/// The request is answered with what went wrong outside, in its own words, and nothing changes.
pub open spec fn refused_for(d: DaemonView, m: Move, reason: Seq<char>) -> bool {
    m.0 == d && (m.1 matches StepView::Finish(Err(e)) && e.fault == Fault::Outside && e.subject
        == reason)
}

/// The request is answered with this failure, about this text, and nothing changes.
pub open spec fn refused_as(d: DaemonView, m: Move, fault: Fault, subject: Seq<char>) -> bool {
    &&& m.0 == d
    &&& match m.1 {
        StepView::Finish(Err(e)) => e.fault == fault && e.subject == subject,
        StepView::Finish(Ok(ResponseView::Error(e))) => e.fault == fault && e.subject == subject,
        _ => false,
    }
}

/// From `a` to `b` only the working config and the bookkeeping of its draft change.
pub open spec fn edits_only(a: DaemonView, b: DaemonView) -> bool {
    &&& b.saved_config == a.saved_config
    &&& b.engine == a.engine
    &&& b.engine_target_on == a.engine_target_on
    &&& b.user_intent == a.user_intent
    &&& b.low_power == a.low_power
    &&& b.observed_output_id == a.observed_output_id
    &&& b.recovery == a.recovery
    &&& b.last_engine_error == a.last_engine_error
    &&& b.idle_suspended == a.idle_suspended
    &&& b.bypassed == a.bypassed
}

/// From `a` to `b` no switch changes, and neither does the selection.
pub open spec fn same_settings(a: ConfigView, b: ConfigView) -> bool {
    b.active_preset == a.active_preset && same_switches(a, b)
}

/// From `a` to `b` no switch changes.
pub open spec fn same_switches(a: ConfigView, b: ConfigView) -> bool {
    &&& b.limiter == a.limiter
    &&& b.auto_follow_new_devices == a.auto_follow_new_devices
    &&& b.auto_off_low_power == a.auto_off_low_power
    &&& b.auto_off_idle == a.auto_off_idle
    &&& b.enabled == a.enabled
}

/// From `a` to `b` no preset but the one of this name changes, comes, or goes.
pub open spec fn others_stay(a: Contents, b: Contents, name: Seq<char>) -> bool {
    forall|n: Seq<char>|
        n != name ==> (#[trigger] b.contains_key(n) <==> a.contains_key(n)) && (a.contains_key(n)
            ==> b[n] == a[n])
}

/// From `a` to `b` the contents of one preset change, and nothing else.
pub open spec fn retuned(a: ConfigView, b: ConfigView, name: Seq<char>) -> bool {
    &&& same_settings(a, b)
    &&& others_stay(a.presets, b.presets, name)
    &&& b.presets.contains_key(name)
}

/// What the engine is given is the active preset, with the limiter and the bypass as they are
/// set.
pub open spec fn plays(d: DaemonView, s: EngineView) -> bool {
    &&& d.config.presets.contains_key(d.config.active_preset) ==> s.bands
        == d.config.presets[d.config.active_preset].bands && s.preamp_db
        == d.config.presets[d.config.active_preset].preamp_db
    &&& s.limiter == d.config.limiter
    &&& s.bypassed == d.bypassed
}

/// The tuning is that of the active preset, and says whether an engine runs.
pub open spec fn tells(d: DaemonView, t: TuningView) -> bool {
    &&& t.enabled == (d.engine is Some)
    &&& t.preset == d.config.active_preset
    &&& d.config.presets.contains_key(d.config.active_preset) ==> t.bands
        == d.config.presets[d.config.active_preset].bands && t.preamp_db
        == d.config.presets[d.config.active_preset].preamp_db
}

/// The reply is of the kind that the request asks for, and true of the state.
pub open spec fn answers(d: DaemonView, reply: Reply, r: ResponseView) -> bool {
    match reply {
        Reply::Done => r == ResponseView::Done,
        Reply::Tuning => r matches ResponseView::Tuning(t) && tells(d, t),
        Reply::Presets => r matches ResponseView::Presets { active, names } && active
            == d.config.active_preset && (d.config.presets.dom().finite() ==> is_listing(
            names,
            d.config.presets,
        )),
        Reply::BandRemoved(b) => r matches ResponseView::BandRemoved { tuning, removed } && tells(
            d,
            tuning,
        ) && removed == b,
    }
}

/// A running engine is handed the settings of the state; where none runs, the request is
/// answered at once.
pub open spec fn heard(m: Move, reply: Reply) -> bool {
    match m.0.engine {
        Some(t) => m.1 matches StepView::Push { settings, rate, reply: r, failed } && plays(
            m.0,
            settings,
        ) && rate == t.sample_rate && r == reply && failed is None,
        None => m.1 matches StepView::Finish(Ok(r)) && answers(m.0, reply, r),
    }
}

/// What follows a change of the working config: an open session is mirrored with the change in
/// it, now or later, and a resolved one has its draft removed.
pub open spec fn taken_up(m: Move, reply: Reply, now: u64) -> bool {
    match m.1 {
        StepView::WriteDraft { draft, at, mirror } => draft == m.0.config && at == now && mirror
            == Mirror::Request(reply) && !m.0.config.equals(m.0.saved_config),
        StepView::RemoveDraft(r) => r == reply && m.0.config.equals(m.0.saved_config),
        _ => heard(m, reply) && m.0.draft_dirty && !m.0.config.equals(m.0.saved_config),
    }
}

/// The frequency is less than half a hertz away from that of the band.
pub open spec fn near(b: Band, freq: Single) -> bool {
    -pow2(148) < b.freq.value() - freq.value() < pow2(148)
}

// --- changes that are heard and answered -------------------------------------------------

proof fn answers_are_true(d: DaemonView, reply: Reply)
    ensures
        answers(d, reply, d.answer(reply)),
        plays(d, d.settings()),
        tells(d, d.tuning()),
{
    if d.config.presets.dom().finite() {
        listing_exists(d.config.presets);
    }
}

proof fn push_is_heard(d: DaemonView, reply: Reply)
    ensures
        heard(state::push(d, reply, None), reply),
        state::push(d, reply, None).0 == d,
{
    answers_are_true(d, reply);
}

proof fn sync_is_taken_up(d: DaemonView, reply: Reply, now: u64)
    ensures
        taken_up(state::sync(d, reply, now), reply, now),
        edits_only(d, state::sync(d, reply, now).0),
        state::sync(d, reply, now).0.config == d.config,
{
    push_is_heard(DaemonView { draft_dirty: true, ..d }, reply);
}

/// Every change of the working config is heard and answered: once the draft is written, or
/// could not be, and once it is removed, a running engine is handed the active preset as it is
/// now, and then the request is answered with the state as it is now.
pub proof fn changes_are_heard_and_answered(
    d: DaemonView,
    reply: Reply,
    at: u64,
    written: bool,
)
    ensures
        heard(state::draft_written(d, at, Mirror::Request(reply), written), reply),
        edits_only(d, state::draft_written(d, at, Mirror::Request(reply), written).0),
        state::draft_written(d, at, Mirror::Request(reply), written).0.config == d.config,
        written ==> state::draft_written(d, at, Mirror::Request(reply), written).0.draft_last_write
            == Some(at),
        heard(state::draft_removed(d, reply, None), reply),
        state::draft_removed(d, reply, None).0 == d,
        state::pushed(d, reply, None).0 == d,
        state::pushed(d, reply, None).1 matches StepView::Finish(Ok(r)) && answers(d, reply, r),
{
    answers_are_true(d, reply);
    push_is_heard(d, reply);
    push_is_heard(DaemonView { draft_last_write: Some(at), ..d }, reply);
}

/// A draft that stayed behind is told as a failure that names the path and the reason, after
/// the change was handed to the engine.
pub proof fn a_draft_that_stayed_is_told(
    d: DaemonView,
    reply: Reply,
    path: Seq<char>,
    reason: Seq<char>,
)
    ensures
        ({
            let e = ErrorView { fault: Fault::DraftNotRemoved, subject: path, detail: reason };
            let m = state::draft_removed(d, reply, Some((path, reason)));
            &&& m.0 == d
            &&& d.engine is None ==> m.1 == StepView::Finish(Err::<ResponseView, ErrorView>(e))
            &&& d.engine is Some ==> (m.1 matches StepView::Push { settings, failed, .. } && plays(
                d,
                settings,
            ) && failed == Some(e))
            &&& state::pushed(d, reply, Some(e)).1 == StepView::Finish(
                Err::<ResponseView, ErrorView>(e),
            )
        }),
{
    answers_are_true(d, reply);
}

// --- tuning the active preset --------------------------------------------------------------

/// Setting the preamp gives the active preset that preamp and leaves its bands, and everything
/// else, as they are. A preamp outside -60 dB to 12 dB is refused, and so is one where the
/// active preset is missing.
pub proof fn setting_the_preamp(d: DaemonView, db: Single, now: u64)
    ensures
        ({
            let n = d.config.active_preset;
            let m = state::applied(d, RequestView::SetPreamp(db), now);
            if within(db, -60, 12) && d.config.presets.contains_key(n) {
                &&& edits_only(d, m.0)
                &&& retuned(d.config, m.0.config, n)
                &&& m.0.config.presets[n].preamp_db == db
                &&& m.0.config.presets[n].bands == d.config.presets[n].bands
                &&& taken_up(m, Reply::Tuning, now)
            } else {
                refused(d, m)
            }
        }),
{
    preamp_is_set(d, db, now);
}

proof fn preamp_is_set(d: DaemonView, db: Single, now: u64)
    ensures
        ({
            let n = d.config.active_preset;
            let m = state::set_preamp(d, db, now);
            if within(db, -60, 12) && d.config.presets.contains_key(n) {
                &&& edits_only(d, m.0)
                &&& retuned(d.config, m.0.config, n)
                &&& m.0.config.presets[n].preamp_db == db
                &&& m.0.config.presets[n].bands == d.config.presets[n].bands
                &&& taken_up(m, Reply::Tuning, now)
            } else {
                refused(d, m)
            }
        }),
{
    figures_have_their_ranges(Quantity::Preamp, db);
    if let Ok(p) = state::own_preset(d.config) {
        sync_is_taken_up(
            state::edited(d, PresetView { preamp_db: db, ..p }),
            Reply::Tuning,
            now,
        );
    }
}

/// The automatic preamp measures the bands of the active preset, and then sets the preamp to as
/// much below 0 dB as the peak is above it, and to 0 dB where the peak is not above it. The
/// bands stay. A failed measurement is refused.
pub proof fn setting_the_preamp_by_the_peak(
    d: DaemonView,
    peak: Single,
    reason: Seq<char>,
    now: u64,
)
    requires
        peak.finite(),
        d.config.presets.contains_key(d.config.active_preset),
    ensures
        ({
            let n = d.config.active_preset;
            let ask = state::applied(d, RequestView::SetPreampAuto, now);
            let m = state::peak_measured(d, Ok(peak), now);
            let preamp = m.0.config.presets[n].preamp_db;
            &&& ask.0 == d
            &&& ask.1 matches StepView::MeasurePeak { bands, rate } && bands
                == d.config.presets[n].bands && rate == (match d.engine {
                Some(t) => Some(t.sample_rate),
                None => None,
            })
            &&& peak.value() <= 60 * pow2(149) ==> {
                &&& edits_only(d, m.0)
                &&& retuned(d.config, m.0.config, n)
                &&& preamp.finite()
                &&& peak.value() > 0 ==> preamp.value() == -peak.value()
                &&& peak.value() <= 0 ==> preamp.value() == 0
                &&& m.0.config.presets[n].bands == d.config.presets[n].bands
                &&& taken_up(m, Reply::Tuning, now)
            }
            &&& refused_for(d, state::peak_measured(d, Err(reason), now), reason)
        }),
{
    let x = state::offset(peak);
    preamp_is_set(d, x, now);
    magnitude_not_negative(peak.magnitude_bits());
    assert(magnitude_of(0) == 0);
    lemma_pow2_pos(149);
    if peak.bits < 0x8000_0000 && peak.bits != 0 {
        assert(x.magnitude_bits() == peak.magnitude_bits());
        assert(x.value() == -peak.value());
    } else {
        assert(x.value() == 0);
    }
}

proof fn valid_band(p: PresetView, i: int)
    requires
        preset_fault(p) is None,
        0 <= i < p.bands.len(),
    ensures
        valid_frequency(p.bands[i].freq),
{
    runnable_bands(p.bands);
    assert(band_fault(p.bands[i].freq, p.bands[i].gain_db, p.bands[i].q) is None);
}

proof fn close_is_near(p: PresetView, freq: Single)
    requires
        preset_fault(p) is None,
        valid_frequency(freq),
    ensures
        forall|i: int|
            0 <= i < p.bands.len() ==> close((#[trigger] p.bands[i]).freq, freq) == near(
                p.bands[i],
                freq,
            ),
{
    assert forall|i: int| 0 <= i < p.bands.len() implies close(
        (#[trigger] p.bands[i]).freq,
        freq,
    ) == near(p.bands[i], freq) by {
        valid_band(p, i);
        close_means_within_half_a_hertz(p.bands[i].freq, freq);
    }
}

/// Setting a band where the active preset has one within half a hertz gives the first of these
/// the gain and the Q that were asked for. Its kind and its frequency, every other band, their
/// order, the preamp, and everything else stay.
pub proof fn setting_a_band_that_is_there(d: DaemonView, band: Band, i: int, now: u64)
    requires
        d.config.runnable(),
        d.config.presets.contains_key(d.config.active_preset),
        within(band.freq, 20, 20000),
        within(band.gain_db, -24, 24),
        within_q(band.q),
        0 <= i < d.config.presets[d.config.active_preset].bands.len(),
        near(d.config.presets[d.config.active_preset].bands[i], band.freq),
        forall|j: int|
            0 <= j < i ==> !near(
                #[trigger] d.config.presets[d.config.active_preset].bands[j],
                band.freq,
            ),
    ensures
        ({
            let n = d.config.active_preset;
            let m = state::applied(
                d,
                RequestView::SetBand {
                    kind: band.kind,
                    freq: band.freq,
                    gain_db: band.gain_db,
                    q: band.q,
                },
                now,
            );
            let old_bands = d.config.presets[n].bands;
            let new_bands = m.0.config.presets[n].bands;
            &&& edits_only(d, m.0)
            &&& retuned(d.config, m.0.config, n)
            &&& m.0.config.presets[n].preamp_db == d.config.presets[n].preamp_db
            &&& new_bands.len() == old_bands.len()
            &&& new_bands[i].gain_db == band.gain_db
            &&& new_bands[i].q == band.q
            &&& new_bands[i].kind == old_bands[i].kind
            &&& new_bands[i].freq == old_bands[i].freq
            &&& forall|j: int|
                0 <= j < old_bands.len() && j != i ==> #[trigger] new_bands[j] == old_bands[j]
            &&& taken_up(m, Reply::Tuning, now)
        }),
{
    let p = d.config.presets[d.config.active_preset];
    what_makes_a_band_runnable(band);
    figures_have_their_ranges(Quantity::Frequency, band.freq);
    close_is_near(p, band.freq);
    assert forall|j: int| 0 <= j < i implies !close((#[trigger] p.bands[j]).freq, band.freq) by {
        assert(!near(p.bands[j], band.freq));
    }
    updating_a_band_changes_gain_and_q(p.bands, band, i);
    let bands = crate::tuning::with_band(p.bands, band)->Ok_0;
    sync_is_taken_up(state::edited(d, PresetView { bands, ..p }), Reply::Tuning, now);
    assert(Band { kind: band.kind, freq: band.freq, gain_db: band.gain_db, q: band.q } == band);
}

/// Setting a band where the active preset has none within half a hertz adds exactly that band:
/// its kind, its frequency, its gain, and its Q, in its place by frequency. Nothing else
/// changes. With 64 bands there already, it is refused.
pub proof fn setting_a_band_that_is_new(d: DaemonView, band: Band, now: u64)
    requires
        d.config.runnable(),
        d.config.presets.contains_key(d.config.active_preset),
        within(band.freq, 20, 20000),
        within(band.gain_db, -24, 24),
        within_q(band.q),
        forall|j: int|
            0 <= j < d.config.presets[d.config.active_preset].bands.len() ==> !near(
                #[trigger] d.config.presets[d.config.active_preset].bands[j],
                band.freq,
            ),
    ensures
        ({
            let n = d.config.active_preset;
            let m = state::applied(
                d,
                RequestView::SetBand {
                    kind: band.kind,
                    freq: band.freq,
                    gain_db: band.gain_db,
                    q: band.q,
                },
                now,
            );
            let old_bands = d.config.presets[n].bands;
            let new_bands = m.0.config.presets[n].bands;
            if old_bands.len() < 64 {
                &&& edits_only(d, m.0)
                &&& retuned(d.config, m.0.config, n)
                &&& m.0.config.presets[n].preamp_db == d.config.presets[n].preamp_db
                &&& new_bands.len() == old_bands.len() + 1
                &&& new_bands.to_multiset() == old_bands.to_multiset().insert(band)
                &&& in_frequency_order(new_bands)
                &&& taken_up(m, Reply::Tuning, now)
            } else {
                refused(d, m)
            }
        }),
{
    let p = d.config.presets[d.config.active_preset];
    what_makes_a_band_runnable(band);
    figures_have_their_ranges(Quantity::Frequency, band.freq);
    close_is_near(p, band.freq);
    assert forall|j: int| 0 <= j < p.bands.len() implies !close(
        (#[trigger] p.bands[j]).freq,
        band.freq,
    ) by {
        assert(!near(p.bands[j], band.freq));
    }
    a_new_band_needs_room(p.bands, band);
    if p.bands.len() < 64 {
        adding_a_band_adds_just_it(p.bands, band);
        let bands = crate::tuning::with_band(p.bands, band)->Ok_0;
        sync_is_taken_up(state::edited(d, PresetView { bands, ..p }), Reply::Tuning, now);
    }
    assert(Band { kind: band.kind, freq: band.freq, gain_db: band.gain_db, q: band.q } == band);
}

/// A band with a figure outside its range is refused, and so is any band where the active
/// preset is missing.
pub proof fn setting_a_bad_band(d: DaemonView, band: Band, now: u64)
    requires
        !within(band.freq, 20, 20000) || !within(band.gain_db, -24, 24) || !within_q(band.q)
            || !d.config.presets.contains_key(d.config.active_preset),
    ensures
        refused(
            d,
            state::applied(
                d,
                RequestView::SetBand {
                    kind: band.kind,
                    freq: band.freq,
                    gain_db: band.gain_db,
                    q: band.q,
                },
                now,
            ),
        ),
{
    what_makes_a_band_runnable(band);
}

/// Removing a band takes one band out of the active preset, the nearest one to the frequency,
/// and reports it; the other bands, their order, the preamp, and everything else stay. It is
/// refused where no band is within half a hertz, where there are no bands, where the frequency
/// is out of its range, and where the active preset is missing.
pub proof fn removing_a_band(d: DaemonView, freq: Single, now: u64)
    requires
        d.config.runnable(),
    ensures
        ({
            let n = d.config.active_preset;
            let m = state::applied(d, RequestView::RemoveBand { freq }, now);
            let old_bands = d.config.presets[n].bands;
            let new_bands = m.0.config.presets[n].bands;
            if within(freq, 20, 20000) && d.config.presets.contains_key(n) && (exists|i: int|
                0 <= i < old_bands.len() && near(#[trigger] old_bands[i], freq)) {
                &&& edits_only(d, m.0)
                &&& retuned(d.config, m.0.config, n)
                &&& m.0.config.presets[n].preamp_db == d.config.presets[n].preamp_db
                &&& exists|k: int|
                    0 <= k < old_bands.len() && near(#[trigger] old_bands[k], freq) && new_bands
                        == old_bands.remove(k) && taken_up(
                        m,
                        Reply::BandRemoved(old_bands[k]),
                        now,
                    ) && (forall|i: int|
                        0 <= i < old_bands.len() ==> gap(old_bands[k].freq, freq) <= gap(
                            (#[trigger] old_bands[i]).freq,
                            freq,
                        ))
            } else {
                refused(d, m)
            }
        }),
{
    figures_have_their_ranges(Quantity::Frequency, freq);
    let n = d.config.active_preset;
    if within(freq, 20, 20000) && d.config.presets.contains_key(n) {
        let p = d.config.presets[n];
        assert(valid_frequencies(p.bands)) by {
            assert forall|i: int| 0 <= i < p.bands.len() implies valid_frequency(
                (#[trigger] p.bands[i]).freq,
            ) by {
                valid_band(p, i);
            }
        }
        removal_takes_the_nearest(p.bands, freq);
        match removal(p.bands, freq) {
            Removal::Hit(k) => {
                assert(near(p.bands[k as int], freq));
                sync_is_taken_up(
                    state::edited(d, PresetView { bands: p.bands.remove(k as int), ..p }),
                    Reply::BandRemoved(p.bands[k as int]),
                    now,
                );
            },
            Removal::Miss(f) => {
                assert forall|i: int| 0 <= i < p.bands.len() implies !near(
                    #[trigger] p.bands[i],
                    freq,
                ) by {}
            },
            Removal::Empty => {},
        }
    }
}

// --- switches and the selection --------------------------------------------------------------

/// From `a` to `b` only the two configs and the bookkeeping of the draft change.
pub open spec fn configs_only(a: DaemonView, b: DaemonView) -> bool {
    edits_only(a, DaemonView { saved_config: a.saved_config, ..b })
}

/// From `a` to `b` nothing that the user set changes: neither the configs nor their draft, nor
/// on and off, nor the bypass.
pub open spec fn engine_only(a: DaemonView, b: DaemonView) -> bool {
    &&& b.config == a.config
    &&& b.saved_config == a.saved_config
    &&& b.user_intent == a.user_intent
    &&& b.bypassed == a.bypassed
    &&& b.draft_dirty == a.draft_dirty
    &&& b.draft_last_write == a.draft_last_write
}

/// The engine is to be started on the active preset, in a fresh incident.
pub open spec fn starts(m: Move, after: After) -> bool {
    m.1 matches StepView::Start { settings, after: a, retry } && plays(m.0, settings) && a == after
        && !retry
}

/// The running engine is to be stopped, and counts as stopped.
pub open spec fn stops(m: Move, after: After) -> bool {
    m.0.engine is None && m.1 == StepView::Stop(Stopped::Then(after))
}

/// Selecting a preset that is there makes it the active one, in memory and on disk, and changes
/// nothing else: it is persisted first, then it is played and answered. Another name is refused.
pub proof fn selecting_a_preset(d: DaemonView, name: Seq<char>, now: u64)
    requires
        d.inv(),
    ensures
        ({
            let m = state::applied(d, RequestView::SetPreset(name), now);
            if !d.config.presets.contains_key(name) {
                refused(d, m)
            } else if d.config.active_preset == name {
                edits_only(d, m.0) && m.0.config == d.config && taken_up(m, Reply::Tuning, now)
            } else {
                let next = ConfigView { active_preset: name, ..d.saved_config };
                &&& m.0 == d
                &&& m.1 matches StepView::Save { next: n, saving } && n == next && ({
                    let e = state::saved(d, n, saving, None, now);
                    &&& e.0.config == (ConfigView { active_preset: name, ..d.config })
                    &&& e.0.saved_config == next
                    &&& configs_only(d, e.0)
                    &&& taken_up(e, Reply::Tuning, now)
                })
            }
        }),
{
    let s = SettingView::ActivePreset(name);
    let next = s.applied(d.saved_config);
    config_equals_itself(d.saved_config);
    configs_differ_in_any_part(next, d.saved_config);
    if d.config.active_preset == name {
        assert(next == d.saved_config);
    }
    sync_is_taken_up(d, Reply::Tuning, now);
    let e = DaemonView { config: s.applied(d.config), saved_config: next, ..d };
    sync_is_taken_up(e, Reply::Tuning, now);
}

/// Switching the limiter sets it, in memory and on disk, and changes nothing else; a running
/// engine is handed it.
pub proof fn switching_the_limiter(d: DaemonView, on: bool, now: u64)
    requires
        d.inv(),
    ensures
        ({
            let m = state::applied(d, RequestView::SetLimiter(on), now);
            if d.config.limiter == on {
                edits_only(d, m.0) && m.0.config == d.config && taken_up(m, Reply::Done, now)
            } else {
                let next = ConfigView { limiter: on, ..d.saved_config };
                &&& m.0 == d
                &&& m.1 matches StepView::Save { next: n, saving } && n == next && ({
                    let e = state::saved(d, n, saving, None, now);
                    &&& e.0.config == (ConfigView { limiter: on, ..d.config })
                    &&& e.0.saved_config == next
                    &&& configs_only(d, e.0)
                    &&& taken_up(e, Reply::Done, now)
                })
            }
        }),
{
    let s = SettingView::Limiter(on);
    let next = s.applied(d.saved_config);
    config_equals_itself(d.saved_config);
    configs_differ_in_any_part(next, d.saved_config);
    if d.config.limiter == on {
        assert(next == d.saved_config);
    }
    sync_is_taken_up(d, Reply::Done, now);
    let e = DaemonView { config: s.applied(d.config), saved_config: next, ..d };
    sync_is_taken_up(e, Reply::Done, now);
}

/// What switching the power-saving policy does to the engine, once the policy is on disk.
pub open spec fn power_policy_acts(d: DaemonView, on: bool, m: Move) -> bool {
    let wanted = d.user_intent && !d.idle_suspended;
    &&& engine_only(d, m.0)
    &&& m.0.idle_suspended == d.idle_suspended
    &&& m.0.low_power == d.low_power
    &&& on && d.low_power ==> !m.0.engine_target_on && m.0.engine is None && !(m.1 is Start)
    &&& on && d.low_power && d.engine is Some ==> stops(m, After::Toggle)
    &&& on && !d.low_power ==> m.0.engine_target_on == d.engine_target_on && m.0.recovery
        == d.recovery
    &&& !on ==> m.0.engine_target_on == wanted
    &&& !on && wanted && d.engine is None ==> starts(m, After::Toggle)
    &&& !on && wanted && d.engine is Some ==> m.0.engine == d.engine && m.1 == StepView::Finish(
        Ok::<ResponseView, ErrorView>(ResponseView::Done),
    )
    &&& !on && !wanted && d.engine is Some ==> stops(m, After::Toggle)
    &&& !on && !wanted && d.engine is None ==> m.1 == StepView::Finish(
        Ok::<ResponseView, ErrorView>(ResponseView::Done),
    )
}

/// Switching the power-saving policy records it, in memory and on disk, and acts on it:
/// switching it on while power is saved turns the engine off; switching it off brings back what
/// the user wants, unless the engine is idle.
pub proof fn switching_the_power_policy(d: DaemonView, on: bool, now: u64)
    requires
        d.inv(),
    ensures
        ({
            let m = state::applied(d, RequestView::SetAutoOffLowPower(on), now);
            if d.config.auto_off_low_power == on {
                power_policy_acts(d, on, m)
            } else {
                let next = ConfigView { auto_off_low_power: on, ..d.saved_config };
                let kept = DaemonView {
                    config: ConfigView { auto_off_low_power: on, ..d.config },
                    saved_config: next,
                    ..d
                };
                &&& m.0 == d
                &&& m.1 matches StepView::Save { next: n, saving } && n == next
                    && power_policy_acts(kept, on, state::saved(d, n, saving, None, now))
            }
        }),
{
    let s = SettingView::AutoOffLowPower(on);
    let next = s.applied(d.saved_config);
    config_equals_itself(d.saved_config);
    configs_differ_in_any_part(next, d.saved_config);
    if d.config.auto_off_low_power == on {
        assert(next == d.saved_config);
    }
    let e = DaemonView { config: s.applied(d.config), saved_config: next, ..d };
    power_policy_follows(d, on, now);
    power_policy_follows(e, on, now);
}

proof fn power_policy_follows(d: DaemonView, on: bool, now: u64)
    ensures
        power_policy_acts(
            d,
            on,
            state::setting_kept(d, SettingView::AutoOffLowPower(on), now),
        ),
{
    answers_are_true(state::low_power_policy(d, on), Reply::Done);
}

/// What switching the idle policy does to the engine, once the policy is on disk.
pub open spec fn idle_policy_acts(d: DaemonView, on: bool, m: Move) -> bool {
    let resumes = !on && d.idle_suspended && d.user_intent && !(d.config.auto_off_low_power
        && d.low_power);
    &&& engine_only(d, m.0)
    &&& m.0.low_power == d.low_power
    &&& on ==> m.0.idle_suspended == d.idle_suspended
    &&& !on ==> !m.0.idle_suspended
    &&& resumes ==> m.0.engine_target_on
    &&& resumes && d.engine is None ==> starts(m, After::Toggle)
    &&& !resumes ==> m.0.engine_target_on == d.engine_target_on && m.0.recovery == d.recovery
}

/// Switching the idle policy records it, in memory and on disk, and acts on it: switching it
/// off lifts an idle suspension, and starts the engine if the user wants it and power saving
/// does not keep it off.
pub proof fn switching_the_idle_policy(d: DaemonView, on: bool, now: u64)
    requires
        d.inv(),
    ensures
        ({
            let m = state::applied(d, RequestView::SetAutoOffIdle(on), now);
            if d.config.auto_off_idle == on {
                idle_policy_acts(d, on, m)
            } else {
                let next = ConfigView { auto_off_idle: on, ..d.saved_config };
                let kept = DaemonView {
                    config: ConfigView { auto_off_idle: on, ..d.config },
                    saved_config: next,
                    ..d
                };
                &&& m.0 == d
                &&& m.1 matches StepView::Save { next: n, saving } && n == next
                    && idle_policy_acts(kept, on, state::saved(d, n, saving, None, now))
            }
        }),
{
    let s = SettingView::AutoOffIdle(on);
    let next = s.applied(d.saved_config);
    config_equals_itself(d.saved_config);
    configs_differ_in_any_part(next, d.saved_config);
    if d.config.auto_off_idle == on {
        assert(next == d.saved_config);
    }
    let e = DaemonView { config: s.applied(d.config), saved_config: next, ..d };
    idle_policy_follows(d, on, now);
    idle_policy_follows(e, on, now);
}

proof fn idle_policy_follows(d: DaemonView, on: bool, now: u64)
    ensures
        idle_policy_acts(d, on, state::setting_kept(d, SettingView::AutoOffIdle(on), now)),
{
    answers_are_true(state::idle_policy(d, on), Reply::Done);
}

/// The bypass is what was asked for, and nothing else changes; a running engine is told at
/// once, and nothing is written.
pub proof fn switching_the_bypass(d: DaemonView, on: bool, now: u64)
    ensures
        ({
            let m = state::applied(d, RequestView::SetBypass(on), now);
            &&& m.0 == (DaemonView { bypassed: on, ..d })
            &&& heard(m, Reply::Done)
        }),
{
    push_is_heard(DaemonView { bypassed: on, ..d }, Reply::Done);
}

// --- on and off --------------------------------------------------------------------------------

/// How the user's on or off is recorded: in both configs, and nowhere else, unless it is on disk
/// already; a failed write is told.
pub open spec fn recorded(d: DaemonView, on: bool, m: Move, now: u64) -> bool {
    &&& m.0 == d
    &&& d.saved_config.enabled != on ==> {
        let next = ConfigView { enabled: on, ..d.saved_config };
        m.1 matches StepView::Save { next: n, saving } && n == next && ({
            let e = state::saved(d, n, saving, None, now);
            &&& e.0 == (DaemonView {
                config: ConfigView { enabled: on, ..d.config },
                saved_config: next,
                ..d
            })
            &&& e.1 is Finish
        })
    }
    &&& d.saved_config.enabled == on ==> m.1 is Finish
}

/// What `on` is answered: the tuning, or that the native output is active where the engine did
/// not start.
pub open spec fn on_answered(d: DaemonView, failed: bool, step: StepView) -> bool {
    if failed {
        step matches StepView::Finish(Err(e)) && e.fault == Fault::NativeOutput
    } else {
        step matches StepView::Finish(Ok(ResponseView::Tuning(t))) && tells(d, t)
    }
}

/// What `off` is answered: that there are unsaved edits, with the presets that have them, where
/// there are any; and nothing more where there are none.
pub open spec fn off_answered(d: DaemonView, step: StepView) -> bool {
    if d.config.equals(d.saved_config) {
        step == StepView::Finish(Ok::<ResponseView, ErrorView>(ResponseView::Done))
    } else {
        step matches StepView::Finish(
            Ok(ResponseView::UnsavedSession { tuning, dirty_presets }),
        ) && tells(d, tuning) && (d.config.presets.dom().finite() ==> forall|n: Seq<char>|
            #[trigger]
            dirty_presets.contains(n) <==> d.config.presets.contains_key(n) && !(
            d.saved_config.presets.contains_key(n) && d.config.presets[n].equals(
                d.saved_config.presets[n],
            )))
    }
}

proof fn dirty_names_are_those_that_differ(d: DaemonView)
    requires
        d.config.presets.dom().finite(),
    ensures
        forall|n: Seq<char>| #[trigger]
            d.dirty_names().contains(n) <==> d.config.presets.contains_key(n) && !(
            d.saved_config.presets.contains_key(n) && d.config.presets[n].equals(
                d.saved_config.presets[n],
            )),
{
    let s = listing(d.config.presets);
    let f = |n: Seq<char>| d.dirty(n);
    listing_exists(d.config.presets);
    assert forall|n: Seq<char>| #[trigger] d.dirty_names().contains(n) <==> s.contains(n)
        && d.dirty(n) by {
        filtered(s, f, n);
    }
}

proof fn filtered(s: Seq<Seq<char>>, f: spec_fn(Seq<char>) -> bool, n: Seq<char>)
    ensures
        s.filter(f).contains(n) <==> s.contains(n) && f(n),
    decreases s.len(),
{
    reveal_with_fuel(Seq::filter, 2);
    if s.len() > 0 {
        let t = s.drop_last();
        filtered(t, f, n);
        if s.contains(n) {
            let i = choose|i: int| 0 <= i < s.len() && s[i] == n;
            if i < t.len() {
                assert(t[i] == n);
            } else if f(n) {
                let r = s.filter(f);
                assert(r[r.len() - 1] == n);
            }
        }
        if t.contains(n) {
            let i = choose|i: int| 0 <= i < t.len() && t[i] == n;
            assert(s[i] == n);
        }
        if t.filter(f).contains(n) {
            let u = t.filter(f);
            let i = choose|i: int| 0 <= i < u.len() && u[i] == n;
            assert(s.filter(f)[i] == n);
        }
        if s.filter(f).contains(n) {
            let u = s.filter(f);
            let i = choose|i: int| 0 <= i < u.len() && u[i] == n;
            if f(s.last()) {
                if i < t.filter(f).len() {
                    assert(t.filter(f)[i] == n);
                } else {
                    assert(s[s.len() - 1] == n);
                }
            } else {
                assert(t.filter(f)[i] == n);
            }
        }
    }
}

proof fn recording(d: DaemonView, on: bool, failed: bool, now: u64)
    requires
        d.saved_config.runnable(),
    ensures
        recorded(d, on, state::record_enabled(d, on, failed), now),
        d.saved_config.enabled == on ==> state::record_enabled(d, on, failed)
            == state::enabled_recorded(d, on, failed),
        on ==> on_answered(d, failed, state::enabled_recorded(d, on, failed).1),
        !on ==> off_answered(d, state::enabled_recorded(d, on, failed).1),
{
    let next = ConfigView { enabled: on, ..d.saved_config };
    config_equals_itself(d.saved_config);
    configs_differ_in_any_part(next, d.saved_config);
    if d.saved_config.enabled == on {
        assert(next == d.saved_config);
    }
    answers_are_true(d, Reply::Tuning);
    if d.config.presets.dom().finite() {
        dirty_names_are_those_that_differ(d);
    }
}

/// `on` records that the user wants the EQ, lifts an idle suspension, forgets an old incident,
/// and starts the engine if it does not run; nothing else changes. Once the engine runs, or did
/// not start, the on is recorded on disk, and the tuning or the failure is told.
pub proof fn turning_it_on(
    d: DaemonView,
    result: Result<TargetView, Seq<char>>,
    now: u64,
)
    requires
        d.saved_config.runnable(),
    ensures
        ({
            let m = state::applied(d, RequestView::Enable, now);
            let s = state::started(m.0, After::Enable, false, result, now);
            &&& m.0 == (DaemonView {
                user_intent: true,
                idle_suspended: false,
                engine_target_on: true,
                recovery: m.0.recovery,
                ..d
            })
            &&& m.0.recovery.next_retry is None
            &&& !m.0.recovery.exhausted
            &&& m.0.recovery.retries_attempted == 0
            &&& d.engine is None ==> starts(m, After::Enable)
            &&& d.engine is Some ==> recorded(m.0, true, m, now)
            &&& d.engine is Some && d.saved_config.enabled ==> on_answered(m.0, false, m.1)
            &&& recorded(s.0, true, s, now)
            &&& d.saved_config.enabled ==> on_answered(s.0, result is Err, s.1)
        }),
{
    let m = state::applied(d, RequestView::Enable, now);
    let s = state::started(m.0, After::Enable, false, result, now);
    recording(m.0, true, false, now);
    recording(s.0, true, result is Err, now);
    answers_are_true(m.0, Reply::Tuning);
}

/// `off` records that the user does not want the EQ, and stops a running engine first; nothing
/// else but the suspension and the incident changes. Then the off is recorded on disk, and
/// unsaved edits are told.
pub proof fn turning_it_off(d: DaemonView, now: u64)
    requires
        d.saved_config.runnable(),
    ensures
        ({
            let m = state::applied(d, RequestView::Disable, now);
            let s = state::stopped(m.0, Stopped::Then(After::Disable));
            &&& m.0 == (DaemonView {
                user_intent: false,
                idle_suspended: false,
                engine_target_on: false,
                engine: None,
                recovery: m.0.recovery,
                ..d
            })
            &&& m.0.recovery.next_retry is None
            &&& d.engine is Some ==> stops(m, After::Disable)
            &&& d.engine is None ==> recorded(m.0, false, m, now)
            &&& d.engine is None && !d.saved_config.enabled ==> off_answered(m.0, m.1)
            &&& recorded(m.0, false, s, now)
            &&& !d.saved_config.enabled ==> off_answered(m.0, s.1)
        }),
{
    let m = state::applied(d, RequestView::Disable, now);
    recording(m.0, false, false, now);
}

/// Once the on or off is on disk, it is answered: `on` with the tuning or the failure to start,
/// `off` with the unsaved edits if there are any. Where the write fails nothing changes, and
/// the failure says which of the two was not saved.
pub proof fn a_recorded_switch_is_answered(
    d: DaemonView,
    next: ConfigView,
    failed: bool,
    reason: Seq<char>,
    now: u64,
)
    ensures
        ({
            let on = SavingView::Enabled { on: true, failed };
            let off = SavingView::Enabled { on: false, failed };
            let a = state::saved(d, next, on, None, now);
            let b = state::saved(d, next, off, None, now);
            &&& on_answered(a.0, failed, a.1)
            &&& off_answered(b.0, b.1)
            &&& state::saved(d, next, on, Some(reason), now).0 == d
            &&& state::saved(d, next, off, Some(reason), now).0 == d
            &&& state::saved(d, next, on, Some(reason), now).1 matches StepView::Finish(Err(e))
                && e.fault == Fault::OnNotSaved
            &&& state::saved(d, next, off, Some(reason), now).1 matches StepView::Finish(Err(e))
                && e.fault == Fault::OffNotSaved
        }),
{
    let a = state::saved(d, next, SavingView::Enabled { on: true, failed }, None, now);
    let b = state::saved(d, next, SavingView::Enabled { on: false, failed }, None, now);
    answered_by_the_state(a.0, failed);
    answered_by_the_state(b.0, failed);
}

proof fn answered_by_the_state(d: DaemonView, failed: bool)
    ensures
        on_answered(d, failed, state::enabled_recorded(d, true, failed).1),
        off_answered(d, state::enabled_recorded(d, false, failed).1),
        state::enabled_recorded(d, true, failed).0 == d,
        state::enabled_recorded(d, false, failed).0 == d,
{
    answers_are_true(d, Reply::Tuning);
    if d.config.presets.dom().finite() {
        dirty_names_are_those_that_differ(d);
    }
}

// --- managing presets --------------------------------------------------------------------------

/// The request is refused for the unsaved edits that are open.
pub open spec fn waits(d: DaemonView, m: Move) -> bool {
    m.0 == d && (m.1 matches StepView::Finish(Err(e)) && e.fault == Fault::UnsavedSession)
}

/// A config is to be written, which becomes both the saved and the working one; until then
/// nothing changes.
pub open spec fn stores(d: DaemonView, m: Move, reply: Reply) -> bool {
    m.0 == d && (m.1 matches StepView::Save { next, saving } && saving == (SavingView::Presets {
        working: next,
        reply,
    }))
}

/// The config that is to be written.
pub open spec fn stored(m: Move) -> ConfigView {
    m.1->Save_next
}

/// Cloning stores a copy of the source, as it is in the working config, under the new name,
/// selects it, and changes no other preset and no switch.
pub proof fn cloning_a_preset(d: DaemonView, source: Seq<char>, dest: Seq<char>, now: u64)
    requires
        d.inv(),
    ensures
        ({
            let m = state::applied(d, RequestView::ClonePreset { source, dest }, now);
            let next = stored(m);
            if !d.config.equals(d.saved_config) {
                waits(d, m)
            } else if name_fault(dest) is None && !d.config.presets.contains_key(dest)
                && d.config.presets.contains_key(source) {
                &&& stores(d, m, Reply::Tuning)
                &&& next.active_preset == dest
                &&& next.presets.contains_key(dest)
                &&& next.presets[dest] == d.config.presets[source]
                &&& others_stay(d.saved_config.presets, next.presets, dest)
                &&& same_switches(d.saved_config, next)
            } else {
                refused(d, m)
            }
        }),
{
    assert(d.config.presets.dom().contains(dest) <==> d.saved_config.presets.dom().contains(dest));
}

/// Deleting stores the library without the named presets. The selection stays, unless it is
/// among them; then the first preset that is left is selected. Nothing else changes.
pub proof fn deleting_presets(d: DaemonView, names: Seq<Seq<char>>, now: u64)
    requires
        d.inv(),
    ensures
        ({
            let m = state::applied(d, RequestView::DeletePresets { names }, now);
            let next = stored(m);
            if !d.config.equals(d.saved_config) {
                waits(d, m)
            } else if names.len() > 0 && names.no_duplicates() && (forall|i: int|
                0 <= i < names.len() ==> d.config.presets.contains_key(#[trigger] names[i]))
                && names.len() < d.config.presets.dom().len() {
                &&& stores(d, m, Reply::Presets)
                &&& forall|n: Seq<char>| #[trigger]
                    next.presets.contains_key(n) <==> d.config.presets.contains_key(n)
                        && !names.contains(n)
                &&& forall|n: Seq<char>| #[trigger]
                    next.presets.contains_key(n) ==> next.presets[n] == d.config.presets[n]
                &&& !names.contains(d.config.active_preset) ==> next.active_preset
                    == d.config.active_preset
                &&& names.contains(d.config.active_preset) ==> {
                    &&& next.presets.contains_key(next.active_preset)
                    &&& forall|n: Seq<char>| #[trigger]
                        next.presets.contains_key(n) && n != next.active_preset ==> name_before(
                            next.active_preset,
                            n,
                        )
                }
                &&& same_switches(d.config, next)
            } else {
                refused(d, m)
            }
        }),
{
    deleting_keeps_the_selection(d.config, names);
    if crate::library::deleted(d.config, names) is Ok {
        deleting_is_exact(d.config, names);
    }
}

/// Renaming stores the library with one preset under its new name; the selection follows it.
pub proof fn renaming_a_preset(d: DaemonView, from: Seq<char>, to: Seq<char>, now: u64)
    requires
        d.inv(),
    ensures
        ({
            let m = state::applied(d, RequestView::RenamePreset { from, to }, now);
            let next = stored(m);
            if !d.config.equals(d.saved_config) {
                waits(d, m)
            } else if d.config.presets.contains_key(from) && name_fault(to) is None && (to == from
                || !d.config.presets.contains_key(to)) {
                &&& stores(d, m, Reply::Tuning)
                &&& next.presets.contains_key(to)
                &&& next.presets[to] == d.config.presets[from]
                &&& from != to ==> !next.presets.contains_key(from)
                &&& forall|n: Seq<char>|
                    n != to && n != from ==> (#[trigger] next.presets.contains_key(n)
                        <==> d.config.presets.contains_key(n)) && (d.config.presets.contains_key(n)
                        ==> next.presets[n] == d.config.presets[n])
                &&& next.active_preset == if d.config.active_preset == from {
                    to
                } else {
                    d.config.active_preset
                }
                &&& same_switches(d.config, next)
            } else {
                refused(d, m)
            }
        }),
{
    renaming_moves_one_preset(d.config, from, to);
}

/// Exporting writes the named preset as it is to the path, and changes nothing; a preset that is
/// not there is refused. A failed write is told.
pub proof fn exporting_a_preset(
    d: DaemonView,
    name: Seq<char>,
    path: Seq<char>,
    reason: Seq<char>,
    now: u64,
)
    ensures
        ({
            let m = state::applied(d, RequestView::ExportPreset { name, path }, now);
            if d.config.presets.contains_key(name) {
                m.0 == d && (m.1 matches StepView::WritePreset { path: p, file } && p == path
                    && file.name == name && file.preset == d.config.presets[name])
            } else {
                refused(d, m)
            }
        }),
        state::preset_written(d, None) == (
            d,
            StepView::Finish(Ok::<ResponseView, ErrorView>(ResponseView::Done)),
        ),
        refused_for(d, state::preset_written(d, Some(reason)), reason),
{
    an_export_is_the_preset(d.config, name);
    if d.config.presets.contains_key(name) {
        let f = crate::library::exported(d.config, name)->Ok_0;
        assert(f.preset =~= d.config.presets[name]);
    }
}

/// Importing reads the file at the path, and then stores one more preset with its contents,
/// under the name that was asked for or else the file's, and selects it.
pub proof fn importing_a_preset(
    d: DaemonView,
    path: Seq<char>,
    name: Option<Seq<char>>,
    file: FileView,
    reason: Seq<char>,
    now: u64,
)
    requires
        d.inv(),
    ensures
        ({
            let ask = state::applied(d, RequestView::ImportPreset { path, name }, now);
            let m = state::preset_read(d, Ok(file), name);
            let next = stored(m);
            let n = match name {
                Some(n) => n,
                None => file.name,
            };
            &&& d.config.equals(d.saved_config) ==> ask == (
                d,
                (StepView::ReadPreset { path, name }),
            )
            &&& !d.config.equals(d.saved_config) ==> waits(d, ask)
            &&& refused_for(d, state::preset_read(d, Err(reason), name), reason)
            &&& if name_fault(n) is None && !d.config.presets.contains_key(n) && preset_fault(
                file.preset,
            ) is None {
                &&& stores(d, m, Reply::Tuning)
                &&& next.active_preset == n
                &&& next.presets.contains_key(n)
                &&& next.presets[n] == file.preset
                &&& others_stay(d.config.presets, next.presets, n)
                &&& same_switches(d.config, next)
            } else {
                refused(d, m)
            }
        }),
{
    an_import_adds_one_preset(d.config, file, name);
    let m = state::preset_read(d, Ok(file), name);
    let n = match name {
        Some(n) => n,
        None => file.name,
    };
    if crate::library::imported(d.config, file, name) is Ok {
        assert(stored(m).presets[n] =~= file.preset);
    }
}

/// Saving the tuning under a name stores what is being played under that name, in the saved
/// config and in the working one, and selects it. The saved config changes nowhere else. In the
/// working config, unsaved edits to other presets stay, and those of the preset that was active
/// are left to the new name. The name of another preset that is not a shipped one is refused.
pub proof fn saving_the_tuning_as(d: DaemonView, name: Seq<char>, now: u64)
    requires
        d.inv(),
        d.config.presets.contains_key(d.config.active_preset),
    ensures
        ({
            let active = d.config.active_preset;
            let m = state::applied(d, RequestView::SavePreset { name }, now);
            let next = m.1->Save_next;
            let working = m.1->Save_saving->Presets_working;
            &&& m == state::applied(d, RequestView::SaveSessionAs { name }, now)
            &&& m.0 == d
            &&& if name_fault(name) is None && (!d.config.presets.contains_key(name) || name
                == "bright"@ || name == "mellow"@ || name == "pro"@ || name == active) {
                &&& m.1 matches StepView::Save { saving, .. } && (saving matches SavingView::Presets {
                    reply,
                    ..
                } && reply == Reply::Tuning)
                &&& next.active_preset == name
                &&& next.presets.contains_key(name)
                &&& next.presets[name] == d.config.presets[active]
                &&& others_stay(d.saved_config.presets, next.presets, name)
                &&& same_switches(d.saved_config, next)
                &&& working.active_preset == name
                &&& working.presets.contains_key(name)
                &&& working.presets[name] == d.config.presets[active]
                &&& active != name ==> working.presets.contains_key(active)
                    && working.presets[active] == d.saved_config.presets[active]
                &&& forall|n: Seq<char>|
                    n != name && n != active ==> (#[trigger] working.presets.contains_key(n)
                        <==> d.config.presets.contains_key(n)) && (d.config.presets.contains_key(n)
                        ==> working.presets[n] == d.config.presets[n])
                &&& same_switches(d.saved_config, working)
            } else {
                fails(m)
            }
        }),
{
    which_names_are_free(d.saved_config.presets, d.config.active_preset, name);
    assert(d.config.presets.dom() == d.saved_config.presets.dom());
    assert(d.config.presets.dom().contains(name) <==> d.saved_config.presets.dom().contains(name));
    assert(d.saved_config.presets.dom().contains(d.config.active_preset));
    let m = state::applied(d, RequestView::SavePreset { name }, now);
    if m.1 is Save {
        let p = d.config.presets[d.config.active_preset];
        let working = state::carried_over(d, name, p);
        assert forall|n: Seq<char>| n != name && n != d.config.active_preset implies (
        #[trigger] working.presets.contains_key(n) <==> d.config.presets.contains_key(n)) by {
            assert(d.config.presets.dom().contains(n) <==> d.saved_config.presets.dom().contains(
                n,
            ));
        }
    }
}

/// Overwriting stores the working config as it is: every unsaved edit becomes a saved one.
/// Discarding gives up every unsaved edit: the saved config becomes the working one.
pub proof fn resolving_a_session(d: DaemonView, now: u64)
    ensures
        ({
            let m = state::applied(d, RequestView::SaveSessionOverwrite, now);
            &&& stores(d, m, Reply::Tuning)
            &&& stored(m) == d.config
        }),
        ({
            let m = state::applied(d, RequestView::DiscardSession, now);
            &&& m.0.config == d.saved_config
            &&& edits_only(d, m.0)
            &&& taken_up(m, Reply::Tuning, now)
        }),
{
    sync_is_taken_up(DaemonView { config: d.saved_config, ..d }, Reply::Tuning, now);
}

/// A stored config becomes both the saved and the working one; it is played and answered, and
/// the engine's life goes on as it was. A config that could not be stored changes nothing.
pub proof fn a_stored_config_takes_effect(
    d: DaemonView,
    next: ConfigView,
    working: ConfigView,
    reply: Reply,
    reason: Seq<char>,
    now: u64,
)
    ensures
        ({
            let s = SavingView::Presets { working, reply };
            let m = state::saved(d, next, s, None, now);
            &&& m.0.saved_config == next
            &&& m.0.config == working
            &&& configs_only(d, m.0)
            &&& taken_up(m, reply, now)
            &&& refused_for(d, state::saved(d, next, s, Some(reason), now), reason)
        }),
{
    sync_is_taken_up(DaemonView { config: working, saved_config: next, ..d }, reply, now);
}

/// Resetting a shipped preset asks first where the saved one differs from its original in any
/// figure, and changes nothing then. Otherwise, and once it is confirmed, the preset is stored
/// with its shipped contents; no other preset and no switch changes. Another name is refused.
pub proof fn resetting_a_preset(d: DaemonView, name: Seq<char>, now: u64)
    requires
        d.inv(),
    ensures
        ({
            let m = state::applied(d, RequestView::ResetPreset { name }, now);
            let c = state::applied(
                d,
                RequestView::ConfirmResetPreset { name, backups: Seq::empty() },
                now,
            );
            if !d.config.equals(d.saved_config) {
                waits(d, m) && waits(d, c)
            } else if name == "bright"@ || name == "mellow"@ || name == "pro"@ {
                &&& restores_one(d, c, name)
                &&& if d.saved_config.presets.contains_key(name)
                    && !d.saved_config.presets[name].equals(shipped()[name]) {
                    m.0 == d && (m.1 matches StepView::Finish(
                        Ok(ResponseView::ResetWouldOverwrite { names }),
                    ) && names == seq![name])
                } else {
                    restores_one(d, m, name)
                }
            } else {
                refused(d, m) && refused(d, c)
            }
        }),
{
    let names = seq![name];
    assert(names[0] == name);
    assert(names.contains(name));
    modified_presets_are_found(d.saved_config, names);
    resetting_one_changes_just_it(d.config, name);
    assert(crate::library::backed_up(d.config, Seq::empty()) == Ok::<ConfigView, ErrorView>(
        d.config,
    ));
    if shipped().contains_key(name) {
        assert forall|i: int| 0 <= i < names.len() implies shipped().contains_key(
            #[trigger] names[i],
        ) by {}
        let v = crate::library::modified_shipped(d.saved_config, names)->Ok_0;
        presets_differ_in_any_figure(d.saved_config.presets[name], shipped()[name]);
        if d.saved_config.presets.contains_key(name) && !d.saved_config.presets[name].equals(
            shipped()[name],
        ) {
            assert(v.contains(name));
            assert(v.len() == 1);
            assert(v =~= seq![name]);
        } else {
            assert(!v.contains(name));
            assert(v.len() == 0) by {
                if v.len() > 0 {
                    assert(v.contains(v[0]));
                    assert(names.contains(v[0]));
                }
            }
        }
    }
}

/// The library is stored with one preset as it was shipped.
pub open spec fn restores_one(d: DaemonView, m: Move, name: Seq<char>) -> bool {
    let next = stored(m);
    &&& stores(d, m, Reply::Tuning)
    &&& next.presets.contains_key(name)
    &&& next.presets[name] == shipped()[name]
    &&& others_stay(d.config.presets, next.presets, name)
    &&& d.config.presets.contains_key(d.config.active_preset) ==> next.active_preset
        == d.config.active_preset
    &&& same_switches(d.config, next)
}

/// The library is stored with every shipped preset as it was shipped, and `bright` selected.
pub open spec fn restores_all(d: DaemonView, m: Move) -> bool {
    let next = stored(m);
    &&& stores(d, m, Reply::Tuning)
    &&& forall|n: Seq<char>|
        (n == "bright"@ || n == "mellow"@ || n == "pro"@) ==> (
        #[trigger] next.presets.contains_key(n)) && next.presets[n] == shipped()[n]
    &&& forall|n: Seq<char>|
        n != "bright"@ && n != "mellow"@ && n != "pro"@ ==> (#[trigger] next.presets.contains_key(
            n,
        ) <==> d.config.presets.contains_key(n)) && (d.config.presets.contains_key(n)
            ==> next.presets[n] == d.config.presets[n])
    &&& next.active_preset == "bright"@
    &&& same_switches(d.config, next)
}

/// Resetting everything asks first where a saved shipped preset differs from its original in
/// any figure, names exactly those, and changes nothing then. Otherwise, and once it is
/// confirmed, every shipped preset is stored as it was shipped; other presets and all switches
/// stay.
pub proof fn resetting_everything(d: DaemonView, now: u64)
    requires
        d.inv(),
    ensures
        ({
            let m = state::applied(d, RequestView::Reset, now);
            let c = state::applied(d, RequestView::ConfirmReset { backups: Seq::empty() }, now);
            if !d.config.equals(d.saved_config) {
                waits(d, m) && waits(d, c)
            } else {
                &&& restores_all(d, c)
                &&& if exists|n: Seq<char>| #[trigger] differs_from_shipped(d.saved_config, n) {
                    m.0 == d && (m.1 matches StepView::Finish(
                        Ok(ResponseView::ResetWouldOverwrite { names }),
                    ) && forall|n: Seq<char>| #[trigger]
                        names.contains(n) <==> differs_from_shipped(d.saved_config, n))
                } else {
                    restores_all(d, m)
                }
            }
        }),
{
    let names = listing(shipped());
    shipped_names();
    assert(names[0] == "bright"@ && names[1] == "mellow"@ && names[2] == "pro"@);
    modified_presets_are_found(d.saved_config, names);
    resetting_all(d.config);
    assert(crate::library::backed_up(d.config, Seq::empty()) == Ok::<ConfigView, ErrorView>(
        d.config,
    ));
    assert forall|i: int| 0 <= i < names.len() implies shipped().contains_key(
        #[trigger] names[i],
    ) by {}
    let v = crate::library::modified_shipped(d.saved_config, names)->Ok_0;
    assert forall|n: Seq<char>| #[trigger] v.contains(n) <==> differs_from_shipped(
        d.saved_config,
        n,
    ) by {
        presets_differ_in_any_figure(d.saved_config.presets[n], shipped()[n]);
        assert(names.contains(n) <==> n == "bright"@ || n == "mellow"@ || n == "pro"@);
    }
    if exists|n: Seq<char>| #[trigger] differs_from_shipped(d.saved_config, n) {
        let n = choose|n: Seq<char>| #[trigger] differs_from_shipped(d.saved_config, n);
        assert(v.contains(n));
    } else if v.len() > 0 {
        assert(v.contains(v[0]));
    }
    let c = state::applied(d, RequestView::ConfirmReset { backups: Seq::empty() }, now);
    if d.config.equals(d.saved_config) {
        let next = stored(c);
        assert forall|n: Seq<char>|
            (n == "bright"@ || n == "mellow"@ || n == "pro"@) implies (
        #[trigger] next.presets.contains_key(n)) && next.presets[n] == shipped()[n] by {
            assert(shipped().contains_key(n));
        }
    }
}

/// The config has the shipped preset of this name, and it differs from its original in the
/// preamp or in a band.
pub open spec fn differs_from_shipped(c: ConfigView, n: Seq<char>) -> bool {
    &&& n == "bright"@ || n == "mellow"@ || n == "pro"@
    &&& c.presets.contains_key(n)
    &&& !c.presets[n].equals(shipped()[n])
}

/// A confirmed reset keeps the copies that were asked for: each copy holds what its source held
/// before the reset, under the name that was given, and every preset that is neither a copy nor
/// restored stays as it was.
pub proof fn a_confirmed_reset_keeps_the_copies(
    d: DaemonView,
    name: Seq<char>,
    backups: Seq<BackupView>,
    i: int,
    now: u64,
)
    requires
        d.config.equals(d.saved_config),
        0 <= i < backups.len(),
        d.config.presets.contains_key(backups[i].source),
    ensures
        ({
            let one = state::applied(d, RequestView::ConfirmResetPreset { name, backups }, now);
            let all = state::applied(d, RequestView::ConfirmReset { backups }, now);
            let dest = backups[i].dest;
            &&& !fails(one) ==> {
                &&& stores(d, one, Reply::Tuning)
                &&& dest != name ==> stored(one).presets.contains_key(dest)
                    && stored(one).presets[dest] == d.config.presets[backups[i].source]
                &&& stored(one).presets.contains_key(name)
                &&& stored(one).presets[name] == shipped()[name]
                &&& forall|n: Seq<char>|
                    n != name && #[trigger] d.config.presets.contains_key(n) ==> stored(
                        one,
                    ).presets.contains_key(n) && stored(one).presets[n] == d.config.presets[n]
                &&& same_switches(d.config, stored(one))
            }
            &&& !fails(all) ==> {
                &&& stores(d, all, Reply::Tuning)
                &&& !shipped().contains_key(dest) ==> stored(all).presets.contains_key(dest)
                    && stored(all).presets[dest] == d.config.presets[backups[i].source]
                &&& forall|n: Seq<char>| #[trigger]
                    shipped().contains_key(n) ==> stored(all).presets.contains_key(n) && stored(
                        all,
                    ).presets[n] == shipped()[n]
                &&& forall|n: Seq<char>|
                    !shipped().contains_key(n) && #[trigger] d.config.presets.contains_key(n)
                        ==> stored(all).presets.contains_key(n) && stored(all).presets[n]
                        == d.config.presets[n]
                &&& same_switches(d.config, stored(all))
            }
        }),
{
    if backed_up(d.config, backups) is Ok {
        backups_are_kept(d.config, backups, i);
        let b = backed_up(d.config, backups)->Ok_0;
        resetting_one_changes_just_it(b, name);
        resetting_all(b);
    }
}

// --- looking -------------------------------------------------------------------------------

/// Looking changes nothing: neither a status, nor a list, nor a preset, nor a response curve.
pub proof fn looking_changes_nothing(
    d: DaemonView,
    req: RequestView,
    curve: Result<(Double, Seq<ResponsePoint>), Seq<char>>,
    now: u64,
)
    requires
        req is Status || req is ListPresets || req is ShowPreset || req is ExportPreset
            || req is GetResponse,
    ensures
        state::applied(d, req, now).0 == d,
        state::response_measured(d, curve).0 == d,
{
}

/// The list names every preset once, in the order of the names, and says which one is active.
pub proof fn the_list_names_every_preset(d: DaemonView, now: u64)
    requires
        d.config.presets.dom().finite(),
    ensures
        state::applied(d, RequestView::ListPresets, now).1 matches StepView::Finish(
            Ok(ResponseView::Presets { active, names }),
        ) && active == d.config.active_preset && (forall|n: Seq<char>| #[trigger]
            names.contains(n) <==> d.config.presets.contains_key(n)) && (forall|i: int, j: int|
            0 <= i < j < names.len() ==> name_before(#[trigger] names[i], #[trigger] names[j])),
{
    listing_exists(d.config.presets);
}

/// Showing a preset tells its own preamp and bands, with unsaved edits in them, under its name;
/// without a name it is the active one. A preset that is not there is refused.
pub proof fn showing_a_preset(d: DaemonView, name: Option<Seq<char>>, now: u64)
    ensures
        ({
            let m = state::applied(d, RequestView::ShowPreset(name), now);
            let n = match name {
                Some(n) => n,
                None => d.config.active_preset,
            };
            if d.config.presets.contains_key(n) {
                m.1 matches StepView::Finish(Ok(ResponseView::Tuning(t))) && t.preset == n
                    && t.bands == d.config.presets[n].bands && t.preamp_db
                    == d.config.presets[n].preamp_db && t.enabled == (d.engine is Some)
            } else {
                refused(d, m)
            }
        }),
{
}

/// The response curve is measured on the active preset at the running engine's rate, and told
/// with the points and the rate that were measured.
pub proof fn asking_for_the_response(
    d: DaemonView,
    rate: Double,
    points: Seq<ResponsePoint>,
    reason: Seq<char>,
    now: u64,
)
    requires
        d.config.presets.contains_key(d.config.active_preset),
    ensures
        ({
            let p = d.config.presets[d.config.active_preset];
            let m = state::applied(d, RequestView::GetResponse, now);
            &&& m.1 matches StepView::MeasureResponse { bands, preamp_db, rate: r } && bands
                == p.bands && preamp_db == p.preamp_db && r == (match d.engine {
                Some(t) => Some(t.sample_rate),
                None => None,
            })
            &&& state::response_measured(d, Ok((rate, points))).1 matches StepView::Finish(
                Ok(ResponseView::FrequencyResponse(c)),
            ) && c.sample_rate_hz == rate && c.points == points && c.preamp_db == p.preamp_db
            &&& refused_for(d, state::response_measured(d, Err(reason)), reason)
        }),
{
}

/// The status tells the state as it is: what the user wants, whether an engine runs and on which
/// output, the active preset with its preamp and the number of its bands, the switches, the
/// last failure, the recovery, and exactly the presets with unsaved edits.
pub proof fn the_status_tells_the_state(d: DaemonView, now: u64)
    requires
        d.config.presets.dom().finite(),
        d.config.presets.contains_key(d.config.active_preset),
    ensures
        ({
            let p = d.config.presets[d.config.active_preset];
            state::applied(d, RequestView::Status, now).1 matches StepView::Finish(
                Ok(ResponseView::Status(s)),
            ) && {
                &&& s.user_intent == d.user_intent
                &&& s.engine_running == (d.engine is Some)
                &&& s.active_preset == d.config.active_preset
                &&& s.preamp_db == p.preamp_db
                &&& s.band_count == p.bands.len()
                &&& s.limiter == d.config.limiter
                &&& s.low_power == d.low_power
                &&& s.auto_off_low_power == d.config.auto_off_low_power
                &&& s.auto_off_idle == d.config.auto_off_idle
                &&& s.bypassed == d.bypassed
                &&& s.last_engine_error == d.last_engine_error
                &&& s.retry_attempts == d.recovery.retries_attempted
                &&& s.retry_limit == 6
                &&& s.retry_exhausted == d.recovery.exhausted
                &&& d.engine is None ==> s.output_uid is None && s.output_name is None
                    && s.output_rate_hz is None && s.output_stream is None
                &&& d.engine matches Some(t) ==> s.output_uid == Some(t.uid) && s.output_name
                    == Some(t.name) && s.output_rate_hz == Some(t.sample_rate) && s.output_stream
                    == Some(t.stream.description())
                &&& forall|n: Seq<char>| #[trigger]
                    s.dirty_presets.contains(n) <==> d.config.presets.contains_key(n) && !(
                    d.saved_config.presets.contains_key(n) && d.config.presets[n].equals(
                        d.saved_config.presets[n],
                    ))
            }
        }),
{
    dirty_names_are_those_that_differ(d);
}

/// The status gives one reason why a wanted engine does not run: that the user turned it off
/// comes first, then power saving, then silence, then the recovery. It gives none while an
/// engine runs.
pub proof fn the_reason_for_a_suspension(d: DaemonView, now: u64)
    ensures
        ({
            let r = d.status(now).suspension_reason;
            &&& r is None <==> d.engine is Some
            &&& d.engine is None ==> {
                &&& r == Some("user-off"@) <==> !d.user_intent
                &&& r == Some("idle"@) ==> d.idle_suspended && d.user_intent
                &&& r == Some("low-power"@) ==> d.user_intent && d.low_power
                    && d.config.auto_off_low_power && !d.engine_target_on
                &&& r == Some("recovery-exhausted"@) ==> d.recovery.exhausted
                    && !d.idle_suspended
                &&& r == Some("recovering"@) ==> d.recovery.next_retry is Some
                    && !d.idle_suspended
                &&& d.user_intent && d.low_power && d.config.auto_off_low_power
                    && !d.engine_target_on ==> r == Some("low-power"@)
                &&& d.user_intent && d.idle_suspended && !d.low_power ==> r == Some("idle"@)
            }
        }),
{
    reveal_strlit("user-off");
    reveal_strlit("low-power");
    reveal_strlit("idle");
    reveal_strlit("recovery-exhausted");
    reveal_strlit("recovering");
    reveal_strlit("starting");
    assert("user-off"@[0] == 'u');
    assert("low-power"@[0] == 'l');
    assert("idle"@[0] == 'i');
    assert("recovery-exhausted"@.len() == 18);
    assert("recovering"@.len() == 10);
    assert("recovery-exhausted"@[0] == 'r');
    assert("recovering"@[0] == 'r');
    assert("starting"@[0] == 's');
}

/// The status counts the seconds until the next retry, begun ones included, to the millisecond:
/// it gives none where no retry waits, and zero once the retry is due.
pub proof fn the_seconds_until_a_retry(d: DaemonView, now: u64)
    ensures
        ({
            let r = d.status(now).retry_in_seconds;
            &&& r is None <==> d.recovery.next_retry is None
            &&& d.recovery.next_retry matches Some(at) ==> {
                &&& at <= now ==> r == Some(0nat)
                &&& at > now ==> at - now < r->0 * 1_000_000_000 + 1_000_000
                &&& at > now && r->0 > 0 ==> at - now >= (r->0 - 1) * 1_000_000_000 + 1_000_000
            }
        }),
{
}

// --- polls ---------------------------------------------------------------------------------

/// Following power saving: only a change counts. Where the policy is off it is remembered and
/// nothing more. Entering it turns the engine off; leaving it brings back what the user wants,
/// unless the engine is idle. What the user set does not change.
pub proof fn following_power_saving(d: DaemonView, active: bool)
    ensures
        ({
            let m = state::low_power(d, active);
            let wanted = d.user_intent && !d.idle_suspended;
            &&& engine_only(d, m.0)
            &&& m.0.low_power == active
            &&& m.0.idle_suspended == d.idle_suspended
            &&& m.0.observed_output_id == d.observed_output_id
            &&& m.0.last_engine_error == d.last_engine_error
            &&& active == d.low_power ==> m == (d, StepView::Idle)
            &&& !d.config.auto_off_low_power ==> m == (
                DaemonView { low_power: active, ..d },
                StepView::Idle,
            )
            &&& active != d.low_power && d.config.auto_off_low_power ==> {
                &&& active ==> !m.0.engine_target_on && m.0.engine is None
                    && m.0.recovery.next_retry is None
                &&& !active ==> m.0.engine_target_on == wanted
                &&& (active || !wanted) && d.engine is Some ==> stops(m, After::Poll)
                &&& (active || !wanted) && d.engine is None ==> m.1 == StepView::Idle
                &&& !active && wanted && d.engine is None ==> starts(m, After::Poll)
                &&& !active && wanted && d.engine is Some ==> m.0.engine == d.engine && m.1
                    == StepView::Idle
            }
        }),
{
    let m = state::low_power(d, active);
    answers_are_true(m.0, Reply::Done);
}

/// Following activity: a running engine is suspended once ten seconds of its output's frames
/// were silent, and no sooner; a suspended one is resumed when the output is active again,
/// unless power saving keeps it off. Neither happens with the policy off or the EQ off. What
/// the user set does not change.
pub proof fn following_activity(d: DaemonView, silent_frames: u64, output_running: bool)
    ensures
        ({
            let m = state::idle_activity(d, silent_frames, output_running);
            let acts = d.config.auto_off_idle && d.user_intent;
            &&& engine_only(d, m.0)
            &&& m.0.low_power == d.low_power
            &&& m.0.observed_output_id == d.observed_output_id
            &&& m.0.last_engine_error == d.last_engine_error
            &&& !acts ==> m == (d, StepView::Idle)
            &&& d.engine matches Some(t) ==> {
                let due = silent_frames >= 10 * t.sample_rate.rounded();
                &&& acts && due ==> stops(m, After::Poll) && m.0.idle_suspended
                    && !m.0.engine_target_on
                &&& !due ==> m == (d, StepView::Idle)
            }
            &&& d.engine is None ==> {
                let resumes = acts && d.idle_suspended && output_running && !(
                d.config.auto_off_low_power && d.low_power);
                &&& resumes ==> starts(m, After::Poll) && !m.0.idle_suspended
                    && m.0.engine_target_on
                &&& !resumes ==> m == (d, StepView::Idle)
            }
        }),
{
    let m = state::idle_activity(d, silent_frames, output_running);
    answers_are_true(m.0, Reply::Done);
}

/// Following the output: another default output, or another rate of the one the engine runs on,
/// has the engine torn down and, if it is wanted, started again; nothing else does. What the
/// user set does not change.
pub proof fn following_the_output(d: DaemonView, output_id: Option<u32>, rate: Option<Double>)
    ensures
        ({
            let m = state::default_device(d, output_id, rate);
            let moved = output_id != d.observed_output_id;
            let retimed = match (d.engine, rate) {
                (Some(t), Some(r)) => r.rounded() != t.sample_rate.rounded(),
                _ => false,
            };
            &&& engine_only(d, m.0)
            &&& m.0.observed_output_id == output_id
            &&& m.0.engine_target_on == d.engine_target_on
            &&& m.0.idle_suspended == d.idle_suspended
            &&& m.0.low_power == d.low_power
            &&& !moved && !retimed ==> m == (d, StepView::Idle)
            &&& (moved || retimed) && d.engine is Some ==> m.0.engine is None && m.1
                == StepView::Stop(Stopped::Rebuild)
            &&& moved && d.engine is None && d.engine_target_on ==> starts(m, After::Poll)
            &&& moved && d.engine is None && !d.engine_target_on ==> m.1 == StepView::Idle
            &&& moved && !d.engine_target_on ==> m.0.recovery.next_retry is None
                && m.0.recovery.retries_attempted == d.recovery.retries_attempted
                && m.0.recovery.exhausted == d.recovery.exhausted
            &&& m.0.last_engine_error == d.last_engine_error
            &&& (moved || retimed) && d.engine is Some && d.engine_target_on ==> starts(
                state::stopped(m.0, Stopped::Rebuild),
                After::Poll,
            )
            &&& (moved || retimed) && d.engine is Some && !d.engine_target_on ==> state::stopped(
                m.0,
                Stopped::Rebuild,
            ) == (m.0, StepView::Idle)
        }),
{
    let m = state::default_device(d, output_id, rate);
    answers_are_true(m.0, Reply::Done);
}

/// A failure that the running engine reports has it stopped and told, and a retry comes one
/// second later if the engine is wanted. Without a failure, and without an engine, nothing
/// happens. What the user set does not change.
pub proof fn following_the_engine(d: DaemonView, error: Option<Seq<char>>, now: u64)
    requires
        now + 30 * SECOND <= u64::MAX,
    ensures
        ({
            let m = state::health(d, error, now);
            &&& engine_only(d, m.0)
            &&& m.0.engine_target_on == d.engine_target_on
            &&& m.0.idle_suspended == d.idle_suspended
            &&& m.0.low_power == d.low_power
            &&& d.engine is None || error is None ==> m == (d, StepView::Idle)
            &&& d.engine is Some && error is Some ==> {
                &&& stops(m, After::Poll)
                &&& m.0.last_engine_error == error
                &&& m.0.recovery.retries_attempted == 0
                &&& !m.0.recovery.exhausted
                &&& d.engine_target_on ==> m.0.recovery.next_retry == Some(
                    (now + 1_000_000_000) as u64,
                )
                &&& !d.engine_target_on ==> m.0.recovery.next_retry is None
            }
        }),
{
}

/// A retry is run exactly when an engine is wanted, none runs, and the retry is due. It plays
/// the active preset, and counts as a retry.
pub proof fn following_the_recovery(d: DaemonView, now: u64)
    ensures
        ({
            let m = state::recover(d, now);
            let due = d.recovery.next_retry matches Some(at) && at <= now;
            &&& engine_only(d, m.0)
            &&& m.0.engine == d.engine
            &&& m.0.engine_target_on == d.engine_target_on
            &&& d.engine_target_on && d.engine is None && due ==> (m.1 matches StepView::Start {
                settings,
                after,
                retry,
            } && plays(m.0, settings) && after == After::Poll && retry)
                && m.0.recovery.next_retry is None && m.0.recovery.retries_attempted
                == d.recovery.retries_attempted
            &&& !(d.engine_target_on && d.engine is None && due) ==> m == (d, StepView::Idle)
        }),
{
    let m = state::recover(d, now);
    answers_are_true(m.0, Reply::Done);
}

/// An engine that started is the running one, on the output it was started on, and ends the
/// incident. One that failed leaves its reason and, while it is wanted, has another retry: the
/// first failure one second later, and a failed retry according to the schedule, up to six.
pub proof fn starting_the_engine(
    d: DaemonView,
    after: After,
    target: TargetView,
    reason: Seq<char>,
    now: u64,
)
    requires
        now + 30 * SECOND <= u64::MAX,
    ensures
        ({
            let ok = state::started(d, after, false, Ok(target), now).0;
            let first = state::started(d, after, false, Err(reason), now).0;
            let again = state::started(d, after, true, Err(reason), now).0;
            &&& engine_only(d, ok) && engine_only(d, first) && engine_only(d, again)
            &&& ok.engine == Some(target)
            &&& ok.engine_target_on == d.engine_target_on
            &&& ok.recovery.next_retry is None && !ok.recovery.exhausted
                && ok.recovery.retries_attempted == 0
            &&& first.engine == d.engine && again.engine == d.engine
            &&& first.last_engine_error == Some(reason) && again.last_engine_error == Some(reason)
            &&& d.engine_target_on ==> first.recovery.next_retry == Some(
                (now + 1_000_000_000) as u64,
            ) && first.recovery.retries_attempted == 0 && !first.recovery.exhausted
            &&& d.engine_target_on && d.recovery.retries_attempted < 5 ==> {
                &&& again.recovery.retries_attempted == d.recovery.retries_attempted + 1
                &&& again.recovery.next_retry == Some(
                    (now + 1_000_000_000 * seq![2int, 4, 8, 16, 30][
                        d.recovery.retries_attempted as int]) as u64,
                )
            }
            &&& d.engine_target_on && d.recovery.retries_attempted == 5 ==> {
                &&& again.recovery.exhausted
                &&& again.recovery.next_retry is None
            }
            &&& !d.engine_target_on ==> first.recovery == d.recovery && again.recovery
                == d.recovery
        }),
{
}

/// What follows once the engine started, stopped, or failed to start: a policy switch is
/// answered, with the failure if there was one, and a poll is over.
pub proof fn after_the_engine(
    d: DaemonView,
    target: TargetView,
    reason: Seq<char>,
    retry: bool,
    now: u64,
)
    ensures
        state::started(d, After::Poll, retry, Ok(target), now).1 == StepView::Idle,
        state::started(d, After::Poll, retry, Err(reason), now).1 == StepView::Idle,
        state::started(d, After::Toggle, retry, Ok(target), now).1 == StepView::Finish(
            Ok::<ResponseView, ErrorView>(ResponseView::Done),
        ),
        state::started(d, After::Toggle, retry, Err(reason), now).1 matches StepView::Finish(Err(e))
            && e.fault == Fault::Outside && e.subject == reason,
        state::stopped(d, Stopped::Then(After::Poll)) == (d, StepView::Idle),
        state::stopped(d, Stopped::Then(After::Toggle)) == (
            d,
            StepView::Finish(Ok::<ResponseView, ErrorView>(ResponseView::Done)),
        ),
{
}

/// A deferred draft write is made once half a second has passed since the last one, with the
/// working config as it is then; nothing else changes.
pub proof fn flushing_the_draft(d: DaemonView, now: u64)
    ensures
        ({
            let m = state::flush(d, now);
            let due = match d.draft_last_write {
                Some(last) => now - last >= 500_000_000,
                None => true,
            };
            if d.draft_dirty && due {
                &&& m.0 == (DaemonView { draft_dirty: false, ..d })
                &&& m.1 == (StepView::WriteDraft {
                    draft: d.config,
                    at: now,
                    mirror: Mirror::Flush,
                })
            } else {
                m == (d, StepView::Idle)
            }
        }),
        state::draft_written(d, now, Mirror::Flush, true) == (
            DaemonView { draft_last_write: Some(now), ..d },
            StepView::Idle,
        ),
        state::draft_written(d, now, Mirror::Flush, false) == (d, StepView::Idle),
{
}

/// A daemon starts with the saved config, or with the unsaved session that was left; with the
/// user's last on or off; and without an engine. It starts one at once if the EQ is on, unless
/// power saving keeps it off or it is to wait for playback; then it is idle.
pub proof fn how_a_daemon_starts(
    saved: ConfigView,
    draft: Option<ConfigView>,
    low_power: bool,
    output_id: Option<u32>,
)
    ensures
        ({
            let d = state::initial(saved, draft, low_power, output_id);
            let m = state::startup(d);
            &&& d.saved_config == saved
            &&& d.config == (match draft {
                Some(c) => c,
                None => saved,
            })
            &&& d.user_intent == d.config.enabled
            &&& d.engine is None
            &&& d.low_power == low_power
            &&& d.observed_output_id == output_id
            &&& !d.bypassed
            &&& !d.draft_dirty
            &&& d.last_engine_error is None
            &&& d.recovery.next_retry is None && !d.recovery.exhausted
                && d.recovery.retries_attempted == 0
            &&& d.idle_suspended <==> d.config.enabled && d.config.auto_off_idle
            &&& d.engine_target_on <==> d.config.enabled && !d.config.auto_off_idle && !(
            d.config.auto_off_low_power && low_power)
            &&& d.engine_target_on ==> starts(m, After::Poll)
            &&& !d.engine_target_on ==> m == (d, StepView::Idle)
        }),
{
    let d = state::initial(saved, draft, low_power, output_id);
    answers_are_true(d, Reply::Done);
}

// --- refusals --------------------------------------------------------------------------------

/// What is wrong with a figure that is not permitted.
pub open spec fn figure_trouble(q: Quantity, x: Single) -> Fault {
    if x.finite() {
        Fault::OutOfRange(q)
    } else {
        Fault::NotFinite(q)
    }
}

/// A refused edit says why: the first figure that is not permitted, in the order frequency,
/// gain, Q; that the active preset is missing, and its name; that there is no room; that there
/// are no bands; or that no band is near, with the frequency of the nearest one.
pub proof fn refused_edits_say_why(d: DaemonView, band: Band, db: Single, now: u64)
    requires
        d.config.runnable(),
    ensures
        ({
            let n = d.config.active_preset;
            let bands = d.config.presets[n].bands;
            let none = Seq::<char>::empty();
            let preamp = state::applied(d, RequestView::SetPreamp(db), now);
            let add = state::applied(
                d,
                RequestView::SetBand {
                    kind: band.kind,
                    freq: band.freq,
                    gain_db: band.gain_db,
                    q: band.q,
                },
                now,
            );
            let take = state::applied(d, RequestView::RemoveBand { freq: band.freq }, now);
            let missing = !d.config.presets.contains_key(n);
            let good_freq = within(band.freq, 20, 20000);
            let good_band = good_freq && within(band.gain_db, -24, 24) && within_q(band.q);
            &&& !within(db, -60, 12) ==> refused_as(
                d,
                preamp,
                figure_trouble(Quantity::Preamp, db),
                none,
            )
            &&& !good_freq ==> refused_as(
                d,
                add,
                figure_trouble(Quantity::Frequency, band.freq),
                none,
            ) && refused_as(d, take, figure_trouble(Quantity::Frequency, band.freq), none)
            &&& good_freq && !within(band.gain_db, -24, 24) ==> refused_as(
                d,
                add,
                figure_trouble(Quantity::Gain, band.gain_db),
                none,
            )
            &&& good_freq && within(band.gain_db, -24, 24) && !within_q(band.q) ==> refused_as(
                d,
                add,
                figure_trouble(Quantity::Q, band.q),
                none,
            )
            &&& missing && within(db, -60, 12) ==> refused_as(d, preamp, Fault::ActiveMissing, n)
            &&& missing && good_band ==> refused_as(d, add, Fault::ActiveMissing, n)
            &&& missing && good_freq ==> refused_as(d, take, Fault::ActiveMissing, n)
            &&& missing ==> refused_as(
                d,
                state::applied(d, RequestView::SetPreampAuto, now),
                Fault::ActiveMissing,
                n,
            )
            &&& !missing && good_band && bands.len() >= 64 && (forall|j: int|
                0 <= j < bands.len() ==> !near(#[trigger] bands[j], band.freq)) ==> refused_as(
                d,
                add,
                Fault::BandLimit,
                none,
            )
            &&& !missing && good_freq && bands.len() == 0 ==> refused_as(
                d,
                take,
                Fault::NoBands,
                none,
            )
            &&& !missing && good_freq && bands.len() > 0 && (forall|j: int|
                0 <= j < bands.len() ==> !near(#[trigger] bands[j], band.freq)) ==> exists|k: int|
                0 <= k < bands.len() && refused_as(
                    d,
                    take,
                    Fault::NoBandMatches { freq: band.freq, nearest: (#[trigger] bands[k]).freq },
                    none,
                ) && forall|i: int|
                    0 <= i < bands.len() ==> gap(bands[k].freq, band.freq) <= gap(
                        (#[trigger] bands[i]).freq,
                        band.freq,
                    )
        }),
{
    let n = d.config.active_preset;
    figures_have_their_ranges(Quantity::Preamp, db);
    figures_have_their_ranges(Quantity::Frequency, band.freq);
    figures_have_their_ranges(Quantity::Gain, band.gain_db);
    figures_have_their_ranges(Quantity::Q, band.q);
    if d.config.presets.contains_key(n) && within(band.freq, 20, 20000) {
        let p = d.config.presets[n];
        close_is_near(p, band.freq);
        assert(valid_frequencies(p.bands)) by {
            assert forall|i: int| 0 <= i < p.bands.len() implies valid_frequency(
                (#[trigger] p.bands[i]).freq,
            ) by {
                valid_band(p, i);
            }
        }
        removal_takes_the_nearest(p.bands, band.freq);
        if forall|j: int| 0 <= j < p.bands.len() ==> !near(#[trigger] p.bands[j], band.freq) {
            assert forall|j: int| 0 <= j < p.bands.len() implies !close(
                (#[trigger] p.bands[j]).freq,
                band.freq,
            ) by {
                assert(!near(p.bands[j], band.freq));
            }
            a_new_band_needs_room(p.bands, band);
            if let Removal::Hit(k) = removal(p.bands, band.freq) {
                assert(near(p.bands[k as int], band.freq));
            }
        }
    }
    assert(Band { kind: band.kind, freq: band.freq, gain_db: band.gain_db, q: band.q } == band);
}

/// A preset that is not there is named in the refusal, whatever it was wanted for: to select it,
/// to show it, to export it, to clone it, to rename it, to delete it, or to restore it.
pub proof fn a_missing_preset_is_named(
    d: DaemonView,
    name: Seq<char>,
    other: Seq<char>,
    path: Seq<char>,
    now: u64,
)
    requires
        !d.config.presets.contains_key(name),
    ensures
        refused_as(
            d,
            state::applied(d, RequestView::SetPreset(name), now),
            Fault::NoSuchPreset,
            name,
        ),
        state::applied(d, RequestView::ShowPreset(Some(name)), now) == (
            d,
            StepView::Finish(
                Ok::<ResponseView, ErrorView>(
                    ResponseView::Error(
                        ErrorView {
                            fault: Fault::NoSuchPreset,
                            subject: name,
                            detail: Seq::empty(),
                        },
                    ),
                ),
            ),
        ),
        refused_as(
            d,
            state::applied(d, RequestView::ExportPreset { name, path }, now),
            Fault::NoSuchPreset,
            name,
        ),
        d.config.equals(d.saved_config) ==> {
            &&& refused_as(
                d,
                state::applied(d, RequestView::RenamePreset { from: name, to: other }, now),
                Fault::NoSuchPreset,
                name,
            )
            &&& refused_as(
                d,
                state::applied(d, RequestView::DeletePresets { names: seq![name] }, now),
                Fault::NoSuchPreset,
                name,
            )
            &&& name_fault(other) is None && !d.saved_config.presets.contains_key(other)
                ==> refused_as(
                d,
                state::applied(d, RequestView::ClonePreset { source: name, dest: other }, now),
                Fault::NoSuchPreset,
                name,
            )
            &&& name != "bright"@ && name != "mellow"@ && name != "pro"@ ==> refused_as(
                d,
                state::applied(d, RequestView::ResetPreset { name }, now),
                Fault::NoShippedPreset,
                name,
            )
        },
{
    reveal_with_fuel(crate::library::names_trouble, 2);
    reveal_with_fuel(crate::library::modified_shipped, 2);
    let s = seq![name];
    assert(s.last() == name);
    assert(s.drop_last() =~= Seq::empty());
}

/// A name that is taken is named in the refusal, and a bad one is refused for what is wrong with
/// it: to clone under it, to rename to it, to import under it, and to save under it.
pub proof fn a_bad_name_is_told(
    d: DaemonView,
    source: Seq<char>,
    name: Seq<char>,
    file: FileView,
    now: u64,
)
    requires
        d.inv(),
        d.config.equals(d.saved_config),
        d.config.presets.contains_key(source),
        source != name,
    ensures
        ({
            let clone = state::applied(d, RequestView::ClonePreset { source, dest: name }, now);
            let rename = state::applied(
                d,
                RequestView::RenamePreset { from: source, to: name },
                now,
            );
            let import = state::preset_read(d, Ok(file), Some(name));
            let save = state::applied(d, RequestView::SaveSessionAs { name }, now);
            &&& name_fault(name) matches Some(f) ==> {
                &&& refused_as(d, clone, f, Seq::empty())
                &&& refused_as(d, rename, f, Seq::empty())
                &&& refused_as(d, import, f, Seq::empty())
                &&& refused_as(d, save, f, Seq::empty())
            }
            &&& name_fault(name) is None && d.config.presets.contains_key(name) ==> {
                &&& refused_as(d, clone, Fault::PresetExists, name)
                &&& refused_as(d, rename, Fault::PresetExists, name)
                &&& refused_as(d, import, Fault::PresetExists, name)
                &&& name != "bright"@ && name != "mellow"@ && name != "pro"@ && name
                    != d.config.active_preset ==> refused_as(d, save, Fault::PresetExists, name)
            }
            &&& name_fault(name) is None && !d.config.presets.contains_key(name) ==> (preset_fault(
                file.preset,
            ) matches Some(f) ==> refused_as(d, import, f, Seq::empty()))
        }),
{
    assert(d.config.presets.dom().contains(name) <==> d.saved_config.presets.dom().contains(name));
}

/// A deletion that would leave nothing, or that names nothing, is refused for that.
pub proof fn a_deletion_of_everything_is_refused(d: DaemonView, names: Seq<Seq<char>>, now: u64)
    requires
        d.config.presets.dom().finite(),
        d.config.equals(d.saved_config),
    ensures
        ({
            let m = state::applied(d, RequestView::DeletePresets { names }, now);
            &&& names.len() == 0 ==> refused_as(d, m, Fault::NoNames, Seq::empty())
            &&& names.len() > 0 && names.no_duplicates() && (forall|i: int|
                0 <= i < names.len() ==> d.config.presets.contains_key(#[trigger] names[i]))
                && names.len() >= d.config.presets.dom().len() ==> refused_as(
                d,
                m,
                Fault::DeleteEvery,
                Seq::empty(),
            )
        }),
{
    crate::library::deletable_names(d.config.presets, names);
}

/// A change is mirrored at once where half a second has passed since the last mirror write, or
/// none was made in this session; otherwise it is remembered, and handed on without a write. A
/// resolved session has its draft removed, and nothing is remembered of it.
pub proof fn when_a_change_is_mirrored(d: DaemonView, reply: Reply, now: u64)
    ensures
        ({
            let m = state::sync(d, reply, now);
            let open = !d.config.equals(d.saved_config);
            let due = match d.draft_last_write {
                Some(last) => now - last >= 500_000_000,
                None => true,
            };
            &&& m.1 is WriteDraft <==> open && due
            &&& m.1 is RemoveDraft <==> !open
            &&& open && due ==> !m.0.draft_dirty && m.0.draft_last_write == d.draft_last_write
            &&& open && !due ==> m.0.draft_dirty && m.0.draft_last_write == d.draft_last_write
            &&& !open ==> !m.0.draft_dirty && m.0.draft_last_write is None
        }),
{
}

/// Where the selected name is no preset's, the preset whose name comes first is played, shown,
/// and told in its place; where there are no presets, the sound is flat, at 0 dB.
pub proof fn what_is_played_without_a_selection(d: DaemonView, now: u64)
    requires
        d.config.presets.dom().finite(),
        !d.config.presets.contains_key(d.config.active_preset),
    ensures
        d.config.presets.dom().len() == 0 ==> d.settings().bands.len() == 0
            && d.settings().preamp_db.value() == 0 && d.tuning().bands.len() == 0 && d.status(
            now,
        ).band_count == 0,
        d.config.presets.dom().len() > 0 ==> exists|n: Seq<char>| #[trigger]
            d.config.presets.contains_key(n) && (forall|k: Seq<char>| #[trigger]
                d.config.presets.contains_key(k) && k != n ==> name_before(n, k))
                && d.settings().bands == d.config.presets[n].bands && d.settings().preamp_db
                == d.config.presets[n].preamp_db && d.tuning().bands == d.config.presets[n].bands
                && d.tuning().preamp_db == d.config.presets[n].preamp_db && d.status(
                now,
            ).band_count == d.config.presets[n].bands.len() && d.status(now).preamp_db
                == d.config.presets[n].preamp_db,
        d.settings().limiter == d.config.limiter,
        d.settings().bypassed == d.bypassed,
{
    the_preset_in_use(d.config);
    assert(magnitude_of(0) == 0);
    if d.config.presets.dom().len() > 0 {
        let n = choose|n: Seq<char>| #[trigger]
            d.config.presets.contains_key(n) && d.config.active() == Some(d.config.presets[n]) && (
            forall|k: Seq<char>| #[trigger]
                d.config.presets.contains_key(k) && k != n ==> name_before(n, k));
        assert(d.config.presets.contains_key(n));
    }
}

} // verus!
