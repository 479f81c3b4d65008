//! What holds of the daemon as a whole: what every transition keeps, what a failed write
//! leaves behind, what `off` means, and what becomes of unsaved edits.

use vstd::prelude::*;
use crate::config::{
    band_fault, config_equals_itself, default_config, figure_fault, preset_fault, runnable_bands,
    shipped, shipped_presets_run, with_draft, ConfigView,
};
use crate::dsp::{audible_bands, Band, MAX_BANDS};
use crate::error::{plain, ErrorView, Fault, Quantity};
use crate::ipc::{RequestView, ResponsePoint};
use crate::library::{
    backed_up, deleted, imported, renamed, reset_all, reset_all_after, reset_one_after,
    BackupView, FileView,
};
use crate::number::{Double, Single};
use crate::preset::{listing, listing_exists, same_contents, PresetView};
use crate::recovery::{clock_has_room, Recovery, RETRY_LIMIT};
use crate::state;
use crate::state::{
    After, DaemonView, EngineView, Mirror, Move, Reply, SavingView, SettingView, StepView, Stopped,
};
use crate::sys::TargetView;
use crate::tuning::{removal, setting_a_band_stays_runnable, with_band, Removal};

verus! {

impl DaemonView {
    /// What every transition keeps: there are presets, and every one can be run; the working
    /// config differs from the saved one in preset contents only; and the recovery is a proper
    /// incident.
    pub open spec fn inv(self) -> bool {
        &&& self.wf()
        &&& self.config.presets.dom().finite()
        &&& self.config.presets.dom().len() > 0
        &&& matching(self.config, self.saved_config)
    }
}

/// Two configs with the same preset names and the same settings.
pub open spec fn matching(a: ConfigView, b: ConfigView) -> bool {
    &&& a.presets.dom() == b.presets.dom()
    &&& a == (ConfigView { presets: a.presets, ..b })
}

/// A step that belongs to a state: what it hands out can be run, and what it brings back will
/// fit the state.
pub open spec fn sound(d: DaemonView, step: StepView) -> bool {
    match step {
        StepView::Save { next, saving } => {
            &&& next.usable()
            &&& next.presets.dom().finite()
            &&& match saving {
                SavingView::Setting(s) => next == s.applied(d.saved_config),
                SavingView::Enabled { on, .. } => next == (ConfigView {
                    enabled: on,
                    ..d.saved_config
                }),
                SavingView::Presets { working, .. } => {
                    &&& working.runnable()
                    &&& working.presets.dom().finite()
                    &&& matching(working, next)
                },
            }
        },
        StepView::Start { settings, retry, .. } => {
            &&& retry ==> d.recovery.retries_attempted < RETRY_LIMIT && !d.recovery.exhausted
            &&& playable(settings)
        },
        StepView::Push { settings, .. } => playable(settings),
        _ => true,
    }
}

/// Settings that the engine can be given: few enough bands, and every figure valid.
pub open spec fn playable(s: EngineView) -> bool {
    preset_fault(PresetView { bands: s.bands, preamp_db: s.preamp_db }) is None
}

/// A library with a preset is not empty.
proof fn holds_a_preset(c: ConfigView, n: Seq<char>)
    requires
        c.presets.dom().finite(),
        c.presets.contains_key(n),
    ensures
        c.presets.dom().len() > 0,
{
    if c.presets.dom().len() == 0 {
        c.presets.dom().lemma_len0_is_empty();
        assert(c.presets.dom().contains(n));
    }
}

proof fn settings_are_playable(d: DaemonView)
    requires
        d.config.runnable(),
        d.config.presets.dom().finite(),
    ensures
        playable(d.settings()),
{
    let m = d.config.presets;
    if !m.contains_key(d.config.active_preset) {
        listing_exists(m);
        if listing(m).len() > 0 {
            assert(listing(m).contains(listing(m)[0]));
        }
    }
    match d.config.active() {
        Some(p) => {
            assert(d.settings().bands == p.bands);
            assert(PresetView { bands: p.bands, preamp_db: p.preamp_db } == p);
        },
        None => {
            crate::config::permitted_by_rank(Quantity::Preamp, Single { bits: 0 });
        },
    }
}

/// The engine has room for every band of the settings it is given.
pub proof fn settings_fit_the_engine(s: EngineView)
    requires
        playable(s),
    ensures
        s.bands.len() <= MAX_BANDS,
        audible_bands(s.bands).len() <= MAX_BANDS,
{
    filter_is_no_longer(s.bands);
}

proof fn filter_is_no_longer(bands: Seq<Band>)
    ensures
        audible_bands(bands).len() <= bands.len(),
    decreases bands.len(),
{
    reveal_with_fuel(Seq::filter, 2);
    if bands.len() > 0 {
        filter_is_no_longer(bands.drop_last());
    }
}

// --- every transition keeps the invariant ------------------------------------------------

proof fn push_keeps(d: DaemonView, reply: Reply, failed: Option<ErrorView>)
    requires
        d.inv(),
    ensures
        state::push(d, reply, failed).0 == d,
        sound(d, state::push(d, reply, failed).1),
{
    settings_are_playable(d);
}

proof fn sync_keeps(d: DaemonView, reply: Reply, now: u64)
    requires
        d.inv(),
    ensures
        state::sync(d, reply, now).0.inv(),
        sound(state::sync(d, reply, now).0, state::sync(d, reply, now).1),
{
    let e = DaemonView { draft_dirty: true, ..d };
    push_keeps(e, reply, None);
}

proof fn record_keeps(d: DaemonView, on: bool, failed: bool)
    requires
        d.inv(),
    ensures
        state::record_enabled(d, on, failed).0 == d,
        sound(d, state::record_enabled(d, on, failed).1),
{
    let next = ConfigView { enabled: on, ..d.saved_config };
    assert(next.presets == d.saved_config.presets);
    assert(next.runnable());
}

proof fn settled_keeps(d: DaemonView, after: After, failed: Option<Seq<char>>)
    requires
        d.inv(),
    ensures
        state::settled(d, after, failed).0 == d,
        sound(d, state::settled(d, after, failed).1),
{
    record_keeps(d, true, failed is Some);
    record_keeps(d, false, failed is Some);
}

proof fn reconcile_keeps(d: DaemonView, after: After)
    requires
        d.inv(),
    ensures
        state::reconcile(d, after).0.inv(),
        sound(state::reconcile(d, after).0, state::reconcile(d, after).1),
{
    settled_keeps(d, after, None);
    settings_are_playable(d);
}

proof fn setting_keeps(d: DaemonView, s: SettingView, now: u64)
    requires
        d.inv(),
    ensures
        state::setting_kept(d, s, now).0.inv(),
        sound(state::setting_kept(d, s, now).0, state::setting_kept(d, s, now).1),
{
    match s {
        SettingView::ActivePreset(_) => sync_keeps(d, Reply::Tuning, now),
        SettingView::Limiter(_) => sync_keeps(d, Reply::Done, now),
        SettingView::AutoOffLowPower(on) => reconcile_keeps(
            state::low_power_policy(d, on),
            After::Toggle,
        ),
        SettingView::AutoOffIdle(on) => reconcile_keeps(state::idle_policy(d, on), After::Toggle),
    }
}

proof fn commit_setting_keeps(d: DaemonView, s: SettingView, now: u64)
    requires
        d.inv(),
    ensures
        state::commit_setting(d, s, now).0.inv(),
        sound(state::commit_setting(d, s, now).0, state::commit_setting(d, s, now).1),
{
    setting_keeps(d, s, now);
    let next = s.applied(d.saved_config);
    assert(next.presets == d.saved_config.presets);
    assert(next.runnable());
}

proof fn commit_keeps(d: DaemonView, next: Result<ConfigView, ErrorView>, reply: Reply)
    requires
        d.inv(),
        next is Ok ==> next->Ok_0.usable() && next->Ok_0.presets.dom().finite(),
    ensures
        state::commit(d, next, reply).0 == d,
        sound(d, state::commit(d, next, reply).1),
{
}

proof fn edit_keeps(d: DaemonView, p: PresetView)
    requires
        d.inv(),
        d.config.presets.contains_key(d.config.active_preset),
        preset_fault(p) is None,
    ensures
        state::edited(d, p).inv(),
{
    let e = state::edited(d, p);
    assert(e.config.presets.dom() =~= d.config.presets.dom());
}

/// Removing a band keeps a preset runnable.
proof fn removing_stays_runnable(p: PresetView, i: int)
    requires
        preset_fault(p) is None,
        0 <= i < p.bands.len(),
    ensures
        preset_fault(PresetView { bands: p.bands.remove(i), ..p }) is None,
{
    let after = p.bands.remove(i);
    runnable_bands(p.bands);
    assert forall|j: int| 0 <= j < after.len() implies band_fault(
        (#[trigger] after[j]).freq,
        after[j].gain_db,
        after[j].q,
    ) is None by {
        let k = if j < i { j } else { j + 1 };
        assert(after[j] == p.bands[k]);
    }
    runnable_bands(after);
}

proof fn backups_keep(c: ConfigView, backups: Seq<BackupView>)
    requires
        c.runnable(),
        c.presets.dom().finite(),
        backed_up(c, backups) is Ok,
    ensures
        backed_up(c, backups)->Ok_0.runnable(),
        backed_up(c, backups)->Ok_0.presets.dom().finite(),
    decreases backups.len(),
{
    if backups.len() > 0 {
        backups_keep(c, backups.drop_last());
        let d = backed_up(c, backups.drop_last())->Ok_0;
        let b = backups.last();
        assert(d.presets.contains_key(b.source));
        assert(d.presets.insert(b.dest, d.presets[b.source]).dom() =~= d.presets.dom().insert(
            b.dest,
        ));
    }
}

proof fn reset_one_keeps(c: ConfigView, backups: Seq<BackupView>, name: Seq<char>)
    requires
        c.runnable(),
        c.presets.dom().finite(),
        reset_one_after(c, backups, name) is Ok,
    ensures
        reset_one_after(c, backups, name)->Ok_0.usable(),
        reset_one_after(c, backups, name)->Ok_0.presets.dom().finite(),
{
    backups_keep(c, backups);
    shipped_presets_run();
    assert(default_config().presets.contains_key(name));
    holds_a_preset(reset_one_after(c, backups, name)->Ok_0, name);
}

proof fn reset_all_keeps(c: ConfigView, backups: Seq<BackupView>)
    requires
        c.runnable(),
        c.presets.dom().finite(),
        reset_all_after(c, backups) is Ok,
    ensures
        reset_all_after(c, backups)->Ok_0.usable(),
        reset_all_after(c, backups)->Ok_0.presets.dom().finite(),
{
    backups_keep(c, backups);
    shipped_presets_run();
    let b = backed_up(c, backups)->Ok_0;
    let r = reset_all(b);
    assert(r.presets.dom() =~= b.presets.dom().union(shipped().dom()));
    assert forall|n: Seq<char>| #[trigger] r.presets.contains_key(n) implies preset_fault(
        r.presets[n],
    ) is None by {
        if shipped().contains_key(n) {
            assert(default_config().presets.contains_key(n));
        } else {
            assert(b.presets.contains_key(n));
        }
    }
    assert(shipped().contains_key("bright"@));
    holds_a_preset(r, "bright"@);
}

proof fn save_as_keeps(d: DaemonView, name: Seq<char>)
    requires
        d.inv(),
    ensures
        state::save_as(d, name).0 == d,
        sound(d, state::save_as(d, name).1),
{
    settings_are_playable(d);
    if let Some(p) = d.config.active() {
        assert(PresetView { bands: p.bands, preamp_db: p.preamp_db } == p);
        let next = state::saved_as(d, name, p);
        let working = state::carried_over(d, name, p);
        assert(next.presets.dom() =~= d.saved_config.presets.dom().insert(name));
        assert forall|n: Seq<char>| next.presets.dom().contains(n)
            == working.presets.dom().contains(n) by {
            if state::carries(d, name, n) {
                assert(d.config.presets.dom().contains(n));
            }
        }
        assert(working.presets.dom() =~= next.presets.dom());
        holds_a_preset(next, name);
        assert forall|n: Seq<char>| #[trigger] working.presets.contains_key(n) implies preset_fault(
            working.presets[n],
        ) is None by {
            if state::carries(d, name, n) {
                assert(d.config.presets.contains_key(n));
            } else {
                assert(next.presets.contains_key(n));
            }
        }
    }
}

proof fn clone_keeps(d: DaemonView, source: Seq<char>, dest: Seq<char>)
    requires
        d.inv(),
    ensures
        sound(d, state::commit(d, state::cloned(d, source, dest), Reply::Tuning).1),
{
    let next = state::cloned(d, source, dest);
    if next is Ok {
        let c = next->Ok_0;
        assert(d.config.presets.contains_key(source));
        assert(c.presets.dom() =~= d.saved_config.presets.dom().insert(dest));
        holds_a_preset(c, dest);
    }
    commit_keeps(d, next, Reply::Tuning);
}

proof fn delete_keeps(d: DaemonView, names: Seq<Seq<char>>)
    requires
        d.inv(),
    ensures
        sound(d, state::commit(d, deleted(d.config, names), Reply::Presets).1),
{
    let next = deleted(d.config, names);
    if next is Ok {
        let c = next->Ok_0;
        crate::library::deleting_is_exact(d.config, names);
        assert(c.presets.dom() =~= d.config.presets.dom().difference(names.to_set()));
        assert forall|n: Seq<char>| #[trigger] c.presets.contains_key(n) implies preset_fault(
            c.presets[n],
        ) is None by {
            assert(d.config.presets.contains_key(n));
        }
    }
    commit_keeps(d, next, Reply::Presets);
}

proof fn rename_keeps(d: DaemonView, from: Seq<char>, to: Seq<char>)
    requires
        d.inv(),
    ensures
        sound(d, state::commit(d, renamed(d.config, from, to), Reply::Tuning).1),
{
    let next = renamed(d.config, from, to);
    if next is Ok {
        let c = next->Ok_0;
        assert(c.presets.dom() =~= d.config.presets.dom().remove(from).insert(to));
        assert(d.config.presets.contains_key(from));
        holds_a_preset(c, to);
        assert forall|n: Seq<char>| #[trigger] c.presets.contains_key(n) implies preset_fault(
            c.presets[n],
        ) is None by {
            if n != to {
                assert(d.config.presets.contains_key(n));
            }
        }
    }
    commit_keeps(d, next, Reply::Tuning);
}

/// Every request keeps the invariant, and the step it asks for fits the state.
#[verifier::rlimit(60)]
pub proof fn requests_keep(d: DaemonView, req: RequestView, now: u64)
    requires
        d.inv(),
    ensures
        state::applied(d, req, now).0.inv(),
        sound(state::applied(d, req, now).0, state::applied(d, req, now).1),
{
    match req {
        RequestView::Enable => {
            reconcile_keeps(
                DaemonView {
                    user_intent: true,
                    idle_suspended: false,
                    engine_target_on: true,
                    recovery: Recovery::fresh(),
                    ..d
                },
                After::Enable,
            );
        },
        RequestView::Disable => {
            reconcile_keeps(
                DaemonView {
                    user_intent: false,
                    idle_suspended: false,
                    engine_target_on: false,
                    recovery: Recovery::fresh(),
                    ..d
                },
                After::Disable,
            );
        },
        RequestView::SetPreset(name) => {
            commit_setting_keeps(d, SettingView::ActivePreset(name), now);
        },
        RequestView::SavePreset { name } => {
            save_as_keeps(d, name);
        },
        RequestView::SaveSessionAs { name } => {
            save_as_keeps(d, name);
        },
        RequestView::ClonePreset { source, dest } => clone_keeps(d, source, dest),
        RequestView::DeletePresets { names } => delete_keeps(d, names),
        RequestView::RenamePreset { from, to } => rename_keeps(d, from, to),
        RequestView::SetBand { kind, freq, gain_db, q } => {
            let band = Band { kind, freq, gain_db, q };
            if band_fault(freq, gain_db, q) is None && state::own_preset(d.config) is Ok {
                let p = d.config.presets[d.config.active_preset];
                if let Ok(bands) = with_band(p.bands, band) {
                    setting_a_band_stays_runnable(p.bands, band);
                    edit_keeps(d, PresetView { bands, ..p });
                    sync_keeps(
                        state::edited(d, PresetView { bands, ..p }),
                        Reply::Tuning,
                        now,
                    );
                }
            }
        },
        RequestView::RemoveBand { freq } => {
            if state::own_preset(d.config) is Ok {
                let p = d.config.presets[d.config.active_preset];
                crate::tuning::removal_needs_a_close_band(p.bands, freq);
                if let Removal::Hit(i) = removal(p.bands, freq) {
                    removing_stays_runnable(p, i as int);
                    let q = PresetView { bands: p.bands.remove(i as int), ..p };
                    edit_keeps(d, q);
                    sync_keeps(
                        state::edited(d, q),
                        Reply::BandRemoved(p.bands[i as int]),
                        now,
                    );
                }
            }
        },
        RequestView::SetPreamp(db) => {
            set_preamp_keeps(d, db, now);
        },
        RequestView::SetBypass(on) => {
            push_keeps(DaemonView { bypassed: on, ..d }, Reply::Done, None);
        },
        RequestView::SetLimiter(on) => {
            commit_setting_keeps(d, SettingView::Limiter(on), now);
        },
        RequestView::SetAutoOffLowPower(on) => {
            commit_setting_keeps(d, SettingView::AutoOffLowPower(on), now);
        },
        RequestView::SetAutoOffIdle(on) => {
            commit_setting_keeps(d, SettingView::AutoOffIdle(on), now);
        },
        RequestView::SaveSessionOverwrite => {
            commit_keeps(d, Ok(d.config), Reply::Tuning);
        },
        RequestView::DiscardSession => {
            sync_keeps(DaemonView { config: d.saved_config, ..d }, Reply::Tuning, now);
        },
        RequestView::ResetPreset { name } => {
            let next = reset_one_after(d.config, Seq::empty(), name);
            if next is Ok {
                reset_one_keeps(d.config, Seq::empty(), name);
            }
            commit_keeps(d, next, Reply::Tuning);
        },
        RequestView::ConfirmResetPreset { name, backups } => {
            let next = reset_one_after(d.config, backups, name);
            if next is Ok {
                reset_one_keeps(d.config, backups, name);
            }
            commit_keeps(d, next, Reply::Tuning);
        },
        RequestView::Reset => {
            let next = reset_all_after(d.config, Seq::empty());
            if next is Ok {
                reset_all_keeps(d.config, Seq::empty());
            }
            commit_keeps(d, next, Reply::Tuning);
        },
        RequestView::ConfirmReset { backups } => {
            let next = reset_all_after(d.config, backups);
            if next is Ok {
                reset_all_keeps(d.config, backups);
            }
            commit_keeps(d, next, Reply::Tuning);
        },
        _ => {},
    }
}

proof fn set_preamp_keeps(d: DaemonView, db: Single, now: u64)
    requires
        d.inv(),
    ensures
        state::set_preamp(d, db, now).0.inv(),
        sound(state::set_preamp(d, db, now).0, state::set_preamp(d, db, now).1),
{
    if figure_fault(Quantity::Preamp, db) is None && state::own_preset(d.config) is Ok {
        let p = d.config.presets[d.config.active_preset];
        let q = PresetView { preamp_db: db, ..p };
        edit_keeps(d, q);
        sync_keeps(state::edited(d, q), Reply::Tuning, now);
    }
}

/// The result of a start keeps the invariant, and the next step fits the state.
pub proof fn starts_keep(
    d: DaemonView,
    settings: EngineView,
    after: After,
    retry: bool,
    target: Result<TargetView, Seq<char>>,
    now: u64,
)
    requires
        d.inv(),
        sound(d, StepView::Start { settings, after, retry }),
        clock_has_room(now),
    ensures
        keeps(state::started(d, after, retry, target, now)),
{
    match target {
        Ok(t) => settled_keeps(
            DaemonView { engine: Some(t), recovery: Recovery::fresh(), ..d },
            after,
            None,
        ),
        Err(m) => {
            let r = if !d.engine_target_on {
                d.recovery
            } else if retry {
                d.recovery.after_failure(now)
            } else {
                Recovery::opened(now)
            };
            settled_keeps(
                DaemonView { last_engine_error: Some(m), recovery: r, ..d },
                after,
                Some(m),
            );
        },
    }
}

/// The end of the engine keeps the invariant, and the next step fits the state.
pub proof fn stops_keep(d: DaemonView, then: Stopped)
    requires
        d.inv(),
    ensures
        keeps(state::stopped(d, then)),
{
    match then {
        Stopped::Then(a) => settled_keeps(d, a, None),
        Stopped::Rebuild => reconcile_keeps(d, After::Poll),
    }
}

/// The result of a write keeps the invariant, and the next step fits the state.
pub proof fn writes_keep(
    d: DaemonView,
    next: ConfigView,
    saving: SavingView,
    failed: Option<Seq<char>>,
    now: u64,
)
    requires
        d.inv(),
        sound(d, StepView::Save { next, saving }),
    ensures
        keeps(state::saved(d, next, saving, failed, now)),
{
    if failed is None {
        match saving {
            SavingView::Setting(s) => {
                let e = DaemonView { config: s.applied(d.config), saved_config: next, ..d };
                assert(e.config.presets == d.config.presets);
                assert(e.config.runnable());
                setting_keeps(e, s, now);
            },
            SavingView::Enabled { on, failed: not_started } => {
                let e = DaemonView {
                    config: ConfigView { enabled: on, ..d.config },
                    saved_config: next,
                    ..d
                };
                assert(e.config.presets == d.config.presets);
                assert(e.config.runnable());
            },
            SavingView::Presets { working, reply } => {
                sync_keeps(
                    DaemonView { config: working, saved_config: next, ..d },
                    reply,
                    now,
                );
            },
        }
    }
}

/// What becomes of the draft keeps the invariant, and the next step fits the state.
pub proof fn drafts_keep(
    d: DaemonView,
    at: u64,
    mirror: Mirror,
    written: bool,
    reply: Reply,
    stayed: Option<(Seq<char>, Seq<char>)>,
)
    requires
        d.inv(),
    ensures
        keeps(state::draft_written(d, at, mirror, written)),
        keeps(state::draft_removed(d, reply, stayed)),
{
    let w = if written {
        DaemonView { draft_last_write: Some(at), ..d }
    } else {
        d
    };
    if let Mirror::Request(r) = mirror {
        push_keeps(w, r, None);
    }
    push_keeps(d, reply, state::draft_removed_failure(stayed));
}

/// What was read or measured keeps the invariant, and the next step fits the state.
pub proof fn readings_keep(
    d: DaemonView,
    file: Result<FileView, Seq<char>>,
    name: Option<Seq<char>>,
    peak: Result<Single, Seq<char>>,
    now: u64,
)
    requires
        d.inv(),
    ensures
        keeps(state::preset_read(d, file, name)),
        keeps(state::peak_measured(d, peak, now)),
{
    if let Ok(f) = file {
        let c = imported(d.config, f, name);
        if c is Ok {
            let n = crate::library::import_name(f, name);
            assert(c->Ok_0.presets.dom() =~= d.config.presets.dom().insert(n));
            holds_a_preset(c->Ok_0, n);
        }
        commit_keeps(d, c, Reply::Tuning);
    }
    if let Ok(x) = peak {
        set_preamp_keeps(d, state::offset(x), now);
    }
}

/// A move to a state with the invariant, with a step that fits it.
pub open spec fn keeps(m: Move) -> bool {
    m.0.inv() && sound(m.0, m.1)
}

/// Every poll keeps the invariant, and the step it asks for fits the state.
pub proof fn polls_keep(
    d: DaemonView,
    error: Option<Seq<char>>,
    active: bool,
    silent_frames: u64,
    output_running: bool,
    output_id: Option<u32>,
    rate: Option<Double>,
    now: u64,
)
    requires
        d.inv(),
        clock_has_room(now),
    ensures
        keeps(state::startup(d)),
        keeps(state::health(d, error, now)),
        keeps(state::low_power(d, active)),
        keeps(state::idle_activity(d, silent_frames, output_running)),
        keeps(state::default_device(d, output_id, rate)),
        keeps(state::recover(d, now)),
        keeps(state::flush(d, now)),
{
    reconcile_keeps(d, After::Poll);
    settings_are_playable(d);
    let target = !active && d.user_intent && !d.idle_suspended;
    reconcile_keeps(
        DaemonView {
            low_power: active,
            engine_target_on: target,
            recovery: if active {
                Recovery { next_retry: None, ..d.recovery }
            } else if target && d.engine is None {
                Recovery::fresh()
            } else {
                d.recovery
            },
            ..d
        },
        After::Poll,
    );
    reconcile_keeps(
        DaemonView {
            idle_suspended: true,
            engine_target_on: false,
            recovery: Recovery { next_retry: None, ..d.recovery },
            ..d
        },
        After::Poll,
    );
    reconcile_keeps(
        DaemonView {
            idle_suspended: false,
            engine_target_on: true,
            recovery: Recovery::fresh(),
            ..d
        },
        After::Poll,
    );
    reconcile_keeps(
        DaemonView {
            observed_output_id: output_id,
            recovery: if d.engine_target_on {
                Recovery::fresh()
            } else {
                Recovery { next_retry: None, ..d.recovery }
            },
            ..d
        },
        After::Poll,
    );
    reconcile_keeps(DaemonView { recovery: Recovery::fresh(), ..d }, After::Poll);
}

/// A daemon that starts from a usable config, and from the draft of a session if one was left
/// behind, has the invariant.
pub proof fn start_keeps(
    saved: ConfigView,
    draft: Option<ConfigView>,
    low_power: bool,
    output_id: Option<u32>,
)
    requires
        saved.usable(),
        saved.presets.dom().finite(),
        draft matches Some(c) ==> c.runnable(),
    ensures
        state::initial(
            saved,
            match draft {
                Some(c) => Some(with_draft(saved, c)),
                None => None,
            },
            low_power,
            output_id,
        ).inv(),
{
    if let Some(c) = draft {
        crate::config::draft_changes_contents_only(saved, c);
    }
}

// --- unsaved sessions ----------------------------------------------------------------------

/// There is an unsaved session exactly when some preset has unsaved edits: switching presets
/// and toggling settings make none.
pub proof fn unsaved_means_dirty(d: DaemonView)
    requires
        d.inv(),
    ensures
        d.unsaved() <==> exists|n: Seq<char>| #[trigger]
            d.config.presets.contains_key(n) && d.dirty(n),
{
    let a = d.config.presets;
    let b = d.saved_config.presets;
    if d.unsaved() {
        assert(!same_contents(a, b));
        assert(a.dom() == b.dom());
        let n = choose|n: Seq<char>| #[trigger] a.contains_key(n) && !a[n].equals(b[n]);
        assert(a.contains_key(n) && d.dirty(n));
    }
    if exists|n: Seq<char>| #[trigger] a.contains_key(n) && d.dirty(n) {
        let n = choose|n: Seq<char>| #[trigger] a.contains_key(n) && d.dirty(n);
        assert(a.dom().contains(n));
        assert(b.dom().contains(n));
        assert(!a[n].equals(b[n]));
    }
}

/// Persist first: where a write fails, nothing in memory changes, and the request is answered
/// with a failure. A retry then writes again.
pub proof fn failed_write_changes_nothing(
    d: DaemonView,
    next: ConfigView,
    saving: SavingView,
    reason: Seq<char>,
    now: u64,
)
    ensures
        state::saved(d, next, saving, Some(reason), now).0 == d,
        state::saved(d, next, saving, Some(reason), now).1 matches StepView::Finish(Err(_)),
{
}

/// A setting that was persisted is the same in both configs, changes no preset contents, and
/// leaves an open session open and a resolved one resolved.
pub proof fn settings_are_no_session(
    d: DaemonView,
    s: SettingView,
    now: u64,
)
    requires
        d.inv(),
    ensures
        ({
            let e = state::saved(
                d,
                s.applied(d.saved_config),
                SavingView::Setting(s),
                None,
                now,
            ).0;
            &&& e.config == s.applied(d.config)
            &&& e.saved_config == s.applied(d.saved_config)
            &&& e.unsaved() <==> d.unsaved()
        }),
{
    let e = DaemonView {
        config: s.applied(d.config),
        saved_config: s.applied(d.saved_config),
        ..d
    };
    setting_keeps_configs(e, s, now);
    assert(e.config.presets == d.config.presets);
    assert(e.saved_config.presets == d.saved_config.presets);
}

proof fn setting_keeps_configs(d: DaemonView, s: SettingView, now: u64)
    ensures
        state::setting_kept(d, s, now).0.config == d.config,
        state::setting_kept(d, s, now).0.saved_config == d.saved_config,
{
}

/// A committed change of presets resolves the session: afterwards nothing is unsaved, and the
/// draft on disk is removed.
pub proof fn committing_resolves_the_session(
    d: DaemonView,
    next: ConfigView,
    reply: Reply,
    now: u64,
)
    requires
        next.runnable(),
    ensures
        ({
            let m = state::saved(
                d,
                next,
                SavingView::Presets { working: next, reply },
                None,
                now,
            );
            &&& m.0.config == next
            &&& m.0.saved_config == next
            &&& !m.0.unsaved()
            &&& m.1 == StepView::RemoveDraft(reply)
            &&& !m.0.draft_dirty
            &&& m.0.draft_last_write is None
        }),
{
    config_equals_itself(next);
}

/// Discarding gives the saved config back and resolves the session.
pub proof fn discarding_resolves_the_session(d: DaemonView, now: u64)
    requires
        d.saved_config.runnable(),
    ensures
        ({
            let m = state::applied(d, RequestView::DiscardSession, now);
            &&& m.0.config == d.saved_config
            &&& m.0.saved_config == d.saved_config
            &&& !m.0.unsaved()
            &&& m.1 == StepView::RemoveDraft(Reply::Tuning)
        }),
{
    config_equals_itself(d.saved_config);
}

/// Tuning edits persist nothing: the saved config stays, and no config is written.
pub proof fn edits_are_not_persisted(d: DaemonView, req: RequestView, now: u64)
    requires
        req is SetBand || req is RemoveBand || req is SetPreamp || req is SetPreampAuto,
    ensures
        state::applied(d, req, now).0.saved_config == d.saved_config,
        !(state::applied(d, req, now).1 is Save),
        forall|n: Seq<char>|
            n != d.config.active_preset && #[trigger] d.config.presets.contains_key(n)
                ==> state::applied(d, req, now).0.config.presets.contains_key(n)
                && state::applied(d, req, now).0.config.presets[n] == d.config.presets[n],
{
}

/// Saving a session under a name consumes the active preset's edits only. Unsaved edits to
/// every other preset stay in the working config, and its saved contents stay too.
pub proof fn saving_as_keeps_other_edits(d: DaemonView, name: Seq<char>, p: PresetView, n: Seq<char>)
    requires
        d.inv(),
        n != name,
        n != d.config.active_preset,
        d.config.presets.contains_key(n),
    ensures
        state::carried_over(d, name, p).presets.contains_key(n),
        state::carried_over(d, name, p).presets[n] == d.config.presets[n],
        state::saved_as(d, name, p).presets.contains_key(n),
        state::saved_as(d, name, p).presets[n] == d.saved_config.presets[n],
{
    assert(d.config.presets.dom().contains(n));
    assert(d.saved_config.presets.dom().contains(n));
}

/// The saved tuning is what was being played, under its new name, and it is active and clean.
pub proof fn saving_as_saves_the_tuning(d: DaemonView, name: Seq<char>, p: PresetView)
    requires
        d.inv(),
        d.config.active() == Some(p),
    ensures
        ({
            let next = state::saved_as(d, name, p);
            let working = state::carried_over(d, name, p);
            &&& next.active_preset == name
            &&& next.presets[name] == p
            &&& working.active_preset == name
            &&& working.presets[name] == p
            &&& working.active() == Some(p)
        }),
{
}

/// While a session is open, preset management is refused and changes nothing.
pub proof fn open_session_blocks_management(d: DaemonView, req: RequestView, now: u64)
    requires
        d.unsaved(),
        req is ClonePreset || req is DeletePresets || req is RenamePreset || req is ImportPreset
            || req is ResetPreset || req is ConfirmResetPreset || req is Reset
            || req is ConfirmReset,
    ensures
        state::applied(d, req, now) == state::refuse(d, plain(Fault::UnsavedSession)),
{
}

/// The first edit after a quiet period is mirrored at once, with the edit in it; a burst
/// within the interval is not written, but remembered; and the flush writes the latest
/// working config.
pub proof fn drafts_are_coalesced(d: DaemonView, reply: Reply, now: u64, later: u64)
    requires
        d.unsaved(),
    ensures
        d.draft_last_write is None ==> state::sync(d, reply, now).1 == (StepView::WriteDraft {
            draft: d.config,
            at: now,
            mirror: Mirror::Request(reply),
        }),
        !d.draft_due(now) ==> state::sync(d, reply, now).0.draft_dirty && !(state::sync(
            d,
            reply,
            now,
        ).1 is WriteDraft),
        d.draft_dirty && d.draft_due(later) ==> state::flush(d, later).1
            == (StepView::WriteDraft { draft: d.config, at: later, mirror: Mirror::Flush })
            && !state::flush(d, later).0.draft_dirty,
        d.draft_dirty && !d.draft_due(later) ==> state::flush(d, later) == (d, StepView::Idle),
{
}

// --- on and off ------------------------------------------------------------------------------

/// The user wants the EQ off, and no engine runs.
pub open spec fn off(d: DaemonView) -> bool {
    !d.user_intent && !d.engine_target_on && d.engine is None
}

/// `off` stops the engine before anything that can fail, and nothing that the write of the
/// config does afterwards turns it on again.
pub proof fn off_always_stops(
    d: DaemonView,
    next: ConfigView,
    not_started: bool,
    failed: Option<Seq<char>>,
    now: u64,
)
    ensures
        off(state::disable(d).0),
        d.engine is Some ==> state::disable(d).1 == StepView::Stop(Stopped::Then(After::Disable)),
        !(state::disable(d).1 is Start),
        off(d) ==> off(state::stopped(d, Stopped::Then(After::Disable)).0),
        off(d) ==> off(
            state::saved(
                d,
                next,
                SavingView::Enabled { on: false, failed: not_started },
                failed,
                now,
            ).0,
        ),
{
}

/// Once off, no request but `on` starts the engine, whatever the config on disk says.
pub proof fn off_stays_off(d: DaemonView, req: RequestView, now: u64)
    requires
        off(d),
        !(req is Enable),
    ensures
        rests(state::applied(d, req, now)),
{
    match req {
        RequestView::SetPreset(name) => setting_rests(d, SettingView::ActivePreset(name), now),
        RequestView::SetLimiter(on) => setting_rests(d, SettingView::Limiter(on), now),
        RequestView::SetAutoOffLowPower(on) => setting_rests(
            d,
            SettingView::AutoOffLowPower(on),
            now,
        ),
        RequestView::SetAutoOffIdle(on) => setting_rests(d, SettingView::AutoOffIdle(on), now),
        RequestView::SetBand { kind, freq, gain_db, q } => {
            if let Ok(p) = state::own_preset(d.config) {
                if let Ok(bands) = with_band(p.bands, Band { kind, freq, gain_db, q }) {
                    sync_rests(
                        state::edited(d, PresetView { bands, ..p }),
                        Reply::Tuning,
                        now,
                    );
                }
            }
        },
        RequestView::RemoveBand { freq } => {
            if let Ok(p) = state::own_preset(d.config) {
                if let Removal::Hit(i) = removal(p.bands, freq) {
                    sync_rests(
                        state::edited(d, PresetView { bands: p.bands.remove(i as int), ..p }),
                        Reply::BandRemoved(p.bands[i as int]),
                        now,
                    );
                }
            }
        },
        RequestView::SetPreamp(db) => {
            if let Ok(p) = state::own_preset(d.config) {
                sync_rests(
                    state::edited(d, PresetView { preamp_db: db, ..p }),
                    Reply::Tuning,
                    now,
                );
            }
        },
        RequestView::DiscardSession => {
            sync_rests(DaemonView { config: d.saved_config, ..d }, Reply::Tuning, now);
        },
        RequestView::Status => {},
        RequestView::Enable => {},
        RequestView::Disable => {},
        RequestView::ListPresets => {},
        RequestView::ShowPreset(_) => {},
        RequestView::SavePreset { name } => {},
        RequestView::ClonePreset { source, dest } => {},
        RequestView::DeletePresets { names } => {},
        RequestView::RenamePreset { from, to } => {},
        RequestView::ExportPreset { name, path } => {},
        RequestView::ImportPreset { path, name } => {},
        RequestView::SetPreampAuto => {},
        RequestView::GetResponse => {},
        RequestView::SetBypass(_) => {},
        RequestView::SaveSessionAs { name } => {},
        RequestView::SaveSessionOverwrite => {},
        RequestView::ResetPreset { name } => {},
        RequestView::ConfirmResetPreset { name, backups } => {},
        RequestView::Reset => {},
        RequestView::ConfirmReset { backups } => {},
    }
}

proof fn sync_rests(d: DaemonView, reply: Reply, now: u64)
    requires
        off(d),
    ensures
        rests(state::sync(d, reply, now)),
{
}

proof fn setting_rests(d: DaemonView, s: SettingView, now: u64)
    requires
        off(d),
    ensures
        rests(state::setting_kept(d, s, now)),
{
}

/// Once off, no result of a write starts the engine.
pub proof fn writes_leave_it_off(
    d: DaemonView,
    next: ConfigView,
    saving: SavingView,
    failed: Option<Seq<char>>,
    now: u64,
)
    requires
        off(d),
    ensures
        rests(state::saved(d, next, saving, failed, now)),
{
    if let SavingView::Setting(s) = saving {
        let e = DaemonView { config: s.applied(d.config), saved_config: next, ..d };
        setting_rests(e, s, now);
    }
}

/// Once off, no poll starts the engine.
pub proof fn polls_leave_it_off(
    d: DaemonView,
    error: Option<Seq<char>>,
    active: bool,
    silent_frames: u64,
    output_running: bool,
    output_id: Option<u32>,
    rate: Option<Double>,
    now: u64,
)
    requires
        off(d),
    ensures
        rests(state::startup(d)),
        rests(state::health(d, error, now)),
        rests(state::low_power(d, active)),
        rests(state::idle_activity(d, silent_frames, output_running)),
        rests(state::default_device(d, output_id, rate)),
        rests(state::recover(d, now)),
        rests(state::flush(d, now)),
{
}

/// A move that leaves the EQ off.
pub open spec fn rests(m: Move) -> bool {
    off(m.0) && !(m.1 is Start)
}

/// `on` always tries at once, also under power saving and after an exhausted incident, and the
/// intent is recorded even when the start fails.
pub proof fn on_always_tries(d: DaemonView, reason: Seq<char>, now: u64)
    ensures
        d.engine is None ==> state::enable(d).1 == (StepView::Start {
            settings: state::enable(d).0.settings(),
            after: After::Enable,
            retry: false,
        }),
        ({
            let e = state::enable(d).0;
            let m = state::started(e, After::Enable, false, Err(reason), now);
            &&& e.user_intent
            &&& m.0.user_intent
            &&& m.0.engine_target_on
            &&& m.0.recovery == Recovery::opened(now)
            &&& m == state::record_enabled(m.0, true, true)
        }),
{
}

/// A waiting or exhausted incident is the recovery's alone: bringing the engine in line with
/// its target adds no attempt.
pub proof fn incidents_are_not_bypassed(d: DaemonView, after: After)
    requires
        d.recovery.exhausted || d.recovery.next_retry is Some,
    ensures
        !(state::reconcile(d, after).1 is Start),
        d.recovery.exhausted && d.inv() ==> forall|now: u64|
            !((#[trigger] state::recover(d, now)).1 is Start),
{
}

/// An idle suspension is lifted by new activity or the user, and not by the power-saving
/// policy: neither leaving power saving nor switching its policy off starts the engine.
pub proof fn power_saving_respects_idle(d: DaemonView, now: u64)
    requires
        d.idle_suspended,
        d.engine is None,
    ensures
        !(state::low_power(d, false).1 is Start) || d.engine_target_on,
        d.low_power && d.config.auto_off_low_power ==> !(state::low_power(d, false).1 is Start)
            && state::low_power(d, false).0.idle_suspended,
        !state::low_power_policy(d, false).engine_target_on,
        state::low_power_policy(d, false).idle_suspended,
        !(state::setting_kept(d, SettingView::AutoOffLowPower(false), now).1 is Start),
{
}

/// While power saving suppresses the engine, activity on the output does not resume it.
pub proof fn idle_respects_power_saving(d: DaemonView, silent_frames: u64)
    requires
        d.engine is None,
        d.suppressed(),
    ensures
        state::idle_activity(d, silent_frames, true) == (d, StepView::Idle),
{
}

/// Changing presets leaves the engine's life alone: whether it runs, whether it should, the
/// user's intent, an idle suspension, and the recovery.
pub proof fn presets_leave_the_engine_alone(
    d: DaemonView,
    next: ConfigView,
    working: ConfigView,
    reply: Reply,
    failed: Option<Seq<char>>,
    now: u64,
)
    ensures
        ({
            let e = state::saved(
                d,
                next,
                SavingView::Presets { working, reply },
                failed,
                now,
            ).0;
            &&& e.engine == d.engine
            &&& e.engine_target_on == d.engine_target_on
            &&& e.user_intent == d.user_intent
            &&& e.idle_suspended == d.idle_suspended
            &&& e.recovery == d.recovery
        }),
{
}

/// The status tells of an output exactly while an engine runs on it, and gives a reason
/// exactly while none runs.
pub proof fn status_is_truthful(d: DaemonView, now: u64)
    ensures
        d.status(now).engine_running <==> d.status(now).output_uid is Some,
        d.status(now).engine_running <==> d.status(now).suspension_reason is None,
        d.engine matches Some(t) ==> d.status(now).output_uid == Some(t.uid)
            && d.status(now).output_name == Some(t.name) && d.status(now).output_rate_hz == Some(
            t.sample_rate,
        ),
{
}

// --- whole runs --------------------------------------------------------------------------------

/// What can happen to the daemon: a request or a poll while it has nothing to do, and the
/// result of the step it asked for while it waits.
pub ghost enum Happening {
    Request(RequestView),
    Health(Option<Seq<char>>),
    LowPower(bool),
    IdleActivity(u64, bool),
    DefaultDevice(Option<u32>, Option<Double>),
    Recovery,
    Flush,
    Started(Result<TargetView, Seq<char>>),
    Stopped,
    Saved(Option<Seq<char>>),
    DraftWritten(bool),
    DraftRemoved(Option<(Seq<char>, Seq<char>)>),
    Pushed,
    PresetRead(Result<FileView, Seq<char>>),
    PresetWritten(Option<Seq<char>>),
    PeakMeasured(Result<Single, Seq<char>>),
    ResponseMeasured(Result<(Double, Seq<ResponsePoint>), Seq<char>>),
}

/// The daemon has nothing to do.
pub open spec fn ready(step: StepView) -> bool {
    step is Finish || step is Idle
}

/// What a happening does. A result that was not waited for, and a request or poll while a
/// result is waited for, do not happen.
pub open spec fn next_move(m: Move, h: Happening, now: u64) -> Move {
    let d = m.0;
    match h {
        Happening::Request(req) => if ready(m.1) {
            state::applied(d, req, now)
        } else {
            m
        },
        Happening::Health(error) => if ready(m.1) {
            state::health(d, error, now)
        } else {
            m
        },
        Happening::LowPower(active) => if ready(m.1) {
            state::low_power(d, active)
        } else {
            m
        },
        Happening::IdleActivity(silent, running) => if ready(m.1) {
            state::idle_activity(d, silent, running)
        } else {
            m
        },
        Happening::DefaultDevice(id, rate) => if ready(m.1) {
            state::default_device(d, id, rate)
        } else {
            m
        },
        Happening::Recovery => if ready(m.1) {
            state::recover(d, now)
        } else {
            m
        },
        Happening::Flush => if ready(m.1) {
            state::flush(d, now)
        } else {
            m
        },
        Happening::Started(r) => match m.1 {
            StepView::Start { settings, after, retry } => state::started(d, after, retry, r, now),
            _ => m,
        },
        Happening::Stopped => match m.1 {
            StepView::Stop(then) => state::stopped(d, then),
            _ => m,
        },
        Happening::Saved(failed) => match m.1 {
            StepView::Save { next, saving } => state::saved(d, next, saving, failed, now),
            _ => m,
        },
        Happening::DraftWritten(written) => match m.1 {
            StepView::WriteDraft { draft, at, mirror } => state::draft_written(
                d,
                at,
                mirror,
                written,
            ),
            _ => m,
        },
        Happening::DraftRemoved(stayed) => match m.1 {
            StepView::RemoveDraft(reply) => state::draft_removed(d, reply, stayed),
            _ => m,
        },
        Happening::Pushed => match m.1 {
            StepView::Push { settings, rate, reply, failed } => state::pushed(d, reply, failed),
            _ => m,
        },
        Happening::PresetRead(file) => match m.1 {
            StepView::ReadPreset { path, name } => state::preset_read(d, file, name),
            _ => m,
        },
        Happening::PresetWritten(failed) => match m.1 {
            StepView::WritePreset { path, file } => state::preset_written(d, failed),
            _ => m,
        },
        Happening::PeakMeasured(peak) => match m.1 {
            StepView::MeasurePeak { bands, rate } => state::peak_measured(d, peak, now),
            _ => m,
        },
        Happening::ResponseMeasured(curve) => match m.1 {
            StepView::MeasureResponse { bands, preamp_db, rate } => state::response_measured(
                d,
                curve,
            ),
            _ => m,
        },
    }
}

/// Where a run of happenings, each at its time, leads.
pub open spec fn run(m: Move, events: Seq<(Happening, u64)>) -> Move
    decreases events.len(),
{
    if events.len() == 0 {
        m
    } else {
        let (h, now) = events.last();
        next_move(run(m, events.drop_last()), h, now)
    }
}

proof fn next_move_keeps(m: Move, h: Happening, now: u64)
    requires
        keeps(m),
        clock_has_room(now),
    ensures
        keeps(next_move(m, h, now)),
{
    let d = m.0;
    match h {
        Happening::Request(req) => requests_keep(d, req, now),
        Happening::Health(error) => polls_keep(d, error, false, 0, false, None, None, now),
        Happening::LowPower(active) => polls_keep(d, None, active, 0, false, None, None, now),
        Happening::IdleActivity(silent, running) => polls_keep(
            d,
            None,
            false,
            silent,
            running,
            None,
            None,
            now,
        ),
        Happening::DefaultDevice(id, rate) => polls_keep(
            d,
            None,
            false,
            0,
            false,
            id,
            rate,
            now,
        ),
        Happening::Recovery => polls_keep(d, None, false, 0, false, None, None, now),
        Happening::Flush => polls_keep(d, None, false, 0, false, None, None, now),
        Happening::Started(r) => {
            if let StepView::Start { settings, after, retry } = m.1 {
                starts_keep(d, settings, after, retry, r, now);
            }
        },
        Happening::Stopped => {
            if let StepView::Stop(then) = m.1 {
                stops_keep(d, then);
            }
        },
        Happening::Saved(failed) => {
            if let StepView::Save { next, saving } = m.1 {
                writes_keep(d, next, saving, failed, now);
            }
        },
        Happening::DraftWritten(written) => {
            if let StepView::WriteDraft { draft, at, mirror } = m.1 {
                drafts_keep(d, at, mirror, written, Reply::Done, None);
            }
        },
        Happening::DraftRemoved(stayed) => {
            if let StepView::RemoveDraft(reply) = m.1 {
                drafts_keep(d, 0, Mirror::Flush, false, reply, stayed);
            }
        },
        Happening::PresetRead(file) => {
            if let StepView::ReadPreset { path, name } = m.1 {
                readings_keep(d, file, name, Err(Seq::empty()), now);
            }
        },
        Happening::PeakMeasured(peak) => {
            readings_keep(d, Err(Seq::empty()), None, peak, now);
        },
        _ => {},
    }
}

/// In every run from a sound start, whatever the outside answers: there are presets, every
/// preset can be run, every config that is written can be loaded again, the engine is given
/// only what it can play, and settings are the same in the working and the saved config.
pub proof fn every_run_keeps(m: Move, events: Seq<(Happening, u64)>)
    requires
        keeps(m),
        forall|i: int| 0 <= i < events.len() ==> clock_has_room((#[trigger] events[i]).1),
    ensures
        keeps(run(m, events)),
    decreases events.len(),
{
    if events.len() > 0 {
        let before = events.drop_last();
        assert forall|i: int| 0 <= i < before.len() implies clock_has_room(
            (#[trigger] before[i]).1,
        ) by {
            assert(before[i] == events[i]);
        }
        every_run_keeps(m, before);
        let (h, now) = events.last();
        assert(events[events.len() - 1] == events.last());
        next_move_keeps(run(m, before), h, now);
    }
}

proof fn next_move_rests(m: Move, h: Happening, now: u64)
    requires
        rests(m),
        h != Happening::Request(RequestView::Enable),
    ensures
        rests(next_move(m, h, now)),
{
    let d = m.0;
    match h {
        Happening::Request(req) => off_stays_off(d, req, now),
        Happening::Health(error) => polls_leave_it_off(d, error, false, 0, false, None, None, now),
        Happening::LowPower(active) => polls_leave_it_off(
            d,
            None,
            active,
            0,
            false,
            None,
            None,
            now,
        ),
        Happening::IdleActivity(silent, running) => polls_leave_it_off(
            d,
            None,
            false,
            silent,
            running,
            None,
            None,
            now,
        ),
        Happening::DefaultDevice(id, rate) => polls_leave_it_off(
            d,
            None,
            false,
            0,
            false,
            id,
            rate,
            now,
        ),
        Happening::Recovery => polls_leave_it_off(d, None, false, 0, false, None, None, now),
        Happening::Flush => polls_leave_it_off(d, None, false, 0, false, None, None, now),
        Happening::Saved(failed) => {
            if let StepView::Save { next, saving } = m.1 {
                writes_leave_it_off(d, next, saving, failed, now);
            }
        },
        Happening::PeakMeasured(peak) => {
            if let Ok(x) = peak {
                if let Ok(p) = state::own_preset(d.config) {
                    let db = state::offset(x);
                    sync_rests(
                        state::edited(d, PresetView { preamp_db: db, ..p }),
                        Reply::Tuning,
                        now,
                    );
                }
            }
        },
        _ => {},
    }
}

/// Off stays off: from `off` on, in every run without another `on`, no engine is started,
/// whatever else is asked for, polled, or answered from outside.
pub proof fn off_until_on(m: Move, events: Seq<(Happening, u64)>)
    requires
        rests(m),
        forall|i: int|
            0 <= i < events.len() ==> (#[trigger] events[i]).0 != Happening::Request(
                RequestView::Enable,
            ),
    ensures
        rests(run(m, events)),
    decreases events.len(),
{
    if events.len() > 0 {
        let before = events.drop_last();
        assert forall|i: int| 0 <= i < before.len() implies (#[trigger] before[i]).0
            != Happening::Request(RequestView::Enable) by {
            assert(before[i] == events[i]);
        }
        off_until_on(m, before);
        let (h, now) = events.last();
        assert(events[events.len() - 1] == events.last());
        next_move_rests(run(m, before), h, now);
    }
}

// --- incidents --------------------------------------------------------------------------------

/// A happening that opens a fresh incident: an explicit `on`, another output, the end of power
/// saving or of its policy, and the end of an idle suspension or of its policy.
pub open spec fn reopens(d: DaemonView, h: Happening) -> bool {
    match h {
        Happening::Request(RequestView::Enable) => true,
        Happening::Request(RequestView::SetAutoOffLowPower(on)) => !on,
        Happening::Request(RequestView::SetAutoOffIdle(on)) => !on,
        Happening::LowPower(active) => d.low_power && !active,
        Happening::IdleActivity(_, running) => d.idle_suspended && running,
        Happening::DefaultDevice(id, _) => id != d.observed_output_id,
        _ => false,
    }
}

/// A start that failed.
pub open spec fn failed_start(m: Move, h: Happening) -> bool {
    m.1 is Start && (h matches Happening::Started(Err(_)))
}

/// How many starts fail in a run.
pub open spec fn failed_starts(m: Move, events: Seq<(Happening, u64)>) -> nat
    decreases events.len(),
{
    if events.len() == 0 {
        0
    } else {
        let before = failed_starts(m, events.drop_last());
        if failed_start(run(m, events.drop_last()), events.last().0) {
            before + 1
        } else {
            before
        }
    }
}

/// Nothing in a run opens a fresh incident, and no start succeeds.
pub open spec fn one_incident(m: Move, events: Seq<(Happening, u64)>) -> bool
    decreases events.len(),
{
    events.len() == 0 || ({
        let h = events.last().0;
        &&& one_incident(m, events.drop_last())
        &&& !reopens(run(m, events.drop_last()).0, h)
        &&& !(h matches Happening::Started(Ok(_)))
    })
}

/// A step after which the engine is started in a fresh incident.
pub open spec fn resuming(step: StepView) -> bool {
    match step {
        StepView::Save { saving: SavingView::Setting(s), .. } => {
            s == SettingView::AutoOffLowPower(false) || s == SettingView::AutoOffIdle(false)
        },
        StepView::Stop(then) => then == Stopped::Rebuild,
        _ => false,
    }
}

/// No engine runs, and if one is wanted, it is being started, waits for a retry, or is given
/// up.
pub open spec fn down(m: Move) -> bool {
    &&& m.0.engine is None
    &&& m.0.recovery.wf()
    &&& !resuming(m.1)
    &&& match m.1 {
        StepView::Start { retry, .. } => {
            &&& m.0.recovery.next_retry is None
            &&& !m.0.recovery.exhausted
            &&& retry ==> m.0.recovery.retries_attempted < RETRY_LIMIT
        },
        _ => {
            m.0.engine_target_on ==> m.0.recovery.next_retry is Some || m.0.recovery.exhausted
        },
    }
}

/// How many more starts an incident has.
pub open spec fn starts_left(m: Move) -> int {
    match m.1 {
        StepView::Start { retry, .. } => if retry {
            RETRY_LIMIT - m.0.recovery.retries_attempted
        } else {
            RETRY_LIMIT + 1
        },
        _ => if m.0.recovery.next_retry is Some {
            RETRY_LIMIT - m.0.recovery.retries_attempted
        } else {
            0
        },
    }
}

/// A move from `m` that uses up `used` of the starts that are left.
pub open spec fn stays_down(m: Move, n: Move, used: int) -> bool {
    down(n) && starts_left(n) + used <= starts_left(m)
}

proof fn sync_stays_down(m: Move, d: DaemonView, reply: Reply, now: u64)
    requires
        down(m),
        !(m.1 is Start),
        d.engine is None,
        d.recovery == m.0.recovery,
        d.engine_target_on == m.0.engine_target_on,
    ensures
        stays_down(m, state::sync(d, reply, now), 0),
{
}

proof fn setting_stays_down(m: Move, d: DaemonView, s: SettingView, now: u64)
    requires
        down(m),
        !(m.1 is Start),
        d.engine is None,
        d.recovery == m.0.recovery,
        d.engine_target_on == m.0.engine_target_on,
        s != SettingView::AutoOffLowPower(false),
        s != SettingView::AutoOffIdle(false),
    ensures
        stays_down(m, state::setting_kept(d, s, now), 0),
        stays_down(m, state::commit_setting(d, s, now), 0),
{
}

proof fn request_stays_down(m: Move, req: RequestView, now: u64)
    requires
        down(m),
        ready(m.1),
        !reopens(m.0, Happening::Request(req)),
    ensures
        stays_down(m, state::applied(m.0, req, now), 0),
{
    let d = m.0;
    match req {
        RequestView::SetPreset(name) => setting_stays_down(
            m,
            d,
            SettingView::ActivePreset(name),
            now,
        ),
        RequestView::SetLimiter(on) => setting_stays_down(m, d, SettingView::Limiter(on), now),
        RequestView::SetAutoOffLowPower(on) => setting_stays_down(
            m,
            d,
            SettingView::AutoOffLowPower(on),
            now,
        ),
        RequestView::SetAutoOffIdle(on) => setting_stays_down(
            m,
            d,
            SettingView::AutoOffIdle(on),
            now,
        ),
        RequestView::SetBand { kind, freq, gain_db, q } => {
            if let Ok(p) = state::own_preset(d.config) {
                if let Ok(bands) = with_band(p.bands, Band { kind, freq, gain_db, q }) {
                    let e = state::edited(d, PresetView { bands, ..p });
                    sync_stays_down(m, e, Reply::Tuning, now);
                }
            }
        },
        RequestView::RemoveBand { freq } => {
            if let Ok(p) = state::own_preset(d.config) {
                if let Removal::Hit(i) = removal(p.bands, freq) {
                    let e = state::edited(d, PresetView { bands: p.bands.remove(i as int), ..p });
                    sync_stays_down(m, e, Reply::BandRemoved(p.bands[i as int]), now);
                }
            }
        },
        RequestView::SetPreamp(db) => {
            if let Ok(p) = state::own_preset(d.config) {
                let e = state::edited(d, PresetView { preamp_db: db, ..p });
                sync_stays_down(m, e, Reply::Tuning, now);
            }
        },
        RequestView::DiscardSession => {
            sync_stays_down(m, DaemonView { config: d.saved_config, ..d }, Reply::Tuning, now);
        },
        RequestView::Status => {},
        RequestView::Enable => {},
        RequestView::Disable => {},
        RequestView::ListPresets => {},
        RequestView::ShowPreset(_) => {},
        RequestView::SavePreset { name } => {},
        RequestView::ClonePreset { source, dest } => {},
        RequestView::DeletePresets { names } => {},
        RequestView::RenamePreset { from, to } => {},
        RequestView::ExportPreset { name, path } => {},
        RequestView::ImportPreset { path, name } => {},
        RequestView::SetPreampAuto => {},
        RequestView::GetResponse => {},
        RequestView::SetBypass(_) => {},
        RequestView::SaveSessionAs { name } => {},
        RequestView::SaveSessionOverwrite => {},
        RequestView::ResetPreset { name } => {},
        RequestView::ConfirmResetPreset { name, backups } => {},
        RequestView::Reset => {},
        RequestView::ConfirmReset { backups } => {},
    }
}

proof fn write_stays_down(m: Move, failed: Option<Seq<char>>, now: u64)
    requires
        down(m),
        m.1 is Save,
    ensures
        stays_down(m, next_move(m, Happening::Saved(failed), now), 0),
{
    let d = m.0;
    if let StepView::Save { next, saving } = m.1 {
        match saving {
            SavingView::Setting(s) => {
                let e = DaemonView { config: s.applied(d.config), saved_config: next, ..d };
                setting_stays_down(m, e, s, now);
            },
            SavingView::Enabled { on, failed: not_started } => {},
            SavingView::Presets { working, reply } => {
                let e = DaemonView { config: working, saved_config: next, ..d };
                sync_stays_down(m, e, reply, now);
            },
        }
    }
}

#[verifier::rlimit(60)]
proof fn next_move_stays_down(m: Move, h: Happening, now: u64)
    requires
        down(m),
        clock_has_room(now),
        !reopens(m.0, h),
        !(h matches Happening::Started(Ok(_))),
    ensures
        stays_down(
            m,
            next_move(m, h, now),
            if failed_start(m, h) {
                1
            } else {
                0
            },
        ),
{
    let d = m.0;
    match h {
        Happening::Request(req) => {
            if ready(m.1) {
                request_stays_down(m, req, now);
            }
        },
        Happening::Saved(failed) => {
            if m.1 is Save {
                write_stays_down(m, failed, now);
            }
        },
        Happening::PresetRead(file) => {},
        Happening::PeakMeasured(peak) => {
            if let Ok(x) = peak {
                if let Ok(p) = state::own_preset(d.config) {
                    if m.1 is MeasurePeak {
                        let e = state::edited(
                            d,
                            PresetView { preamp_db: state::offset(x), ..p },
                        );
                        sync_stays_down(m, e, Reply::Tuning, now);
                    }
                }
            }
        },
        _ => {},
    }
}

/// An incident is bounded, whatever is asked for, polled, or answered from outside: while
/// nothing opens a fresh one, at most the first start and six retries fail, and an exhausted
/// incident makes no further attempt.
pub proof fn incidents_are_bounded(m: Move, events: Seq<(Happening, u64)>)
    requires
        down(m),
        one_incident(m, events),
        forall|i: int| 0 <= i < events.len() ==> clock_has_room((#[trigger] events[i]).1),
    ensures
        down(run(m, events)),
        failed_starts(m, events) + starts_left(run(m, events)) <= starts_left(m),
        0 <= starts_left(run(m, events)),
        starts_left(m) <= RETRY_LIMIT + 1,
        m.0.recovery.exhausted ==> failed_starts(m, events) == 0 && !(run(m, events).1 is Start),
    decreases events.len(),
{
    if events.len() > 0 {
        let before = events.drop_last();
        assert forall|i: int| 0 <= i < before.len() implies clock_has_room(
            (#[trigger] before[i]).1,
        ) by {
            assert(before[i] == events[i]);
        }
        incidents_are_bounded(m, before);
        let (h, now) = events.last();
        assert(events[events.len() - 1] == events.last());
        next_move_stays_down(run(m, before), h, now);
    }
}

} // verus!
