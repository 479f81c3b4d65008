//! What a restart of the daemon finds on disk: the saved config, and the unsaved session of
//! the run before, with every edit that was mirrored and nothing that was resolved.

use vstd::prelude::*;
use crate::config::{
    config_equals_itself, default_config, draft_restores_the_session, the_default_is_usable,
    with_draft, ConfigView,
};
use crate::dsp::Band;
use crate::ipc::RequestView;
use crate::laws;
use crate::laws::{keeps, next_move, ready, run, Happening};
use crate::number::Single;
use crate::preset::PresetView;
use crate::recovery::clock_has_room;
use crate::state;
use crate::state::{After, DaemonView, Move, Reply, SavingView, SettingView, StepView};
use crate::tuning::{removal, with_band, Removal};

verus! {

/// The files that outlive the daemon.
pub ghost struct Disk {
    /// The saved config, if one was ever saved.
    pub config: Option<ConfigView>,
    /// The mirror of an unsaved session.
    pub draft: Option<ConfigView>,
}

impl Disk {
    /// The config that a daemon loads: the saved one, if it is usable.
    pub open spec fn saved(self) -> ConfigView {
        match self.config {
            Some(c) => if c.usable() {
                c
            } else {
                default_config()
            },
            None => default_config(),
        }
    }

    /// The unsaved session that a daemon restores.
    pub open spec fn session(self) -> Option<ConfigView> {
        match self.draft {
            Some(x) => Some(with_draft(self.saved(), x)),
            None => None,
        }
    }
}

/// The files after the result of a step. A config that could not be written leaves the old one.
pub open spec fn on_disk(disk: Disk, step: StepView, h: Happening) -> Disk {
    match step {
        StepView::Save { next, .. } => if h == Happening::Saved(None) {
            Disk { config: Some(next), ..disk }
        } else {
            disk
        },
        StepView::WriteDraft { draft, .. } => if h == Happening::DraftWritten(true) {
            Disk { draft: Some(draft), ..disk }
        } else {
            disk
        },
        StepView::RemoveDraft(_) => if h == Happening::DraftRemoved(None) {
            Disk { draft: None, ..disk }
        } else {
            disk
        },
        _ => disk,
    }
}

/// The files after a run.
pub open spec fn left_behind(m: Move, disk: Disk, events: Seq<(Happening, u64)>) -> Disk
    decreases events.len(),
{
    if events.len() == 0 {
        disk
    } else {
        let before = events.drop_last();
        on_disk(left_behind(m, disk, before), run(m, before).1, events.last().0)
    }
}

/// The draft could be written and removed.
pub open spec fn draft_works(h: Happening) -> bool {
    h != Happening::DraftWritten(false) && !(h matches Happening::DraftRemoved(Some(_)))
}

/// The working config that a restart would bring back.
pub open spec fn restored(saved: ConfigView, draft: Option<ConfigView>) -> ConfigView {
    match draft {
        Some(x) => with_draft(saved, x),
        None => saved,
    }
}

/// A restart would bring the session back: an open one to the letter, and a resolved one as
/// resolved.
pub open spec fn in_line(d: DaemonView, draft: Option<ConfigView>) -> bool {
    if d.unsaved() {
        restored(d.saved_config, draft) == d.config
    } else {
        d.config.equals(restored(d.saved_config, draft)) && restored(d.saved_config, draft).equals(
            d.saved_config,
        )
    }
}

/// The files belong to the daemon's state and step.
pub open spec fn mirrored(m: Move, disk: Disk) -> bool {
    &&& disk.saved() == m.0.saved_config
    &&& disk.draft matches Some(x) ==> x.runnable()
    &&& m.0.draft_dirty ==> m.0.unsaved()
    &&& match m.1 {
        StepView::WriteDraft { draft, .. } => m.0.unsaved() && draft == m.0.config,
        StepView::RemoveDraft(_) => !m.0.unsaved(),
        _ => m.0.draft_dirty || in_line(m.0, disk.draft),
    }
}

proof fn sync_mirrors(d: DaemonView, reply: Reply, now: u64, disk: Disk)
    requires
        disk.saved() == d.saved_config,
        disk.draft matches Some(x) ==> x.runnable(),
    ensures
        mirrored(state::sync(d, reply, now), disk),
{
}

/// A setting that is the same in both configs leaves the session and its draft in line.
proof fn settings_stay_in_line(d: DaemonView, e: DaemonView, draft: Option<ConfigView>)
    requires
        in_line(d, draft),
        e.config == (ConfigView { presets: d.config.presets, ..e.saved_config }),
        e.saved_config.presets == d.saved_config.presets,
        d.config == (ConfigView { presets: d.config.presets, ..d.saved_config }),
    ensures
        in_line(e, draft),
        e.unsaved() == d.unsaved(),
{
    let x = restored(d.saved_config, draft);
    let y = restored(e.saved_config, draft);
    assert(x.presets == y.presets);
}

proof fn setting_mirrors(d: DaemonView, s: SettingView, now: u64, disk: Disk)
    requires
        mirrored((d, StepView::Idle), disk),
    ensures
        mirrored(state::setting_kept(d, s, now), disk),
{
    match s {
        SettingView::ActivePreset(_) => sync_mirrors(d, Reply::Tuning, now, disk),
        SettingView::Limiter(_) => sync_mirrors(d, Reply::Done, now, disk),
        SettingView::AutoOffLowPower(on) => reconcile_mirrors(
            d,
            state::low_power_policy(d, on),
            After::Toggle,
            disk,
        ),
        SettingView::AutoOffIdle(on) => reconcile_mirrors(
            d,
            state::idle_policy(d, on),
            After::Toggle,
            disk,
        ),
    }
}

proof fn reconcile_mirrors(d: DaemonView, e: DaemonView, after: After, disk: Disk)
    requires
        mirrored((d, StepView::Idle), disk),
        e.config == d.config,
        e.saved_config == d.saved_config,
        e.draft_dirty == d.draft_dirty,
    ensures
        mirrored(state::reconcile(e, after), disk),
{
}

proof fn request_mirrors(m: Move, req: RequestView, now: u64, disk: Disk)
    requires
        keeps(m),
        mirrored(m, disk),
        ready(m.1),
    ensures
        mirrored(state::applied(m.0, req, now), disk),
{
    let d = m.0;
    match req {
        RequestView::SetPreset(name) => setting_mirrors(
            d,
            SettingView::ActivePreset(name),
            now,
            disk,
        ),
        RequestView::SetLimiter(on) => setting_mirrors(d, SettingView::Limiter(on), now, disk),
        RequestView::SetAutoOffLowPower(on) => setting_mirrors(
            d,
            SettingView::AutoOffLowPower(on),
            now,
            disk,
        ),
        RequestView::SetAutoOffIdle(on) => setting_mirrors(
            d,
            SettingView::AutoOffIdle(on),
            now,
            disk,
        ),
        RequestView::SetBand { kind, freq, gain_db, q } => {
            if let Ok(p) = state::own_preset(d.config) {
                if let Ok(bands) = with_band(p.bands, Band { kind, freq, gain_db, q }) {
                    let e = state::edited(d, PresetView { bands, ..p });
                    sync_mirrors(e, Reply::Tuning, now, disk);
                }
            }
        },
        RequestView::RemoveBand { freq } => {
            if let Ok(p) = state::own_preset(d.config) {
                if let Removal::Hit(i) = removal(p.bands, freq) {
                    let e = state::edited(d, PresetView { bands: p.bands.remove(i as int), ..p });
                    sync_mirrors(e, Reply::BandRemoved(p.bands[i as int]), now, disk);
                }
            }
        },
        RequestView::SetPreamp(db) => preamp_mirrors(d, db, now, disk),
        RequestView::DiscardSession => {
            sync_mirrors(DaemonView { config: d.saved_config, ..d }, Reply::Tuning, now, disk);
        },
        RequestView::Status => {},
        RequestView::Enable => {},
        RequestView::Disable => {},
        RequestView::ListPresets => {},
        RequestView::ShowPreset(_) => {},
        RequestView::SavePreset { name } => {},
        RequestView::ClonePreset { source, dest } => {},
        RequestView::DeletePresets { names } => {},
        RequestView::RenamePreset { from, to } => {},
        RequestView::ExportPreset { name, path } => {},
        RequestView::ImportPreset { path, name } => {},
        RequestView::SetPreampAuto => {},
        RequestView::GetResponse => {},
        RequestView::SetBypass(_) => {},
        RequestView::SaveSessionAs { name } => {},
        RequestView::SaveSessionOverwrite => {},
        RequestView::ResetPreset { name } => {},
        RequestView::ConfirmResetPreset { name, backups } => {},
        RequestView::Reset => {},
        RequestView::ConfirmReset { backups } => {},
    }
}

proof fn preamp_mirrors(d: DaemonView, db: Single, now: u64, disk: Disk)
    requires
        mirrored((d, StepView::Idle), disk),
    ensures
        mirrored(state::set_preamp(d, db, now), disk),
{
    if let Ok(p) = state::own_preset(d.config) {
        sync_mirrors(
            state::edited(d, PresetView { preamp_db: db, ..p }),
            Reply::Tuning,
            now,
            disk,
        );
    }
}

/// A setting was written.
proof fn setting_write_mirrors(
    d: DaemonView,
    next: ConfigView,
    s: SettingView,
    now: u64,
    disk: Disk,
)
    requires
        d.inv(),
        mirrored((d, StepView::Idle), disk),
        next == s.applied(d.saved_config),
    ensures
        mirrored(
            state::saved(d, next, SavingView::Setting(s), None, now),
            Disk { config: Some(next), ..disk },
        ),
{
    let e = DaemonView { config: s.applied(d.config), saved_config: next, ..d };
    written_settings_mirror(d, e, disk, next);
    setting_mirrors(e, s, now, Disk { config: Some(next), ..disk });
}

/// The user's on or off was written.
proof fn enabled_write_mirrors(
    d: DaemonView,
    next: ConfigView,
    on: bool,
    not_started: bool,
    now: u64,
    disk: Disk,
)
    requires
        d.inv(),
        mirrored((d, StepView::Idle), disk),
        next == (ConfigView { enabled: on, ..d.saved_config }),
    ensures
        mirrored(
            state::saved(
                d,
                next,
                SavingView::Enabled { on, failed: not_started },
                None,
                now,
            ),
            Disk { config: Some(next), ..disk },
        ),
{
    let e = DaemonView {
        config: ConfigView { enabled: on, ..d.config },
        saved_config: next,
        ..d
    };
    written_settings_mirror(d, e, disk, next);
}

/// A setting that was written is in both configs, and leaves the session and its draft in line.
proof fn written_settings_mirror(d: DaemonView, e: DaemonView, disk: Disk, next: ConfigView)
    requires
        mirrored((d, StepView::Idle), disk),
        e.config == (ConfigView { presets: d.config.presets, ..e.saved_config }),
        e.saved_config.presets == d.saved_config.presets,
        d.config == (ConfigView { presets: d.config.presets, ..d.saved_config }),
        e.saved_config == next,
        next.usable(),
        e.draft_dirty == d.draft_dirty,
    ensures
        mirrored((e, StepView::Idle), Disk { config: Some(next), ..disk }),
{
    if in_line(d, disk.draft) {
        settings_stay_in_line(d, e, disk.draft);
    }
}

proof fn write_mirrors(m: Move, failed: Option<Seq<char>>, now: u64, disk: Disk)
    requires
        keeps(m),
        mirrored(m, disk),
        m.1 is Save,
    ensures
        mirrored(
            next_move(m, Happening::Saved(failed), now),
            on_disk(disk, m.1, Happening::Saved(failed)),
        ),
{
    let d = m.0;
    if let StepView::Save { next, saving } = m.1 {
        match failed {
            Some(reason) => laws::failed_write_changes_nothing(d, next, saving, reason, now),
            None => match saving {
                SavingView::Setting(s) => setting_write_mirrors(d, next, s, now, disk),
                SavingView::Enabled { on, failed: not_started } => enabled_write_mirrors(
                    d,
                    next,
                    on,
                    not_started,
                    now,
                    disk,
                ),
                SavingView::Presets { working, reply } => sync_mirrors(
                    DaemonView { config: working, saved_config: next, ..d },
                    reply,
                    now,
                    Disk { config: Some(next), ..disk },
                ),
            },
        }
    }
}

proof fn draft_mirrors(m: Move, h: Happening, now: u64, disk: Disk)
    requires
        keeps(m),
        mirrored(m, disk),
        m.1 is WriteDraft && h == Happening::DraftWritten(true) || m.1 is RemoveDraft && h
            == Happening::DraftRemoved(None),
    ensures
        mirrored(next_move(m, h, now), on_disk(disk, m.1, h)),
{
    let d = m.0;
    if m.1 is WriteDraft {
        draft_restores_the_session(d.saved_config, d.config);
        assert(with_draft(d.saved_config, d.config) == d.config);
    } else {
        config_equals_itself(d.saved_config);
    }
}

/// A move that leaves the configs alone and has nothing to do with the draft.
spec fn leaves_configs(m: Move, n: Move) -> bool {
    &&& n.0.config == m.0.config
    &&& n.0.saved_config == m.0.saved_config
    &&& n.0.draft_dirty == m.0.draft_dirty
    &&& !(n.1 is WriteDraft)
    &&& !(n.1 is RemoveDraft)
}

/// What the engine does, and what is asked of the machine, leaves the configs alone.
proof fn engine_leaves_configs(m: Move, h: Happening, now: u64)
    requires
        h is Health || h is LowPower || h is IdleActivity || h is DefaultDevice || h is Recovery
            || h is Started || h is Stopped,
        !(m.1 is WriteDraft),
        !(m.1 is RemoveDraft),
    ensures
        leaves_configs(m, next_move(m, h, now)),
{
    match h {
        Happening::Health(error) => {},
        Happening::LowPower(active) => {},
        Happening::IdleActivity(silent, running) => {},
        Happening::DefaultDevice(id, rate) => {},
        Happening::Recovery => {},
        Happening::Started(r) => {},
        Happening::Stopped => {},
        _ => {},
    }
}

/// What else comes back from outside leaves the configs alone.
proof fn replies_leave_configs(m: Move, h: Happening, now: u64)
    requires
        h is Pushed || h is PresetRead || h is PresetWritten || h is ResponseMeasured,
        !(m.1 is WriteDraft),
        !(m.1 is RemoveDraft),
    ensures
        leaves_configs(m, next_move(m, h, now)),
{
}

/// A happening that nothing waits for does nothing.
proof fn draft_steps_wait(m: Move, h: Happening, now: u64, disk: Disk)
    requires
        m.1 is WriteDraft && !(h is DraftWritten) || m.1 is RemoveDraft && !(h is DraftRemoved),
    ensures
        next_move(m, h, now) == m,
        on_disk(disk, m.1, h) == disk,
{
}

proof fn next_move_mirrors(m: Move, h: Happening, now: u64, disk: Disk)
    requires
        keeps(m),
        mirrored(m, disk),
        draft_works(h),
    ensures
        mirrored(next_move(m, h, now), on_disk(disk, m.1, h)),
{
    if m.1 is WriteDraft && !(h is DraftWritten) || m.1 is RemoveDraft && !(h is DraftRemoved) {
        draft_steps_wait(m, h, now, disk);
    } else {
        other_moves_mirror(m, h, now, disk);
    }
}

proof fn other_moves_mirror(m: Move, h: Happening, now: u64, disk: Disk)
    requires
        keeps(m),
        mirrored(m, disk),
        draft_works(h),
        m.1 is WriteDraft ==> h is DraftWritten,
        m.1 is RemoveDraft ==> h is DraftRemoved,
    ensures
        mirrored(next_move(m, h, now), on_disk(disk, m.1, h)),
{
    match h {
        Happening::Request(req) => {
            if ready(m.1) {
                request_mirrors(m, req, now, disk);
            }
        },
        Happening::Flush => {},
        Happening::Saved(failed) => {
            if m.1 is Save {
                write_mirrors(m, failed, now, disk);
            }
        },
        Happening::DraftWritten(written) => {
            if m.1 is WriteDraft {
                draft_mirrors(m, h, now, disk);
            }
        },
        Happening::DraftRemoved(stayed) => {
            if m.1 is RemoveDraft {
                draft_mirrors(m, h, now, disk);
            }
        },
        Happening::PeakMeasured(peak) => {
            if m.1 is MeasurePeak {
                if let Ok(x) = peak {
                    preamp_mirrors(m.0, state::offset(x), now, disk);
                }
            }
        },
        Happening::Health(_) => engine_leaves_configs(m, h, now),
        Happening::LowPower(_) => engine_leaves_configs(m, h, now),
        Happening::IdleActivity(_, _) => engine_leaves_configs(m, h, now),
        Happening::DefaultDevice(_, _) => engine_leaves_configs(m, h, now),
        Happening::Recovery => engine_leaves_configs(m, h, now),
        Happening::Started(_) => engine_leaves_configs(m, h, now),
        Happening::Stopped => engine_leaves_configs(m, h, now),
        Happening::Pushed => replies_leave_configs(m, h, now),
        Happening::PresetRead(_) => replies_leave_configs(m, h, now),
        Happening::PresetWritten(_) => replies_leave_configs(m, h, now),
        Happening::ResponseMeasured(_) => replies_leave_configs(m, h, now),
    }
}

/// What a daemon starts from is in line with the files it started from.
pub proof fn a_start_is_mirrored(disk: Disk, low_power: bool, output_id: Option<u32>)
    requires
        disk.config matches Some(c) ==> c.presets.dom().finite(),
        disk.draft matches Some(x) ==> x.runnable(),
    ensures
        ({
            let d = state::initial(disk.saved(), disk.session(), low_power, output_id);
            mirrored(state::startup(d), disk) && keeps(state::startup(d))
        }),
{
    let d = state::initial(disk.saved(), disk.session(), low_power, output_id);
    the_default_is_usable();
    laws::start_keeps(disk.saved(), disk.draft, low_power, output_id);
    laws::polls_keep(d, None, false, 0, false, None, None, 0);
    config_equals_itself(d.config);
    config_equals_itself(disk.saved());
    assert(d.config == restored(disk.saved(), disk.draft));
}

/// An unsaved session survives a restart, and a resolved one stays resolved. Whatever was
/// asked for, polled, or answered from outside in a run, as long as the draft could be written
/// and removed: when the daemon has nothing to do and no mirror write is pending, a daemon
/// that starts from the files left behind has the same saved config, an equal working config,
/// an open session exactly if there was one, and the recorded on or off.
pub proof fn sessions_survive_a_restart(
    m: Move,
    disk: Disk,
    events: Seq<(Happening, u64)>,
    low_power: bool,
    output_id: Option<u32>,
)
    requires
        keeps(m),
        mirrored(m, disk),
        forall|i: int|
            0 <= i < events.len() ==> draft_works((#[trigger] events[i]).0) && clock_has_room(
                events[i].1,
            ),
    ensures
        ({
            let (d, step) = run(m, events);
            let files = left_behind(m, disk, events);
            let e = state::initial(files.saved(), files.session(), low_power, output_id);
            ready(step) && !d.draft_dirty ==> {
                &&& e.saved_config == d.saved_config
                &&& d.config.equals(e.config)
                &&& d.unsaved() ==> e.config == d.config
                &&& e.unsaved() <==> d.unsaved()
                &&& e.user_intent == d.saved_config.enabled
            }
        }),
{
    runs_mirror(m, disk, events);
    let (d, step) = run(m, events);
    if ready(step) && !d.draft_dirty {
        laws::every_run_keeps(m, events);
        config_equals_itself(d.config);
    }
}

proof fn runs_mirror(m: Move, disk: Disk, events: Seq<(Happening, u64)>)
    requires
        keeps(m),
        mirrored(m, disk),
        forall|i: int|
            0 <= i < events.len() ==> draft_works((#[trigger] events[i]).0) && clock_has_room(
                events[i].1,
            ),
    ensures
        mirrored(run(m, events), left_behind(m, disk, events)),
    decreases events.len(),
{
    if events.len() > 0 {
        let before = events.drop_last();
        assert forall|i: int| 0 <= i < before.len() implies draft_works((#[trigger] before[i]).0)
            && clock_has_room(before[i].1) by {
            assert(before[i] == events[i]);
        }
        runs_mirror(m, disk, before);
        laws::every_run_keeps(m, before);
        let (h, now) = events.last();
        assert(events[events.len() - 1] == events.last());
        next_move_mirrors(run(m, before), h, now, left_behind(m, disk, before));
    }
}

} // verus!
