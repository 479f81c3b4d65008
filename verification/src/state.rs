//! The daemon's state and its transitions: what every request, every outside result, and every
//! poll does to the state, and what is to be done next.
//!
//! The daemon never touches the disk or the audio system itself. It hands out one step at a
//! time, and takes the step's result back to go on.

use vstd::prelude::*;
use crate::config::{band_fault, figure_fault, shipped, Config, ConfigView};
use crate::dsp::Band;
use crate::error::{about, plain, EqError, ErrorView, Fault, Quantity};
use crate::ipc::{
    CurveView, RequestView, Response, ResponsePoint, ResponseView, StatusView, TuningView,
};
use crate::library::{
    deleted, exported, imported, modified_shipped, new_name, renamed, reset_all_after,
    reset_one_after, save_name, FileView, PresetFile,
};
use crate::number::{Double, Single};
use crate::preset::{listing, Contents, PresetView};
use crate::recovery::{Recovery, RETRY_LIMIT};
use crate::sys::{OutputTarget, TargetView};
use crate::text::optional;
use crate::tuning::{removal, with_band, Removal};

verus! {

/// Minimum spacing between session-draft mirror writes: half a second.
pub const SESSION_MIRROR_MIN_INTERVAL: u64 = 500_000_000;

/// How long captured audio must remain silent before the engine is suspended, in seconds.
pub const IDLE_SUSPEND_AFTER: u64 = 10;

/// The long-running daemon's state.
#[derive(Debug)]
pub struct Daemon {
    /// Working config: includes live, unsaved tuning edits for the current session.
    pub config: Config,
    /// The config as it was last persisted.
    pub saved_config: Config,
    /// The output that the running engine was validated against; none while no engine runs.
    pub engine: Option<OutputTarget>,
    /// The engine should be running. Folds the user's intent together with the automatic
    /// suspends.
    pub engine_target_on: bool,
    /// The user's last explicit on or off.
    pub user_intent: bool,
    /// Last-seen power-saving state.
    pub low_power: bool,
    /// Last default output seen, with or without a running engine.
    pub observed_output_id: Option<u32>,
    pub recovery: Recovery,
    pub last_engine_error: Option<String>,
    /// The engine is off because captured audio was silent long enough.
    pub idle_suspended: bool,
    /// The engine plays the untouched input.
    pub bypassed: bool,
    /// A draft mirror write is pending.
    pub draft_dirty: bool,
    /// When the draft mirror was last written, while a session is open.
    pub draft_last_write: Option<u64>,
}

/// What a [`Daemon`] holds.
#[verifier::ext_equal]
pub ghost struct DaemonView {
    pub config: ConfigView,
    pub saved_config: ConfigView,
    pub engine: Option<TargetView>,
    pub engine_target_on: bool,
    pub user_intent: bool,
    pub low_power: bool,
    pub observed_output_id: Option<u32>,
    pub recovery: Recovery,
    pub last_engine_error: Option<Seq<char>>,
    pub idle_suspended: bool,
    pub bypassed: bool,
    pub draft_dirty: bool,
    pub draft_last_write: Option<u64>,
}

/// What an optional target holds.
pub open spec fn target_of(t: Option<OutputTarget>) -> Option<TargetView> {
    match t {
        Some(x) => Some(x@),
        None => None,
    }
}

impl View for Daemon {
    type V = DaemonView;

    open spec fn view(&self) -> DaemonView {
        DaemonView {
            config: self.config@,
            saved_config: self.saved_config@,
            engine: target_of(self.engine),
            engine_target_on: self.engine_target_on,
            user_intent: self.user_intent,
            low_power: self.low_power,
            observed_output_id: self.observed_output_id,
            recovery: self.recovery,
            last_engine_error: optional(self.last_engine_error),
            idle_suspended: self.idle_suspended,
            bypassed: self.bypassed,
            draft_dirty: self.draft_dirty,
            draft_last_write: self.draft_last_write,
        }
    }
}

impl DaemonView {
    /// Every preset can be run, and the recovery is a proper incident.
    pub open spec fn wf(self) -> bool {
        &&& self.config.runnable()
        &&& self.saved_config.runnable()
        &&& self.recovery.wf()
    }
}

// --- steps -------------------------------------------------------------------------

/// What the engine is to play.
#[derive(Debug)]
pub struct EngineSettings {
    pub bands: Vec<Band>,
    pub preamp_db: Single,
    pub limiter: bool,
    pub bypassed: bool,
}

/// What [`EngineSettings`] hold.
pub ghost struct EngineView {
    pub bands: Seq<Band>,
    pub preamp_db: Single,
    pub limiter: bool,
    pub bypassed: bool,
}

impl View for EngineSettings {
    type V = EngineView;

    open spec fn view(&self) -> EngineView {
        EngineView {
            bands: self.bands@,
            preamp_db: self.preamp_db,
            limiter: self.limiter,
            bypassed: self.bypassed,
        }
    }
}

/// What goes on once the engine was brought in line with its target.
#[derive(Clone, Copy, Debug, PartialEq, Eq, Structural)]
pub enum After {
    /// The user turned the EQ on.
    Enable,
    /// The user turned the EQ off.
    Disable,
    /// An automatic policy was switched.
    Toggle,
    /// A poll.
    Poll,
}

/// What goes on once the engine was stopped.
#[derive(Clone, Copy, Debug, PartialEq, Eq, Structural)]
pub enum Stopped {
    Then(After),
    /// The engine is to be built again for another output.
    Rebuild,
}

/// How a request is answered in the end.
#[derive(Clone, Copy, Debug, PartialEq, Eq, Structural)]
pub enum Reply {
    Done,
    Tuning,
    Presets,
    BandRemoved(Band),
}

/// Who asked for a draft write.
#[derive(Clone, Copy, Debug, PartialEq, Eq, Structural)]
pub enum Mirror {
    /// A request, to be answered like this.
    Request(Reply),
    /// The poll that flushes a deferred write.
    Flush,
}

/// A setting that is persisted at once.
#[derive(Debug)]
pub enum Setting {
    ActivePreset(String),
    Limiter(bool),
    AutoOffLowPower(bool),
    AutoOffIdle(bool),
}

/// What a [`Setting`] holds.
pub ghost enum SettingView {
    ActivePreset(Seq<char>),
    Limiter(bool),
    AutoOffLowPower(bool),
    AutoOffIdle(bool),
}

impl View for Setting {
    type V = SettingView;

    open spec fn view(&self) -> SettingView {
        match self {
            Setting::ActivePreset(name) => SettingView::ActivePreset(name@),
            Setting::Limiter(on) => SettingView::Limiter(*on),
            Setting::AutoOffLowPower(on) => SettingView::AutoOffLowPower(*on),
            Setting::AutoOffIdle(on) => SettingView::AutoOffIdle(*on),
        }
    }
}

/// What a config is saved for.
#[derive(Debug)]
pub enum Saving {
    /// A setting.
    Setting(Setting),
    /// The user's on or off; `failed` says that the engine did not start.
    Enabled { on: bool, failed: bool },
    /// A change of presets, after which `working` is the working config.
    Presets { working: Config, reply: Reply },
}

/// What a [`Saving`] holds.
pub ghost enum SavingView {
    Setting(SettingView),
    Enabled { on: bool, failed: bool },
    Presets { working: ConfigView, reply: Reply },
}

impl View for Saving {
    type V = SavingView;

    open spec fn view(&self) -> SavingView {
        match self {
            Saving::Setting(s) => SavingView::Setting(s@),
            Saving::Enabled { on, failed } => SavingView::Enabled { on: *on, failed: *failed },
            Saving::Presets { working, reply } => SavingView::Presets {
                working: working@,
                reply: *reply,
            },
        }
    }
}

/// What is to be done next. Every step but the last two names the method that takes its
/// result.
#[allow(inconsistent_fields)]
#[derive(Debug)]
pub enum Step {
    /// Resolve the default output and start the engine on it; then [`Daemon::started`].
    Start { settings: EngineSettings, after: After, retry: bool },
    /// Stop the engine; then [`Daemon::stopped`].
    Stop(Stopped),
    /// Persist `next`; then [`Daemon::saved`].
    Save { next: Config, saving: Saving },
    /// Mirror the session draft; then [`Daemon::draft_written`].
    WriteDraft { draft: Config, at: u64, mirror: Mirror },
    /// Remove the session draft if there is one; then [`Daemon::draft_removed`].
    RemoveDraft(Reply),
    /// Hand settings to the running engine, whose output has this rate; then
    /// [`Daemon::pushed`].
    Push { settings: EngineSettings, rate: Double, reply: Reply, failed: Option<EqError> },
    /// Read a preset file; then [`Daemon::preset_read`].
    ReadPreset { path: String, name: Option<String> },
    /// Write a preset file; then [`Daemon::preset_written`].
    WritePreset { path: String, file: PresetFile },
    /// Find the highest gain of the bands at the given rate, or at the default output's; then
    /// [`Daemon::peak_measured`].
    MeasurePeak { bands: Vec<Band>, rate: Option<Double> },
    /// Compute the response of the bands and the preamp at the given rate, or at the default
    /// output's; then [`Daemon::response_measured`].
    MeasureResponse { bands: Vec<Band>, preamp_db: Single, rate: Option<Double> },
    /// The request is answered.
    Finish(Result<Response, EqError>),
    /// The poll is over.
    Idle,
}

/// What a [`Step`] holds.
#[allow(inconsistent_fields)]
pub ghost enum StepView {
    Start { settings: EngineView, after: After, retry: bool },
    Stop(Stopped),
    Save { next: ConfigView, saving: SavingView },
    WriteDraft { draft: ConfigView, at: u64, mirror: Mirror },
    RemoveDraft(Reply),
    Push { settings: EngineView, rate: Double, reply: Reply, failed: Option<ErrorView> },
    ReadPreset { path: Seq<char>, name: Option<Seq<char>> },
    WritePreset { path: Seq<char>, file: FileView },
    MeasurePeak { bands: Seq<Band>, rate: Option<Double> },
    MeasureResponse { bands: Seq<Band>, preamp_db: Single, rate: Option<Double> },
    Finish(Result<ResponseView, ErrorView>),
    Idle,
}

/// What an optional failure holds.
pub open spec fn failure_of(e: Option<EqError>) -> Option<ErrorView> {
    match e {
        Some(x) => Some(x@),
        None => None,
    }
}

impl View for Step {
    type V = StepView;

    open spec fn view(&self) -> StepView {
        match self {
            Step::Start { settings, after, retry } => StepView::Start {
                settings: settings@,
                after: *after,
                retry: *retry,
            },
            Step::Stop(s) => StepView::Stop(*s),
            Step::Save { next, saving } => StepView::Save { next: next@, saving: saving@ },
            Step::WriteDraft { draft, at, mirror } => StepView::WriteDraft {
                draft: draft@,
                at: *at,
                mirror: *mirror,
            },
            Step::RemoveDraft(reply) => StepView::RemoveDraft(*reply),
            Step::Push { settings, rate, reply, failed } => StepView::Push {
                settings: settings@,
                rate: *rate,
                reply: *reply,
                failed: failure_of(*failed),
            },
            Step::ReadPreset { path, name } => StepView::ReadPreset {
                path: path@,
                name: optional(*name),
            },
            Step::WritePreset { path, file } => StepView::WritePreset { path: path@, file: file@ },
            Step::MeasurePeak { bands, rate } => StepView::MeasurePeak {
                bands: bands@,
                rate: *rate,
            },
            Step::MeasureResponse { bands, preamp_db, rate } => StepView::MeasureResponse {
                bands: bands@,
                preamp_db: *preamp_db,
                rate: *rate,
            },
            Step::Finish(r) => StepView::Finish(
                match r {
                    Ok(x) => Ok(x@),
                    Err(e) => Err(e@),
                },
            ),
            Step::Idle => StepView::Idle,
        }
    }
}

/// A state and what is to be done next.
pub type Move = (DaemonView, StepView);

/// The request is answered with a failure.
pub open spec fn refuse(d: DaemonView, e: ErrorView) -> Move {
    (d, StepView::Finish(Err(e)))
}

// --- what the state says ---------------------------------------------------------------

impl DaemonView {
    /// The working config differs from the saved one.
    pub open spec fn unsaved(self) -> bool {
        !self.config.equals(self.saved_config)
    }

    /// A preset's working contents differ from its saved ones.
    pub open spec fn dirty(self, name: Seq<char>) -> bool {
        !(self.saved_config.presets.contains_key(name) && self.config.presets[name].equals(
            self.saved_config.presets[name],
        ))
    }

    /// The names of the presets whose working contents differ from their saved ones.
    pub open spec fn dirty_names(self) -> Seq<Seq<char>> {
        listing(self.config.presets).filter(|n: Seq<char>| self.dirty(n))
    }

    /// The preamp of the preset in use; 0 dB where there is none.
    pub open spec fn preamp(self) -> Single {
        match self.config.active() {
            Some(p) => p.preamp_db,
            None => Single { bits: 0 },
        }
    }

    /// The bands of the preset in use; none where there is no preset.
    pub open spec fn bands(self) -> Seq<Band> {
        match self.config.active() {
            Some(p) => p.bands,
            None => Seq::empty(),
        }
    }

    /// The tuning in use.
    pub open spec fn tuning(self) -> TuningView {
        TuningView {
            enabled: self.engine is Some,
            preset: self.config.active_preset,
            preamp_db: self.preamp(),
            bands: self.bands(),
        }
    }

    /// What the engine is to play.
    pub open spec fn settings(self) -> EngineView {
        EngineView {
            bands: self.bands(),
            preamp_db: self.preamp(),
            limiter: self.config.limiter,
            bypassed: self.bypassed,
        }
    }

    /// The rate of the running engine's output.
    pub open spec fn rate(self) -> Option<Double> {
        match self.engine {
            Some(t) => Some(t.sample_rate),
            None => None,
        }
    }

    /// The policy for saving power keeps the engine off.
    pub open spec fn suppressed(self) -> bool {
        self.config.auto_off_low_power && self.low_power
    }

    /// Why desired processing is not running.
    pub open spec fn suspension(self) -> Option<Seq<char>> {
        if self.engine is Some {
            None
        } else if !self.user_intent {
            Some("user-off"@)
        } else if self.suppressed() && !self.engine_target_on {
            Some("low-power"@)
        } else if self.idle_suspended {
            Some("idle"@)
        } else if self.recovery.exhausted {
            Some("recovery-exhausted"@)
        } else if self.recovery.next_retry is Some {
            Some("recovering"@)
        } else {
            Some("starting"@)
        }
    }

    /// The seconds until the next retry, begun ones counted.
    pub open spec fn retry_in(self, now: u64) -> Option<nat> {
        match self.recovery.next_retry {
            Some(at) => {
                let millis: int = if at > now {
                    (at - now) / 1_000_000
                } else {
                    0
                };
                Some(((millis + 999) / 1000) as nat)
            },
            None => None,
        }
    }

    /// The snapshot of the state.
    pub open spec fn status(self, now: u64) -> StatusView {
        StatusView {
            user_intent: self.user_intent,
            engine_running: self.engine is Some,
            suspension_reason: self.suspension(),
            active_preset: self.config.active_preset,
            preamp_db: self.preamp(),
            band_count: self.bands().len(),
            limiter: self.config.limiter,
            output_uid: match self.engine {
                Some(t) => Some(t.uid),
                None => None,
            },
            output_name: match self.engine {
                Some(t) => Some(t.name),
                None => None,
            },
            output_rate_hz: self.rate(),
            output_stream: match self.engine {
                Some(t) => Some(t.stream.description()),
                None => None,
            },
            last_engine_error: self.last_engine_error,
            retry_attempts: self.recovery.retries_attempted as nat,
            retry_limit: RETRY_LIMIT as nat,
            retry_in_seconds: self.retry_in(now),
            retry_exhausted: self.recovery.exhausted,
            bypassed: self.bypassed,
            dirty_presets: self.dirty_names(),
            low_power: self.low_power,
            auto_off_low_power: self.config.auto_off_low_power,
            auto_off_idle: self.config.auto_off_idle,
        }
    }

    /// What a request is answered in the end.
    pub open spec fn answer(self, reply: Reply) -> ResponseView {
        match reply {
            Reply::Done => ResponseView::Done,
            Reply::Tuning => ResponseView::Tuning(self.tuning()),
            Reply::Presets => ResponseView::Presets {
                active: self.config.active_preset,
                names: listing(self.config.presets),
            },
            Reply::BandRemoved(b) => ResponseView::BandRemoved {
                tuning: self.tuning(),
                removed: b,
            },
        }
    }

    /// Enough time has passed since the last mirror write.
    pub open spec fn draft_due(self, now: u64) -> bool {
        match self.draft_last_write {
            Some(last) => now >= last && now - last >= SESSION_MIRROR_MIN_INTERVAL,
            None => true,
        }
    }
}

// --- applying a working config ---------------------------------------------------------

/// Hand the settings to a running engine, then answer.
pub open spec fn push(d: DaemonView, reply: Reply, failed: Option<ErrorView>) -> Move {
    match d.engine {
        Some(t) => (
            d,
            StepView::Push { settings: d.settings(), rate: t.sample_rate, reply, failed },
        ),
        None => pushed(d, reply, failed),
    }
}

/// Answer: with the failure, if there is one.
pub open spec fn pushed(d: DaemonView, reply: Reply, failed: Option<ErrorView>) -> Move {
    match failed {
        Some(e) => refuse(d, e),
        None => (d, StepView::Finish(Ok(d.answer(reply)))),
    }
}

/// Bring the session draft on disk and the running engine in line with the working config.
/// An open session is mirrored, but not more often than the minimum interval; a resolved one
/// has its draft removed.
pub open spec fn sync(d: DaemonView, reply: Reply, now: u64) -> Move {
    if d.unsaved() {
        if d.draft_due(now) {
            (
                DaemonView { draft_dirty: false, ..d },
                StepView::WriteDraft { draft: d.config, at: now, mirror: Mirror::Request(reply) },
            )
        } else {
            push(DaemonView { draft_dirty: true, ..d }, reply, None)
        }
    } else {
        (
            DaemonView { draft_dirty: false, draft_last_write: None, ..d },
            StepView::RemoveDraft(reply),
        )
    }
}

/// The draft mirror was written, or not. A failure is not an error: the edit is live.
pub open spec fn draft_written(d: DaemonView, at: u64, mirror: Mirror, written: bool) -> Move {
    let e = if written {
        DaemonView { draft_last_write: Some(at), ..d }
    } else {
        d
    };
    match mirror {
        Mirror::Request(reply) => push(e, reply, None),
        Mirror::Flush => (e, StepView::Idle),
    }
}

/// The resolved session's draft was removed, or stayed behind at a path for a reason. A draft
/// that stayed is an error: it would bring the session back at the next start.
pub open spec fn draft_removed(
    d: DaemonView,
    reply: Reply,
    stayed: Option<(Seq<char>, Seq<char>)>,
) -> Move {
    push(d, reply, draft_removed_failure(stayed))
}

/// The failure of a draft that stayed behind.
pub open spec fn draft_removed_failure(stayed: Option<(Seq<char>, Seq<char>)>) -> Option<
    ErrorView,
> {
    match stayed {
        Some((path, reason)) => Some(
            ErrorView { fault: Fault::DraftNotRemoved, subject: path, detail: reason },
        ),
        None => None,
    }
}

/// Flush a deferred draft write once the interval has passed.
pub open spec fn flush(d: DaemonView, now: u64) -> Move {
    if d.draft_dirty && d.draft_due(now) {
        (
            DaemonView { draft_dirty: false, ..d },
            StepView::WriteDraft { draft: d.config, at: now, mirror: Mirror::Flush },
        )
    } else {
        (d, StepView::Idle)
    }
}

// --- the engine --------------------------------------------------------------------------

/// The on or off was recorded, or had been before.
pub open spec fn enabled_recorded(d: DaemonView, on: bool, failed: bool) -> Move {
    if on {
        if failed {
            refuse(d, plain(Fault::NativeOutput))
        } else {
            (d, StepView::Finish(Ok(ResponseView::Tuning(d.tuning()))))
        }
    } else if d.unsaved() {
        (
            d,
            StepView::Finish(
                Ok(
                    ResponseView::UnsavedSession {
                        tuning: d.tuning(),
                        dirty_presets: d.dirty_names(),
                    },
                ),
            ),
        )
    } else {
        (d, StepView::Finish(Ok(ResponseView::Done)))
    }
}

/// Persist the user's on or off, if it is not on disk already.
pub open spec fn record_enabled(d: DaemonView, on: bool, failed: bool) -> Move {
    let next = ConfigView { enabled: on, ..d.saved_config };
    if next.equals(d.saved_config) {
        enabled_recorded(d, on, failed)
    } else {
        (d, StepView::Save { next, saving: SavingView::Enabled { on, failed } })
    }
}

/// The engine is as its target says, or failed to start for the given reason.
pub open spec fn settled(d: DaemonView, after: After, failed: Option<Seq<char>>) -> Move {
    match after {
        After::Enable => record_enabled(d, true, failed is Some),
        After::Disable => record_enabled(d, false, failed is Some),
        After::Toggle => (
            d,
            StepView::Finish(
                match failed {
                    Some(m) => Err(about(Fault::Outside, m)),
                    None => Ok(ResponseView::Done),
                },
            ),
        ),
        After::Poll => (d, StepView::Idle),
    }
}

/// Start or stop the engine so that it matches its target. A scheduled or exhausted incident
/// is left to the recovery.
pub open spec fn reconcile(d: DaemonView, after: After) -> Move {
    if d.engine_target_on && d.engine is None {
        if d.recovery.next_retry is None && !d.recovery.exhausted {
            (d, StepView::Start { settings: d.settings(), after, retry: false })
        } else {
            settled(d, after, None)
        }
    } else if !d.engine_target_on && d.engine is Some {
        (DaemonView { engine: None, ..d }, StepView::Stop(Stopped::Then(after)))
    } else {
        settled(d, after, None)
    }
}

/// The engine started on an output, or failed to.
pub open spec fn started(
    d: DaemonView,
    after: After,
    retry: bool,
    result: Result<TargetView, Seq<char>>,
    now: u64,
) -> Move {
    match result {
        Ok(t) => settled(
            DaemonView { engine: Some(t), recovery: Recovery::fresh(), ..d },
            after,
            None,
        ),
        Err(m) => settled(
            DaemonView {
                last_engine_error: Some(m),
                recovery: if !d.engine_target_on {
                    d.recovery
                } else if retry {
                    d.recovery.after_failure(now)
                } else {
                    Recovery::opened(now)
                },
                ..d
            },
            after,
            Some(m),
        ),
    }
}

/// The engine was stopped.
pub open spec fn stopped(d: DaemonView, then: Stopped) -> Move {
    match then {
        Stopped::Then(after) => settled(d, after, None),
        Stopped::Rebuild => reconcile(d, After::Poll),
    }
}

/// The daemon's first step: bring the engine up if it is to run.
pub open spec fn startup(d: DaemonView) -> Move {
    if d.engine_target_on {
        reconcile(d, After::Poll)
    } else {
        (d, StepView::Idle)
    }
}

// --- settings ------------------------------------------------------------------------------

impl SettingView {
    /// The config with the setting.
    pub open spec fn applied(self, c: ConfigView) -> ConfigView {
        match self {
            SettingView::ActivePreset(name) => ConfigView { active_preset: name, ..c },
            SettingView::Limiter(on) => ConfigView { limiter: on, ..c },
            SettingView::AutoOffLowPower(on) => ConfigView { auto_off_low_power: on, ..c },
            SettingView::AutoOffIdle(on) => ConfigView { auto_off_idle: on, ..c },
        }
    }
}

/// The power-saving policy was switched. Switching it on under power saving turns the engine
/// off; switching it off lifts that, but not an idle suspension.
pub open spec fn low_power_policy(d: DaemonView, on: bool) -> DaemonView {
    if on && d.low_power {
        DaemonView {
            engine_target_on: false,
            recovery: Recovery { next_retry: None, ..d.recovery },
            ..d
        }
    } else if !on {
        let target = d.user_intent && !d.idle_suspended;
        DaemonView {
            engine_target_on: target,
            recovery: if target && d.engine is None {
                Recovery::fresh()
            } else {
                d.recovery
            },
            ..d
        }
    } else {
        d
    }
}

/// The idle policy was switched. Switching it off lifts an idle suspension.
pub open spec fn idle_policy(d: DaemonView, on: bool) -> DaemonView {
    if !on && d.idle_suspended {
        let e = DaemonView { idle_suspended: false, ..d };
        if e.user_intent && !e.suppressed() {
            DaemonView { engine_target_on: true, recovery: Recovery::fresh(), ..e }
        } else {
            e
        }
    } else {
        d
    }
}

/// The setting is on disk.
pub open spec fn setting_kept(d: DaemonView, s: SettingView, now: u64) -> Move {
    match s {
        SettingView::ActivePreset(_) => sync(d, Reply::Tuning, now),
        SettingView::Limiter(_) => sync(d, Reply::Done, now),
        SettingView::AutoOffLowPower(on) => reconcile(low_power_policy(d, on), After::Toggle),
        SettingView::AutoOffIdle(on) => reconcile(idle_policy(d, on), After::Toggle),
    }
}

/// Persist a setting first, unless it is on disk already.
pub open spec fn commit_setting(d: DaemonView, s: SettingView, now: u64) -> Move {
    let next = s.applied(d.saved_config);
    if next.equals(d.saved_config) {
        setting_kept(d, s, now)
    } else {
        (d, StepView::Save { next, saving: SavingView::Setting(s) })
    }
}

/// Persist a change of presets first.
pub open spec fn commit(d: DaemonView, next: Result<ConfigView, ErrorView>, reply: Reply) -> Move {
    match next {
        Ok(c) => (
            d,
            StepView::Save { next: c, saving: SavingView::Presets { working: c, reply } },
        ),
        Err(e) => refuse(d, e),
    }
}

/// A config was persisted, or could not be, for the given reason. Only a persisted config is
/// adopted in memory.
pub open spec fn saved(
    d: DaemonView,
    next: ConfigView,
    saving: SavingView,
    failed: Option<Seq<char>>,
    now: u64,
) -> Move {
    match saving {
        SavingView::Setting(s) => match failed {
            Some(m) => refuse(d, about(Fault::Outside, m)),
            None => setting_kept(
                DaemonView { config: s.applied(d.config), saved_config: next, ..d },
                s,
                now,
            ),
        },
        SavingView::Enabled { on, failed: not_started } => match failed {
            Some(_) => refuse(
                d,
                plain(
                    if on {
                        Fault::OnNotSaved
                    } else {
                        Fault::OffNotSaved
                    },
                ),
            ),
            None => enabled_recorded(
                DaemonView {
                    config: ConfigView { enabled: on, ..d.config },
                    saved_config: next,
                    ..d
                },
                on,
                not_started,
            ),
        },
        SavingView::Presets { working, reply } => match failed {
            Some(m) => refuse(d, about(Fault::Outside, m)),
            None => sync(DaemonView { config: working, saved_config: next, ..d }, reply, now),
        },
    }
}

// --- requests --------------------------------------------------------------------------------

/// The working config with other contents for the active preset.
pub open spec fn edited(d: DaemonView, p: PresetView) -> DaemonView {
    DaemonView {
        config: ConfigView {
            presets: d.config.presets.insert(d.config.active_preset, p),
            ..d.config
        },
        ..d
    }
}

/// The contents of the active preset itself, without a fallback.
pub open spec fn own_preset(c: ConfigView) -> Result<PresetView, ErrorView> {
    if c.presets.contains_key(c.active_preset) {
        Ok(c.presets[c.active_preset])
    } else {
        Err(about(Fault::ActiveMissing, c.active_preset))
    }
}

/// Turn the EQ on. An explicit `on` opens a fresh incident and tries at once, also under power
/// saving.
pub open spec fn enable(d: DaemonView) -> Move {
    reconcile(
        DaemonView {
            user_intent: true,
            idle_suspended: false,
            engine_target_on: true,
            recovery: Recovery::fresh(),
            ..d
        },
        After::Enable,
    )
}

/// Turn the EQ off. The engine stops before anything that can fail.
pub open spec fn disable(d: DaemonView) -> Move {
    reconcile(
        DaemonView {
            user_intent: false,
            idle_suspended: false,
            engine_target_on: false,
            recovery: Recovery::fresh(),
            ..d
        },
        After::Disable,
    )
}

/// Show a preset of the working config.
pub open spec fn show(d: DaemonView, name: Option<Seq<char>>) -> ResponseView {
    let n = match name {
        Some(n) => n,
        None => d.config.active_preset,
    };
    if d.config.presets.contains_key(n) {
        ResponseView::Tuning(
            TuningView {
                enabled: d.engine is Some,
                preset: n,
                preamp_db: d.config.presets[n].preamp_db,
                bands: d.config.presets[n].bands,
            },
        )
    } else {
        ResponseView::Error(about(Fault::NoSuchPreset, n))
    }
}

/// Set a band of the active preset.
pub open spec fn set_band(d: DaemonView, band: Band, now: u64) -> Move {
    match band_fault(band.freq, band.gain_db, band.q) {
        Some(f) => refuse(d, plain(f)),
        None => match own_preset(d.config) {
            Err(e) => refuse(d, e),
            Ok(p) => match with_band(p.bands, band) {
                Err(f) => (d, StepView::Finish(Ok(ResponseView::Error(plain(f))))),
                Ok(bands) => sync(edited(d, PresetView { bands, ..p }), Reply::Tuning, now),
            },
        },
    }
}

/// Remove a band of the active preset.
pub open spec fn remove_band(d: DaemonView, freq: Single, now: u64) -> Move {
    match figure_fault(Quantity::Frequency, freq) {
        Some(f) => refuse(d, plain(f)),
        None => match own_preset(d.config) {
            Err(e) => refuse(d, e),
            Ok(p) => match removal(p.bands, freq) {
                Removal::Empty => refuse(d, plain(Fault::NoBands)),
                Removal::Miss(nearest) => (
                    d,
                    StepView::Finish(
                        Ok(ResponseView::Error(plain(Fault::NoBandMatches { freq, nearest }))),
                    ),
                ),
                Removal::Hit(i) => sync(
                    edited(d, PresetView { bands: p.bands.remove(i as int), ..p }),
                    Reply::BandRemoved(p.bands[i as int]),
                    now,
                ),
            },
        },
    }
}

/// Set the preamp of the active preset.
pub open spec fn set_preamp(d: DaemonView, db: Single, now: u64) -> Move {
    match figure_fault(Quantity::Preamp, db) {
        Some(f) => refuse(d, plain(f)),
        None => match own_preset(d.config) {
            Err(e) => refuse(d, e),
            Ok(p) => sync(edited(d, PresetView { preamp_db: db, ..p }), Reply::Tuning, now),
        },
    }
}

/// The preamp that offsets a boost: as much below 0 dB as the peak is above it.
pub open spec fn offset(peak: Single) -> Single {
    if peak.bits < 0x8000_0000 && peak.bits != 0 {
        Single { bits: (peak.bits + 0x8000_0000) as u32 }
    } else {
        Single { bits: 0 }
    }
}

/// Offset the peak boost of the active preset, once it is measured.
pub open spec fn set_preamp_auto(d: DaemonView) -> Move {
    match own_preset(d.config) {
        Err(e) => refuse(d, e),
        Ok(p) => (d, StepView::MeasurePeak { bands: p.bands, rate: d.rate() }),
    }
}

/// The peak was measured, or could not be, for the given reason.
pub open spec fn peak_measured(d: DaemonView, peak: Result<Single, Seq<char>>, now: u64) -> Move {
    match peak {
        Err(m) => refuse(d, about(Fault::Outside, m)),
        Ok(x) => set_preamp(d, offset(x), now),
    }
}

/// The response was computed, or could not be, for the given reason.
pub open spec fn response_measured(
    d: DaemonView,
    curve: Result<(Double, Seq<ResponsePoint>), Seq<char>>,
) -> Move {
    match curve {
        Err(m) => refuse(d, about(Fault::Outside, m)),
        Ok((rate, points)) => (
            d,
            StepView::Finish(
                Ok(
                    ResponseView::FrequencyResponse(
                        CurveView { sample_rate_hz: rate, preamp_db: d.preamp(), points },
                    ),
                ),
            ),
        ),
    }
}

/// The saved config with the active preset's working tuning under `name`, which becomes
/// active.
pub open spec fn saved_as(d: DaemonView, name: Seq<char>, p: PresetView) -> ConfigView {
    ConfigView {
        active_preset: name,
        presets: d.saved_config.presets.insert(name, p),
        ..d.saved_config
    }
}

/// The working config after saving as `name`: unsaved edits to every other preset are carried
/// over and stay open.
pub open spec fn carried_over(d: DaemonView, name: Seq<char>, p: PresetView) -> ConfigView {
    let next = saved_as(d, name, p);
    ConfigView {
        presets: Contents::new(
            |n: Seq<char>| next.presets.contains_key(n) || carries(d, name, n),
            |n: Seq<char>|
                if carries(d, name, n) {
                    d.config.presets[n]
                } else {
                    next.presets[n]
                },
        ),
        ..next
    }
}

/// A preset of the working config that saving as `name` neither consumes nor overwrites.
pub open spec fn carries(d: DaemonView, name: Seq<char>, n: Seq<char>) -> bool {
    d.config.presets.contains_key(n) && n != d.config.active_preset && n != name
}

/// Save the active preset's working tuning under a name and switch to it.
pub open spec fn save_as(d: DaemonView, name: Seq<char>) -> Move {
    match save_name(d.saved_config.presets, d.config.active_preset, name) {
        Err(e) => refuse(d, e),
        Ok(()) => match d.config.active() {
            None => refuse(d, plain(Fault::NothingActive)),
            Some(p) => (
                d,
                StepView::Save {
                    next: saved_as(d, name, p),
                    saving: SavingView::Presets {
                        working: carried_over(d, name, p),
                        reply: Reply::Tuning,
                    },
                },
            ),
        },
    }
}

/// The saved config with a copy of a preset, which becomes active.
pub open spec fn cloned(d: DaemonView, source: Seq<char>, dest: Seq<char>) -> Result<
    ConfigView,
    ErrorView,
> {
    match new_name(d.saved_config.presets, dest) {
        Err(e) => Err(e),
        Ok(()) => if d.config.presets.contains_key(source) {
            Ok(saved_as(d, dest, d.config.presets[source]))
        } else {
            Err(about(Fault::NoSuchPreset, source))
        },
    }
}

/// A reset that would replace modified presets asks first.
pub open spec fn reset_or_ask(
    d: DaemonView,
    names: Seq<Seq<char>>,
    next: Result<ConfigView, ErrorView>,
) -> Move {
    match modified_shipped(d.saved_config, names) {
        Err(e) => refuse(d, e),
        Ok(changed) => if changed.len() == 0 {
            commit(d, next, Reply::Tuning)
        } else {
            (d, StepView::Finish(Ok(ResponseView::ResetWouldOverwrite { names: changed })))
        },
    }
}

/// Preset management waits until the session is resolved.
pub open spec fn once_resolved(d: DaemonView, then: Move) -> Move {
    if d.unsaved() {
        refuse(d, plain(Fault::UnsavedSession))
    } else {
        then
    }
}

/// What a request does.
pub open spec fn applied(d: DaemonView, req: RequestView, now: u64) -> Move {
    match req {
        RequestView::Status => (d, StepView::Finish(Ok(ResponseView::Status(d.status(now))))),
        RequestView::Enable => enable(d),
        RequestView::Disable => disable(d),
        RequestView::ListPresets => (d, StepView::Finish(Ok(d.answer(Reply::Presets)))),
        RequestView::ShowPreset(name) => (d, StepView::Finish(Ok(show(d, name)))),
        RequestView::SetPreset(name) => if d.config.presets.contains_key(name) {
            commit_setting(d, SettingView::ActivePreset(name), now)
        } else {
            (d, StepView::Finish(Ok(ResponseView::Error(about(Fault::NoSuchPreset, name)))))
        },
        RequestView::SavePreset { name } => save_as(d, name),
        RequestView::ClonePreset { source, dest } => once_resolved(
            d,
            commit(d, cloned(d, source, dest), Reply::Tuning),
        ),
        RequestView::DeletePresets { names } => once_resolved(
            d,
            commit(d, deleted(d.config, names), Reply::Presets),
        ),
        RequestView::RenamePreset { from, to } => once_resolved(
            d,
            commit(d, renamed(d.config, from, to), Reply::Tuning),
        ),
        RequestView::ExportPreset { name, path } => match exported(d.config, name) {
            Ok(file) => (d, StepView::WritePreset { path, file }),
            Err(e) => refuse(d, e),
        },
        RequestView::ImportPreset { path, name } => once_resolved(
            d,
            (d, StepView::ReadPreset { path, name }),
        ),
        RequestView::SetBand { kind, freq, gain_db, q } => set_band(
            d,
            Band { kind, freq, gain_db, q },
            now,
        ),
        RequestView::RemoveBand { freq } => remove_band(d, freq, now),
        RequestView::SetPreamp(db) => set_preamp(d, db, now),
        RequestView::SetPreampAuto => set_preamp_auto(d),
        RequestView::GetResponse => (
            d,
            StepView::MeasureResponse {
                bands: d.bands(),
                preamp_db: d.preamp(),
                rate: d.rate(),
            },
        ),
        RequestView::SetBypass(on) => push(DaemonView { bypassed: on, ..d }, Reply::Done, None),
        RequestView::SetLimiter(on) => commit_setting(d, SettingView::Limiter(on), now),
        RequestView::SetAutoOffLowPower(on) => commit_setting(
            d,
            SettingView::AutoOffLowPower(on),
            now,
        ),
        RequestView::SetAutoOffIdle(on) => commit_setting(d, SettingView::AutoOffIdle(on), now),
        RequestView::SaveSessionAs { name } => save_as(d, name),
        RequestView::SaveSessionOverwrite => commit(d, Ok(d.config), Reply::Tuning),
        RequestView::DiscardSession => sync(
            DaemonView { config: d.saved_config, ..d },
            Reply::Tuning,
            now,
        ),
        RequestView::ResetPreset { name } => once_resolved(
            d,
            reset_or_ask(d, seq![name], reset_one_after(d.config, Seq::empty(), name)),
        ),
        RequestView::ConfirmResetPreset { name, backups } => once_resolved(
            d,
            commit(d, reset_one_after(d.config, backups, name), Reply::Tuning),
        ),
        RequestView::Reset => once_resolved(
            d,
            reset_or_ask(d, listing(shipped()), reset_all_after(d.config, Seq::empty())),
        ),
        RequestView::ConfirmReset { backups } => once_resolved(
            d,
            commit(d, reset_all_after(d.config, backups), Reply::Tuning),
        ),
    }
}

/// The preset file was read, or could not be, for the given reason.
pub open spec fn preset_read(
    d: DaemonView,
    file: Result<FileView, Seq<char>>,
    name: Option<Seq<char>>,
) -> Move {
    match file {
        Err(m) => refuse(d, about(Fault::Outside, m)),
        Ok(f) => commit(d, imported(d.config, f, name), Reply::Tuning),
    }
}

/// The preset file was written, or could not be, for the given reason.
pub open spec fn preset_written(d: DaemonView, failed: Option<Seq<char>>) -> Move {
    match failed {
        Some(m) => refuse(d, about(Fault::Outside, m)),
        None => (d, StepView::Finish(Ok(ResponseView::Done))),
    }
}

// --- polls ---------------------------------------------------------------------------------

/// The running engine reported a failure: it is torn down, and recovery begins.
pub open spec fn health(d: DaemonView, error: Option<Seq<char>>, now: u64) -> Move {
    match error {
        Some(m) if d.engine is Some => (
            DaemonView {
                engine: None,
                last_engine_error: Some(m),
                recovery: if d.engine_target_on {
                    Recovery::opened(now)
                } else {
                    Recovery::fresh()
                },
                ..d
            },
            StepView::Stop(Stopped::Then(After::Poll)),
        ),
        _ => (d, StepView::Idle),
    }
}

/// Stop the engine if it runs, then bring it up again on whatever the output is now.
pub open spec fn rebuild(d: DaemonView) -> Move {
    match d.engine {
        Some(_) => (DaemonView { engine: None, ..d }, StepView::Stop(Stopped::Rebuild)),
        None => reconcile(d, After::Poll),
    }
}

/// Follow the default output: a change of the device, or of the running engine's rate, builds
/// the engine again.
pub open spec fn default_device(
    d: DaemonView,
    output_id: Option<u32>,
    rate: Option<Double>,
) -> Move {
    if output_id != d.observed_output_id {
        let e = DaemonView {
            observed_output_id: output_id,
            recovery: if d.engine_target_on {
                Recovery::fresh()
            } else {
                Recovery { next_retry: None, ..d.recovery }
            },
            ..d
        };
        rebuild(e)
    } else {
        match (d.engine, rate) {
            (Some(t), Some(r)) if r.rounded() != t.sample_rate.rounded() => rebuild(
                DaemonView { recovery: Recovery::fresh(), ..d },
            ),
            _ => (d, StepView::Idle),
        }
    }
}

/// Run the next retry when it is due.
pub open spec fn recover(d: DaemonView, now: u64) -> Move {
    if d.engine_target_on && d.engine is None && (d.recovery.next_retry matches Some(at) && now
        >= at) {
        (
            DaemonView { recovery: Recovery { next_retry: None, ..d.recovery }, ..d },
            StepView::Start { settings: d.settings(), after: After::Poll, retry: true },
        )
    } else {
        (d, StepView::Idle)
    }
}

/// Follow power saving: entering it turns the engine off, leaving it restores what the user
/// wants, unless the engine is idle.
pub open spec fn low_power(d: DaemonView, active: bool) -> Move {
    if active == d.low_power {
        (d, StepView::Idle)
    } else if !d.config.auto_off_low_power {
        (DaemonView { low_power: active, ..d }, StepView::Idle)
    } else {
        let target = !active && d.user_intent && !d.idle_suspended;
        reconcile(
            DaemonView {
                low_power: active,
                engine_target_on: target,
                recovery: if active {
                    Recovery { next_retry: None, ..d.recovery }
                } else if target && d.engine is None {
                    Recovery::fresh()
                } else {
                    d.recovery
                },
                ..d
            },
            After::Poll,
        )
    }
}

/// Suspend a running engine after sustained silence, and resume a suspended one when the
/// output is active again.
pub open spec fn idle_activity(d: DaemonView, silent_frames: u64, output_running: bool) -> Move {
    if !d.config.auto_off_idle || !d.user_intent {
        (d, StepView::Idle)
    } else {
        match d.engine {
            Some(t) => if silent_frames >= IDLE_SUSPEND_AFTER * t.sample_rate.rounded() {
                reconcile(
                    DaemonView {
                        idle_suspended: true,
                        engine_target_on: false,
                        recovery: Recovery { next_retry: None, ..d.recovery },
                        ..d
                    },
                    After::Poll,
                )
            } else {
                (d, StepView::Idle)
            },
            None => if d.idle_suspended && !d.suppressed() && output_running {
                reconcile(
                    DaemonView {
                        idle_suspended: false,
                        engine_target_on: true,
                        recovery: Recovery::fresh(),
                        ..d
                    },
                    After::Poll,
                )
            } else {
                (d, StepView::Idle)
            },
        }
    }
}

/// Whether the engine is to run at the daemon's start, and whether it starts suspended. With
/// idle auto-off the engine waits for playback.
pub open spec fn initial_state(intent: bool, auto_off_idle: bool, suppressed: bool) -> (
    bool,
    bool,
) {
    (intent && !suppressed && !auto_off_idle, intent && auto_off_idle)
}

/// The state of a daemon that starts.
pub open spec fn initial(
    saved: ConfigView,
    draft: Option<ConfigView>,
    low_power: bool,
    output_id: Option<u32>,
) -> DaemonView {
    let config = match draft {
        Some(c) => c,
        None => saved,
    };
    let (on, idle) = initial_state(
        config.enabled,
        config.auto_off_idle,
        config.auto_off_low_power && low_power,
    );
    DaemonView {
        config,
        saved_config: saved,
        engine: None,
        engine_target_on: on,
        user_intent: config.enabled,
        low_power,
        observed_output_id: output_id,
        recovery: Recovery::fresh(),
        last_engine_error: None,
        idle_suspended: idle,
        bypassed: false,
        draft_dirty: false,
        draft_last_write: None,
    }
}

} // verus!
