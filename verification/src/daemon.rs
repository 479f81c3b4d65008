//! The daemon at work: carrying out requests, taking the results of its steps, and polling.

use vstd::prelude::*;
use vstd::string::*;
use crate::config::{
    preset_fault, runnable_bands, validate_band, validate_freq, validate_preamp, Config,
    ConfigView,
};
use crate::dsp::{valid_frequency, Band};
use crate::error::{about, plain, EqError, Fault};
use crate::ipc::{FrequencyResponse, Request, Response, ResponsePoint, Status, Tuning};
use crate::library::{
    confirmed_reset_all, confirmed_reset_preset, delete_presets, export_preset, import_preset,
    modified_shipped_presets, rename_preset, shipped_preset_names, validate_new_preset_name,
    validate_session_save_name, PresetBackup, PresetFile,
};
use crate::number::{Double, Single};
use crate::preset::{copy_bands, is_listing, listing, Preset, PresetView};
use crate::recovery::{clock_has_room, Recovery, RETRY_LIMIT};
use crate::state;
use crate::state::{
    After, Daemon, DaemonView, EngineSettings, Mirror, Reply, Saving, Setting, Step, Stopped,
    IDLE_SUSPEND_AFTER, SESSION_MIRROR_MIN_INTERVAL,
};
use crate::sys::{OutputTarget, TargetView};
use crate::text::{copy_optional, optional, same_text, texts};
use crate::tuning::{find_removal, set_band, valid_frequencies, Removal};

verus! {

/// The state after a call and the step it returned are the expected ones.
pub open spec fn goes(expected: state::Move, after: DaemonView, step: Step) -> bool {
    after == expected.0 && step@ == expected.1
}

/// What a result from outside holds: a target, or the reason why there is none.
pub open spec fn start_result(r: Result<OutputTarget, String>) -> Result<TargetView, Seq<char>> {
    match r {
        Ok(t) => Ok(t@),
        Err(m) => Err(m@),
    }
}

/// The bands of a runnable preset have valid frequencies.
proof fn runnable_frequencies(p: PresetView)
    requires
        preset_fault(p) is None,
    ensures
        valid_frequencies(p.bands),
{
    runnable_bands(p.bands);
    assert forall|i: int| 0 <= i < p.bands.len() implies valid_frequency(
        (#[trigger] p.bands[i]).freq,
    ) by {
        assert(crate::config::band_fault(p.bands[i].freq, p.bands[i].gain_db, p.bands[i].q) is None);
    }
}

/// Whether the engine is to run at the daemon's start, and whether it starts suspended.
pub fn initial_engine_state(user_intent: bool, auto_off_idle: bool, lpm_suppressed: bool) -> (r: (
    bool,
    bool,
))
    ensures
        r == state::initial_state(user_intent, auto_off_idle, lpm_suppressed),
{
    let lazy_start = user_intent && auto_off_idle;
    let engine_target_on = user_intent && !lpm_suppressed && !lazy_start;
    (engine_target_on, lazy_start)
}

impl Daemon {
    /// A daemon that starts with this saved config, the working config of an unsaved session
    /// that an earlier run left behind, if any, and what the system says now.
    pub fn new(
        saved_config: Config,
        draft: Option<Config>,
        low_power: bool,
        observed_output_id: Option<u32>,
    ) -> (d: Daemon)
        ensures
            d@ == state::initial(
                saved_config@,
                match draft {
                    Some(c) => Some(c@),
                    None => None,
                },
                low_power,
                observed_output_id,
            ),
    {
        let config = match draft {
            Some(c) => c,
            None => saved_config.clone(),
        };
        let user_intent = config.enabled;
        let lpm_suppressed = config.auto_off_low_power && low_power;
        let (engine_target_on, idle_suspended) = initial_engine_state(
            user_intent,
            config.auto_off_idle,
            lpm_suppressed,
        );
        Daemon {
            config,
            saved_config,
            engine: None,
            engine_target_on,
            user_intent,
            low_power,
            observed_output_id,
            recovery: Recovery::new(),
            last_engine_error: None,
            idle_suspended,
            bypassed: false,
            draft_dirty: false,
            draft_last_write: None,
        }
    }

    // --- what the state says -----------------------------------------------------------

    /// Whether the working config differs from the saved one.
    pub fn has_unsaved_session(&self) -> (r: bool)
        ensures
            r == self@.unsaved(),
    {
        !self.config.same(&self.saved_config)
    }

    /// Names of every preset whose working contents differ from the saved config.
    pub fn dirty_preset_names(&self) -> (v: Vec<String>)
        ensures
            texts(v@) == self@.dirty_names(),
    {
        let n = self.config.presets.len();
        let ghost d = self@;
        let ghost s = listing(d.config.presets);
        let ghost f = |k: Seq<char>| d.dirty(k);
        let mut v: Vec<String> = Vec::new();
        let mut i: usize = 0;
        proof {
            reveal_with_fuel(Seq::filter, 2);
            assert(s.take(0) =~= Seq::empty());
            assert(texts(v@) =~= Seq::empty());
        }
        while i < n
            invariant
                i <= n,
                n == s.len(),
                d == self@,
                s == listing(d.config.presets),
                f == (|k: Seq<char>| d.dirty(k)),
                texts(v@) == s.take(i as int).filter(f),
            decreases n - i,
        {
            let name = self.config.presets.name_at(i);
            let contents = self.config.presets.preset_at(i);
            let clean = match self.saved_config.presets.get(name) {
                Some(saved) => contents.same(saved),
                None => false,
            };
            proof {
                reveal_with_fuel(Seq::filter, 2);
                assert(s.take(i + 1).drop_last() =~= s.take(i as int));
                assert(s.take(i + 1).last() == name@);
                assert(f(name@) == !clean);
            }
            if !clean {
                let ghost before = v@;
                let t = name.to_owned();
                v.push(t);
                assert(texts(v@) =~= texts(before).push(name@));
            }
            i += 1;
        }
        assert(s.take(n as int) =~= s);
        v
    }

    fn preamp(&self) -> (p: Single)
        ensures
            p == self@.preamp(),
    {
        match self.config.active() {
            Some(p) => p.preamp_db,
            None => Single::from_bits(0),
        }
    }

    fn bands(&self) -> (b: Vec<Band>)
        ensures
            b@ == self@.bands(),
    {
        match self.config.active() {
            Some(p) => copy_bands(&p.bands),
            None => {
                let v: Vec<Band> = Vec::new();
                assert(v@ =~= Seq::empty());
                v
            },
        }
    }

    /// The tuning in use.
    pub fn tuning(&self) -> (t: Tuning)
        ensures
            t@ == self@.tuning(),
    {
        Tuning {
            enabled: self.engine.is_some(),
            preset: self.config.active_preset.clone(),
            preamp_db: self.preamp(),
            bands: self.bands(),
        }
    }

    /// What the engine is to play.
    pub fn settings(&self) -> (s: EngineSettings)
        ensures
            s@ == self@.settings(),
    {
        EngineSettings {
            bands: self.bands(),
            preamp_db: self.preamp(),
            limiter: self.config.limiter,
            bypassed: self.bypassed,
        }
    }

    fn rate(&self) -> (r: Option<Double>)
        ensures
            r == self@.rate(),
    {
        match &self.engine {
            Some(t) => Some(t.sample_rate),
            None => None,
        }
    }

    /// Why desired processing is not running.
    pub fn suspension_reason(&self) -> (r: Option<String>)
        ensures
            optional(r) == self@.suspension(),
    {
        if self.engine.is_some() {
            None
        } else if !self.user_intent {
            Some("user-off".to_owned())
        } else if self.config.auto_off_low_power && self.low_power && !self.engine_target_on {
            Some("low-power".to_owned())
        } else if self.idle_suspended {
            Some("idle".to_owned())
        } else if self.recovery.exhausted {
            Some("recovery-exhausted".to_owned())
        } else if self.recovery.next_retry.is_some() {
            Some("recovering".to_owned())
        } else {
            Some("starting".to_owned())
        }
    }

    /// A snapshot of the state.
    pub fn status(&self, now: u64) -> (s: Status)
        ensures
            s@ == self@.status(now),
    {
        let retry_in_seconds: Option<u64> = match self.recovery.next_retry {
            Some(at) => {
                let millis: u64 = if at > now {
                    (at - now) / 1_000_000
                } else {
                    0
                };
                Some((millis + 999) / 1000)
            },
            None => None,
        };
        let bands = self.bands();
        let s = Status {
            user_intent: self.user_intent,
            engine_running: self.engine.is_some(),
            suspension_reason: self.suspension_reason(),
            active_preset: self.config.active_preset.clone(),
            preamp_db: self.preamp(),
            band_count: bands.len(),
            limiter: self.config.limiter,
            output_uid: match &self.engine {
                Some(t) => Some(t.uid.clone()),
                None => None,
            },
            output_name: match &self.engine {
                Some(t) => Some(t.name.clone()),
                None => None,
            },
            output_rate_hz: self.rate(),
            output_stream: match &self.engine {
                Some(t) => Some(t.stream.description()),
                None => None,
            },
            last_engine_error: copy_optional(&self.last_engine_error),
            retry_attempts: self.recovery.retries_attempted,
            retry_limit: RETRY_LIMIT,
            retry_in_seconds,
            retry_exhausted: self.recovery.exhausted,
            bypassed: self.bypassed,
            dirty_presets: self.dirty_preset_names(),
            low_power: self.low_power,
            auto_off_low_power: self.config.auto_off_low_power,
            auto_off_idle: self.config.auto_off_idle,
        };
        s
    }

    fn answer(&self, reply: Reply) -> (r: Response)
        ensures
            r@ == self@.answer(reply),
    {
        match reply {
            Reply::Done => Response::Done,
            Reply::Tuning => Response::Tuning(self.tuning()),
            Reply::Presets => Response::Presets {
                active: self.config.active_preset.clone(),
                names: self.config.presets.names(),
            },
            Reply::BandRemoved(b) => Response::BandRemoved { tuning: self.tuning(), removed: b },
        }
    }

    fn draft_write_due(&self, now: u64) -> (r: bool)
        ensures
            r == self@.draft_due(now),
    {
        match self.draft_last_write {
            Some(last) => now >= last && now - last >= SESSION_MIRROR_MIN_INTERVAL,
            None => true,
        }
    }

    // --- applying a working config -------------------------------------------------------

    /// The settings were handed to the running engine: answer the request.
    pub fn pushed(&self, reply: Reply, failed: Option<EqError>) -> (step: Step)
        ensures
            goes(
                state::pushed(self@, reply, state::failure_of(failed)),
                self@,
                step,
            ),
    {
        match failed {
            Some(e) => Step::Finish(Err(e)),
            None => Step::Finish(Ok(self.answer(reply))),
        }
    }

    fn push(&self, reply: Reply, failed: Option<EqError>) -> (step: Step)
        ensures
            goes(state::push(self@, reply, state::failure_of(failed)), self@, step),
    {
        match &self.engine {
            Some(t) => Step::Push { settings: self.settings(), rate: t.sample_rate, reply, failed },
            None => self.pushed(reply, failed),
        }
    }

    fn sync_session_file(&mut self, reply: Reply, now: u64) -> (step: Step)
        ensures
            goes(state::sync(old(self)@, reply, now), final(self)@, step),
    {
        if self.has_unsaved_session() {
            if self.draft_write_due(now) {
                self.draft_dirty = false;
                return Step::WriteDraft {
                    draft: self.config.clone(),
                    at: now,
                    mirror: Mirror::Request(reply),
                };
            }
            self.draft_dirty = true;
            return self.push(reply, None);
        }
        self.draft_dirty = false;
        self.draft_last_write = None;
        Step::RemoveDraft(reply)
    }

    /// The draft mirror was written, or not.
    pub fn draft_written(&mut self, at: u64, mirror: Mirror, written: bool) -> (step: Step)
        ensures
            goes(
                state::draft_written(old(self)@, at, mirror, written),
                final(self)@,
                step,
            ),
    {
        if written {
            self.draft_last_write = Some(at);
        }
        match mirror {
            Mirror::Request(reply) => self.push(reply, None),
            Mirror::Flush => Step::Idle,
        }
    }

    /// The resolved session's draft was removed, or stayed behind at a path for a reason.
    pub fn draft_removed(&self, reply: Reply, stayed: Option<(String, String)>) -> (step: Step)
        ensures
            goes(
                state::draft_removed(
                    self@,
                    reply,
                    match stayed {
                        Some((path, reason)) => Some((path@, reason@)),
                        None => None,
                    },
                ),
                self@,
                step,
            ),
    {
        match stayed {
            Some((path, reason)) => {
                let e = EqError { fault: Fault::DraftNotRemoved, subject: path, detail: reason };
                self.push(reply, Some(e))
            },
            None => self.push(reply, None),
        }
    }

    /// Flush a deferred session-draft write once the rate-limit interval has elapsed, so that a
    /// burst of edits lands as one coalesced write.
    pub fn maybe_flush_draft(&mut self, now: u64) -> (step: Step)
        ensures
            goes(state::flush(old(self)@, now), final(self)@, step),
    {
        if self.draft_dirty && self.draft_write_due(now) {
            self.draft_dirty = false;
            Step::WriteDraft { draft: self.config.clone(), at: now, mirror: Mirror::Flush }
        } else {
            Step::Idle
        }
    }

    // --- the engine ------------------------------------------------------------------------

    fn enabled_recorded(&self, on: bool, failed: bool) -> (step: Step)
        ensures
            goes(state::enabled_recorded(self@, on, failed), self@, step),
    {
        if on {
            if failed {
                Step::Finish(Err(EqError::plain(Fault::NativeOutput)))
            } else {
                Step::Finish(Ok(Response::Tuning(self.tuning())))
            }
        } else if self.has_unsaved_session() {
            Step::Finish(
                Ok(
                    Response::UnsavedSession {
                        tuning: self.tuning(),
                        dirty_presets: self.dirty_preset_names(),
                    },
                ),
            )
        } else {
            Step::Finish(Ok(Response::Done))
        }
    }

    fn record_enabled(&self, on: bool, failed: bool) -> (step: Step)
        ensures
            goes(state::record_enabled(self@, on, failed), self@, step),
    {
        let mut next = self.saved_config.clone();
        next.enabled = on;
        if next.same(&self.saved_config) {
            return self.enabled_recorded(on, failed);
        }
        Step::Save { next, saving: Saving::Enabled { on, failed } }
    }

    fn settled(&self, after: After, failed: Option<String>) -> (step: Step)
        ensures
            goes(state::settled(self@, after, optional(failed)), self@, step),
    {
        match after {
            After::Enable => self.record_enabled(true, failed.is_some()),
            After::Disable => self.record_enabled(false, failed.is_some()),
            After::Toggle => match failed {
                Some(m) => Step::Finish(Err(EqError::outside(m))),
                None => Step::Finish(Ok(Response::Done)),
            },
            After::Poll => Step::Idle,
        }
    }

    /// Start or stop the audio engine so that it matches its target. A scheduled or exhausted
    /// incident is owned by [`Daemon::follow_recovery`]: ordinary reconciles add no attempts.
    pub fn reconcile(&mut self, after: After) -> (step: Step)
        ensures
            goes(state::reconcile(old(self)@, after), final(self)@, step),
    {
        if self.engine_target_on && self.engine.is_none() {
            if self.recovery.next_retry.is_none() && !self.recovery.exhausted {
                return Step::Start { settings: self.settings(), after, retry: false };
            }
        } else if !self.engine_target_on && self.engine.is_some() {
            self.engine = None;
            return Step::Stop(Stopped::Then(after));
        }
        self.settled(after, None)
    }

    /// The engine started on an output, or failed to for a reason.
    pub fn started(
        &mut self,
        after: After,
        retry: bool,
        result: Result<OutputTarget, String>,
        now: u64,
    ) -> (step: Step)
        requires
            clock_has_room(now),
            retry ==> old(self).recovery.retries_attempted < RETRY_LIMIT,
        ensures
            goes(
                state::started(old(self)@, after, retry, start_result(result), now),
                final(self)@,
                step,
            ),
    {
        match result {
            Ok(target) => {
                self.engine = Some(target);
                self.recovery.reset();
                self.settled(after, None)
            },
            Err(message) => {
                self.last_engine_error = Some(message.clone());
                if self.engine_target_on {
                    if retry {
                        self.recovery.retry_failed(now);
                    } else {
                        self.recovery.schedule_initial(now);
                    }
                }
                self.settled(after, Some(message))
            },
        }
    }

    /// The engine was stopped.
    pub fn stopped(&mut self, then: Stopped) -> (step: Step)
        ensures
            goes(state::stopped(old(self)@, then), final(self)@, step),
    {
        match then {
            Stopped::Then(after) => self.settled(after, None),
            Stopped::Rebuild => self.reconcile(After::Poll),
        }
    }

    /// The first step: bring the engine up if it is to run.
    pub fn startup(&mut self) -> (step: Step)
        ensures
            goes(state::startup(old(self)@), final(self)@, step),
    {
        if self.engine_target_on {
            self.reconcile(After::Poll)
        } else {
            Step::Idle
        }
    }

    // --- settings --------------------------------------------------------------------------

    fn setting_kept(&mut self, setting: &Setting, now: u64) -> (step: Step)
        ensures
            goes(state::setting_kept(old(self)@, setting@, now), final(self)@, step),
    {
        match setting {
            Setting::ActivePreset(_) => self.sync_session_file(Reply::Tuning, now),
            Setting::Limiter(_) => self.sync_session_file(Reply::Done, now),
            Setting::AutoOffLowPower(on) => {
                if *on && self.low_power {
                    self.engine_target_on = false;
                    self.recovery.pause();
                } else if !*on {
                    self.engine_target_on = self.user_intent && !self.idle_suspended;
                    if self.engine_target_on && self.engine.is_none() {
                        self.recovery.reset();
                    }
                }
                self.reconcile(After::Toggle)
            },
            Setting::AutoOffIdle(on) => {
                if !*on && self.idle_suspended {
                    self.idle_suspended = false;
                    if self.user_intent && !(self.config.auto_off_low_power && self.low_power) {
                        self.engine_target_on = true;
                        self.recovery.reset();
                    }
                }
                self.reconcile(After::Toggle)
            },
        }
    }

    fn commit_setting(&mut self, setting: Setting, now: u64) -> (step: Step)
        ensures
            goes(state::commit_setting(old(self)@, setting@, now), final(self)@, step),
    {
        let mut next = self.saved_config.clone();
        setting.apply(&mut next);
        if next.same(&self.saved_config) {
            return self.setting_kept(&setting, now);
        }
        Step::Save { next, saving: Saving::Setting(setting) }
    }

    fn commit(&self, next: Result<Config, EqError>, reply: Reply) -> (step: Step)
        ensures
            goes(
                state::commit(
                    self@,
                    match next {
                        Ok(c) => Ok(c@),
                        Err(e) => Err(e@),
                    },
                    reply,
                ),
                self@,
                step,
            ),
    {
        match next {
            Ok(c) => {
                let working = c.clone();
                Step::Save { next: c, saving: Saving::Presets { working, reply } }
            },
            Err(e) => Step::Finish(Err(e)),
        }
    }

    /// The config `next` was persisted, or could not be, for a reason. Only a persisted config
    /// is adopted in memory, so that the state keeps matching what is on disk, and a retried
    /// request writes again.
    #[verifier::rlimit(60)]
    pub fn saved(
        &mut self,
        next: Config,
        saving: Saving,
        failed: Option<String>,
        now: u64,
    ) -> (step: Step)
        ensures
            goes(
                state::saved(old(self)@, next@, saving@, optional(failed), now),
                final(self)@,
                step,
            ),
    {
        match saving {
            Saving::Setting(setting) => match failed {
                Some(m) => Step::Finish(Err(EqError::outside(m))),
                None => {
                    setting.apply(&mut self.config);
                    self.saved_config = next;
                    self.setting_kept(&setting, now)
                },
            },
            Saving::Enabled { on, failed: not_started } => match failed {
                Some(_) => {
                    if on {
                        Step::Finish(Err(EqError::plain(Fault::OnNotSaved)))
                    } else {
                        Step::Finish(Err(EqError::plain(Fault::OffNotSaved)))
                    }
                },
                None => {
                    self.config.enabled = on;
                    self.saved_config = next;
                    self.enabled_recorded(on, not_started)
                },
            },
            Saving::Presets { working, reply } => match failed {
                Some(m) => Step::Finish(Err(EqError::outside(m))),
                None => {
                    self.config = working;
                    self.saved_config = next;
                    self.sync_session_file(reply, now)
                },
            },
        }
    }
}

impl Daemon {
    // --- requests ----------------------------------------------------------------------------

    fn own_preset(&self) -> (r: Result<Preset, EqError>)
        ensures
            match state::own_preset(self@.config) {
                Ok(p) => r matches Ok(preset) && preset@ == p,
                Err(e) => r matches Err(error) && error@ == e,
            },
    {
        match self.config.presets.get(&self.config.active_preset) {
            Some(p) => Ok(p.clone()),
            None => Err(EqError::about(Fault::ActiveMissing, &self.config.active_preset)),
        }
    }

    fn edit(&mut self, preset: Preset)
        ensures
            final(self)@ == state::edited(old(self)@, preset@),
    {
        let name = self.config.active_preset.clone();
        self.config.presets.insert(name, preset);
    }

    fn enable(&mut self) -> (step: Step)
        ensures
            goes(state::enable(old(self)@), final(self)@, step),
    {
        self.user_intent = true;
        self.idle_suspended = false;
        self.engine_target_on = true;
        self.recovery.reset();
        self.reconcile(After::Enable)
    }

    fn disable(&mut self) -> (step: Step)
        ensures
            goes(state::disable(old(self)@), final(self)@, step),
    {
        self.user_intent = false;
        self.idle_suspended = false;
        self.engine_target_on = false;
        self.recovery.reset();
        self.reconcile(After::Disable)
    }

    fn show(&self, name: Option<&str>) -> (r: Response)
        ensures
            r@ == state::show(
                self@,
                match name {
                    Some(n) => Some(n@),
                    None => None,
                },
            ),
    {
        let n: &str = match name {
            Some(n) => n,
            None => self.config.active_preset.as_str(),
        };
        match self.config.presets.get(n) {
            Some(p) => Response::Tuning(
                Tuning {
                    enabled: self.engine.is_some(),
                    preset: n.to_owned(),
                    preamp_db: p.preamp_db,
                    bands: copy_bands(&p.bands),
                },
            ),
            None => Response::Error(EqError::about(Fault::NoSuchPreset, n)),
        }
    }

    fn set_band(&mut self, band: Band, now: u64) -> (step: Step)
        requires
            old(self)@.wf(),
        ensures
            goes(state::set_band(old(self)@, band, now), final(self)@, step),
    {
        match validate_band(band.freq, band.gain_db, band.q) {
            Err(e) => return Step::Finish(Err(e)),
            Ok(()) => {},
        }
        let mut preset = match self.own_preset() {
            Err(e) => return Step::Finish(Err(e)),
            Ok(p) => p,
        };
        proof {
            assert(self@.config.presets.contains_key(self@.config.active_preset));
            runnable_frequencies(preset@);
        }
        match set_band(&mut preset.bands, band) {
            Err(f) => Step::Finish(Ok(Response::Error(EqError::plain(f)))),
            Ok(()) => {
                self.edit(preset);
                self.sync_session_file(Reply::Tuning, now)
            },
        }
    }

    fn remove_band(&mut self, freq: Single, now: u64) -> (step: Step)
        requires
            old(self)@.wf(),
        ensures
            goes(state::remove_band(old(self)@, freq, now), final(self)@, step),
    {
        match validate_freq(freq) {
            Err(e) => return Step::Finish(Err(e)),
            Ok(()) => {},
        }
        let mut preset = match self.own_preset() {
            Err(e) => return Step::Finish(Err(e)),
            Ok(p) => p,
        };
        proof {
            assert(self@.config.presets.contains_key(self@.config.active_preset));
            runnable_frequencies(preset@);
        }
        match find_removal(&preset.bands, freq) {
            Removal::Empty => Step::Finish(Err(EqError::plain(Fault::NoBands))),
            Removal::Miss(nearest) => Step::Finish(
                Ok(Response::Error(EqError::plain(Fault::NoBandMatches { freq, nearest }))),
            ),
            Removal::Hit(i) => {
                let removed = preset.bands.remove(i);
                self.edit(preset);
                self.sync_session_file(Reply::BandRemoved(removed), now)
            },
        }
    }

    fn set_preamp(&mut self, db: Single, now: u64) -> (step: Step)
        ensures
            goes(state::set_preamp(old(self)@, db, now), final(self)@, step),
    {
        match validate_preamp(db) {
            Err(e) => return Step::Finish(Err(e)),
            Ok(()) => {},
        }
        let mut preset = match self.own_preset() {
            Err(e) => return Step::Finish(Err(e)),
            Ok(p) => p,
        };
        preset.preamp_db = db;
        self.edit(preset);
        self.sync_session_file(Reply::Tuning, now)
    }

    /// The peak of the active preset's response was measured, or could not be, for a reason.
    pub fn peak_measured(&mut self, peak: Result<Single, String>, now: u64) -> (step: Step)
        ensures
            goes(
                state::peak_measured(
                    old(self)@,
                    match peak {
                        Ok(x) => Ok(x),
                        Err(m) => Err(m@),
                    },
                    now,
                ),
                final(self)@,
                step,
            ),
    {
        match peak {
            Err(m) => Step::Finish(Err(EqError::outside(m))),
            Ok(x) => {
                let db = if x.bits < 0x8000_0000 && x.bits != 0 {
                    Single::from_bits(x.bits + 0x8000_0000)
                } else {
                    Single::from_bits(0)
                };
                self.set_preamp(db, now)
            },
        }
    }

    /// The response was computed, or could not be, for a reason.
    pub fn response_measured(&self, curve: Result<(Double, Vec<ResponsePoint>), String>) -> (step:
        Step)
        ensures
            goes(
                state::response_measured(
                    self@,
                    match curve {
                        Ok((rate, points)) => Ok((rate, points@)),
                        Err(m) => Err(m@),
                    },
                ),
                self@,
                step,
            ),
    {
        match curve {
            Err(m) => Step::Finish(Err(EqError::outside(m))),
            Ok((rate, points)) => Step::Finish(
                Ok(
                    Response::FrequencyResponse(
                        FrequencyResponse {
                            sample_rate_hz: rate,
                            preamp_db: self.preamp(),
                            points,
                        },
                    ),
                ),
            ),
        }
    }

    fn carry_over(&self, next: &Config, name: &str) -> (working: Config)
        requires
            exists|p: PresetView| next@ == state::saved_as(self@, name@, p),
        ensures
            forall|p: PresetView|
                next@ == #[trigger] state::saved_as(self@, name@, p) ==> working@
                    == state::carried_over(self@, name@, p),
    {
        let mut working = next.clone();
        let n = self.config.presets.len();
        let ghost d = self@;
        let ghost m = d.config.presets;
        let ghost s = listing(m);
        let mut i: usize = 0;
        while i < n
            invariant
                i <= n,
                n == s.len(),
                d == self@,
                m == d.config.presets,
                s == listing(m),
                is_listing(s, m),
                working@ == (ConfigView { presets: working@.presets, ..next@ }),
                forall|k: Seq<char>| #[trigger]
                    working@.presets.contains_key(k) <==> next@.presets.contains_key(k) || (s.take(
                        i as int,
                    ).contains(k) && state::carries(d, name@, k)),
                forall|k: Seq<char>| #[trigger]
                    working@.presets.contains_key(k) ==> working@.presets[k] == if s.take(
                        i as int,
                    ).contains(k) && state::carries(d, name@, k) {
                        m[k]
                    } else {
                        next@.presets[k]
                    },
            decreases n - i,
        {
            let preset_name = self.config.presets.name_at(i);
            let ghost before = working@.presets;
            if !same_text(preset_name, &self.config.active_preset) && !same_text(
                preset_name,
                name,
            ) {
                working.presets.insert(
                    preset_name.to_owned(),
                    self.config.presets.preset_at(i).clone(),
                );
            }
            proof {
                let done = s.take(i as int);
                let more = s.take(i + 1);
                let x = s[i as int];
                assert(more =~= done.push(x));
                assert forall|k: Seq<char>| #[trigger] more.contains(k) <==> done.contains(k) || k
                    == x by {
                    if more.contains(k) {
                        let j = choose|j: int| 0 <= j < more.len() && more[j] == k;
                        if j < i {
                            assert(done[j] == k);
                        }
                    }
                    if done.contains(k) {
                        let j = choose|j: int| 0 <= j < done.len() && done[j] == k;
                        assert(more[j] == k);
                    }
                    assert(more[i as int] == x);
                }
                assert forall|k: Seq<char>| #[trigger]
                    working@.presets.contains_key(k) <==> next@.presets.contains_key(k) || (
                    more.contains(k) && state::carries(d, name@, k)) by {
                    assert(before.contains_key(k) <==> next@.presets.contains_key(k) || (
                    done.contains(k) && state::carries(d, name@, k)));
                }
            }
            i += 1;
        }
        proof {
            assert(s.take(n as int) =~= s);
            assert forall|p: PresetView|
                next@ == #[trigger] state::saved_as(d, name@, p) implies working@
                == state::carried_over(d, name@, p) by {
                let e = state::carried_over(d, name@, p).presets;
                assert forall|k: Seq<char>|
                    working@.presets.contains_key(k) <==> e.contains_key(k) by {
                    assert(s.contains(k) <==> m.contains_key(k));
                }
                assert forall|k: Seq<char>|
                    working@.presets.contains_key(k) implies working@.presets[k] == e[k] by {
                    assert(s.contains(k) <==> m.contains_key(k));
                }
                assert(working@.presets =~= e);
            }
        }
        working
    }

    /// Save the active preset's working tuning under `name` and switch to it. Unsaved edits to
    /// every other preset are carried over and stay an open session.
    fn save_session_as(&self, name: &str) -> (step: Step)
        ensures
            goes(state::save_as(self@, name@), self@, step),
    {
        match validate_session_save_name(
            &self.saved_config.presets,
            &self.config.active_preset,
            name,
        ) {
            Err(e) => return Step::Finish(Err(e)),
            Ok(()) => {},
        }
        let preset = match self.config.active() {
            Some(p) => p.clone(),
            None => return Step::Finish(Err(EqError::plain(Fault::NothingActive))),
        };
        let ghost p = preset@;
        let mut next = self.saved_config.clone();
        next.presets.insert(name.to_owned(), preset);
        next.active_preset = name.to_owned();
        assert(next@ =~= state::saved_as(self@, name@, p));
        let working = self.carry_over(&next, name);
        Step::Save { next, saving: Saving::Presets { working, reply: Reply::Tuning } }
    }

    fn clone_preset(&self, source: &str, dest: &str) -> (r: Result<Config, EqError>)
        ensures
            crate::library::made(state::cloned(self@, source@, dest@), r),
    {
        match validate_new_preset_name(&self.saved_config.presets, dest) {
            Err(e) => return Err(e),
            Ok(()) => {},
        }
        match self.config.presets.get(source) {
            None => Err(EqError::about(Fault::NoSuchPreset, source)),
            Some(p) => {
                let mut next = self.saved_config.clone();
                next.presets.insert(dest.to_owned(), p.clone());
                next.active_preset = dest.to_owned();
                Ok(next)
            },
        }
    }

    fn reset_or_ask(&self, names: &[String], next: Result<Config, EqError>) -> (step: Step)
        ensures
            goes(
                state::reset_or_ask(
                    self@,
                    texts(names@),
                    match next {
                        Ok(c) => Ok(c@),
                        Err(e) => Err(e@),
                    },
                ),
                self@,
                step,
            ),
    {
        match modified_shipped_presets(&self.saved_config, names) {
            Err(e) => Step::Finish(Err(e)),
            Ok(changed) => {
                assert(texts(changed@).len() == changed@.len());
                if changed.len() == 0 {
                    self.commit(next, Reply::Tuning)
                } else {
                    Step::Finish(Ok(Response::ResetWouldOverwrite { names: changed }))
                }
            },
        }
    }

    fn ensure_no_unsaved_session(&self) -> (r: Result<(), EqError>)
        ensures
            r is Ok <==> !self@.unsaved(),
            r matches Err(e) ==> e@ == plain(Fault::UnsavedSession),
    {
        if self.has_unsaved_session() {
            Err(EqError::plain(Fault::UnsavedSession))
        } else {
            Ok(())
        }
    }

    /// Carry out a request, up to its first step.
    #[verifier::rlimit(50)]
    pub fn apply(&mut self, req: Request, now: u64) -> (step: Step)
        requires
            old(self)@.wf(),
        ensures
            goes(state::applied(old(self)@, req@, now), final(self)@, step),
    {
        match req {
            Request::Status => Step::Finish(Ok(Response::Status(Box::new(self.status(now))))),
            Request::Enable => self.enable(),
            Request::Disable => self.disable(),
            Request::ListPresets => Step::Finish(Ok(self.answer(Reply::Presets))),
            Request::ShowPreset(name) => match name {
                Some(n) => Step::Finish(Ok(self.show(Some(n.as_str())))),
                None => Step::Finish(Ok(self.show(None))),
            },
            Request::SetPreset(name) => {
                if !self.config.presets.contains_key(&name) {
                    return Step::Finish(
                        Ok(Response::Error(EqError::about(Fault::NoSuchPreset, &name))),
                    );
                }
                self.commit_setting(Setting::ActivePreset(name), now)
            },
            Request::SavePreset { name } => self.save_session_as(&name),
            Request::ClonePreset { source, dest } => {
                match self.ensure_no_unsaved_session() {
                    Err(e) => Step::Finish(Err(e)),
                    Ok(()) => {
                        let next = self.clone_preset(&source, &dest);
                        self.commit(next, Reply::Tuning)
                    },
                }
            },
            Request::DeletePresets { names } => {
                match self.ensure_no_unsaved_session() {
                    Err(e) => Step::Finish(Err(e)),
                    Ok(()) => {
                        let mut next = self.config.clone();
                        match delete_presets(&mut next, &names) {
                            Err(e) => self.commit(Err(e), Reply::Presets),
                            Ok(()) => self.commit(Ok(next), Reply::Presets),
                        }
                    },
                }
            },
            Request::RenamePreset { from, to } => {
                match self.ensure_no_unsaved_session() {
                    Err(e) => Step::Finish(Err(e)),
                    Ok(()) => {
                        let mut next = self.config.clone();
                        match rename_preset(&mut next, &from, &to) {
                            Err(e) => self.commit(Err(e), Reply::Tuning),
                            Ok(()) => self.commit(Ok(next), Reply::Tuning),
                        }
                    },
                }
            },
            Request::ExportPreset { name, path } => match export_preset(&self.config, &name) {
                Ok(file) => Step::WritePreset { path, file },
                Err(e) => Step::Finish(Err(e)),
            },
            Request::ImportPreset { path, name } => {
                match self.ensure_no_unsaved_session() {
                    Err(e) => Step::Finish(Err(e)),
                    Ok(()) => Step::ReadPreset { path, name },
                }
            },
            Request::SetBand { kind, freq, gain_db, q } => self.set_band(
                Band { kind, freq, gain_db, q },
                now,
            ),
            Request::RemoveBand { freq } => self.remove_band(freq, now),
            Request::SetPreamp(db) => self.set_preamp(db, now),
            Request::SetPreampAuto => match self.own_preset() {
                Err(e) => Step::Finish(Err(e)),
                Ok(p) => Step::MeasurePeak { bands: p.bands, rate: self.rate() },
            },
            Request::GetResponse => Step::MeasureResponse {
                bands: self.bands(),
                preamp_db: self.preamp(),
                rate: self.rate(),
            },
            Request::SetBypass(on) => {
                self.bypassed = on;
                self.push(Reply::Done, None)
            },
            Request::SetLimiter(on) => self.commit_setting(Setting::Limiter(on), now),
            Request::SetAutoOffLowPower(on) => self.commit_setting(
                Setting::AutoOffLowPower(on),
                now,
            ),
            Request::SetAutoOffIdle(on) => self.commit_setting(Setting::AutoOffIdle(on), now),
            Request::SaveSessionAs { name } => self.save_session_as(&name),
            Request::SaveSessionOverwrite => {
                let next = self.config.clone();
                self.commit(Ok(next), Reply::Tuning)
            },
            Request::DiscardSession => {
                self.config = self.saved_config.clone();
                self.sync_session_file(Reply::Tuning, now)
            },
            Request::ResetPreset { name } => {
                match self.ensure_no_unsaved_session() {
                    Err(e) => Step::Finish(Err(e)),
                    Ok(()) => {
                        let none: Vec<PresetBackup> = Vec::new();
                        let next = confirmed_reset_preset(&self.config, &name, &none);
                        let mut names: Vec<String> = Vec::new();
                        names.push(name);
                        proof {
                            assert(crate::library::backups_of(none@) =~= Seq::empty());
                            assert(texts(names@) =~= seq![name@]);
                        }
                        self.reset_or_ask(&names, next)
                    },
                }
            },
            Request::ConfirmResetPreset { name, backups } => {
                match self.ensure_no_unsaved_session() {
                    Err(e) => Step::Finish(Err(e)),
                    Ok(()) => {
                        let next = confirmed_reset_preset(&self.config, &name, &backups);
                        self.commit(next, Reply::Tuning)
                    },
                }
            },
            Request::Reset => {
                match self.ensure_no_unsaved_session() {
                    Err(e) => Step::Finish(Err(e)),
                    Ok(()) => {
                        let none: Vec<PresetBackup> = Vec::new();
                        let next = confirmed_reset_all(&self.config, &none);
                        let names = shipped_preset_names();
                        proof {
                            assert(crate::library::backups_of(none@) =~= Seq::empty());
                        }
                        self.reset_or_ask(&names, next)
                    },
                }
            },
            Request::ConfirmReset { backups } => {
                match self.ensure_no_unsaved_session() {
                    Err(e) => Step::Finish(Err(e)),
                    Ok(()) => {
                        let next = confirmed_reset_all(&self.config, &backups);
                        self.commit(next, Reply::Tuning)
                    },
                }
            },
        }
    }

    /// The preset file was read, or could not be, for a reason.
    pub fn preset_read(&self, file: Result<PresetFile, String>, name: Option<String>) -> (step:
        Step)
        ensures
            goes(
                state::preset_read(
                    self@,
                    match file {
                        Ok(f) => Ok(f@),
                        Err(m) => Err(m@),
                    },
                    optional(name),
                ),
                self@,
                step,
            ),
    {
        match file {
            Err(m) => Step::Finish(Err(EqError::outside(m))),
            Ok(f) => {
                let mut next = self.config.clone();
                let r = match &name {
                    Some(n) => import_preset(&mut next, &f, Some(n.as_str())),
                    None => import_preset(&mut next, &f, None),
                };
                match r {
                    Err(e) => self.commit(Err(e), Reply::Tuning),
                    Ok(()) => self.commit(Ok(next), Reply::Tuning),
                }
            },
        }
    }

    /// The preset file was written, or could not be, for a reason.
    pub fn preset_written(&self, failed: Option<String>) -> (step: Step)
        ensures
            goes(state::preset_written(self@, optional(failed)), self@, step),
    {
        match failed {
            Some(m) => Step::Finish(Err(EqError::outside(m))),
            None => Step::Finish(Ok(Response::Done)),
        }
    }

    // --- polls -----------------------------------------------------------------------------

    /// Lift a stream failure of the running engine onto the control thread: tear the engine
    /// down and open an incident, while the user's intent stays.
    pub fn follow_engine_health(&mut self, error: Option<String>, now: u64) -> (step: Step)
        requires
            clock_has_room(now),
        ensures
            goes(state::health(old(self)@, optional(error), now), final(self)@, step),
    {
        if self.engine.is_none() {
            return Step::Idle;
        }
        match error {
            None => Step::Idle,
            Some(m) => {
                self.engine = None;
                self.last_engine_error = Some(m);
                self.recovery.reset();
                if self.engine_target_on {
                    self.recovery.schedule_initial(now);
                }
                Step::Stop(Stopped::Then(After::Poll))
            },
        }
    }

    fn rebuild(&mut self) -> (step: Step)
        ensures
            goes(state::rebuild(old(self)@), final(self)@, step),
    {
        if self.engine.is_some() {
            self.engine = None;
            Step::Stop(Stopped::Rebuild)
        } else {
            self.reconcile(After::Poll)
        }
    }

    /// Rebuild the engine if the system default output device or the sample rate of the running
    /// engine's device changed. `rate` is the rate of that device now, where it can be read.
    pub fn follow_default_device(&mut self, output_id: Option<u32>, rate: Option<Double>) -> (step:
        Step)
        ensures
            goes(state::default_device(old(self)@, output_id, rate), final(self)@, step),
    {
        let changed = match (output_id, self.observed_output_id) {
            (Some(a), Some(b)) => a != b,
            (None, None) => false,
            _ => true,
        };
        if changed {
            self.observed_output_id = output_id;
            if self.engine_target_on {
                self.recovery.reset();
            } else {
                self.recovery.pause();
            }
            return self.rebuild();
        }
        let differs = match (&self.engine, rate) {
            (Some(t), Some(r)) => r.round() != t.sample_rate.round(),
            _ => false,
        };
        if differs {
            self.recovery.reset();
            return self.rebuild();
        }
        Step::Idle
    }

    /// Run the next retry of the incident when it is due.
    pub fn follow_recovery(&mut self, now: u64) -> (step: Step)
        ensures
            goes(state::recover(old(self)@, now), final(self)@, step),
    {
        if !self.engine_target_on || self.engine.is_some() || !self.recovery.due(now) {
            return Step::Idle;
        }
        self.recovery.pause();
        Step::Start { settings: self.settings(), after: After::Poll, retry: true }
    }

    /// Follow power saving: on entering it, turn the engine off and remember the user's
    /// intent; on leaving it, restore that intent.
    pub fn follow_low_power(&mut self, active: bool) -> (step: Step)
        ensures
            goes(state::low_power(old(self)@, active), final(self)@, step),
    {
        if active == self.low_power {
            return Step::Idle;
        }
        self.low_power = active;
        if !self.config.auto_off_low_power {
            return Step::Idle;
        }
        self.engine_target_on = !active && self.user_intent && !self.idle_suspended;
        if active {
            self.recovery.pause();
        } else if self.engine_target_on && self.engine.is_none() {
            self.recovery.reset();
        }
        self.reconcile(After::Poll)
    }

    /// Suspend on sustained captured silence, then resume when the default output device runs
    /// again. `silent_frames` is the running engine's count of silent frames.
    pub fn follow_idle_activity(&mut self, silent_frames: u64, output_running: bool) -> (step:
        Step)
        ensures
            goes(
                state::idle_activity(old(self)@, silent_frames, output_running),
                final(self)@,
                step,
            ),
    {
        if !self.config.auto_off_idle || !self.user_intent {
            return Step::Idle;
        }
        if let Some(t) = &self.engine {
            let rate: u64 = t.sample_rate.round() as u64;
            if silent_frames >= IDLE_SUSPEND_AFTER * rate {
                self.idle_suspended = true;
                self.engine_target_on = false;
                self.recovery.pause();
                return self.reconcile(After::Poll);
            }
            return Step::Idle;
        }
        if !self.idle_suspended {
            return Step::Idle;
        }
        if self.config.auto_off_low_power && self.low_power {
            return Step::Idle;
        }
        if output_running {
            self.idle_suspended = false;
            self.engine_target_on = true;
            self.recovery.reset();
            return self.reconcile(After::Poll);
        }
        Step::Idle
    }
}

impl Setting {
    /// Put the setting into a config.
    fn apply(&self, config: &mut Config)
        ensures
            final(config)@ == self@.applied(old(config)@),
    {
        match self {
            Setting::ActivePreset(name) => {
                config.active_preset = name.clone();
            },
            Setting::Limiter(on) => {
                config.limiter = *on;
            },
            Setting::AutoOffLowPower(on) => {
                config.auto_off_low_power = *on;
            },
            Setting::AutoOffIdle(on) => {
                config.auto_off_idle = *on;
            },
        }
    }
}

/// What the daemon does is what is expected of it, in its state and in its step alike.
pub proof fn the_daemon_does_what_is_expected(
    expected: state::Move,
    after: DaemonView,
    step: Step,
)
    ensures
        goes(expected, after, step) <==> (after, step@) == expected,
{
}

} // verus!
