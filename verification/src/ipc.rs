//! The control protocol between client and daemon: requests, replies, and the bounds on what
//! either side reads.

use vstd::prelude::*;
use vstd::string::*;
use crate::config::outcome;
use crate::dsp::{Band, BandKind};
use crate::error::{plain, EqError, ErrorView, Fault};
use crate::library::{backups_of, BackupView, PresetBackup};
use crate::number::{Double, Single};
use crate::text::{optional, texts};

verus! {

/// The longest request line, in bytes.
pub const MAX_REQUEST_BYTES: usize = 65_536;

/// The longest reply line, in bytes.
pub const MAX_RESPONSE_BYTES: usize = 1_048_576;

/// A command sent from the client to the running daemon.
#[allow(inconsistent_fields)]
#[derive(Debug)]
pub enum Request {
    Status,
    Enable,
    Disable,
    ListPresets,
    ShowPreset(Option<String>),
    SetPreset(String),
    SavePreset { name: String },
    ClonePreset { source: String, dest: String },
    DeletePresets { names: Vec<String> },
    RenamePreset { from: String, to: String },
    ExportPreset { name: String, path: String },
    ImportPreset { path: String, name: Option<String> },
    SetBand { kind: BandKind, freq: Single, gain_db: Single, q: Single },
    RemoveBand { freq: Single },
    SetPreamp(Single),
    SetPreampAuto,
    GetResponse,
    SetBypass(bool),
    SetLimiter(bool),
    SetAutoOffLowPower(bool),
    SetAutoOffIdle(bool),
    SaveSessionAs { name: String },
    SaveSessionOverwrite,
    DiscardSession,
    ResetPreset { name: String },
    ConfirmResetPreset { name: String, backups: Vec<PresetBackup> },
    Reset,
    ConfirmReset { backups: Vec<PresetBackup> },
}

/// What a [`Request`] holds.
#[allow(inconsistent_fields)]
pub ghost enum RequestView {
    Status,
    Enable,
    Disable,
    ListPresets,
    ShowPreset(Option<Seq<char>>),
    SetPreset(Seq<char>),
    SavePreset { name: Seq<char> },
    ClonePreset { source: Seq<char>, dest: Seq<char> },
    DeletePresets { names: Seq<Seq<char>> },
    RenamePreset { from: Seq<char>, to: Seq<char> },
    ExportPreset { name: Seq<char>, path: Seq<char> },
    ImportPreset { path: Seq<char>, name: Option<Seq<char>> },
    SetBand { kind: BandKind, freq: Single, gain_db: Single, q: Single },
    RemoveBand { freq: Single },
    SetPreamp(Single),
    SetPreampAuto,
    GetResponse,
    SetBypass(bool),
    SetLimiter(bool),
    SetAutoOffLowPower(bool),
    SetAutoOffIdle(bool),
    SaveSessionAs { name: Seq<char> },
    SaveSessionOverwrite,
    DiscardSession,
    ResetPreset { name: Seq<char> },
    ConfirmResetPreset { name: Seq<char>, backups: Seq<BackupView> },
    Reset,
    ConfirmReset { backups: Seq<BackupView> },
}

impl View for Request {
    type V = RequestView;

    open spec fn view(&self) -> RequestView {
        match self {
            Request::Status => RequestView::Status,
            Request::Enable => RequestView::Enable,
            Request::Disable => RequestView::Disable,
            Request::ListPresets => RequestView::ListPresets,
            Request::ShowPreset(name) => RequestView::ShowPreset(optional(*name)),
            Request::SetPreset(name) => RequestView::SetPreset(name@),
            Request::SavePreset { name } => RequestView::SavePreset { name: name@ },
            Request::ClonePreset { source, dest } => RequestView::ClonePreset {
                source: source@,
                dest: dest@,
            },
            Request::DeletePresets { names } => RequestView::DeletePresets {
                names: texts(names@),
            },
            Request::RenamePreset { from, to } => RequestView::RenamePreset {
                from: from@,
                to: to@,
            },
            Request::ExportPreset { name, path } => RequestView::ExportPreset {
                name: name@,
                path: path@,
            },
            Request::ImportPreset { path, name } => RequestView::ImportPreset {
                path: path@,
                name: optional(*name),
            },
            Request::SetBand { kind, freq, gain_db, q } => RequestView::SetBand {
                kind: *kind,
                freq: *freq,
                gain_db: *gain_db,
                q: *q,
            },
            Request::RemoveBand { freq } => RequestView::RemoveBand { freq: *freq },
            Request::SetPreamp(db) => RequestView::SetPreamp(*db),
            Request::SetPreampAuto => RequestView::SetPreampAuto,
            Request::GetResponse => RequestView::GetResponse,
            Request::SetBypass(on) => RequestView::SetBypass(*on),
            Request::SetLimiter(on) => RequestView::SetLimiter(*on),
            Request::SetAutoOffLowPower(on) => RequestView::SetAutoOffLowPower(*on),
            Request::SetAutoOffIdle(on) => RequestView::SetAutoOffIdle(*on),
            Request::SaveSessionAs { name } => RequestView::SaveSessionAs { name: name@ },
            Request::SaveSessionOverwrite => RequestView::SaveSessionOverwrite,
            Request::DiscardSession => RequestView::DiscardSession,
            Request::ResetPreset { name } => RequestView::ResetPreset { name: name@ },
            Request::ConfirmResetPreset { name, backups } => RequestView::ConfirmResetPreset {
                name: name@,
                backups: backups_of(backups@),
            },
            Request::Reset => RequestView::Reset,
            Request::ConfirmReset { backups } => RequestView::ConfirmReset {
                backups: backups_of(backups@),
            },
        }
    }
}

/// The active EQ tuning.
#[derive(Debug)]
pub struct Tuning {
    /// Whether the audio engine is currently running.
    pub enabled: bool,
    /// Name of the preset.
    pub preset: String,
    /// The preset's preamp make-up gain (dB).
    pub preamp_db: Single,
    /// The preset's EQ bands.
    pub bands: Vec<Band>,
}

/// What a [`Tuning`] holds.
pub ghost struct TuningView {
    pub enabled: bool,
    pub preset: Seq<char>,
    pub preamp_db: Single,
    pub bands: Seq<Band>,
}

impl View for Tuning {
    type V = TuningView;

    open spec fn view(&self) -> TuningView {
        TuningView {
            enabled: self.enabled,
            preset: self.preset@,
            preamp_db: self.preamp_db,
            bands: self.bands@,
        }
    }
}

/// One point of a response curve.
#[derive(Clone, Copy, Debug, PartialEq, Eq, Structural)]
pub struct ResponsePoint {
    pub frequency_hz: Single,
    pub gain_db: Single,
}

/// The active tuning's response at the output's sample rate.
#[derive(Debug)]
pub struct FrequencyResponse {
    pub sample_rate_hz: Double,
    pub preamp_db: Single,
    pub points: Vec<ResponsePoint>,
}

/// What a [`FrequencyResponse`] holds.
pub ghost struct CurveView {
    pub sample_rate_hz: Double,
    pub preamp_db: Single,
    pub points: Seq<ResponsePoint>,
}

impl View for FrequencyResponse {
    type V = CurveView;

    open spec fn view(&self) -> CurveView {
        CurveView {
            sample_rate_hz: self.sample_rate_hz,
            preamp_db: self.preamp_db,
            points: self.points@,
        }
    }
}

/// A snapshot of daemon state.
#[derive(Debug)]
pub struct Status {
    /// The user's desired on/off state, whatever the engine is doing.
    pub user_intent: bool,
    /// Whether the tap is actually running now.
    pub engine_running: bool,
    /// Why desired processing is not running, if applicable.
    pub suspension_reason: Option<String>,
    pub active_preset: String,
    pub preamp_db: Single,
    pub band_count: usize,
    pub limiter: bool,
    /// Validated output metadata: absent until startup succeeds.
    pub output_uid: Option<String>,
    pub output_name: Option<String>,
    pub output_rate_hz: Option<Double>,
    /// Compact sample-rate/channel/format/layout description.
    pub output_stream: Option<String>,
    pub last_engine_error: Option<String>,
    /// Number of retries already attempted in the current incident.
    pub retry_attempts: usize,
    pub retry_limit: usize,
    pub retry_in_seconds: Option<u64>,
    pub retry_exhausted: bool,
    /// Runtime dry-path bypass.
    pub bypassed: bool,
    /// Presets carrying session edits that have not been saved or discarded.
    pub dirty_presets: Vec<String>,
    /// Whether the machine saves power now.
    pub low_power: bool,
    pub auto_off_low_power: bool,
    pub auto_off_idle: bool,
}

/// What a [`Status`] holds.
pub ghost struct StatusView {
    pub user_intent: bool,
    pub engine_running: bool,
    pub suspension_reason: Option<Seq<char>>,
    pub active_preset: Seq<char>,
    pub preamp_db: Single,
    pub band_count: nat,
    pub limiter: bool,
    pub output_uid: Option<Seq<char>>,
    pub output_name: Option<Seq<char>>,
    pub output_rate_hz: Option<Double>,
    pub output_stream: Option<Seq<char>>,
    pub last_engine_error: Option<Seq<char>>,
    pub retry_attempts: nat,
    pub retry_limit: nat,
    pub retry_in_seconds: Option<nat>,
    pub retry_exhausted: bool,
    pub bypassed: bool,
    pub dirty_presets: Seq<Seq<char>>,
    pub low_power: bool,
    pub auto_off_low_power: bool,
    pub auto_off_idle: bool,
}

impl View for Status {
    type V = StatusView;

    open spec fn view(&self) -> StatusView {
        StatusView {
            user_intent: self.user_intent,
            engine_running: self.engine_running,
            suspension_reason: optional(self.suspension_reason),
            active_preset: self.active_preset@,
            preamp_db: self.preamp_db,
            band_count: self.band_count as nat,
            limiter: self.limiter,
            output_uid: optional(self.output_uid),
            output_name: optional(self.output_name),
            output_rate_hz: self.output_rate_hz,
            output_stream: optional(self.output_stream),
            last_engine_error: optional(self.last_engine_error),
            retry_attempts: self.retry_attempts as nat,
            retry_limit: self.retry_limit as nat,
            retry_in_seconds: match self.retry_in_seconds {
                Some(n) => Some(n as nat),
                None => None,
            },
            retry_exhausted: self.retry_exhausted,
            bypassed: self.bypassed,
            dirty_presets: texts(self.dirty_presets@),
            low_power: self.low_power,
            auto_off_low_power: self.auto_off_low_power,
            auto_off_idle: self.auto_off_idle,
        }
    }
}

/// The daemon's reply to a [`Request`].
#[derive(Debug)]
pub enum Response {
    /// The request was carried out, and there is nothing more to say.
    Done,
    Status(Box<Status>),
    /// The active tuning after `on` or any EQ edit.
    Tuning(Tuning),
    /// Result of removing the band matching the requested frequency, with that band.
    BandRemoved { tuning: Tuning, removed: Band },
    FrequencyResponse(FrequencyResponse),
    Presets { active: String, names: Vec<String> },
    /// Returned by reset commands when modified shipped presets would be replaced.
    ResetWouldOverwrite { names: Vec<String> },
    /// Returned by `off` when live tuning edits have not been persisted yet: the active
    /// tuning, and the names of every preset whose working contents differ from the saved
    /// ones.
    UnsavedSession { tuning: Tuning, dirty_presets: Vec<String> },
    Error(EqError),
}

/// What a [`Response`] holds.
pub ghost enum ResponseView {
    Done,
    Status(StatusView),
    Tuning(TuningView),
    BandRemoved { tuning: TuningView, removed: Band },
    FrequencyResponse(CurveView),
    Presets { active: Seq<char>, names: Seq<Seq<char>> },
    ResetWouldOverwrite { names: Seq<Seq<char>> },
    UnsavedSession { tuning: TuningView, dirty_presets: Seq<Seq<char>> },
    Error(ErrorView),
}

impl View for Response {
    type V = ResponseView;

    open spec fn view(&self) -> ResponseView {
        match self {
            Response::Done => ResponseView::Done,
            Response::Status(s) => ResponseView::Status((**s)@),
            Response::Tuning(t) => ResponseView::Tuning(t@),
            Response::BandRemoved { tuning, removed } => ResponseView::BandRemoved {
                tuning: tuning@,
                removed: *removed,
            },
            Response::FrequencyResponse(c) => ResponseView::FrequencyResponse(c@),
            Response::Presets { active, names } => ResponseView::Presets {
                active: active@,
                names: texts(names@),
            },
            Response::ResetWouldOverwrite { names } => ResponseView::ResetWouldOverwrite {
                names: texts(names@),
            },
            Response::UnsavedSession { tuning, dirty_presets } => ResponseView::UnsavedSession {
                tuning: tuning@,
                dirty_presets: texts(dirty_presets@),
            },
            Response::Error(e) => ResponseView::Error(e@),
        }
    }
}

/// A failed request is answered with its failure.
pub open spec fn reply(r: Result<ResponseView, ErrorView>) -> ResponseView {
    match r {
        Ok(response) => response,
        Err(e) => ResponseView::Error(e),
    }
}

/// Answer a request: with its response, or with its failure.
pub fn dispatch(r: Result<Response, EqError>) -> (response: Response)
    ensures
        response@ == reply(
            match r {
                Ok(x) => Ok(x@),
                Err(e) => Err(e@),
            },
        ),
{
    match r {
        Ok(response) => response,
        Err(e) => Response::Error(e),
    }
}

// --- bounds ------------------------------------------------------------------------

/// The size and time bounds a request read must satisfy.
pub open spec fn request_bounds(line_len: int, now: u64, deadline: u64) -> Result<(), ErrorView> {
    if line_len > MAX_REQUEST_BYTES {
        Err(plain(Fault::RequestTooLong))
    } else if now >= deadline {
        Err(plain(Fault::RequestTooLate))
    } else {
        Ok(())
    }
}

/// Check the size and time bounds on a request read.
pub fn check_request_bounds(line_len: usize, now: u64, deadline: u64) -> (r: Result<(), EqError>)
    ensures
        outcome(r) == request_bounds(line_len as int, now, deadline),
{
    if line_len > MAX_REQUEST_BYTES {
        return Err(EqError::plain(Fault::RequestTooLong));
    }
    if now >= deadline {
        return Err(EqError::plain(Fault::RequestTooLate));
    }
    Ok(())
}

/// The place of the first newline; the length where there is none.
pub open spec fn newline_at(bytes: Seq<u8>) -> int
    decreases bytes.len(),
{
    if bytes.len() == 0 || bytes[0] == 10 {
        0
    } else {
        1 + newline_at(bytes.drop_first())
    }
}

/// The place of the first newline is the only one with no newline before it and one at it.
pub proof fn newline_found(bytes: Seq<u8>, i: int)
    requires
        0 <= i <= bytes.len(),
        forall|j: int| 0 <= j < i ==> #[trigger] bytes[j] != 10,
        i < bytes.len() ==> bytes[i] == 10,
    ensures
        newline_at(bytes) == i,
    decreases bytes.len(),
{
    if i > 0 {
        assert(bytes[0] != 10);
        let d = bytes.drop_first();
        assert forall|j: int| 0 <= j < i - 1 implies #[trigger] d[j] != 10 by {
            assert(bytes[j + 1] != 10);
        }
        newline_found(d, i - 1);
    }
}

/// What was taken from a buffer of the connection.
#[derive(Clone, Copy, Debug, PartialEq, Eq, Structural)]
pub struct Taken {
    /// Bytes used up, the newline included.
    pub consumed: usize,
    /// The line is complete.
    pub complete: bool,
}

/// What is taken of the bytes that came next: the line's part, and the newline behind it.
pub open spec fn taken(available: Seq<u8>) -> Taken {
    let n = newline_at(available);
    Taken {
        consumed: if n < available.len() {
            (n + 1) as usize
        } else {
            n as usize
        },
        complete: n < available.len(),
    }
}

/// Take what belongs to the request line from the bytes that came next. The bounds hold after
/// every buffer, the one with the newline included: neither a flood without a newline nor a
/// slow drip of bytes gets past them.
pub fn take_request_bytes(
    line: &mut Vec<u8>,
    available: &[u8],
    now: u64,
    deadline: u64,
) -> (r: Result<Taken, EqError>)
    requires
        old(line)@.len() <= MAX_REQUEST_BYTES,
    ensures
        ({
            let n = newline_at(available@);
            &&& final(line)@ == old(line)@ + available@.take(n)
            &&& match request_bounds(old(line)@.len() + n, now, deadline) {
                Ok(()) => r == Ok::<Taken, EqError>(taken(available@)),
                Err(e) => r matches Err(error) && error@ == e,
            }
            &&& r is Ok ==> final(line)@.len() <= MAX_REQUEST_BYTES
        }),
{
    let ghost before = line@;
    let mut i: usize = 0;
    while i < available.len() && available[i] != 10
        invariant
            i <= available.len(),
            forall|j: int| 0 <= j < i ==> #[trigger] available[j] != 10,
            line@ =~= before + available@.take(i as int),
        decreases available.len() - i,
    {
        line.push(available[i]);
        i += 1;
        assert(available@.take(i as int) =~= available@.take(i - 1).push(available@[i - 1]));
    }
    proof {
        newline_found(available@, i as int);
    }
    match check_request_bounds(line.len(), now, deadline) {
        Err(e) => Err(e),
        Ok(()) => {
            if i < available.len() {
                Ok(Taken { consumed: i + 1, complete: true })
            } else {
                Ok(Taken { consumed: i, complete: false })
            }
        },
    }
}

/// The bounds on the length of a reply, its newline included.
pub open spec fn response_bounds(len: int) -> Result<(), ErrorView> {
    if len > MAX_RESPONSE_BYTES {
        Err(plain(Fault::ResponseTooLong))
    } else if len == 0 {
        Err(plain(Fault::ResponseMissing))
    } else {
        Ok(())
    }
}

/// Check the length of a reply, its newline included.
pub fn check_response(len: usize) -> (r: Result<(), EqError>)
    ensures
        outcome(r) == response_bounds(len as int),
{
    if len > MAX_RESPONSE_BYTES {
        return Err(EqError::plain(Fault::ResponseTooLong));
    }
    if len == 0 {
        return Err(EqError::plain(Fault::ResponseMissing));
    }
    Ok(())
}

/// A request line is accepted exactly when it is not longer than 65536 bytes and in time.
pub proof fn which_requests_are_accepted(line_len: int, now: u64, deadline: u64)
    ensures
        request_bounds(line_len, now, deadline) is Ok <==> line_len <= 65_536 && now < deadline,
        line_len > 65_536 ==> (request_bounds(line_len, now, deadline) matches Err(e) && e.fault
            == Fault::RequestTooLong),
        line_len <= 65_536 && now >= deadline ==> (request_bounds(line_len, now, deadline) matches
            Err(e) && e.fault == Fault::RequestTooLate),
{
}

/// A failed request is answered with its own failure, and another one with its own reply.
pub proof fn every_request_is_answered(r: Result<ResponseView, ErrorView>)
    ensures
        r matches Ok(x) ==> reply(r) == x,
        r matches Err(e) ==> reply(r) == ResponseView::Error(e),
{
}

/// A reply is accepted exactly when there is one and it is not longer than a mebibyte.
pub proof fn which_replies_are_accepted(len: int)
    requires
        len >= 0,
    ensures
        response_bounds(len) is Ok <==> 0 < len <= 1_048_576,
        len == 0 ==> (response_bounds(len) matches Err(e) && e.fault == Fault::ResponseMissing),
        len > 1_048_576 ==> (response_bounds(len) matches Err(e) && e.fault
            == Fault::ResponseTooLong),
{
}

/// The line ends at the first newline: there is none before it.
pub proof fn the_line_ends_at_the_first_newline(bytes: Seq<u8>)
    ensures
        0 <= newline_at(bytes) <= bytes.len(),
        newline_at(bytes) < bytes.len() ==> bytes[newline_at(bytes)] == 10,
        forall|i: int| 0 <= i < newline_at(bytes) ==> #[trigger] bytes[i] != 10,
    decreases bytes.len(),
{
    if bytes.len() > 0 && bytes[0] != 10 {
        let d = bytes.drop_first();
        the_line_ends_at_the_first_newline(d);
        assert forall|i: int| 0 <= i < newline_at(bytes) implies #[trigger] bytes[i] != 10 by {
            if i > 0 {
                assert(d[i - 1] == bytes[i]);
            }
        }
    }
}

/// A line is complete exactly when a newline came; it is used up with the line, and nothing
/// behind it is. Without one everything that came is used up.
pub proof fn what_is_taken_of_a_line(available: Seq<u8>)
    requires
        available.len() <= usize::MAX,
    ensures
        ({
            let t = taken(available);
            &&& t.complete <==> available.contains(10u8)
            &&& t.complete ==> 0 < t.consumed <= available.len() && available[t.consumed - 1] == 10
                && forall|i: int| 0 <= i < t.consumed - 1 ==> #[trigger] available[i] != 10
            &&& !t.complete ==> t.consumed == available.len()
        }),
{
    the_line_ends_at_the_first_newline(available);
    let n = newline_at(available);
    if n < available.len() {
        assert(available.contains(available[n]));
    }
}

} // verus!
