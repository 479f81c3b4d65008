//! The command line's side: what a command asks of the daemon, what is shown of the reply, and
//! what the answers to a prompt mean.

use vstd::prelude::*;
use vstd::string::*;
use crate::dsp::{Band, BandKind};
use crate::error::{about, in_the_middle, message, EqError, ErrorView, Fault};
use crate::gap::{gap, gap_bits};
use crate::ipc::{
    Request, RequestView, Response, ResponseView, Status, StatusView, Tuning, TuningView,
};
use crate::number::{magnitude_monotone, magnitude_of, Single};
use crate::paths::{below, join};
use crate::text::{
    copy_optional, copy_texts, decimal, digits, glue, glue3, holds, join_texts, joined, optional,
    pieces,
    same_text, texts, Piece, PieceView, Style,
};

verus! {

/// A command for the daemon.
#[allow(inconsistent_fields)]
#[derive(Debug)]
pub enum Command {
    On,
    Off,
    Status,
    Presets,
    PresetShow { name: Option<String> },
    Preset { name: String },
    PresetSave { name: String },
    PresetClone { source: String, dest: String },
    PresetRm { names: Vec<String> },
    PresetRename { from: String, to: String },
    PresetExport { name: String, path: Option<String> },
    PresetImport { path: String, name: Option<String> },
    Band { freq: Single, gain_db: Single, q: Single },
    BandRm { freq: Single },
    Preamp { db: Single },
    Limiter { on: bool },
    Lowpower { on: bool },
    Idle { on: bool },
    Reset { name: Option<String> },
}

// --- requests ----------------------------------------------------------------------------

/// A path against the current directory; where that cannot be told, a relative path is a
/// failure for the given reason.
pub open spec fn absolute(path: Seq<char>, cwd: Result<Seq<char>, Seq<char>>) -> Result<
    Seq<char>,
    ErrorView,
> {
    if path.len() > 0 && path[0] == '/' {
        Ok(path)
    } else {
        match cwd {
            Ok(dir) => Ok(below(dir, path)),
            Err(reason) => Err(about(Fault::Outside, reason)),
        }
    }
}

/// Where a preset is exported to: the given file, or one named after the preset.
pub open spec fn export_target(
    name: Seq<char>,
    path: Option<Seq<char>>,
    cwd: Result<Seq<char>, Seq<char>>,
) -> Result<Seq<char>, ErrorView> {
    match path {
        Some(p) => absolute(p, cwd),
        None => absolute(name + ".toml"@, cwd),
    }
}

/// What a result from outside holds.
pub open spec fn directory(cwd: Result<String, String>) -> Result<Seq<char>, Seq<char>> {
    match cwd {
        Ok(t) => Ok(t@),
        Err(m) => Err(m@),
    }
}

/// What a result with a text holds.
pub open spec fn text_outcome(r: Result<String, EqError>) -> Result<Seq<char>, ErrorView> {
    match r {
        Ok(t) => Ok(t@),
        Err(e) => Err(e@),
    }
}

/// Resolve a path against the current directory.
pub fn absolute_path(path: &str, cwd: &Result<String, String>) -> (r: Result<String, EqError>)
    ensures
        text_outcome(r) == absolute(path@, directory(*cwd)),
{
    if path.unicode_len() > 0 && path.get_char(0) == '/' {
        return Ok(path.to_owned());
    }
    match cwd {
        Ok(dir) => Ok(join(dir, path)),
        Err(m) => Err(EqError::about(Fault::Outside, m)),
    }
}

/// Where a preset is exported to.
pub fn export_path(name: &str, path: &Option<String>, cwd: &Result<String, String>) -> (r: Result<
    String,
    EqError,
>)
    ensures
        text_outcome(r) == export_target(name@, optional(*path), directory(*cwd)),
{
    match path {
        Some(p) => absolute_path(p, cwd),
        None => absolute_path(&glue(name, ".toml"), cwd),
    }
}

/// What a command asks of the daemon.
pub open spec fn request_of(cmd: Command, cwd: Result<Seq<char>, Seq<char>>) -> Result<
    RequestView,
    ErrorView,
> {
    match cmd {
        Command::On => Ok(RequestView::Enable),
        Command::Off => Ok(RequestView::Disable),
        Command::Status => Ok(RequestView::Status),
        Command::Presets => Ok(RequestView::ListPresets),
        Command::PresetShow { name } => Ok(RequestView::ShowPreset(optional(name))),
        Command::Preset { name } => Ok(RequestView::SetPreset(name@)),
        Command::PresetSave { name } => Ok(RequestView::SavePreset { name: name@ }),
        Command::PresetClone { source, dest } => Ok(
            RequestView::ClonePreset { source: source@, dest: dest@ },
        ),
        Command::PresetRm { names } => Ok(RequestView::DeletePresets { names: texts(names@) }),
        Command::PresetRename { from, to } => Ok(
            RequestView::RenamePreset { from: from@, to: to@ },
        ),
        Command::PresetExport { name, path } => match export_target(name@, optional(path), cwd) {
            Ok(p) => Ok(RequestView::ExportPreset { name: name@, path: p }),
            Err(e) => Err(e),
        },
        Command::PresetImport { path, name } => match absolute(path@, cwd) {
            Ok(p) => Ok(RequestView::ImportPreset { path: p, name: optional(name) }),
            Err(e) => Err(e),
        },
        Command::Band { freq, gain_db, q } => Ok(
            RequestView::SetBand { kind: BandKind::Peaking, freq, gain_db, q },
        ),
        Command::BandRm { freq } => Ok(RequestView::RemoveBand { freq }),
        Command::Preamp { db } => Ok(RequestView::SetPreamp(db)),
        Command::Limiter { on } => Ok(RequestView::SetLimiter(on)),
        Command::Lowpower { on } => Ok(RequestView::SetAutoOffLowPower(on)),
        Command::Idle { on } => Ok(RequestView::SetAutoOffIdle(on)),
        Command::Reset { name } => match name {
            Some(n) => Ok(RequestView::ResetPreset { name: n@ }),
            None => Ok(RequestView::Reset),
        },
    }
}

/// What a command asks of the daemon. Paths are resolved against the current directory.
pub fn to_request(cmd: &Command, cwd: &Result<String, String>) -> (r: Result<Request, EqError>)
    ensures
        match request_of(*cmd, directory(*cwd)) {
            Ok(q) => r matches Ok(req) && req@ == q,
            Err(e) => r matches Err(error) && error@ == e,
        },
{
    match cmd {
        Command::On => Ok(Request::Enable),
        Command::Off => Ok(Request::Disable),
        Command::Status => Ok(Request::Status),
        Command::Presets => Ok(Request::ListPresets),
        Command::PresetShow { name } => Ok(Request::ShowPreset(copy_optional(name))),
        Command::Preset { name } => Ok(Request::SetPreset(name.clone())),
        Command::PresetSave { name } => Ok(Request::SavePreset { name: name.clone() }),
        Command::PresetClone { source, dest } => Ok(
            Request::ClonePreset { source: source.clone(), dest: dest.clone() },
        ),
        Command::PresetRm { names } => Ok(Request::DeletePresets { names: copy_texts(names) }),
        Command::PresetRename { from, to } => Ok(
            Request::RenamePreset { from: from.clone(), to: to.clone() },
        ),
        Command::PresetExport { name, path } => match export_path(name, path, cwd) {
            Ok(p) => Ok(Request::ExportPreset { name: name.clone(), path: p }),
            Err(e) => Err(e),
        },
        Command::PresetImport { path, name } => match absolute_path(path, cwd) {
            Ok(p) => Ok(Request::ImportPreset { path: p, name: copy_optional(name) }),
            Err(e) => Err(e),
        },
        Command::Band { freq, gain_db, q } => Ok(
            Request::SetBand { kind: BandKind::Peaking, freq: *freq, gain_db: *gain_db, q: *q },
        ),
        Command::BandRm { freq } => Ok(Request::RemoveBand { freq: *freq }),
        Command::Preamp { db } => Ok(Request::SetPreamp(*db)),
        Command::Limiter { on } => Ok(Request::SetLimiter(*on)),
        Command::Lowpower { on } => Ok(Request::SetAutoOffLowPower(*on)),
        Command::Idle { on } => Ok(Request::SetAutoOffIdle(*on)),
        Command::Reset { name } => match name {
            Some(n) => Ok(Request::ResetPreset { name: n.clone() }),
            None => Ok(Request::Reset),
        },
    }
}

// --- what is shown -----------------------------------------------------------------------------

/// A line of text.
pub type LineView = Seq<PieceView>;

/// A line that is one piece of text.
pub open spec fn said(t: Seq<char>) -> LineView {
    seq![PieceView::Words(t)]
}

/// What the lines hold, one by one.
pub open spec fn lines_of(v: Seq<Vec<Piece>>) -> Seq<LineView> {
    Seq::new(v.len(), |i: int| pieces(v[i]@))
}

pub(crate) fn say(out: &mut Vec<Vec<Piece>>, t: String)
    ensures
        lines_of(final(out)@) == lines_of(old(out)@).push(said(t@)),
{
    let ghost before = out@;
    let mut line: Vec<Piece> = Vec::new();
    line.push(Piece::Words(t));
    out.push(line);
    assert(pieces(line@) =~= said(t@));
    assert(lines_of(out@) =~= lines_of(before).push(said(t@)));
}

fn put(out: &mut Vec<Vec<Piece>>, line: Vec<Piece>)
    ensures
        lines_of(final(out)@) == lines_of(old(out)@).push(pieces(line@)),
{
    let ghost before = out@;
    out.push(line);
    assert(lines_of(out@) =~= lines_of(before).push(pieces(line@)));
}

/// The place of the first band that is nearest to `f`.
pub open spec fn nearest_place(bands: Seq<Band>, f: Single) -> int
    decreases bands.len(),
{
    if bands.len() <= 1 {
        0
    } else {
        let k = nearest_place(bands.drop_last(), f);
        if gap(bands.last().freq, f) < gap(bands[k].freq, f) {
            bands.len() - 1
        } else {
            k
        }
    }
}

/// The place of the band to be flagged as changed: the one nearest to the frequency that the
/// command named.
pub open spec fn marked(bands: Seq<Band>, changed: Option<Single>) -> Option<int> {
    match changed {
        Some(f) if bands.len() > 0 => Some(nearest_place(bands, f)),
        _ => None,
    }
}

/// Whatever the bands and the frequency are, the flagged band is one of the bands, no band is
/// nearer to the frequency, and every band before it is farther from it.
pub proof fn the_flagged_band_is_nearest(bands: Seq<Band>, f: Single)
    requires
        bands.len() > 0,
    ensures
        marked(bands, Some(f)) == Some(nearest_place(bands, f)),
        0 <= nearest_place(bands, f) < bands.len(),
        forall|i: int|
            0 <= i < bands.len() ==> gap(bands[nearest_place(bands, f)].freq, f) <= gap(
                (#[trigger] bands[i]).freq,
                f,
            ),
        forall|i: int|
            0 <= i < nearest_place(bands, f) ==> gap(bands[nearest_place(bands, f)].freq, f) < gap(
                (#[trigger] bands[i]).freq,
                f,
            ),
    decreases bands.len(),
{
    if bands.len() > 1 {
        let before = bands.drop_last();
        the_flagged_band_is_nearest(before, f);
        assert forall|i: int| 0 <= i < before.len() implies #[trigger] bands[i] == before[i] by {}
    }
}

/// The line of one band.
pub open spec fn band_line(b: Band, flagged: bool) -> LineView {
    seq![
        PieceView::Words("  "@),
        PieceView::Figure(Style::FrequencyCell, b.freq),
        PieceView::Words("  "@),
        PieceView::Figure(Style::GainCell, b.gain_db),
        PieceView::Words("  Q"@),
        PieceView::Figure(Style::Quality, b.q),
        PieceView::Words(
            if flagged {
                "   ← changed"@
            } else {
                ""@
            },
        ),
    ]
}

/// One line per band; the band nearest to `changed` is flagged.
pub open spec fn band_lines(bands: Seq<Band>, changed: Option<Single>) -> Seq<LineView> {
    if bands.len() == 0 {
        seq![said("  (no bands — flat)"@)]
    } else {
        Seq::new(bands.len(), |i: int| band_line(bands[i], marked(bands, changed) == Some(i)))
    }
}

/// A tuning: its preset, whether it is applied, its preamp, and its bands.
pub open spec fn curve_lines(t: TuningView, changed: Option<Single>) -> Seq<LineView> {
    seq![
        seq![
            PieceView::Words(
                t.preset + if t.enabled {
                    " (enabled) · preamp "@
                } else {
                    " (disabled) · preamp "@
                },
            ),
            PieceView::Figure(Style::Gain, t.preamp_db),
        ],
    ] + band_lines(t.bands, changed)
}

/// A preset, without implying that it is applied.
pub open spec fn preset_lines(t: TuningView) -> Seq<LineView> {
    seq![
        seq![
            PieceView::Words(t.preset + " · preamp "@),
            PieceView::Figure(Style::Gain, t.preamp_db),
        ],
    ] + band_lines(t.bands, None)
}

fn find_marked(bands: &[Band], changed: Option<Single>) -> (r: Option<usize>)
    ensures
        match r {
            Some(i) => marked(bands@, changed) == Some(i as int),
            None => marked(bands@, changed) is None,
        },
{
    let f = match changed {
        Some(f) => f,
        None => return None,
    };
    if bands.len() == 0 {
        return None;
    }
    let mut k: usize = 0;
    let mut best: u32 = gap_bits(bands[0].freq, f);
    let mut i: usize = 1;
    while i < bands.len()
        invariant
            1 <= i <= bands.len(),
            k < i,
            magnitude_of(best as int) == gap(bands@[k as int].freq, f),
            k == nearest_place(bands@.take(i as int), f),
        decreases bands.len() - i,
    {
        let d: u32 = gap_bits(bands[i].freq, f);
        proof {
            magnitude_monotone(d as int, best as int);
            magnitude_monotone(best as int, d as int);
            let t = bands@.take(i + 1);
            assert(t.drop_last() =~= bands@.take(i as int));
            assert(t.last() == bands@[i as int]);
            assert(t[k as int] == bands@[k as int]);
        }
        if d < best {
            k = i;
            best = d;
        }
        i += 1;
    }
    assert(bands@.take(bands.len() as int) =~= bands@);
    Some(k)
}

fn show_bands(out: &mut Vec<Vec<Piece>>, bands: &[Band], changed: Option<Single>)
    ensures
        lines_of(final(out)@) == lines_of(old(out)@) + band_lines(bands@, changed),
{
    let ghost before = lines_of(out@);
    if bands.len() == 0 {
        say(out, "  (no bands — flat)".to_owned());
        assert(lines_of(out@) =~= before + band_lines(bands@, changed));
        return;
    }
    let mark = find_marked(bands, changed);
    let ghost all = band_lines(bands@, changed);
    let mut i: usize = 0;
    assert(before =~= before + all.take(0));
    while i < bands.len()
        invariant
            i <= bands.len(),
            all == band_lines(bands@, changed),
            bands.len() > 0,
            match mark {
                Some(k) => marked(bands@, changed) == Some(k as int),
                None => marked(bands@, changed) is None,
            },
            lines_of(out@) == before + all.take(i as int),
        decreases bands.len() - i,
    {
        let b = bands[i];
        let flagged = match mark {
            Some(k) => k == i,
            None => false,
        };
        let mut line: Vec<Piece> = Vec::new();
        line.push(Piece::Words("  ".to_owned()));
        line.push(Piece::Figure(Style::FrequencyCell, b.freq));
        line.push(Piece::Words("  ".to_owned()));
        line.push(Piece::Figure(Style::GainCell, b.gain_db));
        line.push(Piece::Words("  Q".to_owned()));
        line.push(Piece::Figure(Style::Quality, b.q));
        if flagged {
            line.push(Piece::Words("   ← changed".to_owned()));
        } else {
            line.push(Piece::Words("".to_owned()));
        }
        assert(pieces(line@) =~= band_line(b, flagged));
        put(out, line);
        assert(all.take(i + 1) =~= all.take(i as int).push(all[i as int]));
        assert(lines_of(out@) =~= before + all.take(i + 1));
        i += 1;
    }
    assert(all.take(bands.len() as int) =~= all);
}

pub(crate) fn show_curve(out: &mut Vec<Vec<Piece>>, t: &Tuning, changed: Option<Single>)
    ensures
        lines_of(final(out)@) == lines_of(old(out)@) + curve_lines(t@, changed),
{
    let ghost before = lines_of(out@);
    let state = if t.enabled {
        " (enabled) · preamp "
    } else {
        " (disabled) · preamp "
    };
    let mut line: Vec<Piece> = Vec::new();
    line.push(Piece::Words(glue(&t.preset, state)));
    line.push(Piece::Figure(Style::Gain, t.preamp_db));
    assert(pieces(line@) =~= curve_lines(t@, changed)[0]);
    put(out, line);
    show_bands(out, &t.bands, changed);
    assert(lines_of(out@) =~= before + curve_lines(t@, changed));
}

fn show_preset(out: &mut Vec<Vec<Piece>>, t: &Tuning)
    ensures
        lines_of(final(out)@) == lines_of(old(out)@) + preset_lines(t@),
{
    let ghost before = lines_of(out@);
    let mut line: Vec<Piece> = Vec::new();
    line.push(Piece::Words(glue(&t.preset, " · preamp ")));
    line.push(Piece::Figure(Style::Gain, t.preamp_db));
    assert(pieces(line@) =~= preset_lines(t@)[0]);
    put(out, line);
    show_bands(out, &t.bands, None);
    assert(lines_of(out@) =~= before + preset_lines(t@));
}

/// `on` or `off`.
pub open spec fn on_off(b: bool) -> Seq<char> {
    if b {
        "on"@
    } else {
        "off"@
    }
}

fn on_off_text(b: bool) -> (t: &'static str)
    ensures
        t@ == on_off(b),
{
    if b {
        "on"
    } else {
        "off"
    }
}

/// `true` or `false`.
pub open spec fn true_false(b: bool) -> Seq<char> {
    if b {
        "true"@
    } else {
        "false"@
    }
}

fn true_false_text(b: bool) -> (t: &'static str)
    ensures
        t@ == true_false(b),
{
    if b {
        "true"
    } else {
        "false"
    }
}

/// The line that says what a command changed, before the tuning it led to, and the frequency
/// whose band is to be flagged.
pub open spec fn change_line(cmd: Command, cwd: Result<Seq<char>, Seq<char>>) -> (
    Option<LineView>,
    Option<Single>,
) {
    match cmd {
        Command::On => (Some(said("eqtune on"@)), None),
        Command::Preset { name } => (Some(said("preset → "@ + name@)), None),
        Command::PresetSave { name } => (Some(said("saved preset → "@ + name@)), None),
        Command::PresetClone { source, dest } => (
            Some(said("cloned preset "@ + source@ + " → "@ + dest@)),
            None,
        ),
        Command::PresetRename { from, to } => (
            Some(said("renamed preset "@ + from@ + " → "@ + to@)),
            None,
        ),
        Command::PresetImport { path, name } => {
            let shown = match absolute(path@, cwd) {
                Ok(p) => p,
                Err(_) => path@,
            };
            (
                Some(
                    said(
                        match name {
                            Some(n) => "imported preset "@ + n@ + " ← "@ + shown,
                            None => "imported preset ← "@ + shown,
                        },
                    ),
                ),
                None,
            )
        },
        Command::Band { freq, gain_db, q } => (
            Some(
                seq![
                    PieceView::Words("band "@),
                    PieceView::Figure(Style::Frequency, freq),
                    PieceView::Words(" → "@),
                    PieceView::Figure(Style::Gain, gain_db),
                    PieceView::Words(" (Q"@),
                    PieceView::Figure(Style::Quality, q),
                    PieceView::Words(")"@),
                ],
            ),
            Some(freq),
        ),
        Command::Preamp { db } => (
            Some(
                seq![PieceView::Words("preamp → "@), PieceView::Figure(Style::Gain, db)],
            ),
            None,
        ),
        Command::Reset { name } => (
            Some(
                said(
                    match name {
                        Some(n) => "reset preset → "@ + n@,
                        None => "reset to shipped defaults"@,
                    },
                ),
            ),
            None,
        ),
        _ => (None, None),
    }
}

/// The line that confirms a command with nothing more to say.
pub open spec fn done_line(cmd: Command, cwd: Result<Seq<char>, Seq<char>>) -> Seq<char> {
    match cmd {
        Command::Off => "eqtune off — native Apple audio restored"@,
        Command::Limiter { on } => "limiter: "@ + on_off(on),
        Command::Lowpower { on } => "auto-off in Low Power Mode: "@ + on_off(on),
        Command::Idle { on } => "auto-off when idle: "@ + on_off(on),
        Command::PresetExport { name, path } => "exported preset "@ + name@ + " → "@
            + match export_target(name@, optional(path), cwd) {
            Ok(p) => p,
            Err(_) => match path {
                Some(p) => p@,
                None => name@ + ".toml"@,
            },
        },
        _ => "ok"@,
    }
}

/// The lines of a status.
pub open spec fn status_lines(s: StatusView) -> Seq<LineView> {
    seq![
        said("enabled:       "@ + true_false(s.engine_running)),
        said("preset:        "@ + s.active_preset),
        seq![
            PieceView::Words("preamp:        "@),
            PieceView::Figure(Style::Signed, s.preamp_db),
            PieceView::Words(" dB"@),
        ],
        said("bands:         "@ + digits(s.band_count)),
        said("limiter:       "@ + true_false(s.limiter)),
        said(
            "output device: "@ + match s.output_name {
                Some(n) => n,
                None => "(engine not running)"@,
            },
        ),
        said("low power:     "@ + on_off(s.low_power)),
        said("auto-off LPM:  "@ + on_off(s.auto_off_low_power)),
        said("auto-off idle: "@ + on_off(s.auto_off_idle)),
        said(
            "idle suspend:  "@ + if s.suspension_reason == Some("idle"@) {
                "yes"@
            } else {
                "no"@
            },
        ),
    ]
}

/// The preset names, the active one with a star.
pub open spec fn preset_list(active: Seq<char>, names: Seq<Seq<char>>) -> Seq<LineView> {
    Seq::new(
        names.len(),
        |i: int|
            said(
                if names[i] == active {
                    "* "@
                } else {
                    "  "@
                } + names[i],
            ),
    )
}

/// A reply that the command can get.
pub open spec fn answers(cmd: Command, resp: ResponseView) -> bool {
    match resp {
        ResponseView::Tuning(_) => !(cmd is BandRm),
        ResponseView::BandRemoved { .. } => cmd is BandRm,
        ResponseView::FrequencyResponse(_) => false,
        _ => true,
    }
}

/// What is shown of the reply to a command: the lines, or the text of its failure.
pub open spec fn shown(
    cmd: Command,
    resp: ResponseView,
    cwd: Result<Seq<char>, Seq<char>>,
) -> Result<Seq<LineView>, LineView> {
    match resp {
        ResponseView::Tuning(t) => Ok(
            if cmd is PresetShow {
                preset_lines(t)
            } else {
                let (line, changed) = change_line(cmd, cwd);
                match line {
                    Some(l) => seq![l] + curve_lines(t, changed),
                    None => curve_lines(t, changed),
                }
            },
        ),
        ResponseView::BandRemoved { tuning, removed } => {
            let freq = cmd->BandRm_freq;
            Ok(
                seq![
                    if removed.freq.equals(freq) {
                        seq![
                            PieceView::Words("removed band "@),
                            PieceView::Figure(Style::Frequency, removed.freq),
                        ]
                    } else {
                        seq![
                            PieceView::Words("removed band "@),
                            PieceView::Figure(Style::Frequency, removed.freq),
                            PieceView::Words(" (nearest to "@),
                            PieceView::Figure(Style::Frequency, freq),
                            PieceView::Words(")"@),
                        ]
                    },
                ] + curve_lines(tuning, None),
            )
        },
        ResponseView::Done => Ok(seq![said(done_line(cmd, cwd))]),
        ResponseView::Status(s) => Ok(status_lines(s)),
        ResponseView::Presets { active, names } => Ok(
            match cmd {
                Command::PresetRm { names: gone } => seq![
                    said("deleted presets: "@ + joined(texts(gone@), ", "@)),
                ] + preset_list(active, names),
                _ => preset_list(active, names),
            },
        ),
        ResponseView::Error(e) => Err(seq![PieceView::Words("error: "@)] + message(e)),
        ResponseView::UnsavedSession { tuning, .. } => Ok(
            seq![said("unsaved tuning changes"@)] + curve_lines(tuning, None),
        ),
        ResponseView::ResetWouldOverwrite { names } => Ok(
            seq![
                said(
                    "reset would replace modified shipped presets: "@ + joined(names, ", "@),
                ),
            ],
        ),
        ResponseView::FrequencyResponse(_) => Ok(Seq::empty()),
    }
}

fn show_change(out: &mut Vec<Vec<Piece>>, cmd: &Command, cwd: &Result<String, String>) -> (changed:
    Option<Single>)
    ensures
        lines_of(final(out)@) == match change_line(*cmd, directory(*cwd)).0 {
            Some(l) => lines_of(old(out)@).push(l),
            None => lines_of(old(out)@),
        },
        changed == change_line(*cmd, directory(*cwd)).1,
{
    match cmd {
        Command::On => {
            say(out, "eqtune on".to_owned());
            None
        },
        Command::Preset { name } => {
            say(out, glue("preset → ", name));
            None
        },
        Command::PresetSave { name } => {
            say(out, glue("saved preset → ", name));
            None
        },
        Command::PresetClone { source, dest } => {
            let mut t = glue3("cloned preset ", source, " → ");
            t.append(dest);
            say(out, t);
            None
        },
        Command::PresetRename { from, to } => {
            let mut t = glue3("renamed preset ", from, " → ");
            t.append(to);
            say(out, t);
            None
        },
        Command::PresetImport { path, name } => {
            let shown = match absolute_path(path, cwd) {
                Ok(p) => p,
                Err(_) => path.clone(),
            };
            match name {
                Some(n) => {
                    let mut t = glue3("imported preset ", n, " ← ");
                    t.append(&shown);
                    say(out, t);
                },
                None => say(out, glue("imported preset ← ", &shown)),
            }
            None
        },
        Command::Band { freq, gain_db, q } => {
            let mut line: Vec<Piece> = Vec::new();
            line.push(Piece::Words("band ".to_owned()));
            line.push(Piece::Figure(Style::Frequency, *freq));
            line.push(Piece::Words(" → ".to_owned()));
            line.push(Piece::Figure(Style::Gain, *gain_db));
            line.push(Piece::Words(" (Q".to_owned()));
            line.push(Piece::Figure(Style::Quality, *q));
            line.push(Piece::Words(")".to_owned()));
            assert(pieces(line@) =~= change_line(*cmd, directory(*cwd)).0->0);
            put(out, line);
            Some(*freq)
        },
        Command::Preamp { db } => {
            let mut line: Vec<Piece> = Vec::new();
            line.push(Piece::Words("preamp → ".to_owned()));
            line.push(Piece::Figure(Style::Gain, *db));
            assert(pieces(line@) =~= change_line(*cmd, directory(*cwd)).0->0);
            put(out, line);
            None
        },
        Command::Reset { name } => {
            match name {
                Some(n) => say(out, glue("reset preset → ", n)),
                None => say(out, "reset to shipped defaults".to_owned()),
            }
            None
        },
        _ => None,
    }
}

fn done_text(cmd: &Command, cwd: &Result<String, String>) -> (t: String)
    ensures
        t@ == done_line(*cmd, directory(*cwd)),
{
    match cmd {
        Command::Off => "eqtune off — native Apple audio restored".to_owned(),
        Command::Limiter { on } => glue("limiter: ", on_off_text(*on)),
        Command::Lowpower { on } => glue("auto-off in Low Power Mode: ", on_off_text(*on)),
        Command::Idle { on } => glue("auto-off when idle: ", on_off_text(*on)),
        Command::PresetExport { name, path } => {
            let shown = match export_path(name, path, cwd) {
                Ok(p) => p,
                Err(_) => match path {
                    Some(p) => p.clone(),
                    None => glue(name, ".toml"),
                },
            };
            let mut t = glue3("exported preset ", name, " → ");
            t.append(&shown);
            t
        },
        _ => "ok".to_owned(),
    }
}

fn show_status(out: &mut Vec<Vec<Piece>>, s: &Status)
    ensures
        lines_of(final(out)@) == lines_of(old(out)@) + status_lines(s@),
{
    let ghost before = lines_of(out@);
    say(out, glue("enabled:       ", true_false_text(s.engine_running)));
    say(out, glue("preset:        ", &s.active_preset));
    let mut line: Vec<Piece> = Vec::new();
    line.push(Piece::Words("preamp:        ".to_owned()));
    line.push(Piece::Figure(Style::Signed, s.preamp_db));
    line.push(Piece::Words(" dB".to_owned()));
    assert(pieces(line@) =~= status_lines(s@)[2]);
    put(out, line);
    say(out, glue("bands:         ", &decimal(s.band_count as u64)));
    say(out, glue("limiter:       ", true_false_text(s.limiter)));
    match &s.output_name {
        Some(n) => say(out, glue("output device: ", n)),
        None => say(out, glue("output device: ", "(engine not running)")),
    }
    say(out, glue("low power:     ", on_off_text(s.low_power)));
    say(out, glue("auto-off LPM:  ", on_off_text(s.auto_off_low_power)));
    say(out, glue("auto-off idle: ", on_off_text(s.auto_off_idle)));
    let idle = match &s.suspension_reason {
        Some(r) => same_text(r, "idle"),
        None => false,
    };
    say(
        out,
        glue(
            "idle suspend:  ",
            if idle {
                "yes"
            } else {
                "no"
            },
        ),
    );
    assert(lines_of(out@) =~= before + status_lines(s@));
}

fn show_presets(out: &mut Vec<Vec<Piece>>, active: &str, names: &[String])
    ensures
        lines_of(final(out)@) == lines_of(old(out)@) + preset_list(active@, texts(names@)),
{
    let ghost before = lines_of(out@);
    let ghost all = preset_list(active@, texts(names@));
    let mut i: usize = 0;
    assert(before =~= before + all.take(0));
    while i < names.len()
        invariant
            i <= names.len(),
            all == preset_list(active@, texts(names@)),
            lines_of(out@) == before + all.take(i as int),
        decreases names.len() - i,
    {
        let marker = if same_text(&names[i], active) {
            "* "
        } else {
            "  "
        };
        say(out, glue(marker, &names[i]));
        assert(all.take(i + 1) =~= all.take(i as int).push(all[i as int]));
        assert(lines_of(out@) =~= before + all.take(i + 1));
        i += 1;
    }
    assert(all.take(names.len() as int) =~= all);
}

/// What is shown of the reply to a command, tailored to it: `on` and edits echo what changed
/// and show the resulting curve, switches confirm, and the rest have their own views. The text
/// of a failure comes back as an error.
pub fn print_response(cmd: &Command, resp: &Response, cwd: &Result<String, String>) -> (r: Result<
    Vec<Vec<Piece>>,
    Vec<Piece>,
>)
    requires
        answers(*cmd, resp@),
    ensures
        match shown(*cmd, resp@, directory(*cwd)) {
            Ok(lines) => r matches Ok(out) && lines_of(out@) == lines,
            Err(line) => r matches Err(out) && pieces(out@) == line,
        },
{
    let mut out: Vec<Vec<Piece>> = Vec::new();
    assert(lines_of(out@) =~= Seq::empty());
    match resp {
        Response::Tuning(t) => {
            match cmd {
                Command::PresetShow { .. } => {
                    show_preset(&mut out, t);
                    assert(lines_of(out@) =~= preset_lines(t@));
                },
                _ => {
                    let changed = show_change(&mut out, cmd, cwd);
                    show_curve(&mut out, t, changed);
                    assert(lines_of(out@) =~= shown(*cmd, resp@, directory(*cwd))->Ok_0);
                },
            }
            Ok(out)
        },
        Response::BandRemoved { tuning, removed } => {
            match cmd {
                Command::BandRm { freq } => {
                    let mut line: Vec<Piece> = Vec::new();
                    line.push(Piece::Words("removed band ".to_owned()));
                    line.push(Piece::Figure(Style::Frequency, removed.freq));
                    if !removed.freq.same(*freq) {
                        line.push(Piece::Words(" (nearest to ".to_owned()));
                        line.push(Piece::Figure(Style::Frequency, *freq));
                        line.push(Piece::Words(")".to_owned()));
                    }
                    assert(pieces(line@) =~= shown(*cmd, resp@, directory(*cwd))->Ok_0[0]);
                    put(&mut out, line);
                    show_curve(&mut out, tuning, None);
                    assert(lines_of(out@) =~= shown(*cmd, resp@, directory(*cwd))->Ok_0);
                },
                _ => {},
            }
            Ok(out)
        },
        Response::Done => {
            say(&mut out, done_text(cmd, cwd));
            assert(lines_of(out@) =~= shown(*cmd, resp@, directory(*cwd))->Ok_0);
            Ok(out)
        },
        Response::Status(s) => {
            show_status(&mut out, s);
            assert(lines_of(out@) =~= status_lines((**s)@));
            Ok(out)
        },
        Response::Presets { active, names } => {
            match cmd {
                Command::PresetRm { names: gone } => {
                    say(&mut out, glue("deleted presets: ", &join_texts(gone, ", ")));
                },
                _ => {},
            }
            show_presets(&mut out, active, names);
            assert(lines_of(out@) =~= shown(*cmd, resp@, directory(*cwd))->Ok_0);
            Ok(out)
        },
        Response::Error(e) => {
            let mut line: Vec<Piece> = Vec::new();
            line.push(Piece::Words("error: ".to_owned()));
            let ghost start = line@;
            let mut rest = e.message();
            let ghost end = rest@;
            line.append(&mut rest);
            assert(pieces(line@) =~= seq![PieceView::Words("error: "@)] + pieces(end));
            Err(line)
        },
        Response::UnsavedSession { tuning, .. } => {
            say(&mut out, "unsaved tuning changes".to_owned());
            show_curve(&mut out, tuning, None);
            assert(lines_of(out@) =~= shown(*cmd, resp@, directory(*cwd))->Ok_0);
            Ok(out)
        },
        Response::ResetWouldOverwrite { names } => {
            say(
                &mut out,
                glue("reset would replace modified shipped presets: ", &join_texts(names, ", ")),
            );
            assert(lines_of(out@) =~= shown(*cmd, resp@, directory(*cwd))->Ok_0);
            Ok(out)
        },
        Response::FrequencyResponse(_) => Ok(out),
    }
}

// --- laws ------------------------------------------------------------------------------------

/// Every command asks for what it says, with what was typed: a command without a path always
/// can be asked, and one with a path fails only where the path cannot be made absolute.
pub proof fn commands_ask_for_what_they_say(cmd: Command, cwd: Result<Seq<char>, Seq<char>>)
    ensures
        ({
            let r = request_of(cmd, cwd);
            match cmd {
                Command::On => r == Ok::<RequestView, ErrorView>(RequestView::Enable),
                Command::Off => r == Ok::<RequestView, ErrorView>(RequestView::Disable),
                Command::Status => r == Ok::<RequestView, ErrorView>(RequestView::Status),
                Command::Presets => r == Ok::<RequestView, ErrorView>(RequestView::ListPresets),
                Command::PresetShow { name } => r matches Ok(RequestView::ShowPreset(n)) && n
                    == optional(name),
                Command::Preset { name } => r matches Ok(RequestView::SetPreset(n)) && n == name@,
                Command::PresetSave { name } => r matches Ok(RequestView::SavePreset { name: n })
                    && n == name@,
                Command::PresetClone { source, dest } => r matches Ok(
                    RequestView::ClonePreset { source: a, dest: b },
                ) && a == source@ && b == dest@,
                Command::PresetRm { names } => r matches Ok(
                    RequestView::DeletePresets { names: v },
                ) && v.len() == names@.len() && forall|i: int|
                    0 <= i < v.len() ==> #[trigger] v[i] == names@[i]@,
                Command::PresetRename { from, to } => r matches Ok(
                    RequestView::RenamePreset { from: a, to: b },
                ) && a == from@ && b == to@,
                Command::PresetExport { name, path } => match export_target(
                    name@,
                    optional(path),
                    cwd,
                ) {
                    Ok(p) => r matches Ok(RequestView::ExportPreset { name: n, path: q }) && n
                        == name@ && q == p,
                    Err(e) => r == Err::<RequestView, ErrorView>(e),
                },
                Command::PresetImport { path, name } => match absolute(path@, cwd) {
                    Ok(p) => r matches Ok(RequestView::ImportPreset { path: q, name: n }) && n
                        == optional(name) && q == p,
                    Err(e) => r == Err::<RequestView, ErrorView>(e),
                },
                Command::Band { freq, gain_db, q } => r matches Ok(
                    RequestView::SetBand { kind, freq: f, gain_db: g, q: k },
                ) && kind == BandKind::Peaking && f == freq && g == gain_db && k == q,
                Command::BandRm { freq } => r matches Ok(RequestView::RemoveBand { freq: f }) && f
                    == freq,
                Command::Preamp { db } => r matches Ok(RequestView::SetPreamp(x)) && x == db,
                Command::Limiter { on } => r matches Ok(RequestView::SetLimiter(b)) && b == on,
                Command::Lowpower { on } => r matches Ok(RequestView::SetAutoOffLowPower(b)) && b
                    == on,
                Command::Idle { on } => r matches Ok(RequestView::SetAutoOffIdle(b)) && b == on,
                Command::Reset { name: Some(n) } => r matches Ok(
                    RequestView::ResetPreset { name: m },
                ) && m == n@,
                Command::Reset { name: None } => r == Ok::<RequestView, ErrorView>(
                    RequestView::Reset,
                ),
            }
        }),
        !(cmd is PresetExport) && !(cmd is PresetImport) ==> request_of(cmd, cwd) is Ok,
        cwd is Ok ==> request_of(cmd, cwd) is Ok,
{
}

/// The paths of an export and an import are absolute: a path from the root stays as it was
/// typed, and another one ends with what was typed, below the current directory. An export
/// without a path goes to a file named after the preset.
pub proof fn paths_become_absolute(path: Seq<char>, name: Seq<char>, dir: Seq<char>)
    ensures
        path.len() > 0 && path[0] == '/' ==> forall|cwd: Result<Seq<char>, Seq<char>>|
            (#[trigger] absolute(path, cwd)) == Ok::<Seq<char>, ErrorView>(path),
        !(path.len() > 0 && path[0] == '/') ==> (absolute(path, Ok(dir)) matches Ok(p) && {
            &&& p.len() >= dir.len() + path.len()
            &&& p.len() <= dir.len() + path.len() + 1
            &&& p.take(dir.len() as int) == dir
            &&& p.skip(p.len() - path.len()) == path
            &&& p.len() > dir.len() + path.len() ==> p[dir.len() as int] == '/'
            &&& p.len() == dir.len() + path.len() ==> dir.len() == 0 || dir.last() == '/'
        }),
        !(path.len() > 0 && path[0] == '/') ==> forall|reason: Seq<char>|
            (#[trigger] absolute(path, Err(reason))) is Err,
        export_target(name, Some(path), Ok(dir)) == absolute(path, Ok(dir)),
        export_target(name, None, Ok(dir)) == absolute(name + ".toml"@, Ok(dir)),
{
    reveal_strlit("/");
    if !(path.len() > 0 && path[0] == '/') {
        let p = absolute(path, Ok(dir))->Ok_0;
        assert(p.take(dir.len() as int) =~= dir);
        assert(p.skip(p.len() - path.len()) =~= path);
    }
}

/// A failure is told as a failure, with its own message, and nothing else is.
pub proof fn failures_are_told_as_failures(
    cmd: Command,
    resp: ResponseView,
    cwd: Result<Seq<char>, Seq<char>>,
)
    ensures
        shown(cmd, resp, cwd) is Err <==> resp is Error,
        resp matches ResponseView::Error(e) ==> shown(cmd, resp, cwd)->Err_0.len() == 1 + message(
            e,
        ).len() && shown(cmd, resp, cwd)->Err_0.skip(1) == message(e),
{
    if let ResponseView::Error(e) = resp {
        assert(shown(cmd, resp, cwd)->Err_0.skip(1) =~= message(e));
    }
}

/// A curve shows its preamp, and after that every band once, in order, with its frequency, its
/// gain, and its Q; the flag stands on the marked band and on no other.
pub proof fn a_curve_shows_every_band(t: TuningView, changed: Option<Single>)
    ensures
        ({
            let v = curve_lines(t, changed);
            &&& v.len() == 1 + if t.bands.len() == 0 {
                1
            } else {
                t.bands.len()
            }
            &&& v[0].last() == PieceView::Figure(Style::Gain, t.preamp_db)
            &&& v[0][0] matches PieceView::Words(w) && w.len() >= t.preset.len() && w.take(
                t.preset.len() as int,
            ) == t.preset
            &&& forall|i: int|
                0 <= i < t.bands.len() ==> {
                    let l = #[trigger] v[1 + i];
                    &&& l.contains(PieceView::Figure(Style::FrequencyCell, t.bands[i].freq))
                    &&& l.contains(PieceView::Figure(Style::GainCell, t.bands[i].gain_db))
                    &&& l.contains(PieceView::Figure(Style::Quality, t.bands[i].q))
                    &&& l.last() == PieceView::Words("   ← changed"@) <==> marked(t.bands, changed)
                        == Some(i)
                }
        }),
{
    reveal_strlit("   ← changed");
    reveal_strlit("");
    let v = curve_lines(t, changed);
    assert("   ← changed"@.len() > 0);
    assert(v[0].len() == 2);
    assert(v[0][0]->Words_0.take(t.preset.len() as int) =~= t.preset);
    assert forall|i: int| 0 <= i < t.bands.len() implies {
        let l = #[trigger] v[1 + i];
        &&& l.contains(PieceView::Figure(Style::FrequencyCell, t.bands[i].freq))
        &&& l.contains(PieceView::Figure(Style::GainCell, t.bands[i].gain_db))
        &&& l.contains(PieceView::Figure(Style::Quality, t.bands[i].q))
        &&& l.last() == PieceView::Words("   ← changed"@) <==> marked(t.bands, changed) == Some(i)
    } by {
        let l = v[1 + i];
        assert(l == band_line(t.bands[i], marked(t.bands, changed) == Some(i)));
        assert(l[1] == PieceView::Figure(Style::FrequencyCell, t.bands[i].freq));
        assert(l[3] == PieceView::Figure(Style::GainCell, t.bands[i].gain_db));
        assert(l[5] == PieceView::Figure(Style::Quality, t.bands[i].q));
        assert(l.last() == l[6]);
    }
}

/// After an edit the resulting curve is shown in full, behind at most one line that says what
/// was changed; for a band that line tells the frequency, the gain, and the Q, and the curve
/// flags the nearest band. The band that was removed is told.
pub proof fn edits_show_the_resulting_curve(
    cmd: Command,
    t: TuningView,
    removed: Band,
    cwd: Result<Seq<char>, Seq<char>>,
)
    ensures
        !(cmd is PresetShow) ==> ({
            let v = shown(cmd, ResponseView::Tuning(t), cwd)->Ok_0;
            let flag = match cmd {
                Command::Band { freq, .. } => Some(freq),
                _ => None,
            };
            let curve = curve_lines(t, flag);
            &&& v.len() <= curve.len() + 1
            &&& v.len() >= curve.len()
            &&& v.skip(v.len() - curve.len()) == curve
            &&& cmd matches Command::Band { freq, gain_db, q } ==> v[0].contains(
                PieceView::Figure(Style::Frequency, freq),
            ) && v[0].contains(PieceView::Figure(Style::Gain, gain_db)) && v[0].contains(
                PieceView::Figure(Style::Quality, q),
            )
            &&& cmd matches Command::Preamp { db } ==> v[0].contains(
                PieceView::Figure(Style::Gain, db),
            )
        }),
        cmd matches Command::BandRm { freq } ==> ({
            let v = shown(cmd, ResponseView::BandRemoved { tuning: t, removed }, cwd)->Ok_0;
            &&& v.skip(1) == curve_lines(t, None)
            &&& v[0].contains(PieceView::Figure(Style::Frequency, removed.freq))
            &&& !removed.freq.equals(freq) ==> v[0].contains(
                PieceView::Figure(Style::Frequency, freq),
            )
        }),
{
    if !(cmd is PresetShow) {
        let v = shown(cmd, ResponseView::Tuning(t), cwd)->Ok_0;
        let flag = match cmd {
            Command::Band { freq, .. } => Some(freq),
            _ => None,
        };
        let curve = curve_lines(t, flag);
        assert(change_line(cmd, cwd).1 == flag);
        assert(v.skip(v.len() - curve.len()) =~= curve);
        if let Command::Band { freq, gain_db, q } = cmd {
            assert(v[0][1] == PieceView::Figure(Style::Frequency, freq));
            assert(v[0][3] == PieceView::Figure(Style::Gain, gain_db));
            assert(v[0][5] == PieceView::Figure(Style::Quality, q));
        }
        if let Command::Preamp { db } = cmd {
            assert(v[0][1] == PieceView::Figure(Style::Gain, db));
        }
    }
    if let Command::BandRm { freq } = cmd {
        let v = shown(cmd, ResponseView::BandRemoved { tuning: t, removed }, cwd)->Ok_0;
        assert(v.skip(1) =~= curve_lines(t, None));
        assert(v[0][1] == PieceView::Figure(Style::Frequency, removed.freq));
        if !removed.freq.equals(freq) {
            assert(v[0][3] == PieceView::Figure(Style::Frequency, freq));
        }
    }
}

/// The list of presets has one line for each name, in their order, and a star before the active
/// one and no other.
pub proof fn the_active_preset_has_the_star(active: Seq<char>, names: Seq<Seq<char>>)
    ensures
        preset_list(active, names).len() == names.len(),
        forall|i: int|
            0 <= i < names.len() ==> ((#[trigger] preset_list(active, names)[i])[0] matches
                PieceView::Words(w) && w.len() == names[i].len() + 2 && w.skip(2) == names[i] && (
            w[0] == '*' <==> names[i] == active)),
{
    reveal_strlit("* ");
    reveal_strlit("  ");
    assert forall|i: int| 0 <= i < names.len() implies ((#[trigger] preset_list(
        active,
        names,
    )[i])[0] matches PieceView::Words(w) && w.len() == names[i].len() + 2 && w.skip(2) == names[i]
        && (w[0] == '*' <==> names[i] == active)) by {
        let w = preset_list(active, names)[i][0]->Words_0;
        assert(w.skip(2) =~= names[i]);
    }
}

/// The status shows whether the engine runs, the active preset, its preamp, the number of its
/// bands, the switches, and the output it plays on, each on a line of its own that ends with the
/// figure.
pub proof fn the_status_shows_its_figures(s: StatusView)
    ensures
        ({
            let v = status_lines(s);
            &&& v.len() == 10
            &&& ends_with(v[0], if s.engine_running { "true"@ } else { "false"@ })
            &&& ends_with(v[1], s.active_preset)
            &&& v[2][1] == PieceView::Figure(Style::Signed, s.preamp_db)
            &&& ends_with(v[3], digits(s.band_count))
            &&& ends_with(v[4], if s.limiter { "true"@ } else { "false"@ })
            &&& s.output_name matches Some(n) ==> ends_with(v[5], n)
            &&& ends_with(v[6], if s.low_power { "on"@ } else { "off"@ })
            &&& ends_with(v[7], if s.auto_off_low_power { "on"@ } else { "off"@ })
            &&& ends_with(v[8], if s.auto_off_idle { "on"@ } else { "off"@ })
            &&& ends_with(
                v[9],
                if s.suspension_reason == Some("idle"@) {
                    "yes"@
                } else {
                    "no"@
                },
            )
        }),
{
    let v = status_lines(s);
    ending("enabled:       "@, true_false(s.engine_running));
    ending("preset:        "@, s.active_preset);
    ending("bands:         "@, digits(s.band_count));
    ending("limiter:       "@, true_false(s.limiter));
    if let Some(n) = s.output_name {
        ending("output device: "@, n);
    }
    ending("low power:     "@, on_off(s.low_power));
    ending("auto-off LPM:  "@, on_off(s.auto_off_low_power));
    ending("auto-off idle: "@, on_off(s.auto_off_idle));
    ending("idle suspend:  "@, "yes"@);
    ending("idle suspend:  "@, "no"@);
}

/// The line is one text, with this at its end.
pub open spec fn ends_with(l: LineView, t: Seq<char>) -> bool {
    l.len() == 1 && (l[0] matches PieceView::Words(w) && w.len() >= t.len() && w.skip(
        w.len() - t.len(),
    ) == t)
}

proof fn ending(a: Seq<char>, b: Seq<char>)
    ensures
        ends_with(said(a + b), b),
{
    assert((a + b).skip((a + b).len() - b.len()) =~= b);
}

/// A preset that is only looked at is shown with its name, its preamp, and every band, without a
/// flag and without a word on whether it is applied.
pub proof fn a_preset_is_shown_in_full(t: TuningView, cmd: Command, cwd: Result<Seq<char>, Seq<char>>)
    requires
        cmd is PresetShow,
    ensures
        ({
            let v = shown(cmd, ResponseView::Tuning(t), cwd)->Ok_0;
            &&& v.skip(1) == curve_lines(t, None).skip(1)
            &&& v[0].last() == PieceView::Figure(Style::Gain, t.preamp_db)
            &&& v == shown(cmd, ResponseView::Tuning(TuningView { enabled: !t.enabled, ..t }), cwd)->Ok_0
        }),
{
    let v = shown(cmd, ResponseView::Tuning(t), cwd)->Ok_0;
    assert(v.skip(1) =~= band_lines(t.bands, None));
    assert(curve_lines(t, None).skip(1) =~= band_lines(t.bands, None));
    assert(v[0].len() == 2);
}

/// The presets that a command was about are named in what is shown of it, and a switch is told
/// as it was set.
pub proof fn names_are_told(
    cmd: Command,
    t: TuningView,
    cwd: Result<Seq<char>, Seq<char>>,
)
    ensures
        ({
            let first = shown(cmd, ResponseView::Tuning(t), cwd)->Ok_0[0];
            let done = shown(cmd, ResponseView::Done, cwd)->Ok_0[0];
            match cmd {
                Command::Preset { name } => tells_of(first, name@),
                Command::PresetSave { name } => tells_of(first, name@),
                Command::PresetClone { source, dest } => tells_of(first, source@) && tells_of(
                    first,
                    dest@,
                ),
                Command::PresetRename { from, to } => tells_of(first, from@) && tells_of(
                    first,
                    to@,
                ),
                Command::Reset { name: Some(n) } => tells_of(first, n@),
                Command::PresetExport { name, .. } => tells_of(done, name@),
                Command::Limiter { on } => ends_with(done, if on { "on"@ } else { "off"@ }),
                Command::Lowpower { on } => ends_with(done, if on { "on"@ } else { "off"@ }),
                Command::Idle { on } => ends_with(done, if on { "on"@ } else { "off"@ }),
                _ => true,
            }
        }),
{
    let none = Seq::<char>::empty();
    match cmd {
        Command::Preset { name } => {
            in_the_middle("preset → "@, name@, none);
            assert("preset → "@ + name@ + none =~= "preset → "@ + name@);
        },
        Command::PresetSave { name } => {
            in_the_middle("saved preset → "@, name@, none);
            assert("saved preset → "@ + name@ + none =~= "saved preset → "@ + name@);
        },
        Command::PresetClone { source, dest } => {
            let a = "cloned preset "@;
            let b = " → "@;
            in_the_middle(a, source@, b + dest@);
            in_the_middle(a + source@ + b, dest@, none);
            assert(a + source@ + (b + dest@) =~= a + source@ + b + dest@);
            assert(a + source@ + b + dest@ + none =~= a + source@ + b + dest@);
        },
        Command::PresetRename { from, to } => {
            let a = "renamed preset "@;
            let b = " → "@;
            in_the_middle(a, from@, b + to@);
            in_the_middle(a + from@ + b, to@, none);
            assert(a + from@ + (b + to@) =~= a + from@ + b + to@);
            assert(a + from@ + b + to@ + none =~= a + from@ + b + to@);
        },
        Command::Reset { name: Some(n) } => {
            in_the_middle("reset preset → "@, n@, none);
            assert("reset preset → "@ + n@ + none =~= "reset preset → "@ + n@);
        },
        Command::PresetExport { name, path } => {
            let target = match export_target(name@, optional(path), cwd) {
                Ok(p) => p,
                Err(_) => match path {
                    Some(p) => p@,
                    None => name@ + ".toml"@,
                },
            };
            let a = "exported preset "@;
            in_the_middle(a, name@, " → "@ + target);
            assert(a + name@ + (" → "@ + target) =~= a + name@ + " → "@ + target);
        },
        Command::Limiter { on } => ending("limiter: "@, on_off(on)),
        Command::Lowpower { on } => ending("auto-off in Low Power Mode: "@, on_off(on)),
        Command::Idle { on } => ending("auto-off when idle: "@, on_off(on)),
        _ => {},
    }
}

/// The line is one text, with this in it.
pub open spec fn tells_of(l: LineView, t: Seq<char>) -> bool {
    l.len() == 1 && (l[0] matches PieceView::Words(w) && holds(w, t))
}

} // verus!
