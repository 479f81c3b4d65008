//! What can go wrong, and how it is said.

use vstd::prelude::*;
use crate::number::Single;
use crate::text::{
    decimal, digits, glue, holds, pieces, stands_at, Piece, PieceView, Style,
};

verus! {

/// The figures of a preset that have a permitted range.
#[derive(Clone, Copy, Debug, PartialEq, Eq, Structural)]
pub enum Quantity {
    Frequency,
    Gain,
    Q,
    Preamp,
}

/// The kinds of failure.
#[derive(Clone, Copy, Debug, PartialEq, Eq, Structural)]
pub enum Fault {
    /// No preset has the name in the subject.
    NoSuchPreset,
    /// A preset already has the name in the subject.
    PresetExists,
    NameEmpty,
    NameTooLong,
    NameSpace,
    NameCharset,
    /// A deletion without a name.
    NoNames,
    /// A deletion that gives the name in the subject twice.
    DuplicateName,
    DeleteEvery,
    /// No shipped preset has the name in the subject.
    NoShippedPreset,
    /// The preset in the subject is not a shipped one.
    BackupNotShipped,
    /// The preset has this many bands, which are too many.
    TooManyBands(usize),
    NotFinite(Quantity),
    OutOfRange(Quantity),
    /// There is no room for another band.
    BandLimit,
    NoBands,
    /// No band is close to `freq`; the nearest one is at `nearest`.
    NoBandMatches { freq: Single, nearest: Single },
    /// The active preset, named in the subject, does not exist.
    ActiveMissing,
    UnsavedSession,
    NothingActive,
    OnNotSaved,
    OffNotSaved,
    NativeOutput,
    /// The session draft at the path in the subject stayed behind, for the reason in the
    /// detail.
    DraftNotRemoved,
    RequestTooLong,
    RequestTooLate,
    ResponseTooLong,
    ResponseMissing,
    /// A failure outside this library, in the words of the subject; the detail is its cause,
    /// where the words do not tell it.
    Outside,
}

/// A failure: its kind, and the texts that it is about.
#[derive(Debug)]
pub struct EqError {
    pub fault: Fault,
    pub subject: String,
    pub detail: String,
}

/// What an [`EqError`] holds.
pub ghost struct ErrorView {
    pub fault: Fault,
    pub subject: Seq<char>,
    pub detail: Seq<char>,
}

impl View for EqError {
    type V = ErrorView;

    open spec fn view(&self) -> ErrorView {
        ErrorView { fault: self.fault, subject: self.subject@, detail: self.detail@ }
    }
}

/// A failure that is about no text.
pub open spec fn plain(fault: Fault) -> ErrorView {
    ErrorView { fault, subject: Seq::empty(), detail: Seq::empty() }
}

/// A failure about `subject`.
pub open spec fn about(fault: Fault, subject: Seq<char>) -> ErrorView {
    ErrorView { fault, subject, detail: Seq::empty() }
}

/// A failure outside this library, with the cause that stands behind it.
pub open spec fn caused(words: Seq<char>, cause: Seq<char>) -> ErrorView {
    ErrorView { fault: Fault::Outside, subject: words, detail: cause }
}

/// The cause that stands behind a failure outside this library, where it is told apart.
pub open spec fn cause(e: ErrorView) -> Option<Seq<char>> {
    if e.fault == Fault::Outside && e.detail.len() > 0 {
        Some(e.detail)
    } else {
        None
    }
}

impl EqError {
    /// A failure that is about no text.
    pub fn plain(fault: Fault) -> (e: EqError)
        ensures
            e@ == plain(fault),
    {
        EqError { fault, subject: String::new(), detail: String::new() }
    }

    /// A failure about `subject`.
    pub fn about(fault: Fault, subject: &str) -> (e: EqError)
        ensures
            e@ == about(fault, subject@),
    {
        EqError { fault, subject: subject.to_owned(), detail: String::new() }
    }

    /// A failure that is already put into words.
    pub fn outside(words: String) -> (e: EqError)
        ensures
            e@ == about(Fault::Outside, words@),
    {
        EqError { fault: Fault::Outside, subject: words, detail: String::new() }
    }

    /// A failure that is already put into words, with the cause that stands behind it.
    pub fn caused(words: String, cause: String) -> (e: EqError)
        ensures
            e@ == caused(words@, cause@),
    {
        EqError { fault: Fault::Outside, subject: words, detail: cause }
    }

    /// The cause that stands behind a failure outside this library, where it is told apart.
    pub fn cause(&self) -> (c: Option<&str>)
        ensures
            match c {
                Some(t) => cause(self@) == Some(t@),
                None => cause(self@) is None,
            },
    {
        match self.fault {
            Fault::Outside => {
                if self.detail.as_str().unicode_len() > 0 {
                    Some(self.detail.as_str())
                } else {
                    None
                }
            },
            _ => None,
        }
    }
}

impl Quantity {
    /// What the quantity is called.
    pub open spec fn called(self) -> Seq<char> {
        match self {
            Quantity::Frequency => "frequency"@,
            Quantity::Gain => "gain"@,
            Quantity::Q => "Q"@,
            Quantity::Preamp => "preamp"@,
        }
    }

    /// The permitted range in words.
    pub open spec fn range(self) -> Seq<char> {
        match self {
            Quantity::Frequency => "20 Hz and 20000 Hz"@,
            Quantity::Gain => "-24 dB and 24 dB"@,
            Quantity::Q => "0.1 and 10"@,
            Quantity::Preamp => "-60 dB and 12 dB"@,
        }
    }

    fn name(self) -> (t: &'static str)
        ensures
            t@ == self.called(),
    {
        match self {
            Quantity::Frequency => "frequency",
            Quantity::Gain => "gain",
            Quantity::Q => "Q",
            Quantity::Preamp => "preamp",
        }
    }

    fn bounds(self) -> (t: &'static str)
        ensures
            t@ == self.range(),
    {
        match self {
            Quantity::Frequency => "20 Hz and 20000 Hz",
            Quantity::Gain => "-24 dB and 24 dB",
            Quantity::Q => "0.1 and 10",
            Quantity::Preamp => "-60 dB and 12 dB",
        }
    }
}

/// The words of a failure that holds no figure.
pub open spec fn words(e: ErrorView) -> Seq<char> {
    match e.fault {
        Fault::NoSuchPreset => "no such preset: "@ + e.subject,
        Fault::PresetExists => "preset already exists: "@ + e.subject,
        Fault::NameEmpty => "preset name must not be empty"@,
        Fault::NameTooLong => "preset name must be at most 64 characters"@,
        Fault::NameSpace => "preset name must not have leading or trailing whitespace"@,
        Fault::NameCharset =>
            "preset name may only contain ASCII letters, digits, '-', '_', or '.'"@,
        Fault::NoNames => "at least one preset name is required"@,
        Fault::DuplicateName => "duplicate preset name: "@ + e.subject,
        Fault::DeleteEvery => "cannot delete every preset"@,
        Fault::NoShippedPreset => "no shipped preset: "@ + e.subject,
        Fault::BackupNotShipped => "can only back up shipped presets during reset: "@ + e.subject,
        Fault::TooManyBands(n) => "preset has too many bands ("@ + digits(n as nat)
            + "); the maximum is 64"@,
        Fault::NotFinite(q) => q.called() + " must be a finite number"@,
        Fault::OutOfRange(q) => q.called() + " must be between "@ + q.range(),
        Fault::BandLimit => "cannot add band: preset already has the maximum of 64 bands"@,
        Fault::NoBands => "active preset has no bands to remove"@,
        Fault::NoBandMatches { freq, nearest } => Seq::empty(),
        Fault::ActiveMissing => "active preset '"@ + e.subject + "' is missing"@,
        Fault::UnsavedSession =>
            "unsaved tuning changes are active; run `eqtune off` and save or discard them first"@,
        Fault::NothingActive => "no active preset to save"@,
        Fault::OnNotSaved =>
            "the on intent could not be saved — it would not survive a daemon restart; retry `eqtune on`"@,
        Fault::OffNotSaved =>
            "the EQ was stopped for this run, but the off state could not be saved — a daemon restart would turn it back on; retry `eqtune off`"@,
        Fault::NativeOutput =>
            "native output is active; automatic recovery is scheduled after 1 second"@,
        Fault::DraftNotRemoved => "the tuning was applied, but the resolved session draft at "@
            + e.subject + " could not be removed ("@ + e.detail
            + "); a daemon restart would restore it as unsaved tuning — remove the file manually"@,
        Fault::RequestTooLong => "request exceeds 65536 bytes"@,
        Fault::RequestTooLate => "client did not send a complete request in time"@,
        Fault::ResponseTooLong => "daemon response exceeds 1048576 bytes"@,
        Fault::ResponseMissing => "daemon closed the connection without a response"@,
        Fault::Outside => e.subject,
    }
}

/// The text of a failure.
pub open spec fn message(e: ErrorView) -> Seq<PieceView> {
    match e.fault {
        Fault::NoBandMatches { freq, nearest } => seq![
            PieceView::Words("no band matches "@),
            PieceView::Figure(Style::Plain, freq),
            PieceView::Words(" Hz; nearest configured band is "@),
            PieceView::Figure(Style::Plain, nearest),
            PieceView::Words(" Hz"@),
        ],
        _ => seq![PieceView::Words(words(e))],
    }
}

impl EqError {
    fn words(&self) -> (t: String)
        ensures
            t@ == words(self@),
    {
        match self.fault {
            Fault::NoSuchPreset => glue("no such preset: ", &self.subject),
            Fault::PresetExists => glue("preset already exists: ", &self.subject),
            Fault::NameEmpty => "preset name must not be empty".to_owned(),
            Fault::NameTooLong => "preset name must be at most 64 characters".to_owned(),
            Fault::NameSpace =>
                "preset name must not have leading or trailing whitespace".to_owned(),
            Fault::NameCharset =>
                "preset name may only contain ASCII letters, digits, '-', '_', or '.'".to_owned(),
            Fault::NoNames => "at least one preset name is required".to_owned(),
            Fault::DuplicateName => glue("duplicate preset name: ", &self.subject),
            Fault::DeleteEvery => "cannot delete every preset".to_owned(),
            Fault::NoShippedPreset => glue("no shipped preset: ", &self.subject),
            Fault::BackupNotShipped =>
                glue("can only back up shipped presets during reset: ", &self.subject),
            Fault::TooManyBands(n) => {
                let mut t = glue("preset has too many bands (", &decimal(n as u64));
                t.append("); the maximum is 64");
                t
            },
            Fault::NotFinite(q) => glue(q.name(), " must be a finite number"),
            Fault::OutOfRange(q) => {
                let mut t = glue(q.name(), " must be between ");
                t.append(q.bounds());
                t
            },
            Fault::BandLimit =>
                "cannot add band: preset already has the maximum of 64 bands".to_owned(),
            Fault::NoBands => "active preset has no bands to remove".to_owned(),
            Fault::NoBandMatches { .. } => String::new(),
            Fault::ActiveMissing => {
                let mut t = glue("active preset '", &self.subject);
                t.append("' is missing");
                t
            },
            Fault::UnsavedSession =>
                "unsaved tuning changes are active; run `eqtune off` and save or discard them first".to_owned(),
            Fault::NothingActive => "no active preset to save".to_owned(),
            Fault::OnNotSaved =>
                "the on intent could not be saved — it would not survive a daemon restart; retry `eqtune on`".to_owned(),
            Fault::OffNotSaved =>
                "the EQ was stopped for this run, but the off state could not be saved — a daemon restart would turn it back on; retry `eqtune off`".to_owned(),
            Fault::NativeOutput =>
                "native output is active; automatic recovery is scheduled after 1 second".to_owned(),
            Fault::DraftNotRemoved => {
                let mut t = glue(
                    "the tuning was applied, but the resolved session draft at ",
                    &self.subject,
                );
                t.append(" could not be removed (");
                t.append(&self.detail);
                t.append(
                    "); a daemon restart would restore it as unsaved tuning — remove the file manually",
                );
                t
            },
            Fault::RequestTooLong => "request exceeds 65536 bytes".to_owned(),
            Fault::RequestTooLate => "client did not send a complete request in time".to_owned(),
            Fault::ResponseTooLong => "daemon response exceeds 1048576 bytes".to_owned(),
            Fault::ResponseMissing =>
                "daemon closed the connection without a response".to_owned(),
            Fault::Outside => self.subject.clone(),
        }
    }

    /// The text of the failure.
    pub fn message(&self) -> (m: Vec<Piece>)
        ensures
            pieces(m@) == message(self@),
    {
        let mut m: Vec<Piece> = Vec::new();
        match self.fault {
            Fault::NoBandMatches { freq, nearest } => {
                m.push(Piece::Words("no band matches ".to_owned()));
                m.push(Piece::Figure(Style::Plain, freq));
                m.push(Piece::Words(" Hz; nearest configured band is ".to_owned()));
                m.push(Piece::Figure(Style::Plain, nearest));
                m.push(Piece::Words(" Hz".to_owned()));
            },
            _ => {
                m.push(Piece::Words(self.words()));
            },
        }
        assert(pieces(m@) =~= message(self@));
        m
    }
}

/// What a failure is about stands in its message: the name of the preset, the path and the
/// reason of a draft that stayed, and the words from outside.
pub proof fn messages_name_their_subject(e: ErrorView)
    requires
        e.fault is NoSuchPreset || e.fault is PresetExists || e.fault is DuplicateName
            || e.fault is NoShippedPreset || e.fault is BackupNotShipped || e.fault is ActiveMissing
            || e.fault is DraftNotRemoved || e.fault is Outside,
    ensures
        message(e).len() == 1,
        message(e)[0] matches PieceView::Words(w) && holds(w, e.subject),
        e.fault is DraftNotRemoved ==> (message(e)[0] matches PieceView::Words(w) && holds(
            w,
            e.detail,
        )),
        e.fault is Outside ==> message(e)[0] == PieceView::Words(e.subject),
{
    let empty = Seq::<char>::empty();
    match e.fault {
        Fault::NoSuchPreset => in_the_middle("no such preset: "@, e.subject, empty),
        Fault::PresetExists => in_the_middle("preset already exists: "@, e.subject, empty),
        Fault::DuplicateName => in_the_middle("duplicate preset name: "@, e.subject, empty),
        Fault::NoShippedPreset => in_the_middle("no shipped preset: "@, e.subject, empty),
        Fault::BackupNotShipped => in_the_middle(
            "can only back up shipped presets during reset: "@,
            e.subject,
            empty,
        ),
        Fault::ActiveMissing => in_the_middle("active preset '"@, e.subject, "' is missing"@),
        Fault::DraftNotRemoved => {
            let a = "the tuning was applied, but the resolved session draft at "@;
            let b = " could not be removed ("@;
            let c = "); a daemon restart would restore it as unsaved tuning — remove the file manually"@;
            in_the_middle(a, e.subject, b + e.detail + c);
            in_the_middle(a + e.subject + b, e.detail, c);
            assert(a + e.subject + (b + e.detail + c) =~= a + e.subject + b + e.detail + c);
        },
        _ => in_the_middle(empty, e.subject, empty),
    }
    assert(empty + e.subject + empty =~= e.subject);
    assert("no such preset: "@ + e.subject + empty =~= "no such preset: "@ + e.subject);
    assert("preset already exists: "@ + e.subject + empty =~= "preset already exists: "@
        + e.subject);
    assert("duplicate preset name: "@ + e.subject + empty =~= "duplicate preset name: "@
        + e.subject);
    assert("no shipped preset: "@ + e.subject + empty =~= "no shipped preset: "@ + e.subject);
    assert("can only back up shipped presets during reset: "@ + e.subject + empty
        =~= "can only back up shipped presets during reset: "@ + e.subject);
}

/// A text between two others stands in them.
pub proof fn in_the_middle(a: Seq<char>, b: Seq<char>, c: Seq<char>)
    ensures
        holds(a + b + c, b),
{
    let t = a + b + c;
    assert(t.subrange(a.len() as int, (a.len() + b.len()) as int) =~= b);
    assert(stands_at(t, b, a.len() as int));
}

/// A failure that no band matches tells both the frequency that was asked for and the nearest
/// one, in this order.
pub proof fn a_missed_band_tells_both_frequencies(e: ErrorView)
    ensures
        e.fault matches Fault::NoBandMatches { freq, nearest } ==> message(e).len() == 5 && message(
            e,
        )[1] == PieceView::Figure(Style::Plain, freq) && message(e)[3] == PieceView::Figure(
            Style::Plain,
            nearest,
        ),
{
}

/// The cause of a failure from outside is kept apart from its words, and there is one exactly
/// where one was given.
pub proof fn causes_are_kept_apart(words: Seq<char>, why: Seq<char>)
    ensures
        message(caused(words, why)) == seq![PieceView::Words(words)],
        why.len() > 0 ==> cause(caused(words, why)) == Some(why),
        cause(about(Fault::Outside, words)) is None,
{
}

} // verus!
