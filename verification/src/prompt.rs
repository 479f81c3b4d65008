//! The prompts after `off` and `reset`: what they ask, and what an answer means.

use vstd::prelude::*;
use vstd::string::*;
use crate::cli::{
    answers, curve_lines, directory, lines_of, print_response, said, say, show_curve, shown,
    Command, LineView,
};
use crate::config::shipped;
use crate::error::{about, in_the_middle, message, EqError, Fault};
use crate::ipc::{Request, RequestView, Response, ResponseView, Tuning, TuningView};
use crate::library::{backups_of, is_shipped_preset_name, BackupView, PresetBackup};
use crate::text::{
    glue, glue3, holds, join_texts, joined, optional, pieces, same_text, texts, trim, trimmed,
    Piece, PieceView,
};

verus! {

/// What a line typed at a prompt says; the end of the input is a failure, and not an answer.
pub fn read_line_trimmed_from(line: Option<String>) -> (r: Result<String, EqError>)
    ensures
        match line {
            Some(t) => r matches Ok(answer) && answer@ == trimmed(t@),
            None => r matches Err(e) && e@ == about(
                Fault::Outside,
                "input closed before the prompt was resolved; no save, overwrite, discard, or reset action was taken"@,
            ),
        },
{
    match line {
        Some(t) => Ok(trim(&t)),
        None => Err(
            EqError::about(
                Fault::Outside,
                "input closed before the prompt was resolved; no save, overwrite, discard, or reset action was taken",
            ),
        ),
    }
}

fn is_any(t: &str, a: &str, b: &str) -> (r: bool)
    ensures
        r == (t@ == a@ || t@ == b@),
{
    same_text(t, a) || same_text(t, b)
}

// --- after `off` -----------------------------------------------------------------------------

/// An unsaved session: the active preset, and the presets that carry unsaved edits.
#[derive(Debug)]
pub struct Unresolved {
    pub active: String,
    pub dirty: Vec<String>,
}

/// What an [`Unresolved`] holds.
pub ghost struct UnresolvedView {
    pub active: Seq<char>,
    pub dirty: Seq<Seq<char>>,
}

impl View for Unresolved {
    type V = UnresolvedView;

    open spec fn view(&self) -> UnresolvedView {
        UnresolvedView { active: self.active@, dirty: texts(self.dirty@) }
    }
}

impl UnresolvedView {
    /// The active preset itself has unsaved edits.
    pub open spec fn active_is_dirty(self) -> bool {
        self.dirty.contains(self.active)
    }

    /// The other presets that have unsaved edits: saving the active tuning does not consume
    /// them.
    pub open spec fn others(self) -> Seq<Seq<char>> {
        self.dirty.filter(|n: Seq<char>| n != self.active)
    }

    /// What overwriting would overwrite.
    pub open spec fn target(self) -> Seq<char> {
        if self.dirty.len() == 0 {
            self.active
        } else {
            joined(self.dirty, ", "@)
        }
    }

    /// The question. A tuning can be saved by name only where the active preset has edits.
    pub open spec fn question(self) -> Seq<char> {
        if self.active_is_dirty() {
            "Preserve this tuning? [s]ave by name / [o]verwrite "@ + self.target()
                + " / [d]iscard: "@
        } else {
            "Keep those edits? [o]verwrite "@ + self.target() + " / [d]iscard: "@
        }
    }

    /// The question for a name.
    pub open spec fn name_question(self) -> Seq<char> {
        "Preset name (new name, "@ + (if shipped().contains_key(self.active) {
            ""@
        } else {
            self.active + " to overwrite it, "@
        }) + "or bright/mellow/pro to overwrite that built-in): "@
    }

    /// What is shown when `off` finds unsaved edits: the presets that have them are named, and
    /// the active tuning is shown only if it has edits itself.
    pub open spec fn intro(self, tuning: TuningView) -> Seq<LineView> {
        seq![said("eqtune off — native Apple audio restored"@)] + (if self.dirty.len() == 1
            && self.active_is_dirty() {
            seq![said("unsaved tuning changes for preset '"@ + self.active + "'"@)]
                + curve_lines(tuning, None)
        } else {
            seq![said("unsaved tuning changes to: "@ + joined(self.dirty, ", "@))] + (
            if self.active_is_dirty() {
                curve_lines(tuning, None)
            } else {
                Seq::empty()
            })
        })
    }
}

/// What an answer to the question means.
#[derive(Debug)]
pub enum OffChoice {
    /// Ask for a name, then [`Unresolved::name_given`].
    AskName,
    Send(Request),
    /// Say this and ask again.
    Again(String),
}

/// What an [`OffChoice`] holds.
pub ghost enum OffChoiceView {
    AskName,
    Send(RequestView),
    Again(Seq<char>),
}

impl View for OffChoice {
    type V = OffChoiceView;

    open spec fn view(&self) -> OffChoiceView {
        match self {
            OffChoice::AskName => OffChoiceView::AskName,
            OffChoice::Send(r) => OffChoiceView::Send(r@),
            OffChoice::Again(t) => OffChoiceView::Again(t@),
        }
    }
}

/// What an answer to the question means.
pub open spec fn off_choice(active_is_dirty: bool, answer: Seq<char>) -> OffChoiceView {
    if active_is_dirty && (answer == "s"@ || answer == "save"@) {
        OffChoiceView::AskName
    } else if answer == "o"@ || answer == "overwrite"@ {
        OffChoiceView::Send(RequestView::SaveSessionOverwrite)
    } else if answer == "d"@ || answer == "discard"@ || answer == ""@ {
        OffChoiceView::Send(RequestView::DiscardSession)
    } else if active_is_dirty {
        OffChoiceView::Again("enter s, o, or d"@)
    } else {
        OffChoiceView::Again("enter o or d"@)
    }
}

/// What a name means: save under it, or ask again where it is empty.
pub open spec fn named(name: Seq<char>) -> OffChoiceView {
    if name.len() == 0 {
        OffChoiceView::Again("preset name must not be empty"@)
    } else {
        OffChoiceView::Send(RequestView::SaveSessionAs { name })
    }
}

/// What came of the daemon's reply.
#[derive(Debug)]
pub enum Outcome {
    /// Say this and ask again.
    Again(Vec<Piece>),
    /// Show these lines; the session is resolved.
    Resolved(Vec<Vec<Piece>>),
}

/// What an [`Outcome`] holds.
pub ghost enum OutcomeView {
    Again(LineView),
    Resolved(Seq<LineView>),
}

impl View for Outcome {
    type V = OutcomeView;

    open spec fn view(&self) -> OutcomeView {
        match self {
            Outcome::Again(l) => OutcomeView::Again(pieces(l@)),
            Outcome::Resolved(v) => OutcomeView::Resolved(lines_of(v@)),
        }
    }
}

/// What is said once the session was resolved by `req`.
pub open spec fn resolution(u: UnresolvedView, req: RequestView) -> Seq<LineView> {
    match req {
        RequestView::SaveSessionAs { .. } => seq![said("saved tuning"@)] + (if u.others().len()
            > 0 {
            seq![
                said(
                    "unsaved edits to "@ + joined(u.others(), ", "@)
                        + " are still open — the next `eqtune off` will ask about them"@,
                ),
            ]
        } else {
            Seq::empty()
        }),
        RequestView::SaveSessionOverwrite => seq![said("overwrote "@ + u.target())],
        RequestView::DiscardSession => seq![said("discarded tuning changes"@)],
        _ => Seq::empty(),
    }
}

/// What came of the daemon's reply to `req`.
pub open spec fn off_outcome(
    u: UnresolvedView,
    req: RequestView,
    resp: ResponseView,
    cwd: Result<Seq<char>, Seq<char>>,
) -> OutcomeView {
    match resp {
        ResponseView::Error(e) => OutcomeView::Again(
            seq![PieceView::Words("error: "@)] + message(e),
        ),
        ResponseView::Tuning(t) => OutcomeView::Resolved(
            resolution(u, req) + curve_lines(t, None),
        ),
        _ => OutcomeView::Resolved(shown(Command::Off, resp, cwd)->Ok_0),
    }
}

impl Unresolved {
    /// The unsaved session that `off` found.
    pub fn new(tuning: &Tuning, dirty_presets: Vec<String>) -> (u: Unresolved)
        ensures
            u@ == (UnresolvedView { active: tuning@.preset, dirty: texts(dirty_presets@) }),
    {
        Unresolved { active: tuning.preset.clone(), dirty: dirty_presets }
    }

    fn active_is_dirty(&self) -> (r: bool)
        ensures
            r == self@.active_is_dirty(),
    {
        let ghost s = texts(self.dirty@);
        let mut i: usize = 0;
        while i < self.dirty.len()
            invariant
                i <= self.dirty.len(),
                s == texts(self.dirty@),
                forall|j: int| 0 <= j < i ==> #[trigger] s[j] != self.active@,
            decreases self.dirty.len() - i,
        {
            if same_text(&self.dirty[i], &self.active) {
                assert(s[i as int] == self.active@);
                return true;
            }
            assert(s[i as int] != self.active@);
            i += 1;
        }
        false
    }

    fn others(&self) -> (v: Vec<String>)
        ensures
            texts(v@) == self@.others(),
    {
        let ghost s = texts(self.dirty@);
        let ghost u = self@;
        let ghost f = |n: Seq<char>| n != u.active;
        let mut v: Vec<String> = Vec::new();
        let mut i: usize = 0;
        proof {
            reveal_with_fuel(Seq::filter, 2);
            assert(s.take(0) =~= Seq::empty());
            assert(texts(v@) =~= Seq::empty());
        }
        while i < self.dirty.len()
            invariant
                i <= self.dirty.len(),
                u == self@,
                s == texts(self.dirty@),
                f == (|n: Seq<char>| n != u.active),
                texts(v@) == s.take(i as int).filter(f),
            decreases self.dirty.len() - i,
        {
            proof {
                reveal_with_fuel(Seq::filter, 2);
                assert(s.take(i + 1).drop_last() =~= s.take(i as int));
                assert(s.take(i + 1).last() == self.dirty[i as int]@);
                assert(f(self.dirty[i as int]@) == (self.dirty[i as int]@ != u.active));
            }
            if !same_text(&self.dirty[i], &self.active) {
                let ghost before = v@;
                let t = self.dirty[i].clone();
                v.push(t);
                assert(texts(v@) =~= texts(before).push(t@));
            }
            i += 1;
        }
        assert(s.take(self.dirty.len() as int) =~= s);
        v
    }

    fn target(&self) -> (t: String)
        ensures
            t@ == self@.target(),
    {
        assert(texts(self.dirty@).len() == self.dirty@.len());
        if self.dirty.len() == 0 {
            self.active.clone()
        } else {
            join_texts(&self.dirty, ", ")
        }
    }

    /// What is shown when `off` finds unsaved edits.
    pub fn intro(&self, tuning: &Tuning) -> (out: Vec<Vec<Piece>>)
        ensures
            lines_of(out@) == self@.intro(tuning@),
    {
        let mut out: Vec<Vec<Piece>> = Vec::new();
        assert(lines_of(out@) =~= Seq::empty());
        let active_is_dirty = self.active_is_dirty();
        say(&mut out, "eqtune off — native Apple audio restored".to_owned());
        assert(texts(self.dirty@).len() == self.dirty@.len());
        if self.dirty.len() == 1 && active_is_dirty {
            say(&mut out, glue3("unsaved tuning changes for preset '", &self.active, "'"));
            show_curve(&mut out, tuning, None);
        } else {
            say(&mut out, glue("unsaved tuning changes to: ", &join_texts(&self.dirty, ", ")));
            if active_is_dirty {
                show_curve(&mut out, tuning, None);
            }
        }
        assert(lines_of(out@) =~= self@.intro(tuning@));
        out
    }

    /// The question.
    pub fn question(&self) -> (t: String)
        ensures
            t@ == self@.question(),
    {
        if self.active_is_dirty() {
            glue3(
                "Preserve this tuning? [s]ave by name / [o]verwrite ",
                &self.target(),
                " / [d]iscard: ",
            )
        } else {
            glue3("Keep those edits? [o]verwrite ", &self.target(), " / [d]iscard: ")
        }
    }

    /// What an answer to the question means.
    pub fn choice(&self, answer: &str) -> (c: OffChoice)
        ensures
            c@ == off_choice(self@.active_is_dirty(), answer@),
    {
        let active_is_dirty = self.active_is_dirty();
        if active_is_dirty && is_any(answer, "s", "save") {
            OffChoice::AskName
        } else if is_any(answer, "o", "overwrite") {
            OffChoice::Send(Request::SaveSessionOverwrite)
        } else if is_any(answer, "d", "discard") || same_text(answer, "") {
            OffChoice::Send(Request::DiscardSession)
        } else if active_is_dirty {
            OffChoice::Again("enter s, o, or d".to_owned())
        } else {
            OffChoice::Again("enter o or d".to_owned())
        }
    }

    /// The question for a name. The active preset's own name is offered once: where it is a
    /// built-in, the built-ins cover it.
    pub fn name_question(&self) -> (t: String)
        ensures
            t@ == self@.name_question(),
    {
        let own = if is_shipped_preset_name(&self.active) {
            "".to_owned()
        } else {
            glue(&self.active, " to overwrite it, ")
        };
        glue3(
            "Preset name (new name, ",
            &own,
            "or bright/mellow/pro to overwrite that built-in): ",
        )
    }

    /// What a name means: save under it, or ask again where it is empty.
    pub fn name_given(&self, name: String) -> (c: OffChoice)
        ensures
            c@ == named(name@),
    {
        if name.as_str().unicode_len() == 0 {
            OffChoice::Again("preset name must not be empty".to_owned())
        } else {
            OffChoice::Send(Request::SaveSessionAs { name })
        }
    }

    /// What came of the daemon's reply: a refused request is said, and the question comes
    /// again.
    pub fn answered(&self, req: &Request, resp: &Response, cwd: &Result<String, String>) -> (o:
        Outcome)
        requires
            answers(Command::Off, resp@),
        ensures
            o@ == off_outcome(self@, req@, resp@, directory(*cwd)),
    {
        match resp {
            Response::Tuning(t) => {
                let mut out: Vec<Vec<Piece>> = Vec::new();
                assert(lines_of(out@) =~= Seq::empty());
                match req {
                    Request::SaveSessionAs { .. } => {
                        say(&mut out, "saved tuning".to_owned());
                        let others = self.others();
                        assert(texts(others@).len() == others@.len());
                        if others.len() > 0 {
                            say(
                                &mut out,
                                glue3(
                                    "unsaved edits to ",
                                    &join_texts(&others, ", "),
                                    " are still open — the next `eqtune off` will ask about them",
                                ),
                            );
                        }
                    },
                    Request::SaveSessionOverwrite => {
                        say(&mut out, glue("overwrote ", &self.target()));
                    },
                    Request::DiscardSession => {
                        say(&mut out, "discarded tuning changes".to_owned());
                    },
                    _ => {},
                }
                assert(lines_of(out@) =~= resolution(self@, req@));
                show_curve(&mut out, t, None);
                Outcome::Resolved(out)
            },
            _ => match print_response(&Command::Off, resp, cwd) {
                Ok(lines) => Outcome::Resolved(lines),
                Err(line) => Outcome::Again(line),
            },
        }
    }
}

// --- after `reset` -----------------------------------------------------------------------------

/// What is shown when a reset would replace modified presets.
pub fn reset_intro(names: &[String]) -> (out: Vec<Vec<Piece>>)
    ensures
        lines_of(out@) == seq![
            said(
                "reset will restore shipped preset values for: "@ + joined(texts(names@), ", "@),
            ),
            said(
                "The current local versions of those presets differ from the shipped originals."@,
            ),
        ],
{
    let mut out: Vec<Vec<Piece>> = Vec::new();
    assert(lines_of(out@) =~= Seq::empty());
    say(
        &mut out,
        glue("reset will restore shipped preset values for: ", &join_texts(names, ", ")),
    );
    say(
        &mut out,
        "The current local versions of those presets differ from the shipped originals.".to_owned(),
    );
    out
}

/// What an answer to the reset question means.
#[derive(Clone, Copy, Debug, PartialEq, Eq, Structural)]
pub enum ResetChoice {
    SaveCopies,
    Reset,
    Cancel,
    Again,
}

/// What an answer to the reset question means.
pub open spec fn reset_choice(answer: Seq<char>) -> ResetChoice {
    if answer == "s"@ || answer == "save"@ {
        ResetChoice::SaveCopies
    } else if answer == "r"@ || answer == "reset"@ || answer == ""@ {
        ResetChoice::Reset
    } else if answer == "c"@ || answer == "cancel"@ {
        ResetChoice::Cancel
    } else {
        ResetChoice::Again
    }
}

/// What an answer to the reset question means.
pub fn choose_reset(answer: &str) -> (c: ResetChoice)
    ensures
        c == reset_choice(answer@),
{
    if is_any(answer, "s", "save") {
        ResetChoice::SaveCopies
    } else if is_any(answer, "r", "reset") || same_text(answer, "") {
        ResetChoice::Reset
    } else if is_any(answer, "c", "cancel") {
        ResetChoice::Cancel
    } else {
        ResetChoice::Again
    }
}

/// The question for the name of a copy.
pub fn backup_question(source: &str) -> (t: String)
    ensures
        t@ == "Save current "@ + source@ + " as ["@ + source@ + "-custom]: "@,
{
    let mut t = glue3("Save current ", source, " as [");
    t.append(source);
    t.append("-custom]: ");
    t
}

/// The name of a copy: the one entered, or one made of the source's name.
pub open spec fn backup_name(source: Seq<char>, entered: Seq<char>) -> Seq<char> {
    if entered.len() == 0 {
        source + "-custom"@
    } else {
        entered
    }
}

/// Some copy has this name already.
pub open spec fn name_taken(backups: Seq<BackupView>, dest: Seq<char>) -> bool {
    exists|i: int| 0 <= i < backups.len() && (#[trigger] backups[i]).dest == dest
}

/// Take the name of a copy, unless another copy of this reset has it.
pub fn take_backup(backups: &mut Vec<PresetBackup>, source: &str, entered: &str) -> (refused:
    Option<String>)
    ensures
        ({
            let dest = backup_name(source@, entered@);
            if name_taken(backups_of(old(backups)@), dest) {
                &&& backups_of(final(backups)@) == backups_of(old(backups)@)
                &&& optional(refused) == Some("backup name already used in this reset: "@ + dest)
            } else {
                &&& backups_of(final(backups)@) == backups_of(old(backups)@).push(
                    BackupView { source: source@, dest },
                )
                &&& refused is None
            }
        }),
{
    let dest = if entered.unicode_len() == 0 {
        glue(source, "-custom")
    } else {
        entered.to_owned()
    };
    let ghost s = backups_of(backups@);
    let mut i: usize = 0;
    while i < backups.len()
        invariant
            i <= backups.len(),
            s == backups_of(backups@),
            s == backups_of(old(backups)@),
            dest@ == backup_name(source@, entered@),
            forall|j: int| 0 <= j < i ==> (#[trigger] s[j]).dest != dest@,
        decreases backups.len() - i,
    {
        if same_text(&backups[i].dest, &dest) {
            assert(s[i as int].dest == dest@);
            return Some(glue("backup name already used in this reset: ", &dest));
        }
        assert(s[i as int].dest != dest@);
        i += 1;
    }
    backups.push(PresetBackup { source: source.to_owned(), dest });
    assert(backups_of(backups@) =~= s.push(BackupView { source: source@, dest: dest@ }));
    None
}

/// The copies of one reset have different names.
pub open spec fn distinct(backups: Seq<BackupView>) -> bool {
    forall|i: int, j: int|
        0 <= i < j < backups.len() ==> (#[trigger] backups[i]).dest != (#[trigger] backups[j]).dest
}

/// Taking names one after the other keeps them different.
pub proof fn backups_stay_distinct(backups: Seq<BackupView>, b: BackupView)
    requires
        distinct(backups),
        !name_taken(backups, b.dest),
    ensures
        distinct(backups.push(b)),
{
}

/// The request that confirms a reset, of one preset or of all.
pub open spec fn confirmation(name: Option<Seq<char>>, backups: Seq<BackupView>) -> RequestView {
    match name {
        Some(n) => RequestView::ConfirmResetPreset { name: n, backups },
        None => RequestView::ConfirmReset { backups },
    }
}

/// The request that confirms a reset, of one preset or of all.
pub fn confirm_reset(name: Option<String>, backups: Vec<PresetBackup>) -> (r: Request)
    ensures
        r@ == confirmation(optional(name), backups_of(backups@)),
{
    match name {
        Some(name) => Request::ConfirmResetPreset { name, backups },
        None => Request::ConfirmReset { backups },
    }
}

// --- laws ------------------------------------------------------------------------------------

/// Edits are overwritten, discarded, or saved by name only on the answer that says so, and a
/// name is asked for only where the active preset has edits; every other answer asks again.
pub proof fn nothing_happens_unasked(active_is_dirty: bool, answer: Seq<char>)
    ensures
        ({
            let c = off_choice(active_is_dirty, answer);
            &&& c == OffChoiceView::AskName <==> active_is_dirty && (answer == "s"@ || answer
                == "save"@)
            &&& c == OffChoiceView::Send(RequestView::SaveSessionOverwrite) <==> answer == "o"@
                || answer == "overwrite"@
            &&& c == OffChoiceView::Send(RequestView::DiscardSession) <==> answer == "d"@ || answer
                == "discard"@ || answer == ""@
            &&& c is Send ==> c == OffChoiceView::Send(RequestView::SaveSessionOverwrite) || c
                == OffChoiceView::Send(RequestView::DiscardSession)
        }),
{
    answers_are_different();
}

/// A reset is confirmed, prepared with copies, or cancelled only on the answer that says so;
/// every other answer asks again.
pub proof fn nothing_is_reset_unasked(answer: Seq<char>)
    ensures
        reset_choice(answer) == ResetChoice::SaveCopies <==> answer == "s"@ || answer == "save"@,
        reset_choice(answer) == ResetChoice::Reset <==> answer == "r"@ || answer == "reset"@
            || answer == ""@,
        reset_choice(answer) == ResetChoice::Cancel <==> answer == "c"@ || answer == "cancel"@,
{
    answers_are_different();
}

proof fn answers_are_different()
    ensures
        "s"@.len() == 1 && "o"@.len() == 1 && "d"@.len() == 1 && "r"@.len() == 1 && "c"@.len()
            == 1,
        ""@.len() == 0,
        "save"@.len() == 4 && "overwrite"@.len() == 9 && "discard"@.len() == 7 && "reset"@.len()
            == 5 && "cancel"@.len() == 6,
        "s"@[0] == 's' && "o"@[0] == 'o' && "d"@[0] == 'd' && "r"@[0] == 'r' && "c"@[0] == 'c',
{
    reveal_strlit("s");
    reveal_strlit("o");
    reveal_strlit("d");
    reveal_strlit("r");
    reveal_strlit("c");
    reveal_strlit("");
    reveal_strlit("save");
    reveal_strlit("overwrite");
    reveal_strlit("discard");
    reveal_strlit("reset");
    reveal_strlit("cancel");
}

/// The edits that saving the active tuning leaves open are those to the other presets: all of
/// them, and not those to the active one.
pub proof fn edits_to_others_stay_open(u: UnresolvedView, n: Seq<char>)
    ensures
        u.others().contains(n) <==> u.dirty.contains(n) && n != u.active,
        u.active_is_dirty() <==> exists|i: int| 0 <= i < u.dirty.len() && u.dirty[i] == u.active,
{
    others_counted(u.dirty, u.active, n);
}

proof fn others_counted(s: Seq<Seq<char>>, active: Seq<char>, n: Seq<char>)
    ensures
        s.filter(|m: Seq<char>| m != active).contains(n) <==> s.contains(n) && n != active,
    decreases s.len(),
{
    reveal_with_fuel(Seq::filter, 2);
    let f = |m: Seq<char>| m != active;
    if s.len() > 0 {
        let t = s.drop_last();
        others_counted(t, active, n);
        let u = t.filter(f);
        let r = s.filter(f);
        assert(s =~= t.push(s.last()));
        if t.contains(n) {
            let i = choose|i: int| 0 <= i < t.len() && t[i] == n;
            assert(s[i] == n);
        }
        if s.contains(n) {
            let i = choose|i: int| 0 <= i < s.len() && s[i] == n;
            if i < t.len() {
                assert(t[i] == n);
            } else if n != active {
                assert(r[r.len() - 1] == n);
            }
        }
        if u.contains(n) {
            let i = choose|i: int| 0 <= i < u.len() && u[i] == n;
            assert(r[i] == n);
        }
        if r.contains(n) {
            let i = choose|i: int| 0 <= i < r.len() && r[i] == n;
            if i < u.len() {
                assert(u[i] == n);
            } else {
                assert(s[s.len() - 1] == n);
            }
        }
    }
}

/// A refused request asks again, with the failure; a tuning resolves the session, and is shown
/// in full at the end.
pub proof fn a_refusal_asks_again(
    u: UnresolvedView,
    req: RequestView,
    resp: ResponseView,
    cwd: Result<Seq<char>, Seq<char>>,
)
    ensures
        off_outcome(u, req, resp, cwd) is Again <==> resp is Error,
        resp matches ResponseView::Tuning(t) ==> ({
            let v = off_outcome(u, req, resp, cwd)->Resolved_0;
            let curve = curve_lines(t, None);
            v.len() >= curve.len() && v.skip(v.len() - curve.len()) == curve
        }),
{
    if let ResponseView::Tuning(t) = resp {
        let v = off_outcome(u, req, resp, cwd)->Resolved_0;
        let curve = curve_lines(t, None);
        assert(v.skip(v.len() - curve.len()) =~= curve);
    }
}

/// A copy is called what was entered, and by default after its source; copies of different
/// sources never share a default name.
pub proof fn copies_are_named(a: Seq<char>, b: Seq<char>, entered: Seq<char>)
    ensures
        entered.len() > 0 ==> backup_name(a, entered) == entered,
        entered.len() == 0 ==> backup_name(a, entered).take(a.len() as int) == a && backup_name(
            a,
            entered,
        ).skip(a.len() as int) == "-custom"@,
        a != b ==> backup_name(a, Seq::empty()) != backup_name(b, Seq::empty()),
{
    let x = a + "-custom"@;
    let y = b + "-custom"@;
    assert(x.take(a.len() as int) =~= a);
    assert(x.skip(a.len() as int) =~= "-custom"@);
    if x == y {
        assert(a.len() == b.len());
        assert(y.take(b.len() as int) =~= b);
    }
}

/// What `off` shows of unsaved edits: the presets that have them are named, and the active
/// tuning is shown in full exactly if it has edits itself.
pub proof fn unsaved_edits_are_shown(u: UnresolvedView, t: TuningView)
    ensures
        ({
            let v = u.intro(t);
            let curve = curve_lines(t, None);
            &&& u.active_is_dirty() ==> v.len() == 2 + curve.len() && v.skip(2) == curve
            &&& !u.active_is_dirty() ==> v.len() == 2
            &&& v[1].len() == 1
            &&& u.dirty.len() > 1 || !u.active_is_dirty() ==> (v[1][0] matches PieceView::Words(w)
                && holds(w, joined(u.dirty, ", "@)))
            &&& u.dirty.len() == 1 && u.active_is_dirty() ==> (v[1][0] matches PieceView::Words(w)
                && holds(w, u.active))
        }),
{
    let v = u.intro(t);
    let curve = curve_lines(t, None);
    let none = Seq::<char>::empty();
    if u.active_is_dirty() {
        assert(v.skip(2) =~= curve);
    }
    let names = joined(u.dirty, ", "@);
    let a = "unsaved tuning changes to: "@;
    in_the_middle(a, names, none);
    assert(a + names + none =~= a + names);
    in_the_middle("unsaved tuning changes for preset '"@, u.active, "'"@);
}

/// Overwriting is asked for, and told, with the presets that it overwrites; and saving one tuning
/// tells of the edits that it leaves open, if there are any.
pub proof fn what_is_resolved_is_told(u: UnresolvedView, name: Seq<char>)
    ensures
        holds(u.question(), u.target()),
        u.dirty.len() == 1 ==> u.target() == u.dirty[0],
        ({
            let v = resolution(u, RequestView::SaveSessionOverwrite);
            v.len() == 1 && v[0].len() == 1 && (v[0][0] matches PieceView::Words(w) && holds(
                w,
                u.target(),
            ))
        }),
        ({
            let v = resolution(u, RequestView::SaveSessionAs { name });
            &&& u.others().len() == 0 ==> v.len() == 1
            &&& u.others().len() > 0 ==> v.len() == 2 && v[1].len() == 1 && (v[1][0] matches
                PieceView::Words(w) && holds(w, joined(u.others(), ", "@)))
        }),
{
    let none = Seq::<char>::empty();
    in_the_middle(
        "Preserve this tuning? [s]ave by name / [o]verwrite "@,
        u.target(),
        " / [d]iscard: "@,
    );
    in_the_middle("Keep those edits? [o]verwrite "@, u.target(), " / [d]iscard: "@);
    in_the_middle("overwrote "@, u.target(), none);
    assert("overwrote "@ + u.target() + none =~= "overwrote "@ + u.target());
    in_the_middle(
        "unsaved edits to "@,
        joined(u.others(), ", "@),
        " are still open — the next `eqtune off` will ask about them"@,
    );
}

/// A tuning is saved under the name that was entered, and an empty one is asked for again. A
/// confirmed reset is of what was asked for, with all the copies that were named.
pub proof fn what_was_entered_is_sent(
    name: Seq<char>,
    reset: Option<Seq<char>>,
    backups: Seq<BackupView>,
)
    ensures
        name.len() > 0 ==> (named(name) matches OffChoiceView::Send(
            RequestView::SaveSessionAs { name: n },
        ) && n == name),
        name.len() == 0 ==> named(name) is Again,
        reset matches Some(n) ==> (confirmation(reset, backups) matches
            RequestView::ConfirmResetPreset { name: m, backups: b } && m == n && b == backups),
        reset is None ==> (confirmation(reset, backups) matches RequestView::ConfirmReset {
            backups: b,
        } && b == backups),
{
}

} // verus!
