//! Installing the daemon as a launchd LaunchAgent, and removing it: the agent's file, what
//! launchd's answers mean, and the order of the steps.

use vstd::prelude::*;
use vstd::string::*;
use crate::config::outcome;
use crate::error::{about, caused, EqError, ErrorView, Fault};
use crate::paths::label;
use crate::text::{
    characters, contains, glue, glue3, holds, is_part, is_white, signed_decimal, signed_digits,
    texts, trim, trimmed, white,
};

verus! {

/// How often a state is awaited before giving up.
pub const STARTUP_CHECKS: u32 = 20;

/// A failure in words.
pub open spec fn said(words: Seq<char>) -> ErrorView {
    about(Fault::Outside, words)
}

// --- the agent's file ------------------------------------------------------------------

/// The beginning of the file, up to the program's path.
pub open spec fn plist_head() -> Seq<char> {
    "<?xml version=\"1.0\" encoding=\"UTF-8\"?>\n<!DOCTYPE plist PUBLIC \"-//Apple//DTD PLIST 1.0//EN\" \"http://www.apple.com/DTDs/PropertyList-1.0.dtd\">\n<plist version=\"1.0\">\n<dict>\n    <key>Label</key>\n    <string>"@
}

/// The LaunchAgent that runs `bin` as the daemon, at login and always, with its output in
/// `log`.
pub open spec fn plist(bin: Seq<char>, log: Seq<char>) -> Seq<char> {
    plist_head() + label()
        + "</string>\n    <key>ProgramArguments</key>\n    <array>\n        <string>"@ + bin
        + "</string>\n        <string>daemon</string>\n    </array>\n    <key>RunAtLoad</key>\n    <true/>\n    <key>KeepAlive</key>\n    <true/>\n    <key>StandardOutPath</key>\n    <string>"@
        + log + "</string>\n    <key>StandardErrorPath</key>\n    <string>"@ + log
        + "</string>\n</dict>\n</plist>\n"@
}

/// The contents of the LaunchAgent's file.
pub fn plist_contents(bin: &str, log: &str) -> (t: String)
    ensures
        t@ == plist(bin@, log@),
{
    let mut t = glue(
        "<?xml version=\"1.0\" encoding=\"UTF-8\"?>\n<!DOCTYPE plist PUBLIC \"-//Apple//DTD PLIST 1.0//EN\" \"http://www.apple.com/DTDs/PropertyList-1.0.dtd\">\n<plist version=\"1.0\">\n<dict>\n    <key>Label</key>\n    <string>",
        "app.eqtune.daemon",
    );
    t.append("</string>\n    <key>ProgramArguments</key>\n    <array>\n        <string>");
    t.append(bin);
    t.append(
        "</string>\n        <string>daemon</string>\n    </array>\n    <key>RunAtLoad</key>\n    <true/>\n    <key>KeepAlive</key>\n    <true/>\n    <key>StandardOutPath</key>\n    <string>",
    );
    t.append(log);
    t.append("</string>\n    <key>StandardErrorPath</key>\n    <string>");
    t.append(log);
    t.append("</string>\n</dict>\n</plist>\n");
    t
}

// --- what launchd answers ------------------------------------------------------------------

/// Whether the service is loaded, from how the query ended: success means yes, the one known
/// way to say that there is no such service means no, and anything else is a failure.
pub open spec fn query_answer(
    success: bool,
    status_code: Option<i32>,
    stderr: Seq<char>,
) -> Result<bool, ErrorView> {
    if success {
        Ok(true)
    } else if status_code == Some(113i32) && holds(stderr, "Could not find service"@) {
        Ok(false)
    } else {
        Err(
            said(
                "could not query launchd service (status "@ + match status_code {
                    Some(code) => signed_digits(code as int),
                    None => "terminated by signal"@,
                } + "): "@ + trimmed(stderr),
            ),
        )
    }
}

/// Tell a loaded service, an absent one, and a failed query apart.
pub fn classify_service_query(success: bool, status_code: Option<i32>, stderr: &str) -> (r: Result<
    bool,
    EqError,
>)
    ensures
        outcome(r) == query_answer(success, status_code, stderr@),
{
    if success {
        return Ok(true);
    }
    let absent = match status_code {
        Some(code) => code == 113,
        None => false,
    };
    if absent && contains(stderr, "Could not find service") {
        return Ok(false);
    }
    let mut t = "could not query launchd service (status ".to_owned();
    match status_code {
        Some(code) => t.append(&signed_decimal(code)),
        None => t.append("terminated by signal"),
    }
    t.append("): ");
    t.append(&trim(stderr));
    Err(EqError::outside(t))
}

/// How a query of launchd ended: its success, its exit status, and what it wrote to its error
/// output; or why it could not be run.
#[derive(Debug)]
pub struct Answer {
    pub success: bool,
    pub status_code: Option<i32>,
    pub stdout: String,
    pub stderr: String,
}

/// Whether the service is loaded, where launchd could be asked.
pub fn query_service_loaded(answer: Result<Answer, String>) -> (r: Result<bool, EqError>)
    ensures
        outcome(r) == match answer {
            Ok(a) => query_answer(a.success, a.status_code, a.stderr@),
            Err(m) => Err(said(m@)),
        },
{
    match answer {
        Ok(a) => classify_service_query(a.success, a.status_code, &a.stderr),
        Err(m) => Err(EqError::outside(m)),
    }
}

/// Whether the service is known to be loaded.
pub fn service_is_loaded(answer: Result<Answer, String>) -> (r: bool)
    ensures
        r == match answer {
            Ok(a) => query_answer(a.success, a.status_code, a.stderr@) == Ok::<bool, ErrorView>(
                true,
            ),
            Err(_) => false,
        },
{
    match query_service_loaded(answer) {
        Ok(loaded) => loaded,
        Err(_) => false,
    }
}

/// `from..to` is a line of the text.
pub open spec fn is_line(t: Seq<char>, from: int, to: int) -> bool {
    &&& 0 <= from <= to <= t.len()
    &&& from == 0 || t[from - 1] == '\n'
    &&& to == t.len() || t[to] == '\n'
    &&& forall|i: int| from <= i < to ==> #[trigger] t[i] != '\n'
}

/// The word at the start of a text.
pub open spec fn leading_word(t: Seq<char>) -> Seq<char>
    decreases t.len(),
{
    if t.len() == 0 || white(t[0]) {
        Seq::empty()
    } else {
        seq![t[0]] + leading_word(t.drop_first())
    }
}

/// The first word of a text.
pub open spec fn first_word(t: Seq<char>) -> Seq<char>
    decreases t.len(),
{
    if t.len() > 0 && white(t[0]) {
        first_word(t.drop_first())
    } else {
        leading_word(t)
    }
}

/// The line gives the key `state` a value whose first word is `running`; `k` is the place of
/// its first equals sign.
pub open spec fn says_running(line: Seq<char>, k: int) -> bool {
    &&& 0 <= k < line.len()
    &&& line[k] == '='
    &&& forall|i: int| 0 <= i < k ==> #[trigger] line[i] != '='
    &&& trimmed(line.take(k)) == "state"@
    &&& first_word(line.skip(k + 1)) == "running"@
}

/// Some line says that the job is running.
pub open spec fn reports_running(t: Seq<char>) -> bool {
    exists|from: int, to: int, k: int| #[trigger]
        is_line(t, from, to) && #[trigger] says_running(t.subrange(from, to), k)
}

proof fn trimmed_start(t: Seq<char>, i: int)
    requires
        0 <= i <= t.len(),
        forall|j: int| 0 <= j < i ==> white(#[trigger] t[j]),
    ensures
        trimmed(t) == trimmed(t.skip(i)),
        first_word(t) == first_word(t.skip(i)),
    decreases i,
{
    if i > 0 {
        assert(white(t[0]));
        let d = t.drop_first();
        assert forall|j: int| 0 <= j < i - 1 implies white(#[trigger] d[j]) by {
            assert(white(t[j + 1]));
        }
        trimmed_start(d, i - 1);
        assert(d.skip(i - 1) =~= t.skip(i));
    } else {
        assert(t.skip(0) =~= t);
    }
}

proof fn trimmed_end(t: Seq<char>, n: int)
    requires
        0 <= n <= t.len(),
        n == 0 || (!white(t[0]) && !white(t[n - 1])),
        n > 0 || t.len() == 0,
        forall|j: int| n <= j < t.len() ==> white(#[trigger] t[j]),
    ensures
        trimmed(t) == t.take(n),
    decreases t.len() - n,
{
    if n < t.len() {
        assert(white(t.last()));
        let d = t.drop_last();
        assert forall|j: int| n <= j < d.len() implies white(#[trigger] d[j]) by {
            assert(white(t[j]));
        }
        trimmed_end(d, n);
        assert(d.take(n) =~= t.take(n));
    } else {
        assert(t.take(n) =~= t);
    }
}

proof fn leading_word_is(t: Seq<char>, n: int)
    requires
        0 <= n <= t.len(),
        forall|j: int| 0 <= j < n ==> !white(#[trigger] t[j]),
        n < t.len() ==> white(t[n]),
    ensures
        leading_word(t) == t.take(n),
    decreases n,
{
    if n > 0 {
        assert(!white(t[0]));
        let d = t.drop_first();
        assert forall|j: int| 0 <= j < n - 1 implies !white(#[trigger] d[j]) by {
            assert(!white(t[j + 1]));
        }
        leading_word_is(d, n - 1);
        assert(seq![t[0]] + d.take(n - 1) =~= t.take(n));
    } else {
        assert(t.take(0) =~= Seq::empty());
    }
}

/// Whether the characters `from..to`, without the white space at their ends, are `word`.
fn trims_to(v: &[char], from: usize, to: usize, word: &[char]) -> (r: bool)
    requires
        from <= to <= v.len(),
    ensures
        r == (trimmed(v@.subrange(from as int, to as int)) == word@),
{
    let ghost t = v@.subrange(from as int, to as int);
    let mut a: usize = from;
    while a < to && is_white(v[a])
        invariant
            from <= a <= to <= v.len(),
            t == v@.subrange(from as int, to as int),
            forall|j: int| 0 <= j < a - from ==> white(#[trigger] t[j]),
        decreases to - a,
    {
        assert(t[a - from] == v@[a as int]);
        a += 1;
    }
    let ghost u = t.skip(a - from);
    proof {
        trimmed_start(t, a - from);
        assert(u =~= v@.subrange(a as int, to as int));
    }
    let mut b: usize = to;
    while b > a && is_white(v[b - 1])
        invariant
            a <= b <= to <= v.len(),
            u == v@.subrange(a as int, to as int),
            forall|j: int| b - a <= j < u.len() ==> white(#[trigger] u[j]),
        decreases b,
    {
        assert(u[b - 1 - a] == v@[b - 1]);
        b -= 1;
    }
    proof {
        if a < to {
            assert(u[0] == v@[a as int]);
            assert(!white(u[0]));
            if b == a {
                assert(white(u[0]));
            }
            assert(u[b - a - 1] == v@[b - 1]);
        }
        trimmed_end(u, b - a);
        assert(u.take(b - a) =~= v@.subrange(a as int, b as int));
    }
    is_part(v, a, b, word)
}

/// Whether the first word of the characters `from..to` is `word`.
fn first_word_is(v: &[char], from: usize, to: usize, word: &[char]) -> (r: bool)
    requires
        from <= to <= v.len(),
    ensures
        r == (first_word(v@.subrange(from as int, to as int)) == word@),
{
    let ghost t = v@.subrange(from as int, to as int);
    let mut a: usize = from;
    while a < to && is_white(v[a])
        invariant
            from <= a <= to <= v.len(),
            t == v@.subrange(from as int, to as int),
            forall|j: int| 0 <= j < a - from ==> white(#[trigger] t[j]),
        decreases to - a,
    {
        assert(t[a - from] == v@[a as int]);
        a += 1;
    }
    let ghost u = t.skip(a - from);
    proof {
        trimmed_start(t, a - from);
        assert(u =~= v@.subrange(a as int, to as int));
        if a < to {
            assert(u[0] == v@[a as int]);
        }
    }
    let mut b: usize = a;
    while b < to && !is_white(v[b])
        invariant
            a <= b <= to <= v.len(),
            u == v@.subrange(a as int, to as int),
            forall|j: int| 0 <= j < b - a ==> !white(#[trigger] u[j]),
        decreases to - b,
    {
        assert(u[b - a] == v@[b as int]);
        b += 1;
    }
    proof {
        if b < to {
            assert(u[b - a] == v@[b as int]);
        }
        leading_word_is(u, b - a);
        assert(u.take(b - a) =~= v@.subrange(a as int, b as int));
    }
    is_part(v, a, b, word)
}

fn line_says_running(v: &[char], from: usize, to: usize, state: &[char], running: &[char]) -> (r:
    bool)
    requires
        from <= to <= v.len(),
        state@ == "state"@,
        running@ == "running"@,
    ensures
        r == exists|k: int| says_running(v@.subrange(from as int, to as int), k),
{
    let ghost line = v@.subrange(from as int, to as int);
    let mut k: usize = from;
    while k < to && v[k] != '='
        invariant
            from <= k <= to <= v.len(),
            line == v@.subrange(from as int, to as int),
            forall|i: int| 0 <= i < k - from ==> #[trigger] line[i] != '=',
        decreases to - k,
    {
        assert(line[k - from] == v@[k as int]);
        k += 1;
    }
    if k == to {
        return false;
    }
    let ghost place = k - from;
    proof {
        assert(line[place] == v@[k as int]);
        assert(line.take(place) =~= v@.subrange(from as int, k as int));
        assert(line.skip(place + 1) =~= v@.subrange(k + 1, to as int));
    }
    let r = trims_to(v, from, k, state) && first_word_is(v, k + 1, to, running);
    proof {
        if r {
            assert(says_running(line, place));
        }
        assert forall|j: int| says_running(line, j) implies j == place by {
            if j < place {
                assert(line[j] != '=');
            }
            if j > place {
                assert(line[place] != '=');
            }
        }
    }
    r
}

/// Whether the service's printed state says that the job is running: the key `state`, with
/// whatever white space around the equals sign, has a value whose first word is `running`.
pub fn service_state_is_running(output: &str) -> (r: bool)
    ensures
        r == reports_running(output@),
{
    let v = characters(output);
    let state = characters("state");
    let running = characters("running");
    let mut from: usize = 0;
    loop
        invariant
            from <= v.len(),
            v@ == output@,
            state@ == "state"@,
            running@ == "running"@,
            from == 0 || v@[from - 1] == '\n',
            forall|a: int, b: int, k: int| #[trigger]
                is_line(v@, a, b) && a < from ==> !#[trigger] says_running(v@.subrange(a, b), k),
        decreases v.len() - from,
    {
        let mut to: usize = from;
        while to < v.len() && v[to] != '\n'
            invariant
                from <= to <= v.len(),
                forall|i: int| from <= i < to ==> #[trigger] v@[i] != '\n',
            decreases v.len() - to,
        {
            to += 1;
        }
        assert(is_line(v@, from as int, to as int));
        if line_says_running(&v, from, to, &state, &running) {
            let ghost k = choose|k: int| says_running(v@.subrange(from as int, to as int), k);
            assert(says_running(v@.subrange(from as int, to as int), k));
            return true;
        }
        proof {
            assert forall|a: int, b: int, k: int| #[trigger]
                is_line(v@, a, b) && a <= to implies !#[trigger] says_running(
                v@.subrange(a, b),
                k,
            ) by {
                if a >= from {
                    if a > from {
                        assert(v@[a - 1] == '\n');
                    }
                    if b < to {
                        assert(v@[b] == '\n');
                    }
                    if b > to {
                        assert(v@[to as int] != '\n');
                    }
                }
            }
        }
        if to == v.len() {
            return false;
        }
        from = to + 1;
    }
}

/// Whether the service is known to be running.
pub fn service_is_running(answer: Result<Answer, String>) -> (r: bool)
    ensures
        r == match answer {
            Ok(a) => a.success && reports_running(a.stdout@),
            Err(_) => false,
        },
{
    match answer {
        Ok(a) => a.success && service_state_is_running(&a.stdout),
        Err(_) => false,
    }
}

// --- loading the daemon ----------------------------------------------------------------------

/// The launchctl arguments that (re)load the daemon: restart an already-loaded job in place,
/// otherwise bootstrap a fresh one.
pub open spec fn reload(
    is_loaded: bool,
    domain: Seq<char>,
    service: Seq<char>,
    plist: Seq<char>,
) -> Seq<Seq<char>> {
    if is_loaded {
        seq!["kickstart"@, "-k"@, service]
    } else {
        seq!["bootstrap"@, domain, plist]
    }
}

/// The launchctl arguments that (re)load the daemon.
pub fn reload_args(is_loaded: bool, domain: &str, service: &str, plist: &str) -> (v: Vec<String>)
    ensures
        texts(v@) == reload(is_loaded, domain@, service@, plist@),
{
    let mut v: Vec<String> = Vec::new();
    if is_loaded {
        v.push("kickstart".to_owned());
        v.push("-k".to_owned());
        v.push(service.to_owned());
    } else {
        v.push("bootstrap".to_owned());
        v.push(domain.to_owned());
        v.push(plist.to_owned());
    }
    assert(texts(v@) =~= reload(is_loaded, domain@, service@, plist@));
    v
}

/// The daemon's job: its domain, its service, and its file.
#[derive(Debug)]
pub struct Job {
    pub domain: String,
    pub service: String,
    pub plist: String,
}

/// How far loading the daemon has come.
#[derive(Clone, Copy, Debug, PartialEq, Eq, Structural)]
pub enum Phase {
    /// Restarting the loaded job in place.
    Restart,
    /// Waiting for the restarted job; so many checks failed.
    Restarted(u32),
    /// Unloading a job that did not come up.
    Unload,
    /// Loading the job afresh; so many attempts failed.
    Reload(u32),
    /// Loading the job for the first time.
    Load,
    /// Waiting for the loaded job; so many checks failed.
    Loaded(u32),
}

/// What is to be done next to load the daemon.
#[derive(Debug)]
pub enum LaunchStep {
    /// Run launchctl with these arguments, then [`launchctl_done`]. A failed attempt at
    /// reloading is followed by a pause.
    Launchctl { args: Vec<String>, phase: Phase },
    /// Ask whether the job is running, then [`state_checked`]. A check that fails is followed
    /// by a pause.
    Check(Phase),
    Finish(Result<(), EqError>),
}

/// What a [`LaunchStep`] holds.
pub ghost enum LaunchView {
    Launchctl { args: Seq<Seq<char>>, phase: Phase },
    Check(Phase),
    Finish(Result<(), ErrorView>),
}

impl View for LaunchStep {
    type V = LaunchView;

    open spec fn view(&self) -> LaunchView {
        match self {
            LaunchStep::Launchctl { args, phase } => LaunchView::Launchctl {
                args: texts(args@),
                phase: *phase,
            },
            LaunchStep::Check(phase) => LaunchView::Check(*phase),
            LaunchStep::Finish(r) => LaunchView::Finish(outcome(*r)),
        }
    }
}

/// How a run of launchctl ended: with success or not and its status in words; or it could not
/// be run.
#[derive(Debug)]
pub enum Ended {
    Success,
    Failure(String),
    NotRun(String),
}

/// The first step: restart a loaded job in place, or else load it.
pub open spec fn first_launch(loaded: bool, job: Job) -> LaunchView {
    LaunchView::Launchctl {
        args: reload(loaded, job.domain@, job.service@, job.plist@),
        phase: if loaded {
            Phase::Restart
        } else {
            Phase::Load
        },
    }
}

/// Loading the job afresh.
pub open spec fn reloading(job: Job, attempts: u32) -> LaunchView {
    LaunchView::Launchctl {
        args: reload(false, job.domain@, ""@, job.plist@),
        phase: Phase::Reload(attempts),
    }
}

/// What follows from a run of launchctl.
pub open spec fn after_launchctl(phase: Phase, ended: Ended, job: Job) -> LaunchView {
    match phase {
        Phase::Unload => reloading(job, 0),
        Phase::Reload(n) => match ended {
            Ended::Success => LaunchView::Check(Phase::Loaded(0)),
            Ended::NotRun(m) => LaunchView::Finish(Err(said(m@))),
            Ended::Failure(status) => if n + 1 < STARTUP_CHECKS {
                reloading(job, (n + 1) as u32)
            } else {
                LaunchView::Finish(
                    Err(
                        said(
                            "launchctl bootstrap failed after retrying ("@ + status@ + ")"@,
                        ),
                    ),
                )
            },
        },
        _ => match ended {
            Ended::Success => LaunchView::Check(
                if phase == Phase::Restart {
                    Phase::Restarted(0)
                } else {
                    Phase::Loaded(0)
                },
            ),
            Ended::NotRun(m) => LaunchView::Finish(Err(said(m@))),
            Ended::Failure(status) => LaunchView::Finish(
                Err(
                    said(
                        if phase == Phase::Restart {
                            "launchctl kickstart failed ("@
                        } else {
                            "launchctl bootstrap failed ("@
                        } + status@ + ")"@,
                    ),
                ),
            ),
        },
    }
}

/// What follows from a check of the job's state. A restarted job that does not come up is
/// unloaded and loaded afresh.
pub open spec fn after_check(phase: Phase, running: bool, job: Job) -> LaunchView {
    if running {
        LaunchView::Finish(Ok(()))
    } else {
        match phase {
            Phase::Restarted(n) => if n + 1 < STARTUP_CHECKS {
                LaunchView::Check(Phase::Restarted((n + 1) as u32))
            } else {
                LaunchView::Launchctl {
                    args: seq!["bootout"@, job.service@],
                    phase: Phase::Unload,
                }
            },
            Phase::Loaded(n) if n + 1 < STARTUP_CHECKS => LaunchView::Check(
                Phase::Loaded((n + 1) as u32),
            ),
            _ => LaunchView::Finish(
                Err(
                    said(
                        "launchd loaded "@ + label()
                            + ", but the daemon did not reach the running state"@,
                    ),
                ),
            ),
        }
    }
}

/// Load the daemon: prefer a restart in place of an already-loaded job, which does not race the
/// job's own shutdown.
pub fn load_or_restart_daemon(loaded: bool, job: &Job) -> (s: LaunchStep)
    ensures
        s@ == first_launch(loaded, *job),
{
    let args = reload_args(loaded, &job.domain, &job.service, &job.plist);
    let phase = if loaded {
        Phase::Restart
    } else {
        Phase::Load
    };
    LaunchStep::Launchctl { args, phase }
}

fn bootstrap_again(job: &Job, attempts: u32) -> (s: LaunchStep)
    ensures
        s@ == reloading(*job, attempts),
{
    LaunchStep::Launchctl {
        args: reload_args(false, &job.domain, "", &job.plist),
        phase: Phase::Reload(attempts),
    }
}

/// A run of launchctl ended.
pub fn launchctl_done(phase: Phase, ended: Ended, job: &Job) -> (s: LaunchStep)
    ensures
        s@ == after_launchctl(phase, ended, *job),
{
    match phase {
        Phase::Unload => bootstrap_again(job, 0),
        Phase::Reload(n) => match ended {
            Ended::Success => LaunchStep::Check(Phase::Loaded(0)),
            Ended::NotRun(m) => LaunchStep::Finish(Err(EqError::outside(m))),
            Ended::Failure(status) => {
                if n < STARTUP_CHECKS - 1 {
                    bootstrap_again(job, n + 1)
                } else {
                    LaunchStep::Finish(
                        Err(
                            EqError::outside(
                                glue3("launchctl bootstrap failed after retrying (", &status, ")"),
                            ),
                        ),
                    )
                }
            },
        },
        _ => {
            let restart = match phase {
                Phase::Restart => true,
                _ => false,
            };
            match ended {
                Ended::Success => {
                    if restart {
                        LaunchStep::Check(Phase::Restarted(0))
                    } else {
                        LaunchStep::Check(Phase::Loaded(0))
                    }
                },
                Ended::NotRun(m) => LaunchStep::Finish(Err(EqError::outside(m))),
                Ended::Failure(status) => {
                    let words = if restart {
                        "launchctl kickstart failed ("
                    } else {
                        "launchctl bootstrap failed ("
                    };
                    LaunchStep::Finish(Err(EqError::outside(glue3(words, &status, ")"))))
                },
            }
        },
    }
}

/// The job's state was checked.
pub fn state_checked(phase: Phase, running: bool, job: &Job) -> (s: LaunchStep)
    ensures
        s@ == after_check(phase, running, *job),
{
    if running {
        return LaunchStep::Finish(Ok(()));
    }
    match phase {
        Phase::Restarted(n) => {
            if n < STARTUP_CHECKS - 1 {
                return LaunchStep::Check(Phase::Restarted(n + 1));
            }
            let mut args: Vec<String> = Vec::new();
            args.push("bootout".to_owned());
            args.push(job.service.clone());
            assert(texts(args@) =~= seq!["bootout"@, job.service@]);
            return LaunchStep::Launchctl { args, phase: Phase::Unload };
        },
        Phase::Loaded(n) => {
            if n < STARTUP_CHECKS - 1 {
                return LaunchStep::Check(Phase::Loaded(n + 1));
            }
        },
        _ => {},
    }
    LaunchStep::Finish(
        Err(
            EqError::outside(
                glue3(
                    "launchd loaded ",
                    "app.eqtune.daemon",
                    ", but the daemon did not reach the running state",
                ),
            ),
        ),
    )
}

/// How many more steps loading can take from a phase.
pub open spec fn steps_left(phase: Phase) -> int {
    match phase {
        Phase::Restart => 62,
        Phase::Restarted(n) => 61 - n,
        Phase::Unload => 41,
        Phase::Reload(n) => 40 - n,
        Phase::Load => 40,
        Phase::Loaded(n) => 20 - n,
    }
}

/// The phase of a step.
pub open spec fn phase_of(s: LaunchView) -> Option<Phase> {
    match s {
        LaunchView::Launchctl { phase, .. } => Some(phase),
        LaunchView::Check(phase) => Some(phase),
        LaunchView::Finish(_) => None,
    }
}

/// The counters of a phase are below their bound.
pub open spec fn bounded(phase: Phase) -> bool {
    match phase {
        Phase::Restarted(n) => n < STARTUP_CHECKS,
        Phase::Reload(n) => n < STARTUP_CHECKS,
        Phase::Loaded(n) => n < STARTUP_CHECKS,
        _ => true,
    }
}

/// Loading the daemon comes to an end: every step leaves fewer steps to go, whatever launchd
/// answers.
pub proof fn loading_ends(phase: Phase, ended: Ended, running: bool, job: Job)
    requires
        bounded(phase),
    ensures
        steps_left(phase) > 0,
        phase_of(after_launchctl(phase, ended, job)) matches Some(p) ==> bounded(p) && (phase
            is Restart || phase is Unload || phase is Reload || phase is Load ==> steps_left(p)
            < steps_left(phase)),
        phase_of(after_check(phase, running, job)) matches Some(p) ==> bounded(p) && steps_left(p)
            < steps_left(phase),
{
}

// --- removing the daemon -----------------------------------------------------------------------

/// What is to be done next to remove the daemon.
#[derive(Debug)]
pub enum UninstallStep {
    /// Ask whether the service is loaded, then [`uninstall_queried`].
    Query,
    /// Unload the service with launchctl, then [`uninstall_unloaded`].
    Bootout,
    /// Remove the LaunchAgent, then [`uninstall_agent_removed`].
    RemoveAgent,
    /// Remove the installed binary, then [`uninstall_binary_removed`].
    RemoveBinary,
    Finish(Result<(), EqError>),
}

/// What an [`UninstallStep`] holds.
pub ghost enum UninstallView {
    Query,
    Bootout,
    RemoveAgent,
    RemoveBinary,
    Finish(Result<(), ErrorView>),
}

impl View for UninstallStep {
    type V = UninstallView;

    open spec fn view(&self) -> UninstallView {
        match self {
            UninstallStep::Query => UninstallView::Query,
            UninstallStep::Bootout => UninstallView::Bootout,
            UninstallStep::RemoveAgent => UninstallView::RemoveAgent,
            UninstallStep::RemoveBinary => UninstallView::RemoveBinary,
            UninstallStep::Finish(r) => UninstallView::Finish(outcome(*r)),
        }
    }
}

/// What removing a file came to.
#[derive(Debug)]
pub enum Removed {
    Gone,
    /// It was not there.
    Missing,
    /// It is still there, for this reason.
    Failed(String),
}

/// Stop and remove the LaunchAgent and the installed binary: the first step. The config is left
/// in place.
pub fn uninstall() -> (s: UninstallStep)
    ensures
        s@ == UninstallView::Query,
{
    UninstallStep::Query
}

/// What follows from launchd's answer whether the service is loaded.
pub open spec fn after_query(loaded: Result<bool, ErrorView>) -> UninstallView {
    match loaded {
        Ok(true) => UninstallView::Bootout,
        Ok(false) => UninstallView::RemoveAgent,
        Err(e) => UninstallView::Finish(Err(e)),
    }
}

/// What follows from unloading the service.
pub open spec fn after_unload(ended: Ended) -> UninstallView {
    match ended {
        Ended::Success => UninstallView::RemoveAgent,
        Ended::Failure(status) => UninstallView::Finish(
            Err(said("launchctl bootout failed ("@ + status@ + ")"@)),
        ),
        Ended::NotRun(m) => UninstallView::Finish(Err(said(m@))),
    }
}

/// launchd said whether the service is loaded, or could not be asked. Nothing is deleted on a
/// guess.
pub fn uninstall_queried(loaded: Result<bool, EqError>) -> (s: UninstallStep)
    ensures
        s@ == after_query(outcome(loaded)),
{
    match loaded {
        Ok(true) => UninstallStep::Bootout,
        Ok(false) => UninstallStep::RemoveAgent,
        Err(e) => UninstallStep::Finish(Err(e)),
    }
}

/// The service was unloaded, or not.
pub fn uninstall_unloaded(ended: Ended) -> (s: UninstallStep)
    ensures
        s@ == after_unload(ended),
{
    match ended {
        Ended::Success => UninstallStep::RemoveAgent,
        Ended::Failure(status) => UninstallStep::Finish(
            Err(EqError::outside(glue3("launchctl bootout failed (", &status, ")"))),
        ),
        Ended::NotRun(m) => UninstallStep::Finish(Err(EqError::outside(m))),
    }
}

/// A file that is to go, and is gone or was never there, is removed.
pub open spec fn file_removed(
    removed: Removed,
    description: Seq<char>,
    path: Seq<char>,
) -> Result<(), ErrorView> {
    match removed {
        Removed::Failed(why) => Err(
            caused("could not remove "@ + description + " "@ + path, why@),
        ),
        _ => Ok(()),
    }
}

/// Whether a file that is to go is gone.
pub fn remove_file_if_exists(removed: Removed, description: &str, path: &str) -> (r: Result<
    (),
    EqError,
>)
    ensures
        outcome(r) == file_removed(removed, description@, path@),
{
    match removed {
        Removed::Failed(why) => {
            let mut t = glue3("could not remove ", description, " ");
            t.append(path);
            Err(EqError::caused(t, why))
        },
        _ => Ok(()),
    }
}

/// What follows from removing the LaunchAgent.
pub open spec fn after_agent(removed: Removed, path: Seq<char>) -> UninstallView {
    match file_removed(removed, "LaunchAgent plist"@, path) {
        Ok(()) => UninstallView::RemoveBinary,
        Err(e) => UninstallView::Finish(Err(e)),
    }
}

/// What follows from removing the installed binary.
pub open spec fn after_binary(removed: Removed, path: Seq<char>) -> UninstallView {
    UninstallView::Finish(file_removed(removed, "installed binary"@, path))
}

/// The LaunchAgent was removed, or not.
pub fn uninstall_agent_removed(removed: Removed, path: &str) -> (s: UninstallStep)
    ensures
        s@ == after_agent(removed, path@),
{
    match remove_file_if_exists(removed, "LaunchAgent plist", path) {
        Ok(()) => UninstallStep::RemoveBinary,
        Err(e) => UninstallStep::Finish(Err(e)),
    }
}

/// The installed binary was removed, or not.
pub fn uninstall_binary_removed(removed: Removed, path: &str) -> (s: UninstallStep)
    ensures
        s@ == after_binary(removed, path@),
{
    UninstallStep::Finish(remove_file_if_exists(removed, "installed binary", path))
}

// --- installing the binary ---------------------------------------------------------------------

/// A stage of putting the binary in its place. All but the last work on a staged copy.
#[derive(Clone, Copy, Debug, PartialEq, Eq, Structural)]
pub enum Stage {
    /// Copy the binary to the staging path.
    Copy,
    /// Make the copy executable.
    SetMode,
    /// Sign the copy.
    Sign,
    /// Rename the copy into its place.
    Rename,
}

/// What is to be done next to install the binary.
#[derive(Debug)]
pub enum InstallStep {
    /// Carry out a stage, then [`stage_done`].
    Do(Stage),
    /// Remove the staged copy, whether that works or not, then [`staging_discarded`].
    Discard(EqError),
    /// Whether the binary was copied.
    Finish(Result<bool, EqError>),
}

/// What an [`InstallStep`] holds.
pub ghost enum InstallView {
    Do(Stage),
    Discard(ErrorView),
    Finish(Result<bool, ErrorView>),
}

impl View for InstallStep {
    type V = InstallView;

    open spec fn view(&self) -> InstallView {
        match self {
            InstallStep::Do(stage) => InstallView::Do(*stage),
            InstallStep::Discard(e) => InstallView::Discard(e@),
            InstallStep::Finish(r) => InstallView::Finish(outcome(*r)),
        }
    }
}

/// Whether two files are one: the same device, and the same number on it.
pub fn same_file(a: (u64, u64), b: Option<(u64, u64)>) -> (r: bool)
    ensures
        r == (b == Some(a)),
{
    match b {
        Some(b) => a.0 == b.0 && a.1 == b.1,
        None => false,
    }
}

/// What follows from comparing the binary with its destination.
pub open spec fn first_stage(same: Result<bool, ErrorView>) -> InstallView {
    match same {
        Ok(true) => InstallView::Finish(Ok(false)),
        Ok(false) => InstallView::Do(Stage::Copy),
        Err(e) => InstallView::Finish(Err(e)),
    }
}

/// Install the binary: the first step. A binary that is its own destination is left alone.
pub fn install_binary(same: Result<bool, EqError>) -> (s: InstallStep)
    ensures
        s@ == first_stage(outcome(same)),
{
    match same {
        Ok(true) => InstallStep::Finish(Ok(false)),
        Ok(false) => InstallStep::Do(Stage::Copy),
        Err(e) => InstallStep::Finish(Err(e)),
    }
}

/// What follows from a stage: the next one, or the end of the staged copy.
pub open spec fn after_stage(stage: Stage, r: Result<(), ErrorView>) -> InstallView {
    match r {
        Err(e) => InstallView::Discard(e),
        Ok(()) => match stage {
            Stage::Copy => InstallView::Do(Stage::SetMode),
            Stage::SetMode => InstallView::Do(Stage::Sign),
            Stage::Sign => InstallView::Do(Stage::Rename),
            Stage::Rename => InstallView::Finish(Ok(true)),
        },
    }
}

/// A stage was carried out, or failed.
pub fn stage_done(stage: Stage, r: Result<(), EqError>) -> (s: InstallStep)
    ensures
        s@ == after_stage(stage, outcome(r)),
{
    match r {
        Err(e) => InstallStep::Discard(e),
        Ok(()) => match stage {
            Stage::Copy => InstallStep::Do(Stage::SetMode),
            Stage::SetMode => InstallStep::Do(Stage::Sign),
            Stage::Sign => InstallStep::Do(Stage::Rename),
            Stage::Rename => InstallStep::Finish(Ok(true)),
        },
    }
}

/// The staged copy was discarded: the installation failed.
pub fn staging_discarded(e: EqError) -> (s: InstallStep)
    ensures
        s@ == InstallView::Finish(Err(e@)),
{
    InstallStep::Finish(Err(e))
}

/// What to say of a failed signature.
pub fn signing_result(success: bool, path: &str, status: &str, stderr: &str) -> (r: Result<
    (),
    EqError,
>)
    ensures
        outcome(r) == if success {
            Ok::<(), ErrorView>(())
        } else {
            Err(
                said(
                    "codesign failed for "@ + path@ + " ("@ + status@ + "): "@ + trimmed(stderr@),
                ),
            )
        },
{
    if success {
        return Ok(());
    }
    let mut t = glue3("codesign failed for ", path, " (");
    t.append(status);
    t.append("): ");
    t.append(&trim(stderr));
    Err(EqError::outside(t))
}

/// The installed binary is replaced only by a signed copy: the rename comes after a signature
/// that succeeded and nothing else, and whatever fails, the staged copy is discarded.
pub proof fn only_a_signed_binary_is_installed(stage: Stage, r: Result<(), ErrorView>)
    ensures
        after_stage(stage, r) == InstallView::Do(Stage::Rename) <==> stage == Stage::Sign && r is Ok,
        r matches Err(e) ==> after_stage(stage, r) == InstallView::Discard(e),
        after_stage(stage, r) is Finish <==> stage == Stage::Rename && r is Ok,
{
}

/// launchd's answer is taken for what it says: loaded exactly on success, absent exactly on the
/// one known way to say so, and otherwise unknown.
pub proof fn answers_are_not_guessed(success: bool, status_code: Option<i32>, stderr: Seq<char>)
    ensures
        query_answer(success, status_code, stderr) == Ok::<bool, ErrorView>(true) <==> success,
        query_answer(success, status_code, stderr) == Ok::<bool, ErrorView>(false) <==> !success
            && status_code == Some(113i32) && holds(stderr, "Could not find service"@),
{
}

/// A loaded job is restarted in place, by its service; one that is not loaded is loaded from its
/// file, in its domain. A job that was restarted and does not come up is unloaded, and loaded
/// afresh whether unloading worked or not.
pub proof fn how_the_daemon_is_loaded(job: Job, ended: Ended, n: u32)
    ensures
        first_launch(true, job) matches LaunchView::Launchctl { args, phase } && phase
            == Phase::Restart && args.len() == 3 && args[0] == "kickstart"@ && args[1] == "-k"@
            && args[2] == job.service@,
        first_launch(false, job) matches LaunchView::Launchctl { args, phase } && phase
            == Phase::Load && args.len() == 3 && args[0] == "bootstrap"@ && args[1]
            == job.domain@ && args[2] == job.plist@,
        after_check(Phase::Restarted(19), false, job) matches LaunchView::Launchctl {
            args,
            phase,
        } && phase == Phase::Unload && args.len() == 2 && args[0] == "bootout"@ && args[1]
            == job.service@,
        n < 19 ==> after_check(Phase::Restarted(n), false, job) == LaunchView::Check(
            Phase::Restarted((n + 1) as u32),
        ),
        after_launchctl(Phase::Unload, ended, job) matches LaunchView::Launchctl { args, phase }
            && phase == Phase::Reload(0) && args.len() == 3 && args[0] == "bootstrap"@ && args[1]
            == job.domain@ && args[2] == job.plist@,
{
}

/// Loading succeeds only once the job was seen running, and always then; a run of launchctl
/// alone is no success. A failed run ends it, but for the first twenty attempts at loading a
/// job afresh.
pub proof fn only_a_running_daemon_is_a_success(
    phase: Phase,
    ended: Ended,
    running: bool,
    job: Job,
)
    ensures
        after_check(phase, running, job) == LaunchView::Finish(Ok::<(), ErrorView>(())) <==> running,
        after_launchctl(phase, ended, job) != LaunchView::Finish(Ok::<(), ErrorView>(())),
        ended is Success && !(phase is Unload) ==> after_launchctl(phase, ended, job) is Check,
        ended is NotRun && !(phase is Unload) ==> after_launchctl(phase, ended, job) is Finish,
        ended is Failure && !(phase is Unload) && !(phase is Reload) ==> after_launchctl(
            phase,
            ended,
            job,
        ) is Finish,
        phase matches Phase::Reload(n) ==> ended is Failure ==> (after_launchctl(
            phase,
            ended,
            job,
        ) is Finish <==> n >= 19),
        phase matches Phase::Loaded(n) ==> !running ==> (after_check(phase, running, job) is Finish
            <==> n >= 19),
{
}

/// Uninstalling deletes nothing before the service is known not to run: the agent's file goes
/// once launchd said that the service is not loaded, or unloaded it, and the binary goes after
/// the agent's file. It succeeds only when both are gone, and whatever fails ends it.
pub proof fn nothing_is_deleted_under_a_running_daemon(
    loaded: Result<bool, ErrorView>,
    ended: Ended,
    removed: Removed,
    path: Seq<char>,
)
    ensures
        after_query(loaded) == UninstallView::RemoveAgent <==> loaded == Ok::<bool, ErrorView>(
            false,
        ),
        after_query(loaded) == UninstallView::Bootout <==> loaded == Ok::<bool, ErrorView>(true),
        after_query(loaded) != UninstallView::RemoveBinary,
        after_query(loaded) != UninstallView::Finish(Ok::<(), ErrorView>(())),
        after_unload(ended) == UninstallView::RemoveAgent <==> ended is Success,
        after_unload(ended) is RemoveAgent || (after_unload(ended) matches UninstallView::Finish(
            Err(_),
        )),
        after_agent(removed, path) == UninstallView::RemoveBinary <==> !(removed is Failed),
        removed is Failed ==> (after_agent(removed, path) matches UninstallView::Finish(Err(_))),
        after_binary(removed, path) == UninstallView::Finish(Ok::<(), ErrorView>(())) <==> !(
        removed is Failed),
{
}

/// A failure to remove a file names the file and keeps the cause.
pub proof fn a_file_that_stayed_is_told(
    why: String,
    description: Seq<char>,
    path: Seq<char>,
)
    ensures
        file_removed(Removed::Failed(why), description, path) matches Err(e) && e.detail == why@
            && holds(e.subject, path) && holds(e.subject, description),
{
    let a = "could not remove "@;
    let t = a + description + " "@ + path;
    assert(t.subrange(a.len() as int, (a.len() + description.len()) as int) =~= description);
    assert(crate::text::stands_at(t, description, a.len() as int));
    assert(t.subrange(t.len() - path.len(), t.len() as int) =~= path);
    assert(crate::text::stands_at(t, path, t.len() - path.len()));
}

/// Installing over itself does nothing; otherwise the binary is copied, made executable, and
/// signed, in this order, before it is renamed into its place.
pub proof fn how_the_binary_is_installed(same: Result<bool, ErrorView>)
    ensures
        same == Ok::<bool, ErrorView>(true) ==> first_stage(same) == InstallView::Finish(
            Ok::<bool, ErrorView>(false),
        ),
        same == Ok::<bool, ErrorView>(false) ==> first_stage(same) == InstallView::Do(Stage::Copy),
        same is Err ==> (first_stage(same) matches InstallView::Finish(Err(_))),
        after_stage(Stage::Copy, Ok(())) == InstallView::Do(Stage::SetMode),
        after_stage(Stage::SetMode, Ok(())) == InstallView::Do(Stage::Sign),
        after_stage(Stage::Sign, Ok(())) == InstallView::Do(Stage::Rename),
        after_stage(Stage::Rename, Ok(())) == InstallView::Finish(Ok::<bool, ErrorView>(true)),
{
}

/// The agent's file names the binary as the program and the log as its output, wherever they
/// are.
pub proof fn the_agent_runs_the_binary(bin: Seq<char>, log: Seq<char>)
    ensures
        holds(plist(bin, log), "<string>"@ + bin + "</string>\n        <string>daemon</string>"@),
        holds(plist(bin, log), "<string>"@ + log + "</string>"@),
        holds(plist(bin, log), label()),
{
    let a = plist_head() + label();
    let b = "</string>\n    <key>ProgramArguments</key>\n    <array>\n        <string>"@;
    let c = "</string>\n        <string>daemon</string>\n    </array>\n    <key>RunAtLoad</key>\n    <true/>\n    <key>KeepAlive</key>\n    <true/>\n    <key>StandardOutPath</key>\n    <string>"@;
    let d = "</string>\n    <key>StandardErrorPath</key>\n    <string>"@;
    let t = plist(bin, log);
    reveal_strlit(
        "</string>\n    <key>ProgramArguments</key>\n    <array>\n        <string>",
    );
    reveal_strlit(
        "</string>\n        <string>daemon</string>\n    </array>\n    <key>RunAtLoad</key>\n    <true/>\n    <key>KeepAlive</key>\n    <true/>\n    <key>StandardOutPath</key>\n    <string>",
    );
    reveal_strlit("</string>\n    <key>StandardErrorPath</key>\n    <string>");
    reveal_strlit("<string>");
    reveal_strlit("</string>");
    reveal_strlit("</string>\n        <string>daemon</string>");
    let x = "<string>"@ + bin + "</string>\n        <string>daemon</string>"@;
    let i = a.len() + b.len() - 8;
    assert(t.subrange(i, i + x.len()) =~= x);
    assert(crate::text::stands_at(t, x, i));
    let y = "<string>"@ + log + "</string>"@;
    let j = a.len() + b.len() + bin.len() + c.len() - 8;
    assert(t.subrange(j, j + y.len()) =~= y);
    assert(crate::text::stands_at(t, y, j));
    let k = plist_head().len() as int;
    assert(t.subrange(k, k + label().len()) =~= label());
    assert(crate::text::stands_at(t, label(), k));
}

/// The first word of a text has no white space in it, comes after nothing but white space, and
/// ends at white space or with the text.
pub proof fn the_first_word(t: Seq<char>) -> (k: int)
    ensures
        0 <= k,
        k + first_word(t).len() <= t.len(),
        first_word(t) == t.subrange(k, k + first_word(t).len()),
        forall|i: int| 0 <= i < k ==> white(#[trigger] t[i]),
        forall|i: int| 0 <= i < first_word(t).len() ==> !white(#[trigger] first_word(t)[i]),
        k + first_word(t).len() < t.len() ==> white(t[k + first_word(t).len()]),
    decreases t.len(),
{
    if t.len() > 0 && white(t[0]) {
        let d = t.drop_first();
        let k = the_first_word(d);
        let n = first_word(t).len();
        assert(t.subrange(k + 1, k + 1 + n) =~= d.subrange(k, k + n));
        assert forall|i: int| 0 <= i < k + 1 implies white(#[trigger] t[i]) by {
            if i > 0 {
                assert(d[i - 1] == t[i]);
            }
        }
        k + 1
    } else {
        the_word_at_the_start(t);
        0
    }
}

proof fn the_word_at_the_start(t: Seq<char>)
    ensures
        leading_word(t).len() <= t.len(),
        leading_word(t) == t.subrange(0, leading_word(t).len() as int),
        forall|i: int| 0 <= i < leading_word(t).len() ==> !white(#[trigger] leading_word(t)[i]),
        leading_word(t).len() < t.len() ==> white(t[leading_word(t).len() as int]),
    decreases t.len(),
{
    if t.len() > 0 && !white(t[0]) {
        let d = t.drop_first();
        the_word_at_the_start(d);
        let w = leading_word(t);
        assert(w =~= t.subrange(0, w.len() as int));
        assert forall|i: int| 0 <= i < w.len() implies !white(#[trigger] w[i]) by {
            if i > 0 {
                assert(w[i] == leading_word(d)[i - 1]);
            }
        }
    } else {
        assert(leading_word(t) =~= t.subrange(0, 0));
    }
}

} // verus!
