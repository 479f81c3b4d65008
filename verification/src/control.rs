//! Taking the control socket at the daemon's start, without deleting a live daemon's endpoint
//! or anything that is not a stale socket.

use vstd::prelude::*;
use vstd::string::*;
use crate::config::outcome;
use crate::error::{about, caused, EqError, ErrorView, Fault};
use crate::text::{glue, holds, optional, stands_at};

verus! {

/// What binding the socket came to. A failure has its reason.
#[derive(Debug)]
pub enum Binding {
    Bound,
    /// The address is in use.
    InUse(String),
    Failed(String),
}

/// What stands at the socket's path.
#[derive(Debug)]
pub enum Found {
    Socket,
    /// Something that is not a socket.
    Other,
    Missing,
    /// It cannot be told, for this reason.
    Failed(String),
}

/// What connecting to the socket came to.
#[derive(Debug)]
pub enum Probe {
    Connected,
    Missing,
    /// Nobody listens.
    Refused,
    /// It failed otherwise, for this reason.
    Failed(String),
}

/// What is to be done next to take the socket.
#[derive(Debug)]
pub enum BindStep {
    /// Bind the socket; `last` says that a failure is final. Then [`bind_tried`].
    Bind { last: bool },
    /// Look what stands at the path; `again` says that a probe was refused before. Then
    /// [`path_inspected`].
    Inspect { again: bool },
    /// Connect to the socket, then [`socket_probed`].
    Probe,
    /// Remove the stale socket, then [`stale_removed`].
    Remove,
    /// The socket that was bound is this daemon's.
    Bound,
    Fail(EqError),
}

/// What a [`BindStep`] holds.
pub ghost enum BindView {
    Bind { last: bool },
    Inspect { again: bool },
    Probe,
    Remove,
    Bound,
    Fail(ErrorView),
}

impl View for BindStep {
    type V = BindView;

    open spec fn view(&self) -> BindView {
        match self {
            BindStep::Bind { last } => BindView::Bind { last: *last },
            BindStep::Inspect { again } => BindView::Inspect { again: *again },
            BindStep::Probe => BindView::Probe,
            BindStep::Remove => BindView::Remove,
            BindStep::Bound => BindView::Bound,
            BindStep::Fail(e) => BindView::Fail(e@),
        }
    }
}

/// A failure with the path it is about.
pub open spec fn failing(words: Seq<char>, path: Seq<char>) -> BindView {
    BindView::Fail(about(Fault::Outside, words + path))
}

/// A failure with the path it is about and its cause.
pub open spec fn failing_for(words: Seq<char>, path: Seq<char>, cause: Seq<char>) -> BindView {
    BindView::Fail(caused(words + path, cause))
}

/// What follows from trying to bind.
pub open spec fn after_bind(last: bool, b: Binding, path: Seq<char>) -> BindView {
    match b {
        Binding::Bound => BindView::Bound,
        Binding::InUse(why) => if last {
            failing_for("could not bind control socket "@, path, why@)
        } else {
            BindView::Inspect { again: false }
        },
        Binding::Failed(why) => failing_for("could not bind control socket "@, path, why@),
    }
}

/// What follows from what stands at the path.
pub open spec fn after_inspection(again: bool, found: Found, path: Seq<char>) -> BindView {
    match found {
        Found::Socket => if again {
            BindView::Remove
        } else {
            BindView::Probe
        },
        Found::Other => if again {
            failing("control socket path changed to a non-socket while probing: "@, path)
        } else {
            failing("control socket path exists but is not a Unix socket: "@, path)
        },
        Found::Missing => BindView::Bind { last: true },
        Found::Failed(why) => if again {
            failing_for("could not recheck control socket "@, path, why@)
        } else {
            failing_for("could not inspect control socket "@, path, why@)
        },
    }
}

/// What follows from connecting.
pub open spec fn after_probe(probe: Probe, path: Seq<char>) -> BindView {
    match probe {
        Probe::Connected => failing("another eqtune daemon is already listening on "@, path),
        Probe::Missing => BindView::Bind { last: true },
        Probe::Refused => BindView::Inspect { again: true },
        Probe::Failed(why) => failing_for(
            "could not probe existing control socket "@,
            path,
            why@,
        ),
    }
}

fn fail(words: &str, path: &str) -> (s: BindStep)
    ensures
        s@ == failing(words@, path@),
{
    BindStep::Fail(EqError::outside(glue(words, path)))
}

fn fail_for(words: &str, path: &str, why: String) -> (s: BindStep)
    ensures
        s@ == failing_for(words@, path@, why@),
{
    BindStep::Fail(EqError::caused(glue(words, path), why))
}

/// Bind the control socket without deleting a live daemon's endpoint: the first step.
pub fn bind_control_listener() -> (s: BindStep)
    ensures
        s@ == (BindView::Bind { last: false }),
{
    BindStep::Bind { last: false }
}

/// Binding was tried.
pub fn bind_tried(last: bool, b: Binding, path: &str) -> (s: BindStep)
    ensures
        s@ == after_bind(last, b, path@),
{
    match b {
        Binding::Bound => BindStep::Bound,
        Binding::InUse(why) => {
            if last {
                fail_for("could not bind control socket ", path, why)
            } else {
                BindStep::Inspect { again: false }
            }
        },
        Binding::Failed(why) => fail_for("could not bind control socket ", path, why),
    }
}

/// The path was looked at.
pub fn path_inspected(again: bool, found: Found, path: &str) -> (s: BindStep)
    ensures
        s@ == after_inspection(again, found, path@),
{
    match found {
        Found::Socket => {
            if again {
                BindStep::Remove
            } else {
                BindStep::Probe
            }
        },
        Found::Other => {
            if again {
                fail("control socket path changed to a non-socket while probing: ", path)
            } else {
                fail("control socket path exists but is not a Unix socket: ", path)
            }
        },
        Found::Missing => BindStep::Bind { last: true },
        Found::Failed(why) => {
            if again {
                fail_for("could not recheck control socket ", path, why)
            } else {
                fail_for("could not inspect control socket ", path, why)
            }
        },
    }
}

/// Connecting was tried.
pub fn socket_probed(probe: Probe, path: &str) -> (s: BindStep)
    ensures
        s@ == after_probe(probe, path@),
{
    match probe {
        Probe::Connected => fail("another eqtune daemon is already listening on ", path),
        Probe::Missing => BindStep::Bind { last: true },
        Probe::Refused => BindStep::Inspect { again: true },
        Probe::Failed(why) => fail_for("could not probe existing control socket ", path, why),
    }
}

/// What follows from trying to remove the stale socket, which may have failed for a reason.
pub open spec fn after_removal(failed: Option<Seq<char>>, path: Seq<char>) -> BindView {
    match failed {
        None => BindView::Bind { last: true },
        Some(why) => failing_for("could not remove stale control socket "@, path, why),
    }
}

/// Removing the stale socket was tried, and may have failed for a reason.
pub fn stale_removed(failed: Option<String>, path: &str) -> (s: BindStep)
    ensures
        s@ == after_removal(optional(failed), path@),
{
    match failed {
        None => BindStep::Bind { last: true },
        Some(why) => fail_for("could not remove stale control socket ", path, why),
    }
}

/// The socket is removed only where a socket stands at the path after a connection to it was
/// refused: never a live daemon's socket, and never another kind of file.
pub proof fn only_a_stale_socket_is_removed(
    last: bool,
    b: Binding,
    again: bool,
    found: Found,
    probe: Probe,
    failed: Option<Seq<char>>,
    path: Seq<char>,
)
    ensures
        after_inspection(again, found, path) == BindView::Remove <==> again && found
            == Found::Socket,
        after_probe(probe, path) == (BindView::Inspect { again: true }) <==> probe
            == Probe::Refused,
        after_probe(probe, path) != BindView::Remove,
        after_bind(last, b, path) != BindView::Remove,
        after_bind(last, b, path) != (BindView::Inspect { again: true }),
        after_inspection(again, found, path) != (BindView::Inspect { again: true }),
        after_removal(failed, path) != BindView::Remove,
        after_removal(failed, path) != (BindView::Inspect { again: true }),
{
}

/// What taking the daemon lock came to. A failure has its reason.
#[derive(Debug)]
pub enum Locking {
    Locked,
    /// The lock file cannot be opened.
    NotOpened(String),
    /// Another daemon holds the lock.
    Held,
    Failed(String),
}

/// What taking the daemon lock means.
pub open spec fn lock_outcome(locking: Locking, path: Seq<char>) -> Result<(), ErrorView> {
    match locking {
        Locking::Locked => Ok(()),
        Locking::NotOpened(why) => Err(caused("could not open daemon lock "@ + path, why@)),
        Locking::Held => Err(about(Fault::Outside, "another eqtune daemon is already running"@)),
        Locking::Failed(why) => Err(caused("could not lock daemon lock "@ + path, why@)),
    }
}

/// Whether this daemon may run: it holds the lock that only one daemon can hold.
pub fn acquire_lock(locking: Locking, path: &str) -> (r: Result<(), EqError>)
    ensures
        outcome(r) == lock_outcome(locking, path@),
{
    match locking {
        Locking::Locked => Ok(()),
        Locking::NotOpened(why) => Err(
            EqError::caused(glue("could not open daemon lock ", path), why),
        ),
        Locking::Held => Err(
            EqError::about(Fault::Outside, "another eqtune daemon is already running"),
        ),
        Locking::Failed(why) => Err(
            EqError::caused(glue("could not lock daemon lock ", path), why),
        ),
    }
}

/// The socket is taken exactly when binding worked. A live daemon ends the attempt, a path that
/// is gone is bound once more, and a second failure to bind is final.
pub proof fn when_the_socket_is_taken(
    last: bool,
    b: Binding,
    again: bool,
    found: Found,
    probe: Probe,
    failed: Option<Seq<char>>,
    path: Seq<char>,
)
    ensures
        after_bind(last, b, path) == BindView::Bound <==> b is Bound,
        after_inspection(again, found, path) != BindView::Bound,
        after_probe(probe, path) != BindView::Bound,
        after_removal(failed, path) != BindView::Bound,
        probe is Connected ==> after_probe(probe, path) is Fail,
        found is Other ==> after_inspection(again, found, path) is Fail,
        found is Missing ==> after_inspection(again, found, path) == (BindView::Bind {
            last: true,
        }),
        probe is Missing ==> after_probe(probe, path) == (BindView::Bind { last: true }),
        failed is None ==> after_removal(failed, path) == (BindView::Bind { last: true }),
        failed is Some ==> after_removal(failed, path) is Fail,
        last && !(b is Bound) ==> after_bind(last, b, path) is Fail,
        !last && b is InUse ==> after_bind(last, b, path) == (BindView::Inspect { again: false }),
        found is Socket && !again ==> after_inspection(again, found, path) == BindView::Probe,
{
}

/// A failure from outside keeps its cause and names the path.
pub proof fn causes_are_kept(last: bool, again: bool, why: String, path: Seq<char>)
    ensures
        after_bind(last, Binding::Failed(why), path) matches BindView::Fail(e) && e.detail == why@
            && holds(e.subject, path),
        after_inspection(again, Found::Failed(why), path) matches BindView::Fail(e) && e.detail
            == why@ && holds(e.subject, path),
        after_probe(Probe::Failed(why), path) matches BindView::Fail(e) && e.detail == why@
            && holds(e.subject, path),
        after_removal(Some(why@), path) matches BindView::Fail(e) && e.detail == why@ && holds(
            e.subject,
            path,
        ),
{
    path_is_named("could not bind control socket "@, path);
    path_is_named("could not recheck control socket "@, path);
    path_is_named("could not inspect control socket "@, path);
    path_is_named("could not probe existing control socket "@, path);
    path_is_named("could not remove stale control socket "@, path);
}

proof fn path_is_named(words: Seq<char>, path: Seq<char>)
    ensures
        holds(words + path, path),
{
    assert((words + path).subrange(words.len() as int, (words.len() + path.len()) as int) =~= path);
    assert(stands_at(words + path, path, words.len() as int));
}

/// A daemon runs only with the lock in its hands; a failure to get it names the lock and keeps
/// its cause, and a lock that another daemon holds is no failure of the machine.
pub proof fn only_the_holder_of_the_lock_runs(locking: Locking, path: Seq<char>)
    ensures
        lock_outcome(locking, path) is Ok <==> locking is Locked,
        locking matches Locking::NotOpened(why) ==> (lock_outcome(locking, path) matches Err(e)
            && e.detail == why@ && holds(e.subject, path)),
        locking matches Locking::Failed(why) ==> (lock_outcome(locking, path) matches Err(e)
            && e.detail == why@ && holds(e.subject, path)),
        locking is Held ==> (lock_outcome(locking, path) matches Err(e) && e.detail.len() == 0),
{
    path_is_named("could not open daemon lock "@, path);
    path_is_named("could not lock daemon lock "@, path);
}

} // verus!
