//! Where things are kept, below the user's home directory.

use vstd::prelude::*;
use vstd::string::*;
use crate::text::{decimal, digits, glue, glue3};

verus! {

/// The launchd label of the daemon.
pub open spec fn label() -> Seq<char> {
    "app.eqtune.daemon"@
}

/// The relative path `rest` below the directory `base`.
pub open spec fn below(base: Seq<char>, rest: Seq<char>) -> Seq<char> {
    if base.len() == 0 || base.last() == '/' {
        base + rest
    } else {
        base + "/"@ + rest
    }
}

/// The directory for the config, the session draft, the socket, and the installed binary.
pub open spec fn support(home: Seq<char>) -> Seq<char> {
    below(home, "Library/Application Support/eqtune"@)
}

/// The relative path `rest` below the directory `base`.
pub fn join(base: &str, rest: &str) -> (p: String)
    ensures
        p@ == below(base@, rest@),
{
    let n: usize = base.unicode_len();
    if n == 0 || base.get_char(n - 1) == '/' {
        glue(base, rest)
    } else {
        glue3(base, "/", rest)
    }
}

/// The directory for the config, the session draft, the socket, and the installed binary.
pub fn support_dir(home: &str) -> (p: String)
    ensures
        p@ == support(home@),
{
    join(home, "Library/Application Support/eqtune")
}

/// The installed daemon.
pub fn installed_bin(home: &str) -> (p: String)
    ensures
        p@ == below(support(home@), "eqtune"@),
{
    join(&support_dir(home), "eqtune")
}

/// The daemon's log file.
pub fn log_path(home: &str) -> (p: String)
    ensures
        p@ == below(support(home@), "daemon.log"@),
{
    join(&support_dir(home), "daemon.log")
}

/// The config file.
pub open spec fn config_file(home: Seq<char>) -> Seq<char> {
    below(home, "Library/Application Support/eqtune/config.toml"@)
}

/// The config file.
pub fn config_path(home: &str) -> (p: String)
    ensures
        p@ == config_file(home@),
{
    join(home, "Library/Application Support/eqtune/config.toml")
}

/// The mirror of an unsaved session.
pub open spec fn session_file(home: Seq<char>) -> Seq<char> {
    below(home, "Library/Application Support/eqtune/session.toml"@)
}

/// The mirror of an unsaved session.
pub fn session_path(home: &str) -> (p: String)
    ensures
        p@ == session_file(home@),
{
    join(home, "Library/Application Support/eqtune/session.toml")
}

/// The control socket.
pub open spec fn socket_file(home: Seq<char>) -> Seq<char> {
    below(home, "Library/Application Support/eqtune/eqtune.sock"@)
}

/// The control socket.
pub fn socket_path(home: &str) -> (p: String)
    ensures
        p@ == socket_file(home@),
{
    join(home, "Library/Application Support/eqtune/eqtune.sock")
}

/// The lock that only one daemon can hold, next to the control socket.
pub open spec fn lock_file(home: Seq<char>) -> Seq<char> {
    below(home, "Library/Application Support/eqtune/eqtune.lock"@)
}

/// The lock that only one daemon can hold, next to the control socket.
pub fn lock_path(home: &str) -> (p: String)
    ensures
        p@ == lock_file(home@),
{
    join(home, "Library/Application Support/eqtune/eqtune.lock")
}

/// The LaunchAgent of the daemon.
pub fn plist_path(home: &str) -> (p: String)
    ensures
        p@ == below(below(home@, "Library/LaunchAgents"@), label() + ".plist"@),
{
    join(&join(home, "Library/LaunchAgents"), &glue("app.eqtune.daemon", ".plist"))
}

/// The launchd domain of a user.
pub fn domain(uid: u32) -> (t: String)
    ensures
        t@ == "gui/"@ + digits(uid as nat),
{
    glue("gui/", &decimal(uid as u64))
}

/// The daemon's launchd service in a domain.
pub fn service(domain: &str) -> (t: String)
    ensures
        t@ == domain@ + "/"@ + label(),
{
    glue3(domain, "/", "app.eqtune.daemon")
}

/// How much of a path is its root, or a leading `.` that stands for the current directory.
pub open spec fn head(p: Seq<char>) -> int {
    if p.len() > 0 && (p[0] == '/' || (p[0] == '.' && (p.len() == 1 || p[1] == '/'))) {
        1
    } else {
        0
    }
}

/// Where the last component of the first `to` characters of a path begins.
pub open spec fn component(p: Seq<char>, to: int) -> int
    decreases to,
{
    if to <= head(p) || p[to - 1] == '/' {
        to
    } else {
        component(p, to - 1)
    }
}

/// What is left of the first `to` characters of a path without the component that begins at
/// `start`, and without the separator before that.
pub open spec fn without(p: Seq<char>, start: int) -> int {
    if start > head(p) {
        start - 1
    } else {
        head(p)
    }
}

/// A component that says nothing: an empty one, or a `.`.
pub open spec fn idle(c: Seq<char>) -> bool {
    c.len() == 0 || c == seq!['.']
}

/// Where the first `to` characters of a path end when trailing separators and `.` components
/// are left out.
pub open spec fn settled(p: Seq<char>, to: int) -> int
    decreases to,
{
    if to <= head(p) {
        to
    } else {
        let start = component(p, to);
        if start <= to && idle(p.subrange(start, to)) && 0 <= without(p, start) < to {
            settled(p, without(p, start))
        } else {
            to
        }
    }
}

/// The file that a path names, and the directory that it is in; none for a path that ends in
/// a root, the current directory, or a parent directory.
pub open spec fn file_at(p: Seq<char>) -> Option<(Seq<char>, Seq<char>)> {
    let to = settled(p, p.len() as int);
    let start = component(p, to);
    if to <= head(p) || p.subrange(start, to) == seq!['.', '.'] {
        None
    } else {
        Some((p.subrange(0, settled(p, without(p, start))), p.subrange(start, to)))
    }
}

/// The sibling of a file with a suffix on its name; a path that names no file gets a file of
/// the name `fallback` below it.
pub open spec fn suffixed(p: Seq<char>, suffix: Seq<char>, fallback: Seq<char>) -> Seq<char> {
    match file_at(p) {
        Some((dir, name)) => below(dir, name + suffix),
        None => below(p, fallback + suffix),
    }
}

/// The last component begins inside the path.
proof fn component_is_inside(p: Seq<char>, to: int)
    requires
        head(p) <= to <= p.len(),
    ensures
        head(p) <= component(p, to) <= to,
        forall|i: int| component(p, to) <= i < to ==> p[i] != '/',
        component(p, to) > head(p) ==> p[component(p, to) - 1] == '/',
    decreases to,
{
    if to <= head(p) || p[to - 1] == '/' {
    } else {
        component_is_inside(p, to - 1);
    }
}

/// What is left of a path without its last component is shorter.
proof fn settled_is_inside(p: Seq<char>, to: int)
    requires
        head(p) <= to <= p.len(),
    ensures
        head(p) <= settled(p, to) <= to,
        settled(p, settled(p, to)) == settled(p, to),
        head(p) < settled(p, to) < to ==> p[settled(p, to)] == '/',
    decreases to,
{
    if to > head(p) {
        component_is_inside(p, to);
        let start = component(p, to);
        if idle(p.subrange(start, to)) {
            settled_is_inside(p, without(p, start));
        }
    }
}

/// Where the first `to` characters of a path end.
fn settle(t: &str, first: usize, to: usize) -> (e: usize)
    requires
        first == head(t@),
        first <= to <= t@.len(),
    ensures
        e == settled(t@, to as int),
        first <= e <= to,
{
    let mut e: usize = to;
    loop
        invariant
            first == head(t@),
            first <= e <= to <= t@.len(),
            settled(t@, e as int) == settled(t@, to as int),
        ensures
            first <= e <= to,
            e == settled(t@, to as int),
        decreases e,
    {
        if e <= first {
            break;
        }
        let start: usize = last_component(t, first, e);
        let ghost c = t@.subrange(start as int, e as int);
        let blank: bool = start == e || (e - start == 1 && t.get_char(start) == '.');
        proof {
            assert(seq!['.'].len() == 1 && seq!['.'][0] == '.');
            if start + 1 == e {
                assert(c =~= seq![t@[start as int]]);
                assert(c[0] == t@[start as int]);
            }
            assert(blank == idle(c));
        }
        if !blank {
            break;
        }
        e = if start > first {
            start - 1
        } else {
            first
        };
    }
    e
}

/// Where the last component of the first `to` characters of a path begins.
fn last_component(t: &str, first: usize, to: usize) -> (start: usize)
    requires
        first == head(t@),
        first <= to <= t@.len(),
    ensures
        start == component(t@, to as int),
        first <= start <= to,
        start > first ==> t@[start - 1] == '/',
{
    let mut start: usize = to;
    while start > first && t.get_char(start - 1) != '/'
        invariant
            first == head(t@),
            first <= start <= to <= t@.len(),
            component(t@, start as int) == component(t@, to as int),
        decreases start,
    {
        start -= 1;
    }
    start
}

/// The sibling of a file with a suffix on its name.
fn sibling(path: &str, suffix: &str, fallback: &str) -> (t: String)
    ensures
        t@ == suffixed(path@, suffix@, fallback@),
{
    let n: usize = path.unicode_len();
    let first: usize = if n > 0 && (path.get_char(0) == '/' || (path.get_char(0) == '.' && (n == 1
        || path.get_char(1) == '/'))) {
        1
    } else {
        0
    };
    let to: usize = settle(path, first, n);
    let start: usize = last_component(path, first, to);
    let ghost c = path@.subrange(start as int, to as int);
    let parent: bool = to - start == 2 && path.get_char(start) == '.' && path.get_char(start + 1)
        == '.';
    proof {
        let dots = seq!['.', '.'];
        assert(dots.len() == 2 && dots[0] == '.' && dots[1] == '.');
        if start + 2 == to {
            assert(c =~= seq![path@[start as int], path@[start + 1]]);
            assert(c[0] == path@[start as int] && c[1] == path@[start + 1]);
        }
        assert(parent == (c == seq!['.', '.']));
    }
    if to <= first || parent {
        return join(path, &glue(fallback, suffix));
    }
    let rest: usize = if start > first {
        start - 1
    } else {
        first
    };
    let dir: &str = path.substring_char(0, settle(path, first, rest));
    join(dir, &glue(path.substring_char(start, to), suffix))
}

/// The sibling of a file with a suffix on its name.
pub fn with_suffix(path: &str, suffix: &str) -> (t: String)
    ensures
        t@ == suffixed(path@, suffix@, "config"@),
{
    sibling(path, suffix, "config")
}

/// The name under which the file `dest` is staged by the process `pid`.
pub fn install_tmp_path(dest: &str, pid: u32) -> (t: String)
    ensures
        t@ == suffixed(dest@, ".installing."@ + digits(pid as nat), "eqtune"@),
{
    sibling(dest, &glue(".installing.", &decimal(pid as u64)), "eqtune")
}

/// Two paths with the same beginning are settled alike there.
proof fn settled_by_the_beginning(p: Seq<char>, q: Seq<char>, to: int)
    requires
        head(p) == head(q),
        head(p) <= to <= p.len(),
        to <= q.len(),
        p.subrange(0, to) == q.subrange(0, to),
    ensures
        settled(p, to) == settled(q, to),
    decreases to,
{
    if to > head(p) {
        component_is_inside(p, to);
        component_by_the_beginning(p, q, to);
        let start = component(p, to);
        assert(p.subrange(start, to) =~= p.subrange(0, to).subrange(start, to));
        assert(q.subrange(start, to) =~= q.subrange(0, to).subrange(start, to));
        if idle(p.subrange(start, to)) {
            let rest = without(p, start);
            assert(p.subrange(0, rest) =~= p.subrange(0, to).subrange(0, rest));
            assert(q.subrange(0, rest) =~= q.subrange(0, to).subrange(0, rest));
            settled_by_the_beginning(p, q, rest);
        }
    }
}

/// Two paths with the same beginning have the same last component there.
proof fn component_by_the_beginning(p: Seq<char>, q: Seq<char>, to: int)
    requires
        head(p) == head(q),
        head(p) <= to <= p.len(),
        to <= q.len(),
        p.subrange(0, to) == q.subrange(0, to),
    ensures
        component(p, to) == component(q, to),
    decreases to,
{
    if to > head(p) {
        assert(p.subrange(0, to)[to - 1] == p[to - 1]);
        assert(q.subrange(0, to)[to - 1] == q[to - 1]);
        if p[to - 1] != '/' {
            assert(p.subrange(0, to - 1) =~= p.subrange(0, to).subrange(0, to - 1));
            assert(q.subrange(0, to - 1) =~= q.subrange(0, to).subrange(0, to - 1));
            component_by_the_beginning(p, q, to - 1);
        }
    }
}

/// A component without a separator, at the end of a path, is its last one.
proof fn last_component_is(p: Seq<char>, start: int, to: int)
    requires
        head(p) <= start <= to <= p.len(),
        start == head(p) || p[start - 1] == '/',
        forall|i: int| start <= i < to ==> p[i] != '/',
    ensures
        component(p, to) == start,
    decreases to,
{
    if to > start {
        last_component_is(p, start, to - 1);
    }
}

/// A file and its sibling with a suffix are in the same directory, so that one can take the
/// other's place in a single step.
pub proof fn siblings_share_their_directory(
    p: Seq<char>,
    suffix: Seq<char>,
    fallback: Seq<char>,
)
    requires
        file_at(p) is Some,
        suffix.len() > 0,
        forall|i: int| 0 <= i < suffix.len() ==> suffix[i] != '/',
    ensures
        file_at(suffixed(p, suffix, fallback)) == Some(
            (file_at(p)->Some_0.0, file_at(p)->Some_0.1 + suffix),
        ),
{
    let to = settled(p, p.len() as int);
    settled_is_inside(p, p.len() as int);
    component_is_inside(p, to);
    let start = component(p, to);
    settled_is_inside(p, without(p, start));
    let k = settled(p, without(p, start));
    let dir = p.subrange(0, k);
    let name = p.subrange(start, to);
    let q = suffixed(p, suffix, fallback);
    let last = name + suffix;
    let begin = q.len() - last.len();
    reveal_strlit("/");
    assert(!idle(name));
    assert forall|i: int| 0 <= i < last.len() implies last[i] != '/' by {
        if i < name.len() {
            assert(name[i] == p[start + i]);
        }
    }
    assert(q.subrange(0, k) =~= dir);
    assert(q.subrange(begin, q.len() as int) =~= last);
    assert forall|i: int| begin <= i < q.len() implies q[i] != '/' by {
        assert(q[i] == last[i - begin]);
    }
    if k > head(p) {
        assert(p[k - 1] != '/') by {
            if p[k - 1] == '/' {
                assert(component(p, k) == k);
                assert(p.subrange(k, k).len() == 0);
                assert(settled(p, k) < k) by {
                    settled_is_inside(p, without(p, k));
                }
            }
        }
    }
    assert(head(q) == head(p)) by {
        if k > 0 {
            assert(q[0] == dir[0]);
            if k > 1 {
                assert(q[1] == dir[1]);
            }
        } else {
            assert(q =~= last);
            assert(q[0] == last[0] && q[1] == last[1]);
        }
    }
    assert(component(q, q.len() as int) == begin) by {
        last_component_is(q, begin, q.len() as int);
    }
    assert(last != seq!['.']) by {
        if last == seq!['.'] {
            assert(last.len() == 1);
        }
    }
    assert(last != seq!['.', '.']) by {
        if last == seq!['.', '.'] {
            assert(last.len() == 2);
            assert(name.len() == 1);
            assert(last[0] == name[0]);
            assert(last[0] == '.');
            assert(name =~= seq!['.']);
        }
    }
    assert(settled(q, q.len() as int) == q.len());
    assert(without(q, begin) == k);
    assert(settled(q, k) == k) by {
        assert(p.subrange(0, k) =~= q.subrange(0, k));
        settled_by_the_beginning(p, q, k);
    }
}

/// The suffix under which an unusable file is set aside when that many earlier ones are there.
pub open spec fn aside(earlier: u64) -> Seq<char> {
    if earlier == 0 {
        ".corrupt"@
    } else {
        ".corrupt."@ + digits(earlier as nat)
    }
}

/// The suffix under which an unusable file is set aside when that many earlier ones are there.
pub fn quarantine_suffix(earlier: u64) -> (t: String)
    ensures
        t@ == aside(earlier),
{
    if earlier == 0 {
        ".corrupt".to_owned()
    } else {
        glue(".corrupt.", &decimal(earlier))
    }
}

/// What follows when the name with the suffix for `earlier` is taken or free: the next count to
/// try, or none when the name is to be used. A taken name is used only when the count is full.
pub open spec fn after_try(earlier: u64, taken: bool) -> Option<u64> {
    if taken && earlier < u64::MAX {
        Some((earlier + 1) as u64)
    } else {
        None
    }
}

/// Whether to try the next name for an unusable file, and with which count, or to use this one.
pub fn quarantine_tried(earlier: u64, taken: bool) -> (next: Option<u64>)
    ensures
        next == after_try(earlier, taken),
{
    if taken && earlier < u64::MAX {
        Some(earlier + 1)
    } else {
        None
    }
}

/// The path under which an unusable file is set aside when that many earlier ones are there.
pub open spec fn aside_path(p: Seq<char>, earlier: u64) -> Seq<char> {
    suffixed(p, aside(earlier), "config"@)
}

/// The count that an unusable file at `p` ends up with, among the files that are there, when
/// the names are tried from `earlier` on.
pub open spec fn set_aside_as(p: Seq<char>, files: Set<Seq<char>>, earlier: u64) -> u64
    decreases u64::MAX - earlier,
{
    match after_try(earlier, files.contains(aside_path(p, earlier))) {
        Some(next) => if next > earlier {
            set_aside_as(p, files, next)
        } else {
            earlier
        },
        None => earlier,
    }
}

/// Set-aside files get different suffixes.
pub proof fn quarantine_names_differ(a: u64, b: u64)
    requires
        a != b,
    ensures
        aside(a) != aside(b),
{
    let p = ".corrupt."@;
    if a > 0 && b > 0 {
        crate::text::digits_are_distinct(a as nat, b as nat);
        let x = p + digits(a as nat);
        let y = p + digits(b as nat);
        if x == y {
            assert(x.skip(p.len() as int) =~= digits(a as nat));
            assert(y.skip(p.len() as int) =~= digits(b as nat));
        }
    } else {
        reveal_strlit(".corrupt");
        reveal_strlit(".corrupt.");
        assert(aside(0).len() == 8);
        assert(a > 0 ==> aside(a).len() >= 9);
        assert(b > 0 ==> aside(b).len() >= 9);
    }
}

/// Set-aside files get different paths.
proof fn aside_paths_differ(p: Seq<char>, a: u64, b: u64)
    requires
        a != b,
    ensures
        aside_path(p, a) != aside_path(p, b),
{
    quarantine_names_differ(a, b);
    let (dir, name) = match file_at(p) {
        Some((dir, name)) => (dir, name),
        None => (p, "config"@),
    };
    let x = below(dir, name + aside(a));
    let y = below(dir, name + aside(b));
    let n = x.len() - aside(a).len();
    if x == y {
        assert(x.skip(n) =~= aside(a));
        assert(y.skip(n) =~= aside(b));
    }
}

/// An earlier set-aside file stays: a name that is taken is never used before the count is
/// full. The first free name is used, with every one before it taken.
pub proof fn a_free_name_is_used(p: Seq<char>, files: Set<Seq<char>>, earlier: u64)
    ensures
        ({
            let n = set_aside_as(p, files, earlier);
            &&& n >= earlier
            &&& n < u64::MAX ==> !files.contains(aside_path(p, n))
            &&& forall|k: u64|
                earlier <= k < n ==> files.contains(#[trigger] aside_path(p, k))
        }),
    decreases u64::MAX - earlier,
{
    if files.contains(aside_path(p, earlier)) && earlier < u64::MAX {
        a_free_name_is_used(p, files, (earlier + 1) as u64);
    }
}

/// The name that is used is free wherever there are fewer files than counts.
pub proof fn the_name_used_is_free(p: Seq<char>, files: Set<Seq<char>>)
    requires
        files.finite(),
        files.len() <= u64::MAX,
    ensures
        !files.contains(aside_path(p, set_aside_as(p, files, 0))),
{
    let n = set_aside_as(p, files, 0);
    a_free_name_is_used(p, files, 0);
    if files.contains(aside_path(p, n)) {
        let taken = first_names(p, u64::MAX as nat + 1);
        first_names_count(p, u64::MAX as nat + 1);
        assert forall|x: Seq<char>| taken.contains(x) implies files.contains(x) by {
            let k = choose|k: u64| k < u64::MAX as nat + 1 && x == aside_path(p, k);
            assert(files.contains(aside_path(p, k)));
        }
        vstd::set_lib::lemma_len_subset(taken, files);
    }
}

/// The paths for the counts below `n`.
spec fn first_names(p: Seq<char>, n: nat) -> Set<Seq<char>> {
    Set::new(|x: Seq<char>| exists|k: u64| k < n && x == #[trigger] aside_path(p, k))
}

proof fn first_names_count(p: Seq<char>, n: nat)
    requires
        n <= u64::MAX + 1,
    ensures
        first_names(p, n).finite(),
        first_names(p, n).len() == n,
    decreases n,
{
    if n == 0 {
        assert(first_names(p, n) =~= Set::empty());
    } else {
        let last = (n - 1) as u64;
        let before = first_names(p, (n - 1) as nat);
        first_names_count(p, (n - 1) as nat);
        assert(!before.contains(aside_path(p, last))) by {
            if before.contains(aside_path(p, last)) {
                let k = choose|k: u64| k < n - 1 && aside_path(p, last) == aside_path(p, k);
                aside_paths_differ(p, last, k);
            }
        }
        assert forall|x: Seq<char>| first_names(p, n).contains(x) <==> before.insert(
            aside_path(p, last),
        ).contains(x) by {
            if first_names(p, n).contains(x) {
                let k = choose|k: u64| k < n && x == aside_path(p, k);
                if k != last {
                    assert(before.contains(aside_path(p, k)));
                }
            }
            if before.contains(x) {
                let k = choose|k: u64| k < n - 1 && x == aside_path(p, k);
                assert(first_names(p, n).contains(aside_path(p, k)));
            }
            assert(first_names(p, n).contains(aside_path(p, last)));
        }
        assert(first_names(p, n) =~= before.insert(aside_path(p, last)));
    }
}

/// A path below a directory begins with the directory and ends with the rest, with one
/// separator between them, or none where the directory has it already.
pub proof fn what_is_below_a_directory(base: Seq<char>, rest: Seq<char>)
    ensures
        ({
            let p = below(base, rest);
            &&& p.take(base.len() as int) == base
            &&& p.skip(p.len() - rest.len()) == rest
            &&& base.len() > 0 && base.last() != '/' ==> p.len() == base.len() + 1 + rest.len()
                && p[base.len() as int] == '/'
            &&& base.len() == 0 || base.last() == '/' ==> p.len() == base.len() + rest.len()
        }),
{
    reveal_strlit("/");
    let p = below(base, rest);
    assert(p.take(base.len() as int) =~= base);
    assert(p.skip(p.len() - rest.len()) =~= rest);
}

/// The config, the session draft, the socket, and the lock lie side by side in the support
/// directory, and no two of them are one file.
pub proof fn files_do_not_collide(home: Seq<char>)
    ensures
        config_file(home) == below(support(home), "config.toml"@),
        session_file(home) == below(support(home), "session.toml"@),
        socket_file(home) == below(support(home), "eqtune.sock"@),
        lock_file(home) == below(support(home), "eqtune.lock"@),
        config_file(home) != session_file(home),
        config_file(home) != socket_file(home),
        config_file(home) != lock_file(home),
        session_file(home) != socket_file(home),
        session_file(home) != lock_file(home),
        socket_file(home) != lock_file(home),
{
    reveal_strlit("/");
    reveal_strlit("Library/Application Support/eqtune");
    reveal_strlit("Library/Application Support/eqtune/config.toml");
    reveal_strlit("Library/Application Support/eqtune/session.toml");
    reveal_strlit("Library/Application Support/eqtune/eqtune.sock");
    reveal_strlit("Library/Application Support/eqtune/eqtune.lock");
    reveal_strlit("config.toml");
    reveal_strlit("session.toml");
    reveal_strlit("eqtune.sock");
    reveal_strlit("eqtune.lock");
    let a = config_file(home);
    let b = session_file(home);
    let c = socket_file(home);
    let d = lock_file(home);
    let s = support(home);
    let n: int = s.len() as int;
    assert(s.last() == 'e');
    assert(a =~= below(s, "config.toml"@));
    assert(b =~= below(s, "session.toml"@));
    assert(c =~= below(s, "eqtune.sock"@));
    assert(d =~= below(s, "eqtune.lock"@));
    assert(a[n + 1] == 'c');
    assert(b[n + 1] == 's');
    assert(c[n + 1] == 'e');
    assert(d[n + 1] == 'e');
    assert(c[n + 8] == 's');
    assert(d[n + 8] == 'l');
}

} // verus!
