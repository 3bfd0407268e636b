//! Process-wide resident-memory admission and pressure relief.
//!
//! The cache ceiling bounds retained cache entries, not the complete process.
//! The governor observes resident bytes directly and gives new Cypher work a
//! second, opt-in ceiling: relief starts at nine tenths of it, and work is
//! refused from the ceiling on. The shell samples, clears caches and waits; what
//! each sample means is decided here.

use std::time::Duration;
use vstd::prelude::*;

use crate::span::nanos;
use crate::text::{
    chars_of, cut, decimal, eq_ignore_ascii_case, fields, is_digit, lines, lines_of, parse_number, parsed_number,
    same_ignoring_ascii_case, split, split_once, str_eq, texts, trim, trimmed,
};

verus! {

/// Off by default.
pub const DEFAULT_MEMORY_MAX_BYTES: usize = 0;

/// The share of a finite cgroup hard limit that `auto` takes. The rest covers
/// allocations in flight, allocator overhead and the time between two samples.
pub const AUTO_MEMORY_LIMIT_PERCENT: usize = 90;

/// From here on a cgroup v1 limit means that there is none.
pub const CGROUP_V1_UNLIMITED_FLOOR: u128 = 0x1000_0000_0000_0000;

/// The share of the ceiling at which caches are cleared.
pub const RECLAIM_PERCENT: usize = 90;

/// The share of the ceiling at or below which a pressure episode is over.
pub const RESUME_PERCENT: usize = 80;

/// The shortest time between two passes at the ceiling, in nanoseconds.
pub const HARD_RECLAIM_COOLDOWN_NANOS: u128 = 1_000_000_000;

/// The time between two watchdog samples, in milliseconds.
pub const WATCHDOG_INTERVAL_MILLIS: u64 = 500;

/// `percentage` percent of `value`, rounded down and never above what a size
/// can hold.
pub open spec fn share(value: nat, percentage: nat) -> nat {
    let s = value * percentage / 100;
    if s <= usize::MAX {
        s
    } else {
        usize::MAX as nat
    }
}

/// `percentage` percent of `value`.
pub fn percent(value: usize, percentage: usize) -> (r: usize)
    ensures
        r == share(value as nat, percentage as nat),
{
    proof {
        assert(value * percentage <= usize::MAX * usize::MAX) by (nonlinear_arith)
            requires
                0 <= value <= usize::MAX,
                0 <= percentage <= usize::MAX,
        ;
        assert(usize::MAX * usize::MAX <= u128::MAX) by (nonlinear_arith)
            requires
                0 <= usize::MAX <= 0xffff_ffff_ffff_ffff,
        ;
        assert((value as nat) * (percentage as nat) == value * percentage);
    }
    let product: u128 = value as u128 * percentage as u128;
    let s: u128 = product / 100;
    if s <= usize::MAX as u128 {
        s as usize
    } else {
        usize::MAX
    }
}

// ---------------------------------------------------------------------------
// The configured ceiling
// ---------------------------------------------------------------------------

/// What a ceiling setting says.
pub open spec fn resolved_ceiling(raw: Seq<char>, hard_limit: Option<usize>) -> Result<
    nat,
    Seq<char>,
> {
    let text = trimmed(raw);
    if same_ignoring_ascii_case(text, "auto"@) {
        match hard_limit {
            Some(limit) => Ok(share(limit as nat, AUTO_MEMORY_LIMIT_PERCENT as nat)),
            None => Err(
                "NAMIDB_MEMORY_MAX_BYTES=auto requires a finite cgroup memory limit; set an exact byte count or start the container with --memory/Compose mem_limit"@,
            ),
        }
    } else {
        match parsed_number(text, usize::MAX as nat) {
            Ok(n) => Ok(n),
            Err(e) => Err(
                "NAMIDB_MEMORY_MAX_BYTES must be an exact byte count, 0, or auto: "@ + e.message(),
            ),
        }
    }
}

/// Reads an exact-byte ceiling, or resolves `auto` from the container's finite
/// memory limit. `auto` without such a limit is an error: a share of the host
/// would be unsafe on a shared machine, and zero would switch the rail off.
pub fn resolve_memory_max_bytes(raw: &str, hard_limit: Option<usize>) -> (r: Result<usize, String>)
    ensures
        match r {
            Ok(n) => resolved_ceiling(raw@, hard_limit) == Ok::<nat, Seq<char>>(n as nat),
            Err(e) => resolved_ceiling(raw@, hard_limit) == Err::<nat, Seq<char>>(e@),
        },
{
    let text = trim(raw);
    if eq_ignore_ascii_case(text.as_str(), "auto") {
        return match hard_limit {
            Some(limit) => Ok(percent(limit, AUTO_MEMORY_LIMIT_PERCENT)),
            None => Err(
                "NAMIDB_MEMORY_MAX_BYTES=auto requires a finite cgroup memory limit; set an exact byte count or start the container with --memory/Compose mem_limit".to_owned(),
            ),
        };
    }
    match parse_number(text.as_str(), usize::MAX as u64) {
        Ok(n) => Ok(n as usize),
        Err(e) => {
            let mut out =
                "NAMIDB_MEMORY_MAX_BYTES must be an exact byte count, 0, or auto: ".to_owned();
            let reason = e.to_text();
            out.append(reason.as_str());
            Err(out)
        },
    }
}

// ---------------------------------------------------------------------------
// cgroup limits
// ---------------------------------------------------------------------------

/// The finite limit that a controller file states: a positive number that a
/// size can hold, and under v1 not one of those that stand for no limit.
pub open spec fn cgroup_limit(raw: Seq<char>, v1: bool) -> Option<nat> {
    match parsed_number(trimmed(raw), usize::MAX as nat) {
        Ok(n) => if n == 0 || (v1 && n >= CGROUP_V1_UNLIMITED_FLOOR) {
            None
        } else {
            Some(n)
        },
        Err(_) => None,
    }
}

/// The finite limit that a controller file states.
pub fn parse_cgroup_limit(raw: &str, v1: bool) -> (r: Option<usize>)
    ensures
        match r {
            Some(n) => cgroup_limit(raw@, v1) == Some(n as nat),
            None => cgroup_limit(raw@, v1) is None,
        },
{
    let text = trim(raw);
    match parse_number(text.as_str(), usize::MAX as u64) {
        Ok(n) => {
            if n == 0 || (v1 && n as u128 >= CGROUP_V1_UNLIMITED_FLOOR) {
                None
            } else {
                Some(n as usize)
            }
        },
        Err(_) => None,
    }
}

/// `base` with the path component `name` below it.
pub open spec fn below(base: Seq<char>, name: Seq<char>) -> Seq<char> {
    if base.len() == 0 || base.last() == '/' {
        base + name
    } else {
        base + "/"@ + name
    }
}

/// `root` with `names` below it: empty and `.` components fall away, and a `..`
/// has no place.
pub open spec fn walked(root: Seq<char>, names: Seq<Seq<char>>) -> Option<Seq<char>>
    decreases names.len(),
{
    if names.len() == 0 {
        Some(root)
    } else {
        match walked(root, names.drop_last()) {
            None => None,
            Some(base) => {
                let name = names.last();
                if name == ".."@ {
                    None
                } else if name.len() == 0 || name == "."@ {
                    Some(base)
                } else {
                    Some(below(base, name))
                }
            },
        }
    }
}

/// The directory of a cgroup: `relative` walked down from the controller mount.
pub open spec fn cgroup_path(root: Seq<char>, relative: Seq<char>) -> Option<Seq<char>> {
    walked(root, fields(relative, '/'))
}

/// A path that cannot be walked to some component cannot be walked further.
proof fn lemma_walked_none(root: Seq<char>, names: Seq<Seq<char>>, n: int)
    requires
        0 <= n <= names.len(),
        walked(root, names.take(n)) is None,
    ensures
        walked(root, names) is None,
    decreases names.len() - n,
{
    if n == names.len() {
        assert(names.take(n) =~= names);
    } else {
        assert(names.take(n + 1).drop_last() =~= names.take(n));
        lemma_walked_none(root, names, n + 1);
    }
}

/// The directory of a cgroup beneath its controller mount, or nothing when the
/// membership text tries to leave it.
pub fn cgroup_directory(root: &str, relative: &str) -> (r: Option<String>)
    ensures
        match r {
            Some(p) => cgroup_path(root@, relative@) == Some(p@),
            None => cgroup_path(root@, relative@) is None,
        },
{
    let names = split(relative, '/');
    let ghost all = fields(relative@, '/');
    let mut out = root.to_owned();
    let mut i: usize = 0;
    assert(all.take(0) =~= Seq::<Seq<char>>::empty());
    while i < names.len()
        invariant
            i <= names@.len(),
            texts(names@) == all,
            all == fields(relative@, '/'),
            walked(root@, all.take(i as int)) == Some(out@),
        decreases names.len() - i,
    {
        let name = names[i].as_str();
        proof {
            assert(texts(names@)[i as int] == names@[i as int]@);
            assert(all.take(i + 1).drop_last() =~= all.take(i as int));
            assert(all.take(i + 1).last() == name@);
        }
        if str_eq(name, "..") {
            proof {
                lemma_walked_none(root@, all, i + 1);
            }
            return None;
        }
        if !name.is_empty() && !str_eq(name, ".") {
            let chars = chars_of(out.as_str());
            let n: usize = chars.len();
            if n > 0 && chars[n - 1] != '/' {
                out.append("/");
            }
            out.append(name);
        }
        i = i + 1;
    }
    assert(all.take(i as int) =~= all);
    Some(out)
}

/// A directory that is found lies at or below the mount it was walked from.
pub proof fn law_cgroup_paths_stay_below_the_mount(root: Seq<char>, relative: Seq<char>)
    ensures
        cgroup_path(root, relative) matches Some(p) ==> p.len() >= root.len() && p.take(
            root.len() as int,
        ) == root,
        listed_text(fields(relative, '/'), ".."@) ==> cgroup_path(root, relative) is None,
{
    lemma_walked_prefix(root, fields(relative, '/'));
    if listed_text(fields(relative, '/'), ".."@) {
        let names = fields(relative, '/');
        let i = choose|i: int| 0 <= i < names.len() && #[trigger] names[i] == ".."@;
        assert(names.take(i + 1).last() == ".."@);
        lemma_walked_none(root, names, i + 1);
    }
}

/// A directory below another is found below it, a `.` and an empty name stay
/// where they are, and nothing at all is the mount itself.
pub proof fn law_cgroup_paths_go_down(root: Seq<char>, relative: Seq<char>, name: Seq<char>)
    requires
        !name.contains('/'),
        name != ".."@,
    ensures
        cgroup_path(root, Seq::empty()) == Some(root),
        cgroup_path(root, relative) matches Some(dir) ==> cgroup_path(
            root,
            relative + seq!['/'] + name,
        ) == Some(
            if name.len() == 0 || name == seq!['.'] {
                dir
            } else if dir.len() > 0 && dir.last() != '/' {
                dir + seq!['/'] + name
            } else {
                dir + name
            },
        ),
{
    let nothing = Seq::<char>::empty();
    reveal_strlit("..");
    reveal_strlit(".");
    reveal_strlit("/");
    assert("."@ =~= seq!['.']);
    assert("/"@ =~= seq!['/']);
    assert(".."@.len() == 2);
    crate::text::law_last_field(relative, '/', name);
    crate::text::law_last_field(nothing, '/', nothing);
    let names = fields(relative, '/');
    assert(names.push(name).drop_last() =~= names);
    assert(seq![nothing].drop_last() =~= Seq::<Seq<char>>::empty());
    assert(walked(root, seq![nothing].drop_last()) == Some(root));
}

/// Whether `item` is one of `items`.
pub open spec fn listed_text(items: Seq<Seq<char>>, item: Seq<char>) -> bool {
    exists|i: int| 0 <= i < items.len() && #[trigger] items[i] == item
}

proof fn lemma_walked_prefix(root: Seq<char>, names: Seq<Seq<char>>)
    ensures
        walked(root, names) matches Some(p) ==> p.len() >= root.len() && p.take(root.len() as int)
            == root,
    decreases names.len(),
{
    if names.len() == 0 {
        assert(root.take(root.len() as int) =~= root);
    } else {
        lemma_walked_prefix(root, names.drop_last());
        match walked(root, names.drop_last()) {
            Some(base) => {
                let p = below(base, names.last());
                assert(p.take(root.len() as int) =~= base.take(root.len() as int));
            },
            None => {},
        }
    }
}

/// The mount of the cgroup controllers.
pub open spec fn cgroup_root() -> Seq<char> {
    "/sys/fs/cgroup"@
}

/// The controller file that one membership line points at, and whether it is a
/// v1 file.
pub open spec fn line_candidate(line: Seq<char>) -> Option<(Seq<char>, bool)> {
    match cut(line, ':') {
        None => None,
        Some((_, rest)) => match cut(rest, ':') {
            None => None,
            Some((controllers, relative)) => if controllers.len() == 0 {
                match cgroup_path(cgroup_root(), relative) {
                    Some(dir) => Some((below(dir, "memory.max"@), false)),
                    None => None,
                }
            } else if listed_text(fields(controllers, ','), "memory"@) {
                match cgroup_path("/sys/fs/cgroup/memory"@, relative) {
                    Some(dir) => Some((below(dir, "memory.limit_in_bytes"@), true)),
                    None => None,
                }
            } else {
                None
            },
        },
    }
}

/// `seen` with one more candidate, unless its path is there already.
pub open spec fn with_candidate(
    seen: Seq<(Seq<char>, bool)>,
    candidate: (Seq<char>, bool),
) -> Seq<(Seq<char>, bool)> {
    if exists|i: int| 0 <= i < seen.len() && (#[trigger] seen[i]).0 == candidate.0 {
        seen
    } else {
        seen.push(candidate)
    }
}

/// The candidates of the membership lines, in order, each path once.
pub open spec fn line_candidates(all: Seq<Seq<char>>) -> Seq<(Seq<char>, bool)>
    decreases all.len(),
{
    if all.len() == 0 {
        Seq::empty()
    } else {
        let before = line_candidates(all.drop_last());
        match line_candidate(all.last()) {
            Some(c) => with_candidate(before, c),
            None => before,
        }
    }
}

/// The controller files to ask for a limit: those that the membership text
/// points at, if it can be read, then the two at the mount itself; each once.
pub open spec fn limit_paths(membership: Option<Seq<char>>) -> Seq<(Seq<char>, bool)> {
    let own = match membership {
        Some(text) => line_candidates(lines(text)),
        None => Seq::empty(),
    };
    with_candidate(
        with_candidate(own, ("/sys/fs/cgroup/memory.max"@, false)),
        ("/sys/fs/cgroup/memory/memory.limit_in_bytes"@, true),
    )
}

/// A membership line without controllers points at the limit of its directory on
/// the unified mount; one that has the memory controller among its own points at
/// the limit on that controller's mount; any other points at none.
pub proof fn law_membership_lines(
    number: Seq<char>,
    controllers: Seq<char>,
    relative: Seq<char>,
)
    requires
        !number.contains(':'),
        !controllers.contains(':'),
    ensures
        ({
            let line = number + seq![':'] + controllers + seq![':'] + relative;
            if controllers.len() == 0 {
                line_candidate(line) == match cgroup_path("/sys/fs/cgroup"@, relative) {
                    Some(dir) => Some((below(dir, "memory.max"@), false)),
                    None => None,
                }
            } else if listed_text(fields(controllers, ','), "memory"@) {
                line_candidate(line) == match cgroup_path("/sys/fs/cgroup/memory"@, relative) {
                    Some(dir) => Some((below(dir, "memory.limit_in_bytes"@), true)),
                    None => None,
                }
            } else {
                line_candidate(line) is None
            }
        }),
{
    let line = number + seq![':'] + controllers + seq![':'] + relative;
    let rest = controllers + seq![':'] + relative;
    assert(line =~= number + seq![':'] + rest);
    crate::text::law_cut_of_join(number, ':', rest);
    crate::text::law_cut_of_join(controllers, ':', relative);
}

/// Every file that a membership line points at is asked, and so are the two at
/// the mount itself; no path is asked twice.
pub proof fn law_limit_paths(text: Seq<char>, i: int)
    requires
        0 <= i < lines(text).len(),
    ensures
        line_candidate(lines(text)[i]) matches Some(c) ==> has_path(limit_paths(Some(text)), c.0),
        has_path(limit_paths(Some(text)), "/sys/fs/cgroup/memory.max"@),
        has_path(limit_paths(Some(text)), "/sys/fs/cgroup/memory/memory.limit_in_bytes"@),
        paths_differ(limit_paths(Some(text))),
        has_path(limit_paths(None), "/sys/fs/cgroup/memory.max"@),
        has_path(limit_paths(None), "/sys/fs/cgroup/memory/memory.limit_in_bytes"@),
        paths_differ(limit_paths(None)),
{
    let all = lines(text);
    let own = line_candidates(all);
    let v2 = ("/sys/fs/cgroup/memory.max"@, false);
    let v1 = ("/sys/fs/cgroup/memory/memory.limit_in_bytes"@, true);
    lemma_line_candidates(all, i);
    lemma_with_candidate(own, v2);
    lemma_with_candidate(with_candidate(own, v2), v1);
    let none = Seq::<(Seq<char>, bool)>::empty();
    lemma_with_candidate(none, v2);
    lemma_with_candidate(with_candidate(none, v2), v1);
}

/// Whether a path is one of those that are asked.
pub open spec fn has_path(seen: Seq<(Seq<char>, bool)>, path: Seq<char>) -> bool {
    exists|i: int| 0 <= i < seen.len() && (#[trigger] seen[i]).0 == path
}

/// Whether no path is asked twice.
pub open spec fn paths_differ(seen: Seq<(Seq<char>, bool)>) -> bool {
    forall|i: int, j: int|
        0 <= i < j < seen.len() ==> (#[trigger] seen[i]).0 != (#[trigger] seen[j]).0
}

proof fn lemma_with_candidate(seen: Seq<(Seq<char>, bool)>, candidate: (Seq<char>, bool))
    ensures
        has_path(with_candidate(seen, candidate), candidate.0),
        forall|path: Seq<char>|
            has_path(seen, path) ==> #[trigger] has_path(with_candidate(seen, candidate), path),
        paths_differ(seen) ==> paths_differ(with_candidate(seen, candidate)),
{
    let after = with_candidate(seen, candidate);
    if !has_path(seen, candidate.0) {
        assert(after[seen.len() as int].0 == candidate.0);
    }
    assert forall|path: Seq<char>| has_path(seen, path) implies #[trigger] has_path(after, path) by {
        let i = choose|i: int| 0 <= i < seen.len() && (#[trigger] seen[i]).0 == path;
        assert(after[i] == seen[i]);
    }
    if paths_differ(seen) && !has_path(seen, candidate.0) {
        assert forall|i: int, j: int| 0 <= i < j < after.len() implies (#[trigger] after[i]).0 != (
        #[trigger] after[j]).0 by {
            assert(seen[i].0 != candidate.0);
            if j < seen.len() {
                assert(seen[i].0 != seen[j].0);
            }
        }
    }
}

proof fn lemma_line_candidates(all: Seq<Seq<char>>, i: int)
    requires
        0 <= i < all.len(),
    ensures
        line_candidate(all[i]) matches Some(c) ==> has_path(line_candidates(all), c.0),
        paths_differ(line_candidates(all)),
    decreases all.len(),
{
    let rest = all.drop_last();
    if rest.len() > 0 {
        let k = if i < rest.len() { i } else { 0 };
        lemma_line_candidates(rest, k);
        assert(rest[k] == all[k]);
    } else {
        assert(line_candidates(rest).len() == 0);
    }
    if let Some(c) = line_candidate(all.last()) {
        lemma_with_candidate(line_candidates(rest), c);
    }
}

/// The views of a list of controller files.
pub open spec fn candidate_texts(items: Seq<(String, bool)>) -> Seq<(Seq<char>, bool)> {
    items.map_values(|c: (String, bool)| (c.0@, c.1))
}

/// `dir` with the file `name` in it.
fn file_in(dir: String, name: &str) -> (out: String)
    ensures
        out@ == below(dir@, name@),
{
    let chars = chars_of(dir.as_str());
    let n: usize = chars.len();
    let mut out = dir;
    if n > 0 && chars[n - 1] != '/' {
        out.append("/");
    }
    out.append(name);
    out
}

/// Whether one of `items` is `item`.
fn field_listed(items: &Vec<String>, item: &str) -> (r: bool)
    ensures
        r == listed_text(texts(items@), item@),
{
    let mut i: usize = 0;
    while i < items.len()
        invariant
            i <= items@.len(),
            forall|j: int| 0 <= j < i ==> #[trigger] texts(items@)[j] != item@,
        decreases items.len() - i,
    {
        assert(texts(items@)[i as int] == items@[i as int]@);
        if str_eq(items[i].as_str(), item) {
            return true;
        }
        i = i + 1;
    }
    false
}

/// The controller file that one membership line points at.
fn candidate_of(line: &str) -> (r: Option<(String, bool)>)
    ensures
        match r {
            Some(c) => line_candidate(line@) == Some((c.0@, c.1)),
            None => line_candidate(line@) is None,
        },
{
    match split_once(line, ':') {
        None => None,
        Some((_, rest)) => match split_once(rest.as_str(), ':') {
            None => None,
            Some((controllers, relative)) => {
                if controllers.as_str().is_empty() {
                    match cgroup_directory("/sys/fs/cgroup", relative.as_str()) {
                        Some(dir) => Some((file_in(dir, "memory.max"), false)),
                        None => None,
                    }
                } else {
                    let names = split(controllers.as_str(), ',');
                    if field_listed(&names, "memory") {
                        match cgroup_directory("/sys/fs/cgroup/memory", relative.as_str()) {
                            Some(dir) => Some((file_in(dir, "memory.limit_in_bytes"), true)),
                            None => None,
                        }
                    } else {
                        None
                    }
                }
            },
        },
    }
}

/// Adds a candidate, unless its path is there already.
fn push_candidate(seen: &mut Vec<(String, bool)>, path: String, v1: bool)
    ensures
        candidate_texts(final(seen)@) == with_candidate(candidate_texts(old(seen)@), (path@, v1)),
{
    let ghost before = candidate_texts(seen@);
    let mut i: usize = 0;
    while i < seen.len()
        invariant
            i <= seen@.len(),
            before == candidate_texts(seen@),
            seen@ == old(seen)@,
            forall|j: int| 0 <= j < i ==> (#[trigger] before[j]).0 != path@,
        decreases seen.len() - i,
    {
        assert(before[i as int].0 == seen@[i as int].0@);
        if str_eq(seen[i].0.as_str(), path.as_str()) {
            return;
        }
        i = i + 1;
    }
    let ghost item = (path@, v1);
    seen.push((path, v1));
    assert(candidate_texts(seen@) =~= before.push(item));
}

/// The controller files to ask for a limit.
pub fn cgroup_memory_limit_paths(membership: Option<&str>) -> (r: Vec<(String, bool)>)
    ensures
        candidate_texts(r@) == limit_paths(
            match membership {
                Some(text) => Some(text@),
                None => None,
            },
        ),
{
    let mut out: Vec<(String, bool)> = Vec::new();
    assert(candidate_texts(out@) =~= Seq::<(Seq<char>, bool)>::empty());
    match membership {
        Some(text) => {
            let rows = lines_of(text);
            let ghost all = lines(text@);
            let mut i: usize = 0;
            assert(all.take(0) =~= Seq::<Seq<char>>::empty());
            while i < rows.len()
                invariant
                    i <= rows@.len(),
                    texts(rows@) == all,
                    candidate_texts(out@) == line_candidates(all.take(i as int)),
                decreases rows.len() - i,
            {
                proof {
                    assert(texts(rows@)[i as int] == rows@[i as int]@);
                    assert(all.take(i + 1).drop_last() =~= all.take(i as int));
                    assert(all.take(i + 1).last() == rows@[i as int]@);
                }
                match candidate_of(rows[i].as_str()) {
                    Some((path, v1)) => push_candidate(&mut out, path, v1),
                    None => {},
                }
                i = i + 1;
            }
            assert(all.take(i as int) =~= all);
        },
        None => {},
    }
    push_candidate(&mut out, "/sys/fs/cgroup/memory.max".to_owned(), false);
    push_candidate(&mut out, "/sys/fs/cgroup/memory/memory.limit_in_bytes".to_owned(), true);
    out
}

/// The first finite limit among the contents of the controller files of one
/// version, each with whether it is a v1 file; a file that could not be read has
/// none.
pub open spec fn first_limit_of(contents: Seq<(Option<String>, bool)>, v1: bool) -> Option<nat>
    decreases contents.len(),
{
    if contents.len() == 0 {
        None
    } else {
        let first = match contents[0].0 {
            Some(raw) if contents[0].1 == v1 => cgroup_limit(raw@, v1),
            _ => None,
        };
        match first {
            Some(n) => Some(n),
            None => first_limit_of(contents.skip(1), v1),
        }
    }
}

/// The finite limit that the controller files state: the first of a v2 file, and
/// only where no v2 file states one the first of a v1 file.
pub open spec fn first_limit(contents: Seq<(Option<String>, bool)>) -> Option<nat> {
    match first_limit_of(contents, false) {
        Some(n) => Some(n),
        None => first_limit_of(contents, true),
    }
}

/// The first finite limit among the contents of the controller files of one
/// version.
fn limit_of_version(contents: &Vec<(Option<String>, bool)>, v1: bool) -> (r: Option<usize>)
    ensures
        match r {
            Some(n) => first_limit_of(contents@, v1) == Some(n as nat),
            None => first_limit_of(contents@, v1) is None,
        },
{
    let mut i: usize = 0;
    assert(contents@.skip(0) =~= contents@);
    while i < contents.len()
        invariant
            i <= contents@.len(),
            first_limit_of(contents@, v1) == first_limit_of(contents@.skip(i as int), v1),
        decreases contents.len() - i,
    {
        assert(contents@.skip(i as int).skip(1) =~= contents@.skip(i + 1));
        match &contents[i].0 {
            Some(raw) => {
                if contents[i].1 == v1 {
                    match parse_cgroup_limit(raw.as_str(), v1) {
                        Some(n) => {
                            return Some(n);
                        },
                        None => {},
                    }
                }
            },
            None => {},
        }
        i = i + 1;
    }
    None
}

/// The current finite cgroup hard limit, from the contents of the controller
/// files in the order in which they are asked. A v2 file is preferred wherever it
/// stands; v1 is the fallback.
pub fn finite_cgroup_memory_limit_bytes(contents: &Vec<(Option<String>, bool)>) -> (r: Option<
    usize,
>)
    ensures
        match r {
            Some(n) => first_limit(contents@) == Some(n as nat),
            None => first_limit(contents@) is None,
        },
{
    match limit_of_version(contents, false) {
        Some(n) => Some(n),
        None => limit_of_version(contents, true),
    }
}

/// A controller file that holds a positive number states that limit, space around
/// it or not, unless it is a v1 file and the number stands for none; what holds
/// zero or no number states none.
pub proof fn law_cgroup_limit(raw: Seq<char>, n: nat, v1: bool)
    requires
        trimmed(raw) == decimal(n),
        n <= usize::MAX,
    ensures
        cgroup_limit(raw, v1) == if n == 0 || (v1 && n >= 0x1000_0000_0000_0000) {
            None
        } else {
            Some(n)
        },
{
    crate::text::law_decimal_round_trip(n, usize::MAX as nat);
}

/// A ceiling that is a number is taken as it is, and `auto` is nine tenths of the
/// container's limit, or refused where there is none.
pub proof fn law_ceiling_is_resolved(raw: Seq<char>, n: nat, hard_limit: Option<usize>)
    ensures
        trimmed(raw) == decimal(n) && n <= usize::MAX ==> resolved_ceiling(raw, hard_limit) == Ok::<
            nat,
            Seq<char>,
        >(n),
        same_ignoring_ascii_case(trimmed(raw), "auto"@) ==> match hard_limit {
            Some(limit) => resolved_ceiling(raw, hard_limit) matches Ok(c) && 100 * c <= 90 * limit
                && 90 * limit < 100 * (c + 1),
            None => resolved_ceiling(raw, hard_limit) is Err,
        },
{
    if trimmed(raw) == decimal(n) && n <= usize::MAX {
        crate::text::law_decimal_round_trip(n, usize::MAX as nat);
        crate::text::lemma_decimal_digits(n);
        reveal_strlit("auto");
        assert(is_digit(decimal(n)[0]));
    }
    if let Some(limit) = hard_limit {
        law_share_is_rounded_down(limit, 90);
    }
}

/// The limit of a version is that of its first file that states one.
pub proof fn law_first_limit_comes_first(contents: Seq<(Option<String>, bool)>, v1: bool, i: int)
    requires
        0 <= i < contents.len(),
        contents[i].1 == v1,
        contents[i].0 is Some,
        cgroup_limit(contents[i].0->Some_0@, v1) is Some,
        forall|j: int|
            0 <= j < i && (#[trigger] contents[j]).1 == v1 && contents[j].0 is Some
                ==> cgroup_limit(contents[j].0->Some_0@, v1) is None,
    ensures
        first_limit_of(contents, v1) == cgroup_limit(contents[i].0->Some_0@, v1),
    decreases i,
{
    if i > 0 {
        let rest = contents.skip(1);
        assert(contents[0].1 == v1 && contents[0].0 is Some ==> cgroup_limit(
            contents[0].0->Some_0@,
            v1,
        ) is None);
        assert forall|j: int|
            0 <= j < i - 1 && (#[trigger] rest[j]).1 == v1 && rest[j].0 is Some implies cgroup_limit(
            rest[j].0->Some_0@,
            v1,
        ) is None by {
            assert(rest[j] == contents[j + 1]);
        }
        assert(rest[i - 1] == contents[i]);
        law_first_limit_comes_first(rest, v1, i - 1);
    }
}

/// Whether one of the controller files of a version states a finite limit.
pub open spec fn states_limit(contents: Seq<(Option<String>, bool)>, v1: bool) -> bool {
    exists|i: int|
        0 <= i < contents.len() && (#[trigger] contents[i]).1 == v1 && (
        contents[i].0 matches Some(raw) && cgroup_limit(raw@, v1) is Some)
}

/// A limit of a v1 file counts only where no v2 file states one, whatever the
/// order in which the files are listed, and a limit that is stated is found.
pub proof fn law_v2_is_preferred(contents: Seq<(Option<String>, bool)>)
    ensures
        states_limit(contents, false) ==> first_limit(contents) is Some && first_limit(contents)
            == first_limit_of(contents, false),
        !states_limit(contents, false) ==> first_limit(contents) == first_limit_of(contents, true),
        first_limit(contents) is Some <==> states_limit(contents, false) || states_limit(
            contents,
            true,
        ),
{
    lemma_limit_is_found(contents, false);
    lemma_limit_is_found(contents, true);
}

proof fn lemma_limit_is_found(contents: Seq<(Option<String>, bool)>, v1: bool)
    ensures
        first_limit_of(contents, v1) is Some <==> states_limit(contents, v1),
    decreases contents.len(),
{
    if contents.len() > 0 {
        let rest = contents.skip(1);
        lemma_limit_is_found(rest, v1);
        if states_limit(rest, v1) {
            let i = choose|i: int|
                0 <= i < rest.len() && (#[trigger] rest[i]).1 == v1 && (rest[i].0 matches Some(raw)
                    && cgroup_limit(raw@, v1) is Some);
            assert(contents[i + 1] == rest[i]);
        }
        if states_limit(contents, v1) && !states_limit(rest, v1) {
            let i = choose|i: int|
                0 <= i < contents.len() && (#[trigger] contents[i]).1 == v1 && (
                contents[i].0 matches Some(raw) && cgroup_limit(raw@, v1) is Some);
            if i > 0 {
                assert(rest[i - 1] == contents[i]);
            }
        }
    }
}

// ---------------------------------------------------------------------------
// The governor
// ---------------------------------------------------------------------------

/// A refused admission: the measured resident set, the headroom that was asked
/// for before allocating, and the ceiling.
#[derive(Debug, Clone, Copy, PartialEq, Eq, Structural)]
pub struct MemoryPressure {
    pub resident_bytes: usize,
    pub requested_headroom_bytes: usize,
    pub max_bytes: usize,
}

/// What the governor knows.
#[verifier::ext_equal]
pub struct GovernorModel {
    pub max_bytes: usize,
    /// Relief starts here.
    pub reclaim_bytes: usize,
    /// A pressure episode ends here.
    pub resume_bytes: usize,
    /// The last sample.
    pub resident_bytes: usize,
    /// A pressure episode is on.
    pub pressure_active: bool,
    /// A relief job is queued or running.
    pub job_scheduled: bool,
    /// How many relief jobs have come to their end, as a wrapping counter.
    pub jobs_completed: u64,
    /// A relief pass is clearing caches.
    pub reclaim_running: bool,
    /// When the last pass began, in nanoseconds of the shell's clock.
    pub last_started: Option<nat>,
    pub reclaim_events: u64,
    pub rejected_queries: u64,
    /// Headroom promised to requests that are under way.
    pub reserved_headroom_bytes: usize,
    /// An operator's flush is under way.
    pub flush_running: bool,
}

/// `a + b`, or the largest size when that is more.
pub open spec fn saturated(a: usize, b: usize) -> usize {
    if a + b <= usize::MAX {
        (a + b) as usize
    } else {
        usize::MAX
    }
}

/// Whether a resident set together with the headroom asked for reaches a ceiling
/// that is set.
pub open spec fn under_pressure(resident: usize, headroom: usize, max: usize) -> bool {
    max > 0 && saturated(resident, headroom) >= max
}

/// One more event on a wrapping counter.
pub open spec fn bumped(n: u64) -> u64 {
    if n == u64::MAX {
        0
    } else {
        (n + 1) as u64
    }
}

impl GovernorModel {
    /// A governor that has seen nothing.
    pub open spec fn fresh(max_bytes: usize) -> GovernorModel {
        GovernorModel {
            max_bytes,
            reclaim_bytes: share(max_bytes as nat, RECLAIM_PERCENT as nat) as usize,
            resume_bytes: share(max_bytes as nat, RESUME_PERCENT as nat) as usize,
            resident_bytes: 0,
            pressure_active: false,
            job_scheduled: false,
            jobs_completed: 0,
            reclaim_running: false,
            last_started: None,
            reclaim_events: 0,
            rejected_queries: 0,
            reserved_headroom_bytes: 0,
            flush_running: false,
        }
    }

    /// After a sample: the gauge follows it, and an episode ends at the lower
    /// mark.
    pub open spec fn sampled(self, resident: usize) -> GovernorModel {
        GovernorModel {
            resident_bytes: resident,
            pressure_active: self.pressure_active && resident > self.resume_bytes,
            ..self
        }
    }

    /// Whether the cooldown between two passes at the ceiling is over at `now`.
    pub open spec fn cooled_down(self, now: nat) -> bool {
        match self.last_started {
            None => true,
            Some(last) => now >= last + HARD_RECLAIM_COOLDOWN_NANOS,
        }
    }

    /// Whether a sample can start a useful pass: at the first sight of pressure,
    /// and then again at the ceiling once the cooldown is over.
    pub open spec fn reclaim_due(self, resident: usize, now: nat) -> bool {
        resident >= self.reclaim_bytes && (!self.pressure_active || (resident >= self.max_bytes
            && !self.reclaim_running && self.cooled_down(now)))
    }

    /// Whether a pass may begin.
    pub open spec fn may_begin(self, new_episode: bool, at_hard_limit: bool, now: nat) -> bool {
        !self.reclaim_running && (new_episode || (at_hard_limit && self.cooled_down(now)))
    }

    /// A pass has begun.
    pub open spec fn begun(self, now: nat) -> GovernorModel {
        GovernorModel { reclaim_running: true, last_started: Some(now), ..self }
    }

    /// A pass has ended with `resident` bytes: when it brought relief, pressure
    /// can be seen anew.
    pub open spec fn finished(self, resident: usize) -> GovernorModel {
        GovernorModel {
            reclaim_running: false,
            pressure_active: self.pressure_active && resident >= self.reclaim_bytes,
            ..self
        }
    }

    /// One query was refused.
    pub open spec fn refused(self) -> GovernorModel {
        GovernorModel { rejected_queries: bumped(self.rejected_queries), ..self }
    }

    /// The refusal that `resident` bytes and `headroom` more call for.
    pub open spec fn pressure(self, resident: usize, headroom: usize) -> MemoryPressure {
        MemoryPressure {
            resident_bytes: resident,
            requested_headroom_bytes: headroom,
            max_bytes: self.max_bytes,
        }
    }

    /// The marks stand where the ceiling puts them.
    pub open spec fn wf(self) -> bool {
        &&& self.reclaim_bytes == share(self.max_bytes as nat, RECLAIM_PERCENT as nat)
        &&& self.resume_bytes == share(self.max_bytes as nat, RESUME_PERCENT as nat)
    }
}

/// A promise of headroom to one request, handed out at admission and handed back
/// when the request is over.
#[derive(Debug)]
pub struct MemoryHeadroomReservation {
    bytes: usize,
}

impl MemoryHeadroomReservation {
    /// The bytes that are promised.
    pub closed spec fn spec_bytes(self) -> usize {
        self.bytes
    }

    /// The bytes that are promised.
    pub fn bytes(&self) -> (r: usize)
        ensures
            r == self.spec_bytes(),
    {
        self.bytes
    }
}

/// The one slot for a relief job, from queueing to completion.
#[derive(Debug)]
pub struct ReclaimJobPermit {
    _held: (),
}

/// The one slot for an operator's flush.
#[derive(Debug)]
pub struct AdminFlushPermit {
    _held: (),
}

/// What an admission does about a sample before it decides.
#[derive(Debug)]
pub enum ReclaimStep {
    /// Decide on the sample as it is.
    Decide,
    /// Run the relief job that the permit is for, and decide on what it finds.
    Run(ReclaimJobPermit),
    /// A job is under way at the ceiling: wait until it is over, sample again,
    /// and decide on that.
    Wait,
}

/// `memory_stats::memory_stats` reports the memory of the current process, if
/// the platform can be asked. The resident set is whatever the machine says, so
/// nothing is claimed of it.
#[verifier::external_body]
pub(crate) fn sample_resident_bytes() -> (r: Option<usize>) {
    memory_stats::memory_stats().map(|stats| stats.physical_mem)
}

/// Process-wide memory governor shared by every serving path and namespace.
#[derive(Debug)]
pub struct MemoryGovernor {
    max_bytes: usize,
    reclaim_bytes: usize,
    resume_bytes: usize,
    resident_bytes: usize,
    pressure_active: bool,
    job_scheduled: bool,
    jobs_completed: u64,
    reclaim_running: bool,
    last_started: Option<Duration>,
    reclaim_events: u64,
    rejected_queries: u64,
    reserved_headroom_bytes: usize,
    flush_running: bool,
}

impl View for MemoryGovernor {
    type V = GovernorModel;

    closed spec fn view(&self) -> GovernorModel {
        GovernorModel {
            max_bytes: self.max_bytes,
            reclaim_bytes: self.reclaim_bytes,
            resume_bytes: self.resume_bytes,
            resident_bytes: self.resident_bytes,
            pressure_active: self.pressure_active,
            job_scheduled: self.job_scheduled,
            jobs_completed: self.jobs_completed,
            reclaim_running: self.reclaim_running,
            last_started: match self.last_started {
                Some(d) => Some(nanos(d)),
                None => None,
            },
            reclaim_events: self.reclaim_events,
            rejected_queries: self.rejected_queries,
            reserved_headroom_bytes: self.reserved_headroom_bytes,
            flush_running: self.flush_running,
        }
    }
}

impl MemoryGovernor {
    /// A governor with the given ceiling; zero switches it off.
    pub fn new(max_bytes: usize) -> (r: MemoryGovernor)
        ensures
            r@ == GovernorModel::fresh(max_bytes),
            r@.wf(),
    {
        MemoryGovernor {
            max_bytes,
            reclaim_bytes: percent(max_bytes, RECLAIM_PERCENT),
            resume_bytes: percent(max_bytes, RESUME_PERCENT),
            resident_bytes: 0,
            pressure_active: false,
            job_scheduled: false,
            jobs_completed: 0,
            reclaim_running: false,
            last_started: None,
            reclaim_events: 0,
            rejected_queries: 0,
            reserved_headroom_bytes: 0,
            flush_running: false,
        }
    }

    /// The refusal for a resident set and the headroom asked for, if they reach
    /// a ceiling that is set.
    pub fn projected_pressure(
        resident_bytes: usize,
        requested_headroom_bytes: usize,
        max_bytes: usize,
    ) -> (r: Option<MemoryPressure>)
        ensures
            r == if under_pressure(resident_bytes, requested_headroom_bytes, max_bytes) {
                Some(MemoryPressure { resident_bytes, requested_headroom_bytes, max_bytes })
            } else {
                None
            },
    {
        if max_bytes > 0 && resident_bytes.saturating_add(requested_headroom_bytes) >= max_bytes {
            Some(MemoryPressure { resident_bytes, requested_headroom_bytes, max_bytes })
        } else {
            None
        }
    }

    /// Takes a sample in. Without one, nothing changes.
    pub fn observe_resident(&mut self, sample: Option<usize>) -> (r: Option<usize>)
        ensures
            r == sample,
            final(self)@ == match sample {
                Some(resident) => old(self)@.sampled(resident),
                None => old(self)@,
            },
    {
        match sample {
            Some(resident) => {
                self.resident_bytes = resident;
                if resident <= self.resume_bytes {
                    self.pressure_active = false;
                }
            },
            None => {},
        }
        sample
    }

    /// Samples the process for an admission. A governor that is off asks for
    /// nothing and changes nothing.
    pub fn sample_for_admission(&mut self) -> (r: Option<usize>)
        ensures
            old(self)@.max_bytes == 0 ==> r is None && final(self)@ == old(self)@,
            final(self)@ == match r {
                Some(resident) => old(self)@.sampled(resident),
                None => old(self)@,
            },
    {
        if self.max_bytes == 0 {
            return None;
        }
        let sample = sample_resident_bytes();
        self.observe_resident(sample)
    }

    /// Refreshes the resident gauge, with no admission and no relief.
    pub fn sample(&mut self) -> (r: Option<usize>)
        ensures
            final(self)@ == match r {
                Some(resident) => GovernorModel { resident_bytes: resident, ..old(self)@ },
                None => old(self)@,
            },
    {
        let sample = sample_resident_bytes();
        self.set_resident(sample);
        sample
    }

    /// Sets the resident gauge to a sample, with no admission and no relief.
    pub fn set_resident(&mut self, sample: Option<usize>)
        ensures
            final(self)@ == match sample {
                Some(resident) => GovernorModel { resident_bytes: resident, ..old(self)@ },
                None => old(self)@,
            },
    {
        match sample {
            Some(resident) => {
                self.resident_bytes = resident;
            },
            None => {},
        }
    }

    /// Whether the cooldown between two passes at the ceiling is over.
    fn cooled_down(&self, now: Duration) -> (r: bool)
        ensures
            r == self@.cooled_down(nanos(now)),
    {
        match self.last_started {
            None => true,
            Some(last) => {
                let at: u128 = now.as_nanos();
                let since: u128 = last.as_nanos();
                at >= since && at - since >= HARD_RECLAIM_COOLDOWN_NANOS
            },
        }
    }

    /// Whether a sample can start a useful relief pass. Within an episode below
    /// the ceiling one pass is enough; at the ceiling another one becomes due
    /// after the cooldown.
    pub fn reclaim_job_due(&self, resident: usize, now: Duration) -> (r: bool)
        ensures
            r == self@.reclaim_due(resident, nanos(now)),
    {
        if resident < self.reclaim_bytes {
            return false;
        }
        if !self.pressure_active {
            return true;
        }
        if resident < self.max_bytes {
            return false;
        }
        !self.reclaim_running && self.cooled_down(now)
    }

    /// Takes the one slot for a relief job, if a job is due and the slot is free.
    pub fn try_schedule_reclaim(&mut self, resident: usize, now: Duration) -> (r: Option<
        ReclaimJobPermit,
    >)
        ensures
            r is Some <==> old(self)@.reclaim_due(resident, nanos(now)) && !old(
                self,
            )@.job_scheduled,
            final(self)@ == (GovernorModel {
                job_scheduled: old(self)@.job_scheduled || r is Some,
                ..old(self)@
            }),
    {
        if !self.reclaim_job_due(resident, now) || self.job_scheduled {
            return None;
        }
        self.job_scheduled = true;
        Some(ReclaimJobPermit { _held: () })
    }

    /// Gives the slot for relief jobs back, and counts the job as over.
    pub fn release_reclaim(&mut self, permit: ReclaimJobPermit)
        ensures
            final(self)@ == (GovernorModel {
                job_scheduled: false,
                jobs_completed: bumped(old(self)@.jobs_completed),
                ..old(self)@
            }),
    {
        self.job_scheduled = false;
        self.jobs_completed = self.jobs_completed.wrapping_add(1);
    }

    /// What an admission, or the watchdog, does about a sample: run the relief
    /// job, wait for the one that is under way at the ceiling, or decide.
    pub fn plan_reclaim(&mut self, initial: usize, now: Duration) -> (r: ReclaimStep)
        ensures
            r is Run <==> old(self)@.reclaim_due(initial, nanos(now)) && !old(self)@.job_scheduled,
            r is Wait <==> old(self)@.job_scheduled && initial >= old(self)@.max_bytes,
            final(self)@ == (GovernorModel {
                job_scheduled: old(self)@.job_scheduled || r is Run,
                ..old(self)@
            }),
    {
        match self.try_schedule_reclaim(initial, now) {
            Some(permit) => ReclaimStep::Run(permit),
            None => {
                if initial >= self.max_bytes && self.job_scheduled {
                    ReclaimStep::Wait
                } else {
                    ReclaimStep::Decide
                }
            },
        }
    }

    /// Marks a pass as begun, if it may begin.
    pub fn try_begin_reclaim(
        &mut self,
        new_pressure_episode: bool,
        at_hard_limit: bool,
        now: Duration,
    ) -> (r: bool)
        ensures
            r == old(self)@.may_begin(new_pressure_episode, at_hard_limit, nanos(now)),
            final(self)@ == if r {
                old(self)@.begun(nanos(now))
            } else {
                old(self)@
            },
    {
        if self.reclaim_running {
            return false;
        }
        if !new_pressure_episode && !(at_hard_limit && self.cooled_down(now)) {
            return false;
        }
        self.reclaim_running = true;
        self.last_started = Some(now);
        true
    }

    /// Marks a pass as ended.
    pub fn finish_reclaim(&mut self, resident: usize)
        ensures
            final(self)@ == old(self)@.finished(resident),
    {
        if resident < self.reclaim_bytes {
            self.pressure_active = false;
        }
        self.reclaim_running = false;
    }

    /// The first half of a relief pass: takes a sample in and says whether the
    /// caches are to be cleared now. No refusal is counted.
    pub fn begin_relief(&mut self, sample: Option<usize>, now: Duration) -> (r: bool)
        ensures
            r == old(self)@.relief_begins(sample, nanos(now)),
            final(self)@ == old(self)@.relief_begun(sample, nanos(now)),
    {
        if self.max_bytes == 0 {
            return false;
        }
        let resident: usize = match sample {
            Some(resident) => resident,
            None => {
                return false;
            },
        };
        self.resident_bytes = resident;
        let new_episode = resident >= self.reclaim_bytes && !self.pressure_active;
        if new_episode {
            self.pressure_active = true;
        }
        if self.try_begin_reclaim(new_episode, resident >= self.max_bytes, now) {
            true
        } else {
            if resident <= self.resume_bytes {
                self.pressure_active = false;
            }
            false
        }
    }

    /// The second half of a relief pass whose caches were cleared: counts the
    /// pass and takes in the sample that followed, if there is one. Returns the
    /// resident set that the pass ended with.
    pub fn end_relief(&mut self, after: Option<usize>) -> (r: usize)
        ensures
            r == (match after {
                Some(resident) => resident,
                None => old(self)@.resident_bytes,
            }),
            final(self)@ == old(self)@.relief_ended(r),
    {
        self.reclaim_events = self.reclaim_events.wrapping_add(1);
        let resident: usize = match after {
            Some(resident) => {
                self.resident_bytes = resident;
                resident
            },
            None => self.resident_bytes,
        };
        self.finish_reclaim(resident);
        if resident <= self.resume_bytes {
            self.pressure_active = false;
        }
        resident
    }

    /// Admits a query, or refuses it at the ceiling. `resident` is the sample
    /// after any relief; a governor that is off, or has no sample, refuses
    /// nothing.
    pub fn admit_query(&mut self, resident: Option<usize>) -> (r: Result<(), MemoryPressure>)
        ensures
            r == match resident {
                Some(n) if under_pressure(n, 0, old(self)@.max_bytes) => Err::<(), MemoryPressure>(
                    old(self)@.pressure(n, 0),
                ),
                _ => Ok::<(), MemoryPressure>(()),
            },
            final(self)@ == if r is Err {
                old(self)@.refused()
            } else {
                old(self)@
            },
    {
        match resident {
            Some(n) => match Self::projected_pressure(n, 0, self.max_bytes) {
                Some(pressure) => {
                    self.rejected_queries = self.rejected_queries.wrapping_add(1);
                    Err(pressure)
                },
                None => Ok(()),
            },
            None => Ok(()),
        }
    }

    /// Reserves headroom on top of a resident set and of every reservation that
    /// is still held, so that requests that fit one by one cannot pass the
    /// ceiling together.
    pub fn try_reserve_observed(
        &mut self,
        resident_bytes: usize,
        additional_bytes: usize,
    ) -> (r: Result<MemoryHeadroomReservation, MemoryPressure>)
        ensures
            r is Ok <==> old(self)@.reservable(resident_bytes, additional_bytes),
            match r {
                Ok(guard) => {
                    &&& guard.spec_bytes() == additional_bytes
                    &&& final(self)@ == old(self)@.promised(additional_bytes)
                },
                Err(pressure) => {
                    &&& pressure == old(self)@.pressure(
                        resident_bytes,
                        saturated(old(self)@.reserved_headroom_bytes, additional_bytes),
                    )
                    &&& final(self)@ == old(self)@.refused()
                },
            },
    {
        let reserved: usize = self.reserved_headroom_bytes;
        let projected: usize = reserved.saturating_add(additional_bytes);
        match Self::projected_pressure(resident_bytes, projected, self.max_bytes) {
            Some(pressure) => {
                self.rejected_queries = self.rejected_queries.wrapping_add(1);
                return Err(pressure);
            },
            None => {},
        }
        match reserved.checked_add(additional_bytes) {
            Some(next) => {
                self.reserved_headroom_bytes = next;
                Ok(MemoryHeadroomReservation { bytes: additional_bytes })
            },
            None => {
                self.rejected_queries = self.rejected_queries.wrapping_add(1);
                Err(
                    MemoryPressure {
                        resident_bytes,
                        requested_headroom_bytes: usize::MAX,
                        max_bytes: self.max_bytes,
                    },
                )
            },
        }
    }

    /// Reserves the projected working set of a request. `resident` is the sample
    /// after any relief. A governor that is off, or has no sample, promises
    /// nothing and refuses nothing.
    pub fn reserve_query_headroom(
        &mut self,
        resident: Option<usize>,
        additional_bytes: usize,
    ) -> (r: Result<MemoryHeadroomReservation, MemoryPressure>)
        ensures
            old(self)@.max_bytes == 0 || resident is None ==> r is Ok && r->Ok_0.spec_bytes() == 0
                && final(self)@ == old(self)@,
            old(self)@.max_bytes > 0 && resident is Some ==> {
                &&& r is Ok <==> old(self)@.reservable(resident->Some_0, additional_bytes)
                &&& match r {
                    Ok(guard) => {
                        &&& guard.spec_bytes() == additional_bytes
                        &&& final(self)@ == old(self)@.promised(additional_bytes)
                    },
                    Err(pressure) => {
                        &&& pressure == old(self)@.pressure(
                            resident->Some_0,
                            saturated(old(self)@.reserved_headroom_bytes, additional_bytes),
                        )
                        &&& final(self)@ == old(self)@.refused()
                    },
                }
            },
    {
        match resident {
            Some(n) => {
                if self.max_bytes == 0 {
                    Ok(MemoryHeadroomReservation { bytes: 0 })
                } else {
                    self.try_reserve_observed(n, additional_bytes)
                }
            },
            None => Ok(MemoryHeadroomReservation { bytes: 0 }),
        }
    }

    /// Takes a reservation back when its request is over.
    pub fn release_headroom(&mut self, guard: MemoryHeadroomReservation)
        requires
            guard.spec_bytes() <= old(self)@.reserved_headroom_bytes,
        ensures
            final(self)@ == old(self)@.handed_back(guard.spec_bytes()),
    {
        self.reserved_headroom_bytes = self.reserved_headroom_bytes - guard.bytes;
    }

    /// Takes the one slot for an operator's flush, if it is free.
    pub fn try_begin_flush(&mut self) -> (r: Option<AdminFlushPermit>)
        ensures
            r is Some <==> !old(self)@.flush_running,
            final(self)@ == (GovernorModel { flush_running: true, ..old(self)@ }),
    {
        if self.flush_running {
            None
        } else {
            self.flush_running = true;
            Some(AdminFlushPermit { _held: () })
        }
    }

    /// Gives the slot for an operator's flush back.
    pub fn end_flush(&mut self, permit: AdminFlushPermit)
        ensures
            final(self)@ == (GovernorModel { flush_running: false, ..old(self)@ }),
    {
        self.flush_running = false;
    }

    /// The ceiling; zero when the governor is off.
    pub fn max_bytes(&self) -> (r: usize)
        ensures
            r == self@.max_bytes,
    {
        self.max_bytes
    }

    /// The last sample.
    pub fn resident_bytes(&self) -> (r: usize)
        ensures
            r == self@.resident_bytes,
    {
        self.resident_bytes
    }

    /// The number of relief passes.
    pub fn reclaim_events(&self) -> (r: u64)
        ensures
            r == self@.reclaim_events,
    {
        self.reclaim_events
    }

    /// The number of refused queries.
    pub fn rejected_queries(&self) -> (r: u64)
        ensures
            r == self@.rejected_queries,
    {
        self.rejected_queries
    }

    /// How many relief jobs have come to their end, as a wrapping counter.
    pub fn jobs_completed(&self) -> (r: u64)
        ensures
            r == self@.jobs_completed,
    {
        self.jobs_completed
    }

    /// The headroom promised to requests that are under way.
    pub fn reserved_headroom_bytes(&self) -> (r: usize)
        ensures
            r == self@.reserved_headroom_bytes,
    {
        self.reserved_headroom_bytes
    }

    /// Whether a pressure episode is on.
    pub fn pressure_active(&self) -> (r: bool)
        ensures
            r == self@.pressure_active,
    {
        self.pressure_active
    }

    /// Whether the last sample is at or above a ceiling that is set.
    pub fn over_limit(&self) -> (r: bool)
        ensures
            r == (self@.max_bytes > 0 && self@.resident_bytes >= self@.max_bytes),
    {
        self.max_bytes > 0 && self.resident_bytes >= self.max_bytes
    }
}

impl GovernorModel {
    /// Whether headroom can be reserved: the resident set, every promise and the
    /// new one stay below a ceiling that is set, and the promises fit a size.
    pub open spec fn reservable(self, resident: usize, additional: usize) -> bool {
        !under_pressure(
            resident,
            saturated(self.reserved_headroom_bytes, additional),
            self.max_bytes,
        ) && self.reserved_headroom_bytes + additional <= usize::MAX
    }

    /// Whether a sample begins a relief pass.
    pub open spec fn relief_begins(self, sample: Option<usize>, now: nat) -> bool {
        match sample {
            Some(resident) => self.max_bytes > 0 && self.may_begin(
                resident >= self.reclaim_bytes && !self.pressure_active,
                resident >= self.max_bytes,
                now,
            ),
            None => false,
        }
    }

    /// After the first half of a relief pass. The gauge follows the sample,
    /// pressure starts an episode, and a sample at the lower mark ends one.
    pub open spec fn relief_begun(self, sample: Option<usize>, now: nat) -> GovernorModel {
        match sample {
            Some(resident) if self.max_bytes > 0 => {
                let seen = GovernorModel {
                    resident_bytes: resident,
                    pressure_active: self.pressure_active || resident >= self.reclaim_bytes,
                    ..self
                };
                if self.relief_begins(sample, now) {
                    seen.begun(now)
                } else {
                    GovernorModel {
                        pressure_active: seen.pressure_active && resident > self.resume_bytes,
                        ..seen
                    }
                }
            },
            _ => self,
        }
    }

    /// With so much more headroom promised.
    pub open spec fn promised(self, bytes: usize) -> GovernorModel {
        GovernorModel {
            reserved_headroom_bytes: (self.reserved_headroom_bytes + bytes) as usize,
            ..self
        }
    }

    /// With so much of the promised headroom handed back.
    pub open spec fn handed_back(self, bytes: usize) -> GovernorModel {
        GovernorModel {
            reserved_headroom_bytes: (self.reserved_headroom_bytes - bytes) as usize,
            ..self
        }
    }

    /// After the second half of a relief pass that ended with `resident` bytes.
    pub open spec fn relief_ended(self, resident: usize) -> GovernorModel {
        GovernorModel {
            resident_bytes: resident,
            reclaim_events: bumped(self.reclaim_events),
            reclaim_running: false,
            pressure_active: self.pressure_active && resident >= self.reclaim_bytes && resident
                > self.resume_bytes,
            ..self
        }
    }
}

/// With a ceiling set, a reservation that is granted leaves the resident set and
/// all that is promised below the ceiling.
pub proof fn law_promises_stay_below_the_ceiling(g: GovernorModel, resident: usize, additional: usize)
    requires
        g.max_bytes > 0,
        g.reservable(resident, additional),
    ensures
        resident + g.reserved_headroom_bytes + additional < g.max_bytes,
{
}

/// A reservation that is granted and handed back leaves everything as it was, and
/// while it is held it can be handed back.
pub proof fn law_reservation_round_trip(g: GovernorModel, resident: usize, additional: usize)
    requires
        g.reservable(resident, additional),
    ensures
        additional <= g.promised(additional).reserved_headroom_bytes,
        g.promised(additional).handed_back(additional) == g,
{
}

/// Two reservations are handed back in either order to the same effect.
pub proof fn law_reservations_are_independent(
    g: GovernorModel,
    resident: usize,
    first: usize,
    second: usize,
)
    requires
        g.reservable(resident, first),
        g.promised(first).reservable(resident, second),
    ensures
        ({
            let both = g.promised(first).promised(second);
            &&& both.handed_back(first) == g.promised(second)
            &&& both.handed_back(second) == g.promised(first)
            &&& both.handed_back(first).handed_back(second) == g
        }),
{
}

/// A request that finds no room now finds it once nothing else is promised,
/// unless it could never fit.
pub proof fn law_release_readmits(g: GovernorModel, resident: usize, additional: usize)
    requires
        !g.reservable(resident, additional),
        resident + additional < g.max_bytes,
    ensures
        (GovernorModel { reserved_headroom_bytes: 0, ..g }).reservable(resident, additional),
{
}

/// A governor that is off refuses nothing and starts no relief.
pub proof fn law_off_means_off(g: GovernorModel, resident: usize, headroom: usize, now: nat)
    requires
        g.max_bytes == 0,
    ensures
        !under_pressure(resident, headroom, g.max_bytes),
        !g.relief_begins(Some(resident), now),
        g.relief_begun(Some(resident), now) == g,
{
}

/// Within a pressure episode, samples between the lower mark and the ceiling
/// start no further pass and leave the episode on.
pub proof fn law_one_pass_per_episode(g: GovernorModel, resident: usize, now: nat)
    requires
        g.max_bytes > 0,
        g.pressure_active,
        g.resume_bytes < resident < g.max_bytes,
    ensures
        !g.reclaim_due(resident, now),
        !g.relief_begins(Some(resident), now),
        g.relief_begun(Some(resident), now).pressure_active,
{
}

/// At the ceiling two passes begin at least a cooldown apart, and never while
/// one is running.
pub proof fn law_passes_do_not_overlap(g: GovernorModel, resident: usize, now: nat, later: nat)
    requires
        g.wf(),
        g.relief_begins(Some(resident), now),
    ensures
        ({
            let during = g.relief_begun(Some(resident), now);
            &&& during.reclaim_running
            &&& forall|r: usize| !#[trigger] during.relief_begins(Some(r), later)
            &&& forall|end: usize, r: usize|
                #![trigger during.relief_ended(end), during.sampled(r)]
                end >= g.reclaim_bytes && end > g.resume_bytes
                    && during.relief_ended(end).relief_begins(Some(r), later) ==> later >= now
                    + HARD_RECLAIM_COOLDOWN_NANOS
        }),
{
    assert(share(g.max_bytes as nat, 90) <= g.max_bytes);
}

/// A share of a hundred or less is what it says, rounded down.
pub proof fn law_share_is_rounded_down(value: usize, percentage: nat)
    requires
        percentage <= 100,
    ensures
        100 * share(value as nat, percentage) <= value * percentage,
        value * percentage < 100 * (share(value as nat, percentage) + 1),
        share(value as nat, percentage) <= value,
{
    assert(value * percentage <= 100 * value) by (nonlinear_arith)
        requires
            percentage <= 100,
            0 <= value,
    ;
}

/// Relief starts at nine tenths of the ceiling and an episode ends at eight tenths
/// of it.
pub proof fn law_marks_follow_the_ceiling(max_bytes: usize)
    ensures
        ({
            let g = GovernorModel::fresh(max_bytes);
            &&& g.max_bytes == max_bytes
            &&& 100 * g.reclaim_bytes <= 90 * max_bytes < 100 * (g.reclaim_bytes + 1)
            &&& 100 * g.resume_bytes <= 80 * max_bytes < 100 * (g.resume_bytes + 1)
            &&& g.reserved_headroom_bytes == 0
            &&& !g.pressure_active && !g.reclaim_running && !g.job_scheduled && !g.flush_running
        }),
{
    law_share_is_rounded_down(max_bytes, 90);
    law_share_is_rounded_down(max_bytes, 80);
}

/// A query is refused exactly if a ceiling is set and what is resident with what
/// it asks for reaches it; headroom is promised exactly if what is resident with
/// all that is promised stays below it.
pub proof fn law_admission_is_exact(g: GovernorModel, resident: usize, headroom: usize)
    ensures
        under_pressure(resident, headroom, g.max_bytes) <==> g.max_bytes != 0 && resident + headroom
            >= g.max_bytes,
        g.max_bytes != 0 ==> (g.reservable(resident, headroom) <==> resident
            + g.reserved_headroom_bytes + headroom < g.max_bytes),
        g.max_bytes == 0 ==> (g.reservable(resident, headroom) <==> g.reserved_headroom_bytes
            + headroom <= usize::MAX),
        g.pressure(resident, headroom) == (MemoryPressure {
            resident_bytes: resident,
            requested_headroom_bytes: headroom,
            max_bytes: g.max_bytes,
        }),
        g.refused().rejected_queries == if g.rejected_queries < u64::MAX {
            g.rejected_queries + 1
        } else {
            0
        },
        g.promised(headroom).resident_bytes == g.resident_bytes,
{
}

/// Relief begins at the first sight of pressure, and within an episode again at
/// the ceiling once a second has passed since the last pass began; below the upper
/// mark and while a pass is running it never does.
pub proof fn law_relief_begins_when_due(g: GovernorModel, resident: usize, now: nat)
    requires
        g.max_bytes > 0,
        g.wf(),
    ensures
        g.reclaim_running ==> !g.relief_begins(Some(resident), now),
        resident < g.reclaim_bytes ==> !g.relief_begins(Some(resident), now),
        !g.reclaim_running && !g.pressure_active ==> (g.relief_begins(Some(resident), now)
            <==> resident >= g.reclaim_bytes),
        !g.reclaim_running && g.pressure_active ==> (g.relief_begins(Some(resident), now)
            <==> resident >= g.max_bytes && (g.last_started matches Some(last) ==> now - last
            >= 1_000_000_000)),
        !g.relief_begins(None, now),
        g.relief_begins(Some(resident), now) ==> {
            let during = g.relief_begun(Some(resident), now);
            &&& during.reclaim_running
            &&& during.last_started == Some(now)
            &&& during.resident_bytes == resident
            &&& during.pressure_active
        },
{
    law_share_is_rounded_down(g.max_bytes, 90);
}

/// An episode ends at the lower mark and stays on above it; the gauge follows
/// every sample; and a pass that ended is counted and runs no more.
pub proof fn law_episodes_end_at_the_lower_mark(g: GovernorModel, resident: usize)
    requires
        g.wf(),
    ensures
        g.sampled(resident).resident_bytes == resident,
        g.sampled(resident).pressure_active <==> g.pressure_active && resident > g.resume_bytes,
        g.relief_ended(resident).resident_bytes == resident,
        !g.relief_ended(resident).reclaim_running,
        g.relief_ended(resident).reclaim_events == if g.reclaim_events < u64::MAX {
            g.reclaim_events + 1
        } else {
            0
        },
        g.relief_ended(resident).pressure_active <==> g.pressure_active && resident
            >= g.reclaim_bytes && resident > g.resume_bytes,
        !g.finished(resident).reclaim_running,
        g.finished(resident).pressure_active <==> g.pressure_active && resident >= g.reclaim_bytes,
        g.finished(resident).resident_bytes == g.resident_bytes,
{
}

/// Relief never counts as a refused query.
pub proof fn law_relief_refuses_nothing(
    g: GovernorModel,
    sample: Option<usize>,
    now: nat,
    after: usize,
)
    ensures
        g.relief_begun(sample, now).rejected_queries == g.rejected_queries,
        g.relief_ended(after).rejected_queries == g.rejected_queries,
{
}

} // verus!
