//! Decisions of the configuration watcher and the broadcast filter.
use vstd::prelude::*;

verus! {

/// Debounce window of the configuration watcher, in milliseconds.
pub const DEBOUNCE_MS: u64 = 2000;

/// Least temperature change, in thousandths of a degree, worth a broadcast.
pub const BROADCAST_DELTA: i32 = 200;

/// Kinds of filesystem notification.
#[derive(Debug, Clone, Copy, PartialEq, Eq, Structural)]
pub enum FsEventKind {
    Create,
    Modify,
    Remove,
    Access,
    Other,
}

/// A path named by a filesystem notification: the full path and its last
/// component, if it has one.
#[derive(Debug, Clone)]
pub struct EventPath {
    pub path: String,
    pub file_name: Option<String>,
}

pub open spec fn opt_view(o: Option<String>) -> Option<Seq<char>> {
    match o {
        Some(s) => Some(s@),
        None => None,
    }
}

/// Whether a notified path is the configuration file: the same path, or the
/// same file name.
pub open spec fn names_config(p: EventPath, config: EventPath) -> bool {
    p.path@ == config.path@ || opt_view(p.file_name) == opt_view(config.file_name)
}

fn same_opt(a: &Option<String>, b: &Option<String>) -> (r: bool)
    ensures
        r == (opt_view(*a) == opt_view(*b)),
{
    match (a, b) {
        (Some(x), Some(y)) => *x == *y,
        (None, None) => true,
        _ => false,
    }
}

/// Whether a notification should arm a reload: a creation or modification
/// that names the configuration file.
pub fn is_config_event(kind: FsEventKind, paths: &Vec<EventPath>, config: &EventPath) -> (r: bool)
    ensures
        r == ((kind == FsEventKind::Modify || kind == FsEventKind::Create) && exists|i: int|
            0 <= i < paths@.len() && names_config(#[trigger] paths@[i], *config)),
{
    match kind {
        FsEventKind::Modify | FsEventKind::Create => {},
        _ => return false,
    }
    let mut i: usize = 0;
    while i < paths.len()
        invariant
            kind == FsEventKind::Modify || kind == FsEventKind::Create,
            i <= paths@.len(),
            forall|k: int| 0 <= k < i ==> !names_config(#[trigger] paths@[k], *config),
        decreases paths@.len() - i,
    {
        if paths[i].path == config.path || same_opt(&paths[i].file_name, &config.file_name) {
            assert(names_config(paths@[i as int], *config));
            return true;
        }
        i = i + 1;
    }
    false
}

/// Debounce state of the watcher: whether a reload is pending.
#[derive(Debug, Clone, Copy, PartialEq, Eq, Structural)]
pub struct Debounce {
    pub pending: bool,
}

impl Debounce {
    /// Nothing pending.
    pub fn new() -> (r: Debounce)
        ensures
            !r.pending,
    {
        Debounce { pending: false }
    }

    /// Takes in one notification; a relevant one arms the reload.
    pub fn on_event(&mut self, relevant: bool)
        ensures
            final(self).pending == (old(self).pending || relevant),
    {
        if relevant {
            self.pending = true;
        }
    }

    /// At the end of a debounce window: whether to analyse the file now.
    pub fn on_window_end(&mut self) -> (fire: bool)
        ensures
            fire == old(self).pending,
            !final(self).pending,
    {
        let fire = self.pending;
        self.pending = false;
        fire
    }
}

/// The first sample of `s` for `sensor`, or `dflt`.
pub open spec fn sample_or(s: Seq<(String, i32)>, sensor: Seq<char>, dflt: i32) -> i32
    decreases s.len(),
{
    if s.len() == 0 {
        dflt
    } else if s[0].0@ == sensor {
        s[0].1
    } else {
        sample_or(s.drop_first(), sensor, dflt)
    }
}

/// Whether the `i`-th sample moved by at least `BROADCAST_DELTA` from `cache`.
pub open spec fn moved_at(cache: Seq<(String, i32)>, snapshot: Seq<(String, i32)>, i: int) -> bool {
    let d = snapshot[i].1 - sample_or(cache, snapshot[i].0@, snapshot[i].1);
    d >= BROADCAST_DELTA || -d >= BROADCAST_DELTA
}

pub open spec fn moved(cache: Seq<(String, i32)>, snapshot: Seq<(String, i32)>) -> bool {
    exists|i: int| 0 <= i < snapshot.len() && #[trigger] moved_at(cache, snapshot, i)
}

fn lookup(cache: &Vec<(String, i32)>, sensor: &String, dflt: i32) -> (r: i32)
    ensures
        r == sample_or(cache@, sensor@, dflt),
{
    let mut i: usize = 0;
    assert(cache@.subrange(0, cache@.len() as int) =~= cache@);
    while i < cache.len()
        invariant
            i <= cache@.len(),
            sample_or(cache@, sensor@, dflt) == sample_or(cache@.subrange(i as int, cache@.len() as int), sensor@, dflt),
        decreases cache@.len() - i,
    {
        proof {
            assert(cache@.subrange(i as int, cache@.len() as int).drop_first() =~= cache@.subrange(i + 1, cache@.len() as int));
        }
        if cache[i].0 == *sensor {
            return cache[i].1;
        }
        i = i + 1;
    }
    dflt
}

/// Whether a broadcast tick publishes: never for an empty snapshot; always
/// for the first one; otherwise when some sensor moved by at least
/// `BROADCAST_DELTA` since the last published snapshot `cache`.
pub fn should_broadcast(cache: &Vec<(String, i32)>, snapshot: &Vec<(String, i32)>) -> (r: bool)
    ensures
        r == (snapshot@.len() > 0 && (cache@.len() == 0 || moved(cache@, snapshot@))),
{
    if snapshot.len() == 0 {
        return false;
    }
    if cache.len() == 0 {
        return true;
    }
    let mut i: usize = 0;
    while i < snapshot.len()
        invariant
            i <= snapshot@.len(),
            forall|k: int| 0 <= k < i ==> !#[trigger] moved_at(cache@, snapshot@, k),
        decreases snapshot@.len() - i,
    {
        let t = snapshot[i].1;
        let before = lookup(cache, &snapshot[i].0, t);
        let d: i64 = t as i64 - before as i64;
        if d >= BROADCAST_DELTA as i64 || -d >= BROADCAST_DELTA as i64 {
            assert(moved_at(cache@, snapshot@, i as int));
            return true;
        }
        i = i + 1;
    }
    false
}

} // verus!
