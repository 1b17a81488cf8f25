//! The per-file change counter behind the CHANGE attribute.
//!
//! CHANGE is the client's only key for ordering what it caches. A value taken
//! from the ctime alone ties within one tick of the filesystem's clock, so a
//! reply with an older size could not be told from a fresh one. Every mutation
//! bumps the file's counter, with the ctime after it as a floor; the value
//! reported is the larger of the two.
use dashmap::DashMap;
use vstd::prelude::*;

verus! {

#[verifier::external_type_specification]
#[verifier::external_body]
#[verifier::reject_recursive_types(K)]
#[verifier::reject_recursive_types(V)]
#[verifier::reject_recursive_types(S)]
pub struct ExDashMap<K, V, S>(dashmap::DashMap<K, V, S>);

/// What the map holds: the counter of each (device, inode) that was mutated.
pub uninterp spec fn counters_of(map: DashMap<(u64, u64), u64>) -> Map<(u64, u64), u64>;

pub open spec fn no_counters() -> Map<(u64, u64), u64> {
    Map::empty()
}

/// `DashMap::new`: a map that holds nothing.
#[verifier::external_body]
fn map_new() -> (fresh: DashMap<(u64, u64), u64>)
    ensures
        counters_of(fresh) == no_counters(),
{
    DashMap::new()
}

/// `DashMap::entry` followed by `Entry::or_insert`: a key that is absent gets
/// the value given, one that is present keeps its own, and the value that the
/// key then has is handed out.
#[verifier::external_body]
fn map_entry_or_insert(map: &mut DashMap<(u64, u64), u64>, key: (u64, u64), value: u64) -> (v: u64)
    ensures
        counters_of(*old(map)).dom().contains(key) ==> v == counters_of(*old(map))[key]
            && counters_of(*final(map)) == counters_of(*old(map)),
        !counters_of(*old(map)).dom().contains(key) ==> v == value && counters_of(*final(map))
            == counters_of(*old(map)).insert(key, value),
{
    *map.entry(key).or_insert(value)
}

/// `DashMap::insert`: the key has the value given, every other key what it had.
#[verifier::external_body]
fn map_insert(map: &mut DashMap<(u64, u64), u64>, key: (u64, u64), value: u64)
    ensures
        counters_of(*final(map)) == counters_of(*old(map)).insert(key, value),
{
    map.insert(key, value);
}

/// `DashMap::get`: a copy of the value of a key that is present.
#[verifier::external_body]
fn map_get(map: &DashMap<(u64, u64), u64>, key: (u64, u64)) -> (v: Option<u64>)
    ensures
        v == counters_of(*map).get(key),
{
    map.get(&key).map(|v| *v)
}

/// No file mutated yet.
pub fn new_counters() -> (map: DashMap<(u64, u64), u64>)
    ensures
        counters_of(map) == no_counters(),
{
    map_new()
}

pub open spec fn larger(a: u64, b: u64) -> u64 {
    if a >= b {
        a
    } else {
        b
    }
}

/// The counter one mutation later: above both what it was and the floor, but
/// for the step from the largest number to 0.
pub open spec fn advanced(value: u64, floor: u64) -> u64 {
    if larger(value, floor) == u64::MAX {
        0
    } else {
        (larger(value, floor) + 1) as u64
    }
}

/// The counters after a mutation of `key`.
pub open spec fn bumped(counters: Map<(u64, u64), u64>, key: (u64, u64), floor: u64) -> Map<
    (u64, u64),
    u64,
> {
    counters.insert(
        key,
        advanced(
            if counters.dom().contains(key) {
                counters[key]
            } else {
                floor
            },
            floor,
        ),
    )
}

/// The change value of `key`: the larger of its counter and the floor, and the
/// floor alone where it was never mutated.
pub open spec fn reported(counters: Map<(u64, u64), u64>, key: (u64, u64), floor: u64) -> u64 {
    if counters.dom().contains(key) {
        larger(counters[key], floor)
    } else {
        floor
    }
}

fn max(a: u64, b: u64) -> (m: u64)
    ensures
        m == larger(a, b),
{
    if a >= b {
        a
    } else {
        b
    }
}

/// Record a mutation of (`dev`, `ino`). `floor` is the ctime after it, in
/// nanoseconds.
pub fn bump(map: &mut DashMap<(u64, u64), u64>, dev: u64, ino: u64, floor: u64)
    ensures
        counters_of(*final(map)) == bumped(counters_of(*old(map)), (dev, ino), floor),
{
    let value: u64 = map_entry_or_insert(map, (dev, ino), floor);
    map_insert(map, (dev, ino), max(value, floor).wrapping_add(1));
    assert(counters_of(*map) =~= bumped(counters_of(*old(map)), (dev, ino), floor));
}

/// The change value to report for (`dev`, `ino`).
pub fn current(map: &DashMap<(u64, u64), u64>, dev: u64, ino: u64, floor: u64) -> (v: u64)
    ensures
        v == reported(counters_of(*map), (dev, ino), floor),
{
    match map_get(map, (dev, ino)) {
        Some(v) => max(v, floor),
        None => floor,
    }
}

/// What the counter reads of a file's metadata.
#[derive(Debug, Clone, Copy)]
pub struct FileStamp {
    pub dev: u64,
    pub ino: u64,
    /// Seconds of the ctime.
    pub ctime: i64,
    /// Nanoseconds of the ctime within its second.
    pub ctime_nsec: i64,
}

impl FileStamp {
    pub open spec fn key(self) -> (u64, u64) {
        (self.dev, self.ino)
    }

    /// The ctime in nanoseconds, modulo 2^64.
    pub open spec fn floor(self) -> u64 {
        (((self.ctime as u64) * 1_000_000_000 + (self.ctime_nsec as u64)) % 0x1_0000_0000_0000_0000)
            as u64
    }
}

/// The ctime composed to nanoseconds.
pub fn ctime_ns(md: &FileStamp) -> (ns: u64)
    ensures
        ns == md.floor(),
{
    let s: u64 = md.ctime as u64;
    let n: u64 = md.ctime_nsec as u64;
    proof {
        let p = s * 1_000_000_000;
        let m = 0x1_0000_0000_0000_0000int;
        assert((p % m + n) % m == (p + n) % m) by {
            vstd::arithmetic::div_mod::lemma_add_mod_noop(p, n as int, m);
            vstd::arithmetic::div_mod::lemma_add_mod_noop(p % m, n as int, m);
            vstd::arithmetic::div_mod::lemma_mod_twice(p, m);
        }
    }
    s.wrapping_mul(1_000_000_000).wrapping_add(n)
}

/// Record a mutation of the file that `md` describes. A file that could not be
/// looked at (it raced an unlink) is gone, and nothing is recorded.
pub fn bump_path(map: &mut DashMap<(u64, u64), u64>, md: Option<FileStamp>)
    ensures
        counters_of(*final(map)) == (match md {
            Some(md) => bumped(counters_of(*old(map)), md.key(), md.floor()),
            None => counters_of(*old(map)),
        }),
{
    if let Some(md) = md {
        bump(map, md.dev, md.ino, ctime_ns(&md));
    }
}

/// The change value that GETATTR reports for the file that `md` describes.
pub fn current_of_path(map: &DashMap<(u64, u64), u64>, md: Option<FileStamp>) -> (v: Option<u64>)
    ensures
        v == (match md {
            Some(md) => Some(reported(counters_of(*map), md.key(), md.floor())),
            None => None,
        }),
{
    match md {
        Some(md) => Some(current(map, md.dev, md.ino, ctime_ns(&md))),
        None => None,
    }
}

/// The second half of a directory mutation's `change_info4`: the directory is
/// bumped as `mutated` shows it after the mutation, and its change value is read
/// as `seen` shows it. 0 where it cannot be looked at.
pub fn dir_change_after(
    map: &mut DashMap<(u64, u64), u64>,
    mutated: Option<FileStamp>,
    seen: Option<FileStamp>,
) -> (v: u64)
    ensures
        counters_of(*final(map)) == (match mutated {
            Some(md) => bumped(counters_of(*old(map)), md.key(), md.floor()),
            None => counters_of(*old(map)),
        }),
        v == (match seen {
            Some(md) => reported(counters_of(*final(map)), md.key(), md.floor()),
            None => 0,
        }),
{
    bump_path(map, mutated);
    match current_of_path(map, seen) {
        Some(v) => v,
        None => 0,
    }
}

/// The first half: the directory's change value as any client caches it. 0 where
/// it cannot be looked at, which matches no cache and so forces a refresh.
pub fn dir_change_before(map: &DashMap<(u64, u64), u64>, seen: Option<FileStamp>) -> (v: u64)
    ensures
        v == (match seen {
            Some(md) => reported(counters_of(*map), md.key(), md.floor()),
            None => 0,
        }),
{
    match current_of_path(map, seen) {
        Some(v) => v,
        None => 0,
    }
}

/// Law: every mutation moves the change value strictly up, whatever the floors,
/// as long as the clock does not run backwards between the two readings. The
/// one exception is the step over the largest number.
pub proof fn every_mutation_advances_the_change_value(
    counters: Map<(u64, u64), u64>,
    key: (u64, u64),
    before: u64,
    floor: u64,
    after: u64,
)
    requires
        before <= floor <= after,
        reported(counters, key, floor) < u64::MAX,
    ensures
        reported(bumped(counters, key, floor), key, after) > reported(counters, key, before),
        reported(bumped(counters, key, floor), key, after) > floor,
{
}

/// Law: a mutation of one file leaves the change value of every other as it was.
pub proof fn distinct_files_do_not_interfere(
    counters: Map<(u64, u64), u64>,
    key: (u64, u64),
    other: (u64, u64),
    floor: u64,
    seen: u64,
)
    requires
        key != other,
    ensures
        reported(bumped(counters, key, floor), other, seen) == reported(counters, other, seen),
{
}

/// Law: the change value is never below the ctime.
pub proof fn the_floor_holds(counters: Map<(u64, u64), u64>, key: (u64, u64), floor: u64)
    ensures
        reported(counters, key, floor) >= floor,
{
}

/// Law: a later ctime is a higher floor, as long as both fit.
pub proof fn a_later_ctime_is_a_higher_floor(a: FileStamp, b: FileStamp)
    requires
        0 <= a.ctime <= b.ctime < 18_000_000_000,
        0 <= a.ctime_nsec < 1_000_000_000,
        0 <= b.ctime_nsec < 1_000_000_000,
        a.ctime < b.ctime || a.ctime_nsec < b.ctime_nsec,
    ensures
        a.floor() < b.floor(),
{
}

/// Law: a mutation moves the counter to one above the larger of what it was and
/// the floor, and a file that was never mutated starts at the floor.
pub proof fn a_mutation_is_one_step(
    counters: Map<(u64, u64), u64>,
    key: (u64, u64),
    floor: u64,
)
    ensures
        counters.dom().contains(key) && counters[key] <= floor < u64::MAX ==> bumped(
            counters,
            key,
            floor,
        )[key] == floor + 1,
        counters.dom().contains(key) && floor <= counters[key] < u64::MAX ==> bumped(
            counters,
            key,
            floor,
        )[key] == counters[key] + 1,
        !counters.dom().contains(key) && floor < u64::MAX ==> bumped(counters, key, floor)[key]
            == floor + 1,
        counters.dom().contains(key) && counters[key] == u64::MAX || floor == u64::MAX
            ==> bumped(counters, key, floor)[key] == 0,
        bumped(counters, key, floor).dom() == counters.dom().insert(key),
{
}

/// Law: what is reported is the counter or the ctime, whichever is larger, and
/// never anything else.
pub proof fn the_larger_of_the_two_is_reported(
    counters: Map<(u64, u64), u64>,
    key: (u64, u64),
    floor: u64,
)
    ensures
        !counters.dom().contains(key) ==> reported(counters, key, floor) == floor,
        counters.dom().contains(key) && counters[key] >= floor ==> reported(counters, key, floor)
            == counters[key],
        counters.dom().contains(key) && counters[key] <= floor ==> reported(counters, key, floor)
            == floor,
{
}

/// Law: a file is known by its device and its inode number, and by nothing else;
/// a ctime that fits is its seconds and nanoseconds in nanoseconds.
pub proof fn a_file_is_known_by_device_and_inode(a: FileStamp, b: FileStamp)
    ensures
        a.key().0 == a.dev,
        a.key().1 == a.ino,
        a.key() == b.key() <==> a.dev == b.dev && a.ino == b.ino,
        0 <= a.ctime < 18_000_000_000 && 0 <= a.ctime_nsec < 1_000_000_000 ==> a.floor()
            == a.ctime * 1_000_000_000 + a.ctime_nsec,
{
}

/// Law: the two halves of a directory mutation. What is reported after it is above what
/// was reported before it, as long as the ctime does not go back; another directory is
/// reported as before. A directory that cannot be looked at is reported as 0.
pub proof fn a_directory_mutation_shows(
    map: &mut DashMap<(u64, u64), u64>,
    at: FileStamp,
    seen: Option<FileStamp>,
    v: u64,
)
    requires
        call_ensures(dir_change_after, (map, Some(at), seen), v),
    ensures
        seen is None ==> v == 0,
        seen matches Some(s) ==> (s.key() == at.key() && s.floor() >= at.floor() && reported(
            counters_of(*old(map)),
            at.key(),
            at.floor(),
        ) < u64::MAX ==> v > reported(counters_of(*old(map)), at.key(), at.floor())),
        seen matches Some(s) ==> (s.key() != at.key() ==> v == reported(
            counters_of(*old(map)),
            s.key(),
            s.floor(),
        )),
        counters_of(*final(map)) == bumped(counters_of(*old(map)), at.key(), at.floor()),
{
}

/// Law: a directory that could not be looked at after a mutation leaves the counters alone,
/// and one that cannot be looked at before it is reported as 0.
pub proof fn a_directory_that_is_gone_is_not_counted(
    map: &mut DashMap<(u64, u64), u64>,
    seen: Option<FileStamp>,
    v: u64,
    before: u64,
    table: &DashMap<(u64, u64), u64>,
)
    requires
        call_ensures(dir_change_after, (map, None::<FileStamp>, seen), v),
        call_ensures(dir_change_before, (table, seen), before),
    ensures
        counters_of(*final(map)) == counters_of(*old(map)),
        seen is None ==> before == 0,
        seen matches Some(s) ==> before == reported(counters_of(*table), s.key(), s.floor()),
{
}

} // verus!
