//! Finding the path of an inode.
//!
//! On a cold directory cache the kernel opens an inode by handle without knowing
//! its name, and calls it "/". A path is therefore believed only if it lies
//! under the export root and still names the inode. Anything else is found again
//! by the identity of the inode, with a bounded walk over the export tree; what
//! the walk does not find is stale, and never some other path.
//!
//! The walks alternate with the file system: a walk says which directory to list
//! next and takes the listing. Paths are the octets that the file system has.
use crate::text;
use crate::text::parse_number;
use crate::xdr::octets_to_vec;
use std::collections::HashMap;
use vstd::prelude::*;

verus! {

broadcast use vstd::std_specs::hash::group_hash_axioms;

/// The default bound on the entries of an index.
pub const IDENT_CAP_DEFAULT: usize = 200_000;

/// The entries that a search for one inode may touch.
pub const TARGETED_BUDGET: usize = 2_000_000;

/// How long a complete index answers for what it does not hold, in nanoseconds.
pub const REWALK_COOLDOWN: u64 = 1_000_000_000;

/// Device and inode number as one number.
pub open spec fn ident(dev: u64, ino: u64) -> u128 {
    (dev * 0x1_0000_0000_0000_0000 + ino) as u128
}

fn ident_key(dev: u64, ino: u64) -> (k: u128)
    ensures
        k == ident(dev, ino),
{
    (dev as u128) * 0x1_0000_0000_0000_0000 + (ino as u128)
}

/// Law: two inodes never share a key.
pub proof fn identities_are_distinct(dev: u64, ino: u64, other_dev: u64, other_ino: u64)
    requires
        ident(dev, ino) == ident(other_dev, other_ino),
    ensures
        dev == other_dev,
        ino == other_ino,
{
}

/// The bound that the setting of the server's environment asks for; the default
/// where it is absent or is no number. 0 means no index at all.
pub fn ident_cap(setting: Option<&str>) -> (cap: usize)
    ensures
        cap == (match setting {
            Some(s) => match text::parsed_number(s@, usize::MAX as nat) {
                Some(n) => n as usize,
                None => IDENT_CAP_DEFAULT,
            },
            None => IDENT_CAP_DEFAULT,
        }),
{
    match setting {
        Some(s) => match parse_number(s) {
            Some(n) => if n <= usize::MAX as u64 {
                n as usize
            } else {
                IDENT_CAP_DEFAULT
            },
            None => IDENT_CAP_DEFAULT,
        },
        None => IDENT_CAP_DEFAULT,
    }
}

/// Whether a resolved path is believed: it lies under the export root, and it
/// names the inode that was opened. `named` is what the path names now, if it
/// names anything.
pub fn trusted_resolution(under_root: bool, named: Option<(u64, u64)>, dev: u64, ino: u64) -> (b:
    bool)
    ensures
        b == (under_root && named == Some((dev, ino))),
{
    match named {
        Some((d, i)) => under_root && d == dev && i == ino,
        None => false,
    }
}

/// One entry of a directory listing.
#[derive(Debug)]
pub struct DirItem {
    pub dev: u64,
    pub ino: u64,
    pub is_dir: bool,
    pub path: Vec<u8>,
}

pub struct DirItemView {
    pub dev: u64,
    pub ino: u64,
    pub is_dir: bool,
    pub path: Seq<u8>,
}

impl View for DirItem {
    type V = DirItemView;

    open spec fn view(&self) -> DirItemView {
        DirItemView { dev: self.dev, ino: self.ino, is_dir: self.is_dir, path: self.path@ }
    }
}

pub open spec fn items_view(v: Seq<DirItem>) -> Seq<DirItemView> {
    v.map_values(|i: DirItem| i@)
}

pub open spec fn paths_view(v: Seq<Vec<u8>>) -> Seq<Seq<u8>> {
    v.map_values(|p: Vec<u8>| p@)
}

pub open spec fn index_view(m: Map<u128, Vec<u8>>) -> Map<u128, Seq<u8>> {
    m.map_values(|p: Vec<u8>| p@)
}

// ---------------------------------------------------------------------------
// The walk that indexes
// ---------------------------------------------------------------------------

/// A walk that records the path of every inode on one device.
pub struct IndexWalk {
    dev: u64,
    cap: usize,
    map: HashMap<u128, Vec<u8>>,
    stack: Vec<Vec<u8>>,
    full: bool,
    complete: bool,
}

pub struct IndexWalkView {
    pub dev: u64,
    pub cap: usize,
    /// The path of each inode seen so far.
    pub index: Map<u128, Seq<u8>>,
    /// The directories still to list, the next one last.
    pub pending: Seq<Seq<u8>>,
    /// The bound cut the walk short.
    pub full: bool,
    /// False once something may be missing: the bound cut the walk short, or a
    /// directory could not be listed.
    pub complete: bool,
}

impl IndexWalkView {
    /// The walk after one entry: nothing of another device is recorded or
    /// entered, and a full index ends the walk.
    pub open spec fn saw(self, e: DirItemView) -> IndexWalkView {
        if self.full || e.dev != self.dev {
            self
        } else if self.index.len() >= self.cap {
            IndexWalkView { full: true, complete: false, ..self }
        } else {
            IndexWalkView {
                index: self.index.insert(ident(e.dev, e.ino), e.path),
                pending: if e.is_dir {
                    self.pending.push(e.path)
                } else {
                    self.pending
                },
                ..self
            }
        }
    }

    pub open spec fn saw_all(self, items: Seq<DirItemView>) -> IndexWalkView
        decreases items.len(),
    {
        if items.len() == 0 {
            self
        } else {
            self.saw_all(items.drop_last()).saw(items.last())
        }
    }

    /// A walk before its first listing. The root is recorded whatever the bound.
    pub open spec fn begun(root: Seq<u8>, named: Option<(u64, u64)>, dev: u64, cap: usize) ->
        IndexWalkView {
        IndexWalkView {
            dev,
            cap,
            index: match named {
                Some((d, i)) => Map::empty().insert(ident(d, i), root),
                None => Map::empty(),
            },
            pending: seq![root],
            full: false,
            complete: true,
        }
    }
}

impl View for IndexWalk {
    type V = IndexWalkView;

    closed spec fn view(&self) -> IndexWalkView {
        IndexWalkView {
            dev: self.dev,
            cap: self.cap,
            index: index_view(self.map@),
            pending: paths_view(self.stack@),
            full: self.full,
            complete: self.complete,
        }
    }
}

impl IndexWalk {
    /// Start at `root`; `named` is the identity of the root itself, if it can be
    /// looked at.
    pub fn new(root: Vec<u8>, named: Option<(u64, u64)>, dev: u64, cap: usize) -> (w: IndexWalk)
        ensures
            w@ == IndexWalkView::begun(root@, named, dev, cap),
    {
        let ghost r = root@;
        let mut map: HashMap<u128, Vec<u8>> = HashMap::new();
        if let Some((d, i)) = named {
            map.insert(ident_key(d, i), octets_to_vec(root.as_slice()));
        }
        let mut stack: Vec<Vec<u8>> = Vec::new();
        stack.push(root);
        let w = IndexWalk { dev, cap, map, stack, full: false, complete: true };
        assert(w@.index =~= IndexWalkView::begun(r, named, dev, cap).index);
        assert(w@.pending =~= seq![r]);
        w
    }

    /// The next directory to list; none when the walk is over.
    pub fn next(&mut self) -> (dir: Option<Vec<u8>>)
        ensures
            !old(self)@.full && old(self)@.pending.len() > 0 ==> dir is Some && (dir->0)@
                == old(self)@.pending.last() && final(self)@ == (IndexWalkView {
                pending: old(self)@.pending.drop_last(),
                ..old(self)@
            }),
            old(self)@.full || old(self)@.pending.len() == 0 ==> dir is None && final(self)@
                == old(self)@,
    {
        if self.full || self.stack.len() == 0 {
            return None;
        }
        let ghost before = self.stack@;
        let p = self.stack.pop();
        assert(paths_view(self.stack@) =~= paths_view(before).drop_last());
        p
    }

    fn visit(&mut self, e: DirItem)
        ensures
            final(self)@ == old(self)@.saw(e@),
    {
        if self.full || e.dev != self.dev {
            return;
        }
        assert(index_view(self.map@).dom() =~= self.map@.dom());
        if self.map.len() >= self.cap {
            self.full = true;
            self.complete = false;
            return;
        }
        let ghost m = self.map@;
        let ghost st = self.stack@;
        let ghost p = e.path@;
        self.map.insert(ident_key(e.dev, e.ino), octets_to_vec(e.path.as_slice()));
        assert(index_view(self.map@) =~= index_view(m).insert(ident(e.dev, e.ino), p));
        if e.is_dir {
            self.stack.push(e.path);
            assert(paths_view(self.stack@) =~= paths_view(st).push(p));
        }
    }

    /// Take the listing of a directory.
    pub fn listed(&mut self, items: Vec<DirItem>)
        ensures
            final(self)@ == old(self)@.saw_all(items_view(items@)),
    {
        let ghost start = self@;
        let ghost all = items_view(items@);
        assert(all.take(0) =~= Seq::empty());
        for e in it: items
            invariant
                it.seq() == items@,
                all == items_view(items@),
                self@ == start.saw_all(all.take(it.index() as int)),
        {
            let ghost k = it.index() as int;
            assert(all.take(k + 1).drop_last() =~= all.take(k));
            assert(all.take(k + 1).last() == e@);
            self.visit(e);
        }
        assert(all.take(all.len() as int) =~= all);
    }

    /// Take note that a directory, or something in it, could not be looked at: the
    /// walk goes on, and no longer covers the tree.
    pub fn unlisted(&mut self)
        ensures
            final(self)@ == (IndexWalkView { complete: false, ..old(self)@ }),
    {
        self.complete = false;
    }

    /// How many inodes are recorded.
    pub fn len(&self) -> (n: usize)
        ensures
            n == self@.index.len(),
    {
        assert(index_view(self.map@).dom() =~= self.map@.dom());
        self.map.len()
    }
}

/// Law: a walk that was not cut short has recorded every entry of its device that
/// it was shown, enters every directory among them, and forgets nothing.
pub proof fn a_walk_records_what_it_is_shown(w: IndexWalkView, items: Seq<DirItemView>)
    requires
        !w.saw_all(items).full,
    ensures
        !w.full,
        w.saw_all(items).complete == w.complete,
        w.saw_all(items).dev == w.dev,
        w.saw_all(items).cap == w.cap,
        forall|i: int|
            0 <= i < items.len() && (#[trigger] items[i]).dev == w.dev
                ==> w.saw_all(items).index.dom().contains(ident(items[i].dev, items[i].ino)) && (
            items[i].is_dir ==> w.saw_all(items).pending.contains(items[i].path)),
        forall|key: u128|
            w.index.dom().contains(key) ==> #[trigger] w.saw_all(items).index.dom().contains(key),
        forall|p: Seq<u8>|
            w.pending.contains(p) ==> #[trigger] w.saw_all(items).pending.contains(p),
    decreases items.len(),
{
    if items.len() > 0 {
        let front = items.drop_last();
        let before = w.saw_all(front);
        let after = w.saw_all(items);
        assert(!before.full);
        a_walk_records_what_it_is_shown(w, front);
        let e = items.last();
        assert forall|p: Seq<u8>| before.pending.contains(p) implies after.pending.contains(p) by {
            let k = choose|k: int| 0 <= k < before.pending.len() && before.pending[k] == p;
            assert(after.pending[k] == p);
        }
        assert forall|i: int| 0 <= i < items.len() && (#[trigger] items[i]).dev == w.dev implies
            after.index.dom().contains(ident(items[i].dev, items[i].ino)) && (items[i].is_dir
            ==> after.pending.contains(items[i].path)) by {
            if i < front.len() {
                assert(items[i] == front[i]);
            } else if items[i].is_dir {
                assert(after.pending.last() == e.path);
            }
        }
        assert forall|p: Seq<u8>| w.pending.contains(p) implies #[trigger] after.pending.contains(
            p,
        ) by {
            assert(before.pending.contains(p));
        }
        assert forall|key: u128| w.index.dom().contains(key) implies
            #[trigger] after.index.dom().contains(key) by {
            assert(before.index.dom().contains(key));
        }
    }
}

/// Law: a walk records nothing but what it is shown, each inode at a path that was
/// listed for it, and enters nothing but directories that it is shown.
pub proof fn a_walk_records_only_what_it_is_shown(w: IndexWalkView, items: Seq<DirItemView>)
    ensures
        w.saw_all(items).dev == w.dev,
        w.saw_all(items).cap == w.cap,
        forall|key: u128| #[trigger]
            w.saw_all(items).index.dom().contains(key) ==> (w.index.dom().contains(key)
                && w.saw_all(items).index[key] == w.index[key]) || exists|i: int|
                0 <= i < items.len() && (#[trigger] items[i]).dev == w.dev && ident(
                    items[i].dev,
                    items[i].ino,
                ) == key && w.saw_all(items).index[key] == items[i].path,
        forall|p: Seq<u8>| #[trigger]
            w.saw_all(items).pending.contains(p) ==> w.pending.contains(p) || exists|i: int|
                0 <= i < items.len() && (#[trigger] items[i]).dev == w.dev && items[i].is_dir
                    && items[i].path == p,
    decreases items.len(),
{
    if items.len() > 0 {
        let front = items.drop_last();
        let before = w.saw_all(front);
        let after = w.saw_all(items);
        a_walk_records_only_what_it_is_shown(w, front);
        let last = items.len() - 1;
        assert forall|key: u128| #[trigger] after.index.dom().contains(key) implies (
        w.index.dom().contains(key) && after.index[key] == w.index[key]) || exists|i: int|
            0 <= i < items.len() && (#[trigger] items[i]).dev == w.dev && ident(
                items[i].dev,
                items[i].ino,
            ) == key && after.index[key] == items[i].path by {
            if before.index.dom().contains(key) && after.index[key] == before.index[key] {
                if !(w.index.dom().contains(key) && before.index[key] == w.index[key]) {
                    let i = choose|i: int|
                        0 <= i < front.len() && (#[trigger] front[i]).dev == w.dev && ident(
                            front[i].dev,
                            front[i].ino,
                        ) == key && before.index[key] == front[i].path;
                    assert(items[i] == front[i]);
                }
            } else {
                assert(items[last].dev == w.dev);
            }
        }
        assert forall|p: Seq<u8>| #[trigger] after.pending.contains(p) implies w.pending.contains(p)
            || exists|i: int|
            0 <= i < items.len() && (#[trigger] items[i]).dev == w.dev && items[i].is_dir
                && items[i].path == p by {
            let k = choose|k: int| 0 <= k < after.pending.len() && after.pending[k] == p;
            if k < before.pending.len() {
                assert(before.pending[k] == p);
                assert(before.pending.contains(p));
                if !w.pending.contains(p) {
                    let i = choose|i: int|
                        0 <= i < front.len() && (#[trigger] front[i]).dev == w.dev
                            && front[i].is_dir && front[i].path == p;
                    assert(items[i] == front[i]);
                }
            } else {
                assert(items[last].dev == w.dev);
            }
        }
    }
}

/// Law: an index never grows past its bound, but for the root.
pub proof fn an_index_respects_its_bound(w: IndexWalkView, items: Seq<DirItemView>)
    requires
        w.index.dom().finite(),
        w.index.len() <= w.cap || w.index.len() <= 1,
    ensures
        w.saw_all(items).index.dom().finite(),
        w.saw_all(items).cap == w.cap,
        w.saw_all(items).index.len() <= w.cap || w.saw_all(items).index.len() <= 1,
    decreases items.len(),
{
    if items.len() > 0 {
        an_index_respects_its_bound(w, items.drop_last());
    }
}

/// Law: a walk neither records nor enters what lies on another device.
pub proof fn a_walk_stays_on_its_device(w: IndexWalkView, items: Seq<DirItemView>)
    requires
        forall|i: int| 0 <= i < items.len() ==> (#[trigger] items[i]).dev != w.dev,
    ensures
        w.saw_all(items) == w,
    decreases items.len(),
{
    if items.len() > 0 {
        let front = items.drop_last();
        assert forall|i: int| 0 <= i < front.len() implies (#[trigger] front[i]).dev != w.dev by {
            assert(front[i] == items[i]);
        }
        a_walk_stays_on_its_device(w, front);
        assert(items[items.len() - 1].dev != w.dev);
    }
}

// ---------------------------------------------------------------------------
// The walk that looks for one inode
// ---------------------------------------------------------------------------

/// A walk that ends where it finds one inode, or when its budget is spent.
pub struct TargetedWalk {
    dev: u64,
    ino: u64,
    budget: usize,
    seen: usize,
    stack: Vec<Vec<u8>>,
    found: Option<Vec<u8>>,
    spent: bool,
}

pub struct TargetedWalkView {
    pub dev: u64,
    pub ino: u64,
    pub budget: usize,
    /// The entries on the device that were passed over.
    pub seen: nat,
    pub pending: Seq<Seq<u8>>,
    pub found: Option<Seq<u8>>,
    /// The budget ended the walk.
    pub spent: bool,
}

pub open spec fn opt_path_view(p: Option<Vec<u8>>) -> Option<Seq<u8>> {
    match p {
        Some(p) => Some(p@),
        None => None,
    }
}

impl TargetedWalkView {
    pub open spec fn over(self) -> bool {
        self.found is Some || self.spent
    }

    pub open spec fn saw(self, e: DirItemView) -> TargetedWalkView {
        if self.over() || e.dev != self.dev {
            self
        } else if e.ino == self.ino {
            TargetedWalkView { found: Some(e.path), ..self }
        } else if self.seen + 1 >= self.budget {
            TargetedWalkView { seen: self.seen + 1, spent: true, ..self }
        } else {
            TargetedWalkView {
                seen: self.seen + 1,
                pending: if e.is_dir {
                    self.pending.push(e.path)
                } else {
                    self.pending
                },
                ..self
            }
        }
    }

    pub open spec fn saw_all(self, items: Seq<DirItemView>) -> TargetedWalkView
        decreases items.len(),
    {
        if items.len() == 0 {
            self
        } else {
            self.saw_all(items.drop_last()).saw(items.last())
        }
    }

    pub open spec fn begun(
        root: Seq<u8>,
        named: Option<(u64, u64)>,
        dev: u64,
        ino: u64,
        budget: usize,
    ) -> TargetedWalkView {
        TargetedWalkView {
            dev,
            ino,
            budget,
            seen: 0,
            pending: seq![root],
            found: if named == Some((dev, ino)) {
                Some(root)
            } else {
                None
            },
            spent: false,
        }
    }
}

impl View for TargetedWalk {
    type V = TargetedWalkView;

    closed spec fn view(&self) -> TargetedWalkView {
        TargetedWalkView {
            dev: self.dev,
            ino: self.ino,
            budget: self.budget,
            seen: self.seen as nat,
            pending: paths_view(self.stack@),
            found: opt_path_view(self.found),
            spent: self.spent,
        }
    }
}

impl TargetedWalk {
    /// The entries passed over stay below the budget while the walk goes on.
    pub closed spec fn wf(&self) -> bool {
        self.spent || self.seen < self.budget || self.seen == 0
    }

    pub fn new(root: Vec<u8>, named: Option<(u64, u64)>, dev: u64, ino: u64, budget: usize) -> (w:
        TargetedWalk)
        ensures
            w.wf(),
            w@ == TargetedWalkView::begun(root@, named, dev, ino, budget),
    {
        let ghost r = root@;
        let here = match named {
            Some((d, i)) => d == dev && i == ino,
            None => false,
        };
        let found = if here {
            Some(octets_to_vec(root.as_slice()))
        } else {
            None
        };
        let mut stack: Vec<Vec<u8>> = Vec::new();
        stack.push(root);
        let w = TargetedWalk { dev, ino, budget, seen: 0, stack, found, spent: false };
        assert(w@.pending =~= seq![r]);
        w
    }

    /// The next directory to list; none when the walk is over.
    pub fn next(&mut self) -> (dir: Option<Vec<u8>>)
        requires
            old(self).wf(),
        ensures
            final(self).wf(),
            !old(self)@.over() && old(self)@.pending.len() > 0 ==> dir is Some && (dir->0)@
                == old(self)@.pending.last() && final(self)@ == (TargetedWalkView {
                pending: old(self)@.pending.drop_last(),
                ..old(self)@
            }),
            old(self)@.over() || old(self)@.pending.len() == 0 ==> dir is None && final(self)@
                == old(self)@,
    {
        if self.found.is_some() || self.spent || self.stack.len() == 0 {
            return None;
        }
        let ghost before = self.stack@;
        let p = self.stack.pop();
        assert(paths_view(self.stack@) =~= paths_view(before).drop_last());
        p
    }

    fn visit(&mut self, e: DirItem)
        requires
            old(self).wf(),
        ensures
            final(self).wf(),
            final(self)@ == old(self)@.saw(e@),
    {
        if self.found.is_some() || self.spent || e.dev != self.dev {
            return;
        }
        if e.ino == self.ino {
            self.found = Some(e.path);
            return;
        }
        self.seen = self.seen + 1;
        if self.seen >= self.budget {
            self.spent = true;
            return;
        }
        let ghost st = self.stack@;
        let ghost p = e.path@;
        if e.is_dir {
            self.stack.push(e.path);
            assert(paths_view(self.stack@) =~= paths_view(st).push(p));
        }
    }

    /// Take the listing of a directory.
    pub fn listed(&mut self, items: Vec<DirItem>)
        requires
            old(self).wf(),
        ensures
            final(self).wf(),
            final(self)@ == old(self)@.saw_all(items_view(items@)),
    {
        let ghost start = self@;
        let ghost all = items_view(items@);
        assert(all.take(0) =~= Seq::empty());
        for e in it: items
            invariant
                it.seq() == items@,
                all == items_view(items@),
                self.wf(),
                self@ == start.saw_all(all.take(it.index() as int)),
        {
            let ghost k = it.index() as int;
            assert(all.take(k + 1).drop_last() =~= all.take(k));
            assert(all.take(k + 1).last() == e@);
            self.visit(e);
        }
        assert(all.take(all.len() as int) =~= all);
    }

    /// The path that was found.
    pub fn finish(self) -> (p: Option<Vec<u8>>)
        ensures
            opt_path_view(p) == self@.found,
    {
        self.found
    }
}

/// Law: what a search finds is the path of an entry with the identity that it
/// looks for.
pub proof fn a_search_finds_only_its_inode(w: TargetedWalkView, items: Seq<DirItemView>)
    requires
        w.found is None,
        w.saw_all(items).found is Some,
    ensures
        exists|i: int|
            0 <= i < items.len() && (#[trigger] items[i]).dev == w.dev && items[i].ino == w.ino
                && w.saw_all(items).found == Some(items[i].path),
    decreases items.len(),
{
    if items.len() > 0 {
        let front = items.drop_last();
        a_search_keeps_its_target(w, front);
        if w.saw_all(front).found is Some {
            a_search_finds_only_its_inode(w, front);
            let i = choose|i: int|
                0 <= i < front.len() && (#[trigger] front[i]).dev == w.dev && front[i].ino == w.ino
                    && w.saw_all(front).found == Some(front[i].path);
            assert(items[i] == front[i]);
        } else {
            assert(items[items.len() - 1] == items.last());
        }
    }
}

proof fn a_search_keeps_its_target(w: TargetedWalkView, items: Seq<DirItemView>)
    ensures
        w.saw_all(items).dev == w.dev,
        w.saw_all(items).ino == w.ino,
    decreases items.len(),
{
    if items.len() > 0 {
        a_search_keeps_its_target(w, items.drop_last());
    }
}

// ---------------------------------------------------------------------------
// The resolver
// ---------------------------------------------------------------------------

/// What is known of one export tree: the index of the last walk, whether it
/// covers the tree, and when it was made.
pub struct IdentityResolver {
    dev: u64,
    cap: usize,
    map: HashMap<u128, Vec<u8>>,
    complete: bool,
    built_at: Option<u64>,
}

pub struct IdentityView {
    pub dev: u64,
    pub cap: usize,
    pub index: Map<u128, Seq<u8>>,
    pub complete: bool,
    /// When the index was made, in nanoseconds of a clock that never goes back.
    pub built_at: Option<u64>,
}

impl View for IdentityResolver {
    type V = IdentityView;

    closed spec fn view(&self) -> IdentityView {
        IdentityView {
            dev: self.dev,
            cap: self.cap,
            index: index_view(self.map@),
            complete: self.complete,
            built_at: self.built_at,
        }
    }
}

/// What to do next to find an inode.
#[derive(Debug)]
pub enum LocateStep {
    /// It has no path here.
    Nowhere,
    /// This is its path.
    Found(Vec<u8>),
    /// The index names this path: see what it names now.
    Check(Vec<u8>),
    /// Index the tree anew.
    Walk,
    /// Look for this one inode.
    Search,
}

pub enum LocateStepView {
    Nowhere,
    Found(Seq<u8>),
    Check(Seq<u8>),
    Walk,
    Search,
}

impl View for LocateStep {
    type V = LocateStepView;

    open spec fn view(&self) -> LocateStepView {
        match *self {
            LocateStep::Nowhere => LocateStepView::Nowhere,
            LocateStep::Found(p) => LocateStepView::Found(p@),
            LocateStep::Check(p) => LocateStepView::Check(p@),
            LocateStep::Walk => LocateStepView::Walk,
            LocateStep::Search => LocateStepView::Search,
        }
    }
}

impl IdentityView {
    /// Whether what the index does not hold has no path: the index covers the
    /// tree and is young.
    pub open spec fn answers_for_misses(self, now: u64) -> bool {
        self.complete && (self.built_at matches Some(t) && now - t < REWALK_COOLDOWN)
    }

    pub open spec fn locate(self, dev: u64, ino: u64, now: u64) -> LocateStepView {
        let key = ident(dev, ino);
        if dev != self.dev {
            LocateStepView::Nowhere
        } else if self.cap == 0 {
            LocateStepView::Search
        } else if self.index.dom().contains(key) {
            LocateStepView::Check(self.index[key])
        } else if self.answers_for_misses(now) {
            LocateStepView::Nowhere
        } else {
            LocateStepView::Walk
        }
    }

    /// The step after a path of the index was looked at.
    pub open spec fn looked(
        self,
        path: Seq<u8>,
        named: Option<(u64, u64)>,
        dev: u64,
        ino: u64,
    ) -> LocateStepView {
        if named == Some((dev, ino)) {
            LocateStepView::Found(path)
        } else {
            LocateStepView::Walk
        }
    }

    /// The resolver once the index of a walk was taken.
    pub open spec fn installed(self, walk: IndexWalkView, now: u64) -> IdentityView {
        IdentityView {
            index: walk.index,
            complete: walk.complete,
            built_at: Some(now),
            ..self
        }
    }

    pub open spec fn walked(self, dev: u64, ino: u64) -> LocateStepView {
        let key = ident(dev, ino);
        if self.index.dom().contains(key) {
            LocateStepView::Found(self.index[key])
        } else if !self.complete {
            LocateStepView::Search
        } else {
            LocateStepView::Nowhere
        }
    }
}

impl IdentityResolver {
    pub fn new(dev: u64, cap: usize) -> (r: IdentityResolver)
        ensures
            r@ == (IdentityView { dev, cap, index: Map::empty(), complete: false, built_at: None }),
    {
        let map: HashMap<u128, Vec<u8>> = HashMap::new();
        let r = IdentityResolver { dev, cap, map, complete: false, built_at: None };
        assert(r@.index =~= Map::empty());
        r
    }

    /// Whether an index is to be built ahead of the first request.
    pub fn wants_prewarm(&self) -> (b: bool)
        ensures
            b == (self@.cap != 0),
    {
        self.cap != 0
    }

    /// Take the index of a walk that ended at `now`. The result is the number of
    /// its entries, and whether it covers the tree.
    pub fn install(&mut self, walk: IndexWalk, now: u64) -> (r: (usize, bool))
        ensures
            final(self)@ == old(self)@.installed(walk@, now),
            r == (walk@.index.len() as usize, walk@.complete),
            r.0 == walk@.index.len(),
    {
        let n: usize = walk.len();
        self.map = walk.map;
        self.complete = walk.complete;
        self.built_at = Some(now);
        (n, walk.complete)
    }

    /// The first step towards the path of an inode.
    pub fn locate(&self, dev: u64, ino: u64, now: u64) -> (s: LocateStep)
        ensures
            s@ == self@.locate(dev, ino, now),
    {
        if dev != self.dev {
            return LocateStep::Nowhere;
        }
        if self.cap == 0 {
            return LocateStep::Search;
        }
        assert(index_view(self.map@).dom() =~= self.map@.dom());
        match self.map.get(&ident_key(dev, ino)) {
            Some(p) => LocateStep::Check(octets_to_vec(p.as_slice())),
            None => {
                let young = match self.built_at {
                    Some(t) => now < t || now - t < REWALK_COOLDOWN,
                    None => false,
                };
                if self.complete && young {
                    LocateStep::Nowhere
                } else {
                    LocateStep::Walk
                }
            },
        }
    }

    /// The step after a path of the index was looked at: it still names the
    /// inode, or the index is out of date and is built anew at once, however
    /// young it is.
    pub fn checked(&self, path: Vec<u8>, named: Option<(u64, u64)>, dev: u64, ino: u64) -> (s:
        LocateStep)
        ensures
            s@ == self@.looked(path@, named, dev, ino),
    {
        let same = match named {
            Some((d, i)) => d == dev && i == ino,
            None => false,
        };
        if same {
            LocateStep::Found(path)
        } else {
            LocateStep::Walk
        }
    }

    /// The step after the walk that [`IdentityResolver::locate`] or
    /// [`IdentityResolver::checked`] asked for was installed.
    pub fn walked(&self, dev: u64, ino: u64) -> (s: LocateStep)
        ensures
            s@ == self@.walked(dev, ino),
    {
        assert(index_view(self.map@).dom() =~= self.map@.dom());
        match self.map.get(&ident_key(dev, ino)) {
            Some(p) => LocateStep::Found(octets_to_vec(p.as_slice())),
            None => if !self.complete {
                LocateStep::Search
            } else {
                LocateStep::Nowhere
            },
        }
    }
}

/// Law: what a young, complete index lacks costs no walk, so that a storm of
/// lookups of removed files walks the tree at most once per cooldown.
pub proof fn a_miss_within_the_cooldown_costs_no_walk(
    r: IdentityView,
    dev: u64,
    ino: u64,
    now: u64,
)
    requires
        r.cap != 0,
        r.answers_for_misses(now),
        !r.index.dom().contains(ident(dev, ino)),
    ensures
        r.locate(dev, ino, now) == LocateStepView::Nowhere,
{
}

/// Law: an inode that has moved since the walk is never reported at its old
/// path without a look at that path, and never reported missing on the strength
/// of the index.
pub proof fn a_hit_is_always_looked_at(r: IdentityView, dev: u64, ino: u64, now: u64)
    requires
        r.cap != 0,
        dev == r.dev,
        r.index.dom().contains(ident(dev, ino)),
    ensures
        r.locate(dev, ino, now) == LocateStepView::Check(r.index[ident(dev, ino)]),
{
}

/// Law: a device other than the export's is refused outright.
pub proof fn a_foreign_device_is_refused(r: IdentityView, dev: u64, ino: u64, now: u64)
    requires
        dev != r.dev,
    ensures
        r.locate(dev, ino, now) == LocateStepView::Nowhere,
{
}

/// Law: the bound of the index is the number that the setting writes, and without one that
/// can be read the default of two hundred thousand.
pub proof fn the_bound_is_what_the_setting_writes(
    setting: Option<&str>,
    n: nat,
    cap: usize,
)
    requires
        call_ensures(ident_cap, (setting,), cap),
    ensures
        setting is None ==> cap == 200_000,
        setting matches Some(s) ==> (s@ == text::decimal(n) && n <= usize::MAX ==> cap == n),
        setting matches Some(s) ==> (s@.len() == 0 ==> cap == 200_000),
{
    text::a_written_number_is_read_back(n, usize::MAX as nat);
    if let Some(s) = setting {
        text::what_is_not_digits_is_no_number(s@, usize::MAX as nat, 0);
    }
}

/// Law: a path is believed only where it lies under the export and names the very inode
/// that was opened, by device and number.
pub proof fn a_path_is_believed_for_its_own_inode(
    under_root: bool,
    named: Option<(u64, u64)>,
    dev: u64,
    ino: u64,
    b: bool,
)
    requires
        call_ensures(trusted_resolution, (under_root, named, dev, ino), b),
    ensures
        b <==> under_root && named is Some && (named->0).0 == dev && (named->0).1 == ino,
{
}

/// Law: the index of a walk that covered the tree answers for what it does not hold for
/// a second, counted from when it was made, and one that did not
/// cover the tree never does. What an index holds is always looked at first.
pub proof fn a_whole_index_answers_for_a_while(
    r: IdentityView,
    walk: IndexWalkView,
    made: u64,
    dev: u64,
    ino: u64,
    now: u64,
)
    ensures
        ({
            let s = r.installed(walk, made);
            &&& s.index == walk.index
            &&& s.dev == r.dev
            &&& s.cap == r.cap
            &&& walk.complete && now - made < 1_000_000_000 ==> s.answers_for_misses(now)
            &&& !walk.complete || now - made >= 1_000_000_000 ==> !s.answers_for_misses(now)
            &&& dev == r.dev && r.cap != 0 && walk.index.dom().contains(ident(dev, ino))
                ==> s.locate(dev, ino, now) == LocateStepView::Check(walk.index[ident(dev, ino)])
                && s.walked(dev, ino) == LocateStepView::Found(walk.index[ident(dev, ino)])
            &&& !walk.index.dom().contains(ident(dev, ino)) && walk.complete ==> s.walked(
                dev,
                ino,
            ) == LocateStepView::Nowhere
            &&& !walk.index.dom().contains(ident(dev, ino)) && !walk.complete ==> s.walked(
                dev,
                ino,
            ) == LocateStepView::Search
        }),
        r.built_at is None && dev == r.dev && r.cap != 0 && !r.index.dom().contains(
            ident(dev, ino),
        ) ==> r.locate(dev, ino, now) == LocateStepView::Walk,
        dev == r.dev && r.cap == 0 ==> r.locate(dev, ino, now) == LocateStepView::Search,
{
}

} // verus!
