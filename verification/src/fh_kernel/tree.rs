//! What the walks find in a tree that stands still, and what finding an inode
//! comes to as a whole.
//!
//! The file system is not verified: what it answers is an argument here. A
//! [`TreeView`] holds the answers that a server would get, and the walks are run
//! over it as the server runs them.
use crate::fh_kernel::identity;
use crate::fh_kernel::identity::{
    DirItemView, IdentityView, IndexWalkView, LocateStepView, TargetedWalkView,
};
use vstd::prelude::*;

verus! {

/// An export tree, as the file system answers for it.
pub struct TreeView {
    pub root: Seq<u8>,
    /// The directories that can be listed, with their entries.
    pub listings: Map<Seq<u8>, Seq<DirItemView>>,
    /// The device and inode that each path names.
    pub names: Map<Seq<u8>, (u64, u64)>,
}

/// Whether a path is `dir` or lies below it.
pub open spec fn under(dir: Seq<u8>, p: Seq<u8>) -> bool {
    p == dir || (dir.len() < p.len() && dir.is_prefix_of(p) && (p[dir.len() as int] == 47 || (
    dir.len() > 0 && dir.last() == 47)))
}

/// What lies below a directory below `dir` lies below `dir`.
pub proof fn lemma_under_is_transitive(dir: Seq<u8>, sub: Seq<u8>, p: Seq<u8>)
    requires
        under(dir, sub),
        under(sub, p),
    ensures
        under(dir, p),
{
    if sub != dir && p != sub {
        assert(dir.is_prefix_of(p)) by {
            assert forall|i: int| 0 <= i < dir.len() implies dir[i] == p[i] by {
                assert(dir == sub.subrange(0, dir.len() as int));
                assert(sub == p.subrange(0, sub.len() as int));
                assert(dir[i] == sub[i]);
                assert(sub[i] == p[i]);
            }
            assert(dir =~= p.subrange(0, dir.len() as int));
        }
        assert(sub == p.subrange(0, sub.len() as int));
        assert(sub[dir.len() as int] == p[dir.len() as int]);
    }
}

impl TreeView {
    pub open spec fn named(self, p: Seq<u8>) -> Option<(u64, u64)> {
        self.names.get(p)
    }

    pub open spec fn lists(self, d: Seq<u8>, e: DirItemView) -> bool {
        self.listings.dom().contains(d) && self.listings[d].contains(e)
    }

    /// The tree stands still: a listing gives each entry the identity that its path
    /// names, and its path lies below the directory.
    pub open spec fn still(self) -> bool {
        forall|d: Seq<u8>, e: DirItemView| #[trigger]
            self.lists(d, e) ==> self.named(e.path) == Some((e.dev, e.ino)) && under(d, e.path)
    }

    /// No path is listed twice, and the root not at all: an entry is in one directory.
    pub open spec fn tidy(self) -> bool {
        &&& forall|d: Seq<u8>, e: DirItemView, d2: Seq<u8>, e2: DirItemView|
            #[trigger] self.lists(d, e) && #[trigger] self.lists(d2, e2) && e.path == e2.path ==> d
                == d2
        &&& forall|d: Seq<u8>, i: int, j: int|
            #![trigger self.listings[d][i], self.listings[d][j]]
            self.listings.dom().contains(d) && 0 <= i < j < self.listings[d].len()
                ==> self.listings[d][i].path != self.listings[d][j].path
        &&& forall|d: Seq<u8>, e: DirItemView| #[trigger] self.lists(d, e) ==> e.path != self.root
    }

    /// `d` is the root, or a directory `k` levels below it that no other mount is
    /// in front of.
    pub open spec fn reaches(self, dev: u64, d: Seq<u8>, k: nat) -> bool
        decreases k,
    {
        if k == 0 {
            d == self.root
        } else {
            exists|p: Seq<u8>, e: DirItemView| #[trigger]
                self.lists(p, e) && self.reaches(dev, p, (k - 1) as nat) && e.is_dir && e.dev == dev
                    && e.path == d
        }
    }

    pub open spec fn enters(self, dev: u64, d: Seq<u8>) -> bool {
        exists|k: nat| self.reaches(dev, d, k)
    }

    /// An entry on the device, somewhere below the root.
    pub open spec fn holds(self, dev: u64, e: DirItemView) -> bool {
        e.dev == dev && exists|d: Seq<u8>| #[trigger] self.lists(d, e) && self.enters(dev, d)
    }

    /// The root or an entry, with this identity and path.
    pub open spec fn has(self, dev: u64, id: (u64, u64), p: Seq<u8>) -> bool {
        ||| p == self.root && self.named(p) == Some(id)
        ||| exists|e: DirItemView| #[trigger]
            self.holds(dev, e) && (e.dev, e.ino) == id && e.path == p
    }
}

proof fn lemma_enters_below(t: TreeView, dev: u64, d: Seq<u8>, e: DirItemView)
    requires
        t.enters(dev, d),
        t.lists(d, e),
        e.is_dir,
        e.dev == dev,
    ensures
        t.enters(dev, e.path),
{
    let k = choose|k: nat| t.reaches(dev, d, k);
    assert(t.reaches(dev, d, ((k + 1) - 1) as nat));
    assert(t.reaches(dev, e.path, k + 1));
}

proof fn lemma_reached_is_under(t: TreeView, dev: u64, d: Seq<u8>, k: nat)
    requires
        t.still(),
        t.reaches(dev, d, k),
    ensures
        under(t.root, d),
    decreases k,
{
    if k > 0 {
        let (p, e) = choose|p: Seq<u8>, e: DirItemView| #[trigger]
            t.lists(p, e) && t.reaches(dev, p, (k - 1) as nat) && e.is_dir && e.dev == dev && e.path
                == d;
        lemma_reached_is_under(t, dev, p, (k - 1) as nat);
        lemma_under_is_transitive(t.root, p, d);
    }
}

/// What a tree that stands still has at a path, the path names, and the path lies
/// under the root.
pub proof fn lemma_what_is_there_is_named(t: TreeView, dev: u64, id: (u64, u64), p: Seq<u8>)
    requires
        t.still(),
        t.has(dev, id, p),
    ensures
        t.named(p) == Some(id),
        under(t.root, p),
{
    if !(p == t.root && t.named(p) == Some(id)) {
        let e = choose|e: DirItemView| #[trigger]
            t.holds(dev, e) && (e.dev, e.ino) == id && e.path == p;
        let d = choose|d: Seq<u8>| #[trigger] t.lists(d, e) && t.enters(dev, d);
        let k = choose|k: nat| t.reaches(dev, d, k);
        lemma_reached_is_under(t, dev, d, k);
        lemma_under_is_transitive(t.root, d, p);
    }
}

// ---------------------------------------------------------------------------
// The walk that indexes, as a whole
// ---------------------------------------------------------------------------

impl IndexWalkView {
    pub open spec fn over(self) -> bool {
        self.full || self.pending.len() == 0
    }

    /// The walk after the next directory was listed, or could not be.
    pub open spec fn stepped(self, t: TreeView) -> IndexWalkView {
        let w = IndexWalkView { pending: self.pending.drop_last(), ..self };
        if self.over() {
            self
        } else if t.listings.dom().contains(self.pending.last()) {
            w.saw_all(t.listings[self.pending.last()])
        } else {
            IndexWalkView { complete: false, ..w }
        }
    }

    pub open spec fn explored(self, t: TreeView, n: nat) -> IndexWalkView
        decreases n,
    {
        if n == 0 {
            self
        } else {
            self.explored(t, (n - 1) as nat).stepped(t)
        }
    }

    /// A walk over a tree, after `n` directories.
    pub open spec fn over_tree(t: TreeView, dev: u64, cap: usize, n: nat) -> IndexWalkView {
        IndexWalkView::begun(t.root, t.named(t.root), dev, cap).explored(t, n)
    }

    /// The directories that were listed on the way.
    pub open spec fn passed(self, t: TreeView, n: nat) -> Set<Seq<u8>>
        decreases n,
    {
        if n == 0 {
            Set::empty()
        } else {
            let before = self.explored(t, (n - 1) as nat);
            if before.over() {
                self.passed(t, (n - 1) as nat)
            } else {
                self.passed(t, (n - 1) as nat).insert(before.pending.last())
            }
        }
    }
}

/// What holds of a walk at every moment.
spec fn tracks(t: TreeView, dev: u64, cap: usize, w: IndexWalkView) -> bool {
    &&& w.dev == dev
    &&& w.cap == cap
    &&& w.full ==> !w.complete
    &&& w.index.dom().finite()
    &&& w.index.len() <= w.cap || w.index.len() <= 1
    &&& t.named(t.root) matches Some((d, i)) ==> w.index.dom().contains(identity::ident(d, i))
    &&& forall|p: Seq<u8>| #[trigger] w.pending.contains(p) ==> t.enters(dev, p)
    &&& forall|key: u128| #[trigger]
        w.index.dom().contains(key) ==> exists|d: u64, i: u64| #[trigger]
            identity::ident(d, i) == key && t.has(dev, (d, i), w.index[key])
}

proof fn lemma_saw_all_full(w: IndexWalkView, items: Seq<DirItemView>)
    requires
        w.full ==> !w.complete,
    ensures
        w.saw_all(items).full ==> !w.saw_all(items).complete,
    decreases items.len(),
{
    if items.len() > 0 {
        lemma_saw_all_full(w, items.drop_last());
    }
}

proof fn lemma_saw_all_keeps_keys(w: IndexWalkView, items: Seq<DirItemView>, key: u128)
    requires
        w.index.dom().contains(key),
    ensures
        w.saw_all(items).index.dom().contains(key),
    decreases items.len(),
{
    if items.len() > 0 {
        lemma_saw_all_keeps_keys(w, items.drop_last(), key);
    }
}

proof fn lemma_walk_tracks(t: TreeView, dev: u64, cap: usize, n: nat)
    ensures
        tracks(t, dev, cap, IndexWalkView::over_tree(t, dev, cap, n)),
    decreases n,
{
    let start = IndexWalkView::begun(t.root, t.named(t.root), dev, cap);
    if n == 0 {
        assert(start.pending =~= seq![t.root]);
        assert(t.reaches(dev, t.root, 0));
        assert forall|p: Seq<u8>| #[trigger] start.pending.contains(p) implies t.enters(dev, p) by {
            assert(p == t.root);
        }
        match t.named(t.root) {
            Some((d, i)) => {
                assert(t.has(dev, (d, i), t.root));
                assert(start.index.dom() =~= set![identity::ident(d, i)]);
            },
            None => {
                assert(start.index.dom() =~= Set::empty());
            },
        }
    } else {
        let w = start.explored(t, (n - 1) as nat);
        lemma_walk_tracks(t, dev, cap, (n - 1) as nat);
        if !w.over() {
            let d = w.pending.last();
            let popped = IndexWalkView { pending: w.pending.drop_last(), ..w };
            assert(w.pending.contains(d));
            assert forall|p: Seq<u8>| popped.pending.contains(p) implies t.enters(dev, p) by {
                let k = choose|k: int| 0 <= k < popped.pending.len() && popped.pending[k] == p;
                assert(w.pending[k] == p);
                assert(w.pending.contains(p));
            }
            if t.listings.dom().contains(d) {
                let items = t.listings[d];
                let after = popped.saw_all(items);
                identity::an_index_respects_its_bound(popped, items);
                identity::a_walk_records_only_what_it_is_shown(popped, items);
                lemma_saw_all_full(popped, items);
                if let Some((rd, ri)) = t.named(t.root) {
                    lemma_saw_all_keeps_keys(popped, items, identity::ident(rd, ri));
                }
                assert forall|p: Seq<u8>| #[trigger] after.pending.contains(p) implies t.enters(
                    dev,
                    p,
                ) by {
                    if !popped.pending.contains(p) {
                        let i = choose|i: int|
                            0 <= i < items.len() && (#[trigger] items[i]).dev == popped.dev
                                && items[i].is_dir && items[i].path == p;
                        assert(items.contains(items[i]));
                        assert(t.lists(d, items[i]));
                        lemma_enters_below(t, dev, d, items[i]);
                    }
                }
                assert forall|key: u128| #[trigger] after.index.dom().contains(key) implies exists|
                    d: u64,
                    i: u64,
                | #[trigger] identity::ident(d, i) == key && t.has(
                    dev,
                    (d, i),
                    after.index[key],
                ) by {
                    if popped.index.dom().contains(key) && after.index[key] == popped.index[key] {
                        assert(w.index.dom().contains(key));
                    } else {
                        let i = choose|i: int|
                            0 <= i < items.len() && (#[trigger] items[i]).dev == popped.dev
                                && identity::ident(items[i].dev, items[i].ino) == key
                                && after.index[key] == items[i].path;
                        assert(items.contains(items[i]));
                        assert(t.lists(d, items[i]));
                        assert(t.holds(dev, items[i]));
                        assert(t.has(dev, (items[i].dev, items[i].ino), after.index[key]));
                    }
                }
            }
        }
    }
}

/// Law: every pair in the index of a walk is the root or an entry below it, with
/// that identity and path.
pub proof fn an_index_holds_only_what_is_there(
    t: TreeView,
    dev: u64,
    cap: usize,
    n: nat,
    d: u64,
    i: u64,
)
    requires
        IndexWalkView::over_tree(t, dev, cap, n).index.dom().contains(identity::ident(d, i)),
    ensures
        t.has(
            dev,
            (d, i),
            IndexWalkView::over_tree(t, dev, cap, n).index[identity::ident(d, i)],
        ),
{
    lemma_walk_tracks(t, dev, cap, n);
    let w = IndexWalkView::over_tree(t, dev, cap, n);
    let key = identity::ident(d, i);
    let (d2, i2) = choose|d2: u64, i2: u64| #[trigger]
        identity::ident(d2, i2) == key && t.has(dev, (d2, i2), w.index[key]);
    identity::identities_are_distinct(d, i, d2, i2);
}

/// What was listed is recorded, and the directories in it are listed or still to
/// be listed.
spec fn covers(t: TreeView, dev: u64, w: IndexWalkView, passed: Set<Seq<u8>>) -> bool {
    &&& passed.contains(t.root) || w.pending.contains(t.root)
    &&& forall|d: Seq<u8>, e: DirItemView| #[trigger]
        t.lists(d, e) && passed.contains(d) && e.dev == dev ==> w.index.dom().contains(
            identity::ident(e.dev, e.ino),
        ) && (e.is_dir ==> passed.contains(e.path) || w.pending.contains(e.path))
    &&& forall|d: Seq<u8>| #[trigger] passed.contains(d) ==> t.listings.dom().contains(d)
}

proof fn lemma_walk_covers(t: TreeView, dev: u64, cap: usize, n: nat)
    requires
        IndexWalkView::over_tree(t, dev, cap, n).complete,
    ensures
        covers(
            t,
            dev,
            IndexWalkView::over_tree(t, dev, cap, n),
            IndexWalkView::begun(t.root, t.named(t.root), dev, cap).passed(t, n),
        ),
    decreases n,
{
    let start = IndexWalkView::begun(t.root, t.named(t.root), dev, cap);
    if n == 0 {
        assert(start.pending[0] == t.root);
    } else {
        let w = start.explored(t, (n - 1) as nat);
        let after = start.explored(t, n);
        lemma_walk_tracks(t, dev, cap, (n - 1) as nat);
        lemma_walk_tracks(t, dev, cap, n);
        let passed = start.passed(t, (n - 1) as nat);
        let now = start.passed(t, n);
        if w.over() {
            lemma_walk_covers(t, dev, cap, (n - 1) as nat);
        } else {
            let d = w.pending.last();
            let popped = IndexWalkView { pending: w.pending.drop_last(), ..w };
            assert(t.listings.dom().contains(d));
            let items = t.listings[d];
            assert(after == popped.saw_all(items));
            identity::a_walk_records_what_it_is_shown(popped, items);
            lemma_walk_covers(t, dev, cap, (n - 1) as nat);
            assert forall|p: Seq<u8>| #[trigger] w.pending.contains(p) implies now.contains(p)
                || after.pending.contains(p) by {
                let k = choose|k: int| 0 <= k < w.pending.len() && w.pending[k] == p;
                if k < w.pending.len() - 1 {
                    assert(popped.pending[k] == p);
                    assert(popped.pending.contains(p));
                }
            }
            assert forall|x: Seq<u8>, e: DirItemView| #[trigger]
                t.lists(x, e) && now.contains(x) && e.dev == dev implies after.index.dom().contains(
                identity::ident(e.dev, e.ino),
            ) && (e.is_dir ==> now.contains(e.path) || after.pending.contains(e.path)) by {
                if x == d {
                    let i = choose|i: int| 0 <= i < items.len() && items[i] == e;
                    assert(items[i].dev == popped.dev);
                } else {
                    assert(passed.contains(x));
                    assert(w.index.dom().contains(identity::ident(e.dev, e.ino)));
                    assert(popped.index.dom().contains(identity::ident(e.dev, e.ino)));
                }
            }
        }
    }
}

proof fn lemma_entered_was_passed(
    t: TreeView,
    dev: u64,
    w: IndexWalkView,
    passed: Set<Seq<u8>>,
    d: Seq<u8>,
    k: nat,
)
    requires
        covers(t, dev, w, passed),
        w.pending.len() == 0,
        t.reaches(dev, d, k),
    ensures
        passed.contains(d),
    decreases k,
{
    if k > 0 {
        let (p, e) = choose|p: Seq<u8>, e: DirItemView| #[trigger]
            t.lists(p, e) && t.reaches(dev, p, (k - 1) as nat) && e.is_dir && e.dev == dev && e.path
                == d;
        lemma_entered_was_passed(t, dev, w, passed, p, (k - 1) as nat);
    }
}

/// Law: an index that is reported as complete misses nothing: it holds the root
/// and every entry of the device below it. One directory that could not be listed
/// is enough for it not to be complete.
pub proof fn a_complete_index_misses_nothing(
    t: TreeView,
    dev: u64,
    cap: usize,
    n: nat,
    e: DirItemView,
)
    requires
        IndexWalkView::over_tree(t, dev, cap, n).complete,
        IndexWalkView::over_tree(t, dev, cap, n).over(),
    ensures
        t.holds(dev, e) ==> IndexWalkView::over_tree(t, dev, cap, n).index.dom().contains(
            identity::ident(e.dev, e.ino),
        ),
        t.named(t.root) matches Some((d, i)) ==> IndexWalkView::over_tree(
            t,
            dev,
            cap,
            n,
        ).index.dom().contains(identity::ident(d, i)),
        forall|d: Seq<u8>| #[trigger] t.enters(dev, d) ==> t.listings.dom().contains(d),
{
    let w = IndexWalkView::over_tree(t, dev, cap, n);
    let passed = IndexWalkView::begun(t.root, t.named(t.root), dev, cap).passed(t, n);
    lemma_walk_tracks(t, dev, cap, n);
    lemma_walk_covers(t, dev, cap, n);
    assert forall|d: Seq<u8>| #[trigger] t.enters(dev, d) implies passed.contains(d) by {
        let k = choose|k: nat| t.reaches(dev, d, k);
        lemma_entered_was_passed(t, dev, w, passed, d, k);
    }
    if t.holds(dev, e) {
        let d = choose|d: Seq<u8>| #[trigger] t.lists(d, e) && t.enters(dev, d);
        assert(passed.contains(d));
    }
}

/// Law: a tree with more inodes than the bound never has a complete index.
pub proof fn a_larger_tree_is_never_complete(
    t: TreeView,
    dev: u64,
    cap: usize,
    n: nat,
    keys: Set<u128>,
)
    requires
        cap >= 1,
        IndexWalkView::over_tree(t, dev, cap, n).over(),
        keys.finite(),
        keys.len() > cap,
        forall|key: u128| #[trigger]
            keys.contains(key) ==> (t.named(t.root) matches Some((d, i)) && key == identity::ident(
                d,
                i,
            )) || exists|e: DirItemView| #[trigger]
                t.holds(dev, e) && key == identity::ident(e.dev, e.ino),
    ensures
        !IndexWalkView::over_tree(t, dev, cap, n).complete,
{
    let w = IndexWalkView::over_tree(t, dev, cap, n);
    lemma_walk_tracks(t, dev, cap, n);
    if w.complete {
        assert forall|key: u128| #[trigger] keys.contains(key) implies w.index.dom().contains(
            key,
        ) by {
            if exists|e: DirItemView| #[trigger]
                t.holds(dev, e) && key == identity::ident(e.dev, e.ino) {
                let e = choose|e: DirItemView| #[trigger]
                    t.holds(dev, e) && key == identity::ident(e.dev, e.ino);
                a_complete_index_misses_nothing(t, dev, cap, n, e);
            }
        }
        vstd::set_lib::lemma_len_subset(keys, w.index.dom());
    }
}

proof fn lemma_saw_all_fits(w: IndexWalkView, items: Seq<DirItemView>, keys: Set<u128>)
    requires
        !w.full,
        keys.finite(),
        keys.len() < w.cap,
        w.index.dom().subset_of(keys),
        forall|i: int|
            0 <= i < items.len() && (#[trigger] items[i]).dev == w.dev ==> keys.contains(
                identity::ident(items[i].dev, items[i].ino),
            ),
    ensures
        !w.saw_all(items).full,
        w.saw_all(items).complete == w.complete,
        w.saw_all(items).index.dom().subset_of(keys),
        w.saw_all(items).dev == w.dev,
        w.saw_all(items).cap == w.cap,
    decreases items.len(),
{
    if items.len() > 0 {
        let front = items.drop_last();
        assert forall|i: int| 0 <= i < front.len() && (#[trigger] front[i]).dev == w.dev implies
            keys.contains(identity::ident(front[i].dev, front[i].ino)) by {
            assert(front[i] == items[i]);
        }
        lemma_saw_all_fits(w, front, keys);
        let before = w.saw_all(front);
        vstd::set_lib::lemma_len_subset(before.index.dom(), keys);
        let last = items[items.len() - 1];
        assert(last == items.last());
    }
}

/// Law: a tree that can be listed and has fewer inodes than the bound always has a
/// complete index. `keys` are its inodes.
pub proof fn a_smaller_tree_is_complete(
    t: TreeView,
    dev: u64,
    cap: usize,
    n: nat,
    keys: Set<u128>,
)
    requires
        keys.finite(),
        keys.len() < cap,
        t.named(t.root) matches Some((d, i)) ==> keys.contains(identity::ident(d, i)),
        forall|e: DirItemView| #[trigger]
            t.holds(dev, e) ==> keys.contains(identity::ident(e.dev, e.ino)),
        forall|d: Seq<u8>| #[trigger] t.enters(dev, d) ==> t.listings.dom().contains(d),
    ensures
        IndexWalkView::over_tree(t, dev, cap, n).complete,
        !IndexWalkView::over_tree(t, dev, cap, n).full,
        IndexWalkView::over_tree(t, dev, cap, n).index.dom().subset_of(keys),
    decreases n,
{
    if n > 0 {
        let start = IndexWalkView::begun(t.root, t.named(t.root), dev, cap);
        let w = start.explored(t, (n - 1) as nat);
        a_smaller_tree_is_complete(t, dev, cap, (n - 1) as nat, keys);
        lemma_walk_tracks(t, dev, cap, (n - 1) as nat);
        if !w.over() {
            let d = w.pending.last();
            let popped = IndexWalkView { pending: w.pending.drop_last(), ..w };
            assert(w.pending.contains(d));
            let items = t.listings[d];
            assert forall|i: int| 0 <= i < items.len() && (#[trigger] items[i]).dev == popped.dev
                implies keys.contains(identity::ident(items[i].dev, items[i].ino)) by {
                assert(items.contains(items[i]));
                assert(t.lists(d, items[i]));
                assert(t.holds(dev, items[i]));
            }
            lemma_saw_all_fits(popped, items, keys);
        }
    }
}

/// The paths of the entries on a device that these directories have.
spec fn sighted(t: TreeView, dev: u64, dirs: Set<Seq<u8>>) -> Set<Seq<u8>> {
    Set::new(
        |p: Seq<u8>|
            exists|d: Seq<u8>, e: DirItemView| #[trigger]
                t.lists(d, e) && dirs.contains(d) && e.dev == dev && e.path == p,
    )
}

/// The paths of the items on a device.
spec fn shown(items: Seq<DirItemView>, dev: u64) -> Set<Seq<u8>> {
    Set::new(
        |p: Seq<u8>|
            exists|i: int|
                0 <= i < items.len() && (#[trigger] items[i]).dev == dev && items[i].path == p,
    )
}

/// A listing of paths that were not seen before leaves a walk within its bound, as
/// long as there are fewer paths than the bound, and with no directory twice.
proof fn lemma_new_paths_fit(
    w: IndexWalkView,
    items: Seq<DirItemView>,
    seen: Set<Seq<u8>>,
    paths: Set<Seq<u8>>,
)
    requires
        !w.full,
        w.index.dom().finite(),
        paths.finite(),
        paths.len() < w.cap,
        seen.subset_of(paths),
        w.index.len() <= 1 + seen.len(),
        w.pending.no_duplicates(),
        forall|i: int, j: int|
            #![trigger items[i], items[j]]
            0 <= i < j < items.len() ==> items[i].path != items[j].path,
        forall|i: int|
            0 <= i < items.len() && (#[trigger] items[i]).dev == w.dev ==> paths.contains(
                items[i].path,
            ) && !seen.contains(items[i].path) && !w.pending.contains(items[i].path),
    ensures
        !w.saw_all(items).full,
        w.saw_all(items).complete == w.complete,
        w.saw_all(items).index.dom().finite(),
        w.saw_all(items).index.len() <= 1 + seen.union(shown(items, w.dev)).len(),
        w.saw_all(items).pending.no_duplicates(),
        seen.union(shown(items, w.dev)).subset_of(paths),
    decreases items.len(),
{
    let all = seen.union(shown(items, w.dev));
    if items.len() == 0 {
        assert(all =~= seen);
    } else {
        let front = items.drop_last();
        let last = items[items.len() - 1];
        let had = seen.union(shown(front, w.dev));
        let before = w.saw_all(front);
        assert forall|i: int, j: int|
            #![trigger front[i], front[j]]
            0 <= i < j < front.len() implies front[i].path != front[j].path by {
            assert(items[i].path != items[j].path);
        }
        assert forall|i: int| 0 <= i < front.len() && (#[trigger] front[i]).dev == w.dev implies
            paths.contains(front[i].path) && !seen.contains(front[i].path) && !w.pending.contains(
            front[i].path,
        ) by {
            assert(front[i] == items[i]);
        }
        lemma_new_paths_fit(w, front, seen, paths);
        identity::a_walk_records_only_what_it_is_shown(w, front);
        assert forall|p: Seq<u8>| all.contains(p) <==> had.contains(p) || (last.dev == w.dev && p
            == last.path) by {
            if shown(front, w.dev).contains(p) {
                let i = choose|i: int|
                    0 <= i < front.len() && (#[trigger] front[i]).dev == w.dev && front[i].path
                        == p;
                assert(items[i] == front[i]);
            }
            if shown(items, w.dev).contains(p) {
                let i = choose|i: int|
                    0 <= i < items.len() && (#[trigger] items[i]).dev == w.dev && items[i].path
                        == p;
                if i < front.len() {
                    assert(front[i] == items[i]);
                }
            }
        }
        vstd::set_lib::lemma_len_subset(had, paths);
        if last.dev == w.dev {
            assert(!had.contains(last.path)) by {
                if shown(front, w.dev).contains(last.path) {
                    let i = choose|i: int|
                        0 <= i < front.len() && (#[trigger] front[i]).dev == w.dev && front[i].path
                            == last.path;
                    assert(items[i].path != items[items.len() - 1].path);
                }
            }
            assert(all =~= had.insert(last.path));
            vstd::set_lib::lemma_len_subset(all, paths);
            assert(before.index.len() < w.cap);
            assert(!before.pending.contains(last.path)) by {
                if before.pending.contains(last.path) && !w.pending.contains(last.path) {
                    let i = choose|i: int|
                        0 <= i < front.len() && (#[trigger] front[i]).dev == w.dev
                            && front[i].is_dir && front[i].path == last.path;
                    assert(items[i].path != items[items.len() - 1].path);
                }
            }
        } else {
            assert(all =~= had);
        }
    }
}

/// What holds of a walk over a tidy tree with fewer entries than the bound.
spec fn keeps_count(t: TreeView, dev: u64, w: IndexWalkView, passed: Set<Seq<u8>>) -> bool {
    &&& w.complete
    &&& !w.full
    &&& w.index.len() <= 1 + sighted(t, dev, passed).len()
    &&& w.pending.no_duplicates()
    &&& forall|d: Seq<u8>| #[trigger]
        w.pending.contains(d) ==> !passed.contains(d) && (d == t.root || sighted(
            t,
            dev,
            passed,
        ).contains(d))
    &&& forall|d: Seq<u8>| #[trigger]
        passed.contains(d) ==> t.enters(dev, d) && (d == t.root || sighted(t, dev, passed).contains(
            d,
        ))
}

proof fn lemma_walk_keeps_count(
    t: TreeView,
    dev: u64,
    cap: usize,
    n: nat,
    paths: Set<Seq<u8>>,
)
    requires
        t.tidy(),
        paths.finite(),
        paths.len() < cap,
        forall|e: DirItemView| #[trigger] t.holds(dev, e) ==> paths.contains(e.path),
        forall|d: Seq<u8>| #[trigger] t.enters(dev, d) ==> t.listings.dom().contains(d),
    ensures
        keeps_count(
            t,
            dev,
            IndexWalkView::over_tree(t, dev, cap, n),
            IndexWalkView::begun(t.root, t.named(t.root), dev, cap).passed(t, n),
        ),
    decreases n,
{
    let start = IndexWalkView::begun(t.root, t.named(t.root), dev, cap);
    lemma_walk_tracks(t, dev, cap, n);
    if n == 0 {
        assert(start.pending =~= seq![t.root]);
        assert(sighted(t, dev, Set::empty()) =~= Set::empty());
    } else {
        let m = (n - 1) as nat;
        let w = start.explored(t, m);
        let passed = start.passed(t, m);
        lemma_walk_keeps_count(t, dev, cap, m, paths);
        lemma_walk_tracks(t, dev, cap, m);
        if !w.over() {
            let d = w.pending.last();
            let now = passed.insert(d);
            let popped = IndexWalkView { pending: w.pending.drop_last(), ..w };
            let seen = sighted(t, dev, passed);
            assert(w.pending.contains(d));
            let items = t.listings[d];
            let after = popped.saw_all(items);
            assert(after == start.explored(t, n));
            assert forall|p: Seq<u8>| seen.contains(p) implies paths.contains(p) by {
                let (x, e) = choose|x: Seq<u8>, e: DirItemView| #[trigger]
                    t.lists(x, e) && passed.contains(x) && e.dev == dev && e.path == p;
                assert(t.holds(dev, e));
            }
            assert forall|p: Seq<u8>| popped.pending.contains(p) implies w.pending.contains(p) && p
                != d by {
                let k = choose|k: int| 0 <= k < popped.pending.len() && popped.pending[k] == p;
                assert(w.pending[k] == p);
                assert(w.pending[k] != w.pending[w.pending.len() - 1]);
            }
            assert forall|i: int| 0 <= i < items.len() && (#[trigger] items[i]).dev == popped.dev
                implies paths.contains(items[i].path) && !seen.contains(items[i].path)
                && !popped.pending.contains(items[i].path) && !now.contains(items[i].path) by {
                let e = items[i];
                assert(items.contains(e));
                assert(t.lists(d, e));
                assert(t.holds(dev, e));
                if seen.contains(e.path) {
                    let (x, e2) = choose|x: Seq<u8>, e2: DirItemView| #[trigger]
                        t.lists(x, e2) && passed.contains(x) && e2.dev == dev && e2.path == e.path;
                    assert(x == d);
                }
                if w.pending.contains(e.path) {
                    assert(seen.contains(e.path));
                }
                if passed.contains(e.path) {
                    assert(seen.contains(e.path));
                }
            }
            assert(popped.pending.no_duplicates());
            lemma_new_paths_fit(popped, items, seen, paths);
            identity::a_walk_records_only_what_it_is_shown(popped, items);
            let more = sighted(t, dev, now);
            assert forall|p: Seq<u8>| more.contains(p) <==> seen.union(
                shown(items, dev),
            ).contains(p) by {
                if more.contains(p) {
                    let (x, e) = choose|x: Seq<u8>, e: DirItemView| #[trigger]
                        t.lists(x, e) && now.contains(x) && e.dev == dev && e.path == p;
                    if x == d {
                        let i = choose|i: int| 0 <= i < items.len() && items[i] == e;
                        assert(items[i].path == p);
                    }
                }
                if seen.contains(p) {
                    let (x, e) = choose|x: Seq<u8>, e: DirItemView| #[trigger]
                        t.lists(x, e) && passed.contains(x) && e.dev == dev && e.path == p;
                    assert(now.contains(x));
                }
                if shown(items, dev).contains(p) {
                    let i = choose|i: int|
                        0 <= i < items.len() && (#[trigger] items[i]).dev == dev && items[i].path
                            == p;
                    assert(items.contains(items[i]));
                    assert(t.lists(d, items[i]));
                }
            }
            assert(more =~= seen.union(shown(items, dev)));
            assert forall|p: Seq<u8>| #[trigger] after.pending.contains(p) implies !now.contains(p)
                && (p == t.root || more.contains(p)) by {
                if !popped.pending.contains(p) {
                    let i = choose|i: int|
                        0 <= i < items.len() && (#[trigger] items[i]).dev == popped.dev
                            && items[i].is_dir && items[i].path == p;
                    assert(shown(items, dev).contains(p));
                }
            }
        }
    }
}

/// Law: a tree that can be listed and has fewer entries than the bound always has a
/// complete index, though the root takes one place of it. `paths` are the paths of
/// its entries.
pub proof fn a_bound_above_the_entries_is_enough(
    t: TreeView,
    dev: u64,
    cap: usize,
    n: nat,
    paths: Set<Seq<u8>>,
)
    requires
        t.tidy(),
        paths.finite(),
        paths.len() < cap,
        forall|e: DirItemView| #[trigger] t.holds(dev, e) ==> paths.contains(e.path),
        forall|d: Seq<u8>| #[trigger] t.enters(dev, d) ==> t.listings.dom().contains(d),
    ensures
        IndexWalkView::over_tree(t, dev, cap, n).complete,
        !IndexWalkView::over_tree(t, dev, cap, n).full,
{
    lemma_walk_keeps_count(t, dev, cap, n, paths);
}

// ---------------------------------------------------------------------------
// The search for one inode, as a whole
// ---------------------------------------------------------------------------

impl TargetedWalkView {
    pub open spec fn stepped(self, t: TreeView) -> TargetedWalkView {
        let w = TargetedWalkView { pending: self.pending.drop_last(), ..self };
        if self.over() || self.pending.len() == 0 {
            self
        } else if t.listings.dom().contains(self.pending.last()) {
            w.saw_all(t.listings[self.pending.last()])
        } else {
            w
        }
    }

    pub open spec fn explored(self, t: TreeView, n: nat) -> TargetedWalkView
        decreases n,
    {
        if n == 0 {
            self
        } else {
            self.explored(t, (n - 1) as nat).stepped(t)
        }
    }

    /// A search of a tree, after `n` directories.
    pub open spec fn over_tree(t: TreeView, dev: u64, ino: u64, budget: usize, n: nat) ->
        TargetedWalkView {
        TargetedWalkView::begun(t.root, t.named(t.root), dev, ino, budget).explored(t, n)
    }
}

proof fn lemma_search_enters_only_what_it_is_shown(w: TargetedWalkView, items: Seq<DirItemView>)
    ensures
        w.saw_all(items).dev == w.dev,
        w.saw_all(items).ino == w.ino,
        w.found is Some ==> w.saw_all(items).found == w.found,
        forall|p: Seq<u8>| #[trigger]
            w.saw_all(items).pending.contains(p) ==> w.pending.contains(p) || exists|i: int|
                0 <= i < items.len() && (#[trigger] items[i]).dev == w.dev && items[i].is_dir
                    && items[i].path == p,
    decreases items.len(),
{
    if items.len() > 0 {
        let front = items.drop_last();
        let before = w.saw_all(front);
        let after = w.saw_all(items);
        lemma_search_enters_only_what_it_is_shown(w, front);
        let last = items.len() - 1;
        assert forall|p: Seq<u8>| #[trigger] after.pending.contains(p) implies w.pending.contains(p)
            || exists|i: int|
            0 <= i < items.len() && (#[trigger] items[i]).dev == w.dev && items[i].is_dir
                && items[i].path == p by {
            let k = choose|k: int| 0 <= k < after.pending.len() && after.pending[k] == p;
            if k < before.pending.len() {
                assert(before.pending[k] == p);
                assert(before.pending.contains(p));
                if !w.pending.contains(p) {
                    let i = choose|i: int|
                        0 <= i < front.len() && (#[trigger] front[i]).dev == w.dev
                            && front[i].is_dir && front[i].path == p;
                    assert(items[i] == front[i]);
                }
            } else {
                assert(items[last].dev == w.dev);
            }
        }
    }
}

spec fn seeks(t: TreeView, dev: u64, ino: u64, w: TargetedWalkView) -> bool {
    &&& w.dev == dev
    &&& w.ino == ino
    &&& w.found matches Some(p) ==> t.has(dev, (dev, ino), p)
    &&& forall|p: Seq<u8>| #[trigger] w.pending.contains(p) ==> t.enters(dev, p)
}

proof fn lemma_search_seeks(t: TreeView, dev: u64, ino: u64, budget: usize, n: nat)
    ensures
        seeks(t, dev, ino, TargetedWalkView::over_tree(t, dev, ino, budget, n)),
    decreases n,
{
    let start = TargetedWalkView::begun(t.root, t.named(t.root), dev, ino, budget);
    if n == 0 {
        assert(start.pending =~= seq![t.root]);
        assert(t.reaches(dev, t.root, 0));
        assert forall|p: Seq<u8>| #[trigger] start.pending.contains(p) implies t.enters(dev, p) by {
            assert(p == t.root);
        }
    } else {
        let w = start.explored(t, (n - 1) as nat);
        lemma_search_seeks(t, dev, ino, budget, (n - 1) as nat);
        if !w.over() && w.pending.len() > 0 {
            let d = w.pending.last();
            let popped = TargetedWalkView { pending: w.pending.drop_last(), ..w };
            assert(w.pending.contains(d));
            assert forall|p: Seq<u8>| popped.pending.contains(p) implies t.enters(dev, p) by {
                let k = choose|k: int| 0 <= k < popped.pending.len() && popped.pending[k] == p;
                assert(w.pending[k] == p);
                assert(w.pending.contains(p));
            }
            if t.listings.dom().contains(d) {
                let items = t.listings[d];
                let after = popped.saw_all(items);
                lemma_search_enters_only_what_it_is_shown(popped, items);
                assert forall|p: Seq<u8>| #[trigger] after.pending.contains(p) implies t.enters(
                    dev,
                    p,
                ) by {
                    if !popped.pending.contains(p) {
                        let i = choose|i: int|
                            0 <= i < items.len() && (#[trigger] items[i]).dev == popped.dev
                                && items[i].is_dir && items[i].path == p;
                        assert(items.contains(items[i]));
                        assert(t.lists(d, items[i]));
                        lemma_enters_below(t, dev, d, items[i]);
                    }
                }
                if after.found is Some {
                    identity::a_search_finds_only_its_inode(popped, items);
                    let i = choose|i: int|
                        0 <= i < items.len() && (#[trigger] items[i]).dev == popped.dev
                            && items[i].ino == popped.ino && after.found == Some(items[i].path);
                    assert(items.contains(items[i]));
                    assert(t.lists(d, items[i]));
                    assert(t.holds(dev, items[i]));
                }
            }
        }
    }
}

/// Law: what a search of a tree finds is there, with the identity that it looks
/// for.
pub proof fn a_search_finds_only_what_is_there(
    t: TreeView,
    dev: u64,
    ino: u64,
    budget: usize,
    n: nat,
    p: Seq<u8>,
)
    requires
        TargetedWalkView::over_tree(t, dev, ino, budget, n).found == Some(p),
    ensures
        t.has(dev, (dev, ino), p),
{
    lemma_search_seeks(t, dev, ino, budget, n);
}

// ---------------------------------------------------------------------------
// Finding an inode, as a whole
// ---------------------------------------------------------------------------

/// The walk and the search that finding an inode makes, if it makes them.
pub struct Trip {
    pub walk: IndexWalkView,
    /// When the walk ended.
    pub walked_at: u64,
    pub search: TargetedWalkView,
}

impl Trip {
    /// Both go over this tree, for a resolver and an inode.
    pub open spec fn through(self, t: TreeView, r: IdentityView, dev: u64, ino: u64) -> bool {
        &&& exists|n: nat| self.walk == #[trigger] IndexWalkView::over_tree(t, r.dev, r.cap, n)
        &&& exists|budget: usize, n: nat|
            self.search == #[trigger] TargetedWalkView::over_tree(t, dev, ino, budget, n)
    }
}

impl IdentityView {
    /// The path that finding an inode comes to, and the resolver afterwards: the
    /// steps from [`IdentityView::locate`] on, each taken as it asks.
    pub open spec fn located(self, t: TreeView, trip: Trip, dev: u64, ino: u64, now: u64) -> (
        Option<Seq<u8>>,
        IdentityView,
    ) {
        match self.locate(dev, ino, now) {
            LocateStepView::Found(p) => (Some(p), self),
            LocateStepView::Nowhere => (None, self),
            LocateStepView::Search => (trip.search.found, self),
            LocateStepView::Walk => self.rebuilt(trip, dev, ino),
            LocateStepView::Check(p) => match self.looked(p, t.named(p), dev, ino) {
                LocateStepView::Found(q) => (Some(q), self),
                _ => self.rebuilt(trip, dev, ino),
            },
        }
    }

    pub open spec fn rebuilt(self, trip: Trip, dev: u64, ino: u64) -> (
        Option<Seq<u8>>,
        IdentityView,
    ) {
        let r = self.installed(trip.walk, trip.walked_at);
        match r.walked(dev, ino) {
            LocateStepView::Found(p) => (Some(p), r),
            LocateStepView::Search => (trip.search.found, r),
            _ => (None, r),
        }
    }

    /// Every path of the index lies under this root.
    pub open spec fn rooted(self, root: Seq<u8>) -> bool {
        forall|key: u128| #[trigger]
            self.index.dom().contains(key) ==> under(root, self.index[key])
    }
}

proof fn lemma_walk_is_rooted(t: TreeView, dev: u64, cap: usize, n: nat)
    requires
        t.still(),
    ensures
        forall|key: u128| #[trigger]
            IndexWalkView::over_tree(t, dev, cap, n).index.dom().contains(key) ==> under(
                t.root,
                IndexWalkView::over_tree(t, dev, cap, n).index[key],
            ),
{
    let w = IndexWalkView::over_tree(t, dev, cap, n);
    lemma_walk_tracks(t, dev, cap, n);
    assert forall|key: u128| #[trigger] w.index.dom().contains(key) implies under(
        t.root,
        w.index[key],
    ) by {
        let (d, i) = choose|d: u64, i: u64| #[trigger]
            identity::ident(d, i) == key && t.has(dev, (d, i), w.index[key]);
        lemma_what_is_there_is_named(t, dev, (d, i), w.index[key]);
    }
}

/// Law: a path that is found lies under the export root and names the inode, as
/// the tree now is. What the index remembers is never taken for granted, and no
/// other path is ever given.
pub proof fn a_located_path_names_the_inode(
    r: IdentityView,
    t: TreeView,
    trip: Trip,
    dev: u64,
    ino: u64,
    now: u64,
)
    requires
        t.still(),
        r.rooted(t.root),
        trip.through(t, r, dev, ino),
    ensures
        r.located(t, trip, dev, ino, now).0 matches Some(p) ==> t.named(p) == Some((dev, ino))
            && under(t.root, p),
        r.located(t, trip, dev, ino, now).1.rooted(t.root),
        r.located(t, trip, dev, ino, now).1.dev == r.dev,
        r.located(t, trip, dev, ino, now).1.cap == r.cap,
{
    let n = choose|n: nat| trip.walk == #[trigger] IndexWalkView::over_tree(t, r.dev, r.cap, n);
    let (budget, m) = choose|budget: usize, m: nat|
        trip.search == #[trigger] TargetedWalkView::over_tree(t, dev, ino, budget, m);
    lemma_walk_is_rooted(t, r.dev, r.cap, n);
    let key = identity::ident(dev, ino);
    if trip.walk.index.dom().contains(key) {
        an_index_holds_only_what_is_there(t, r.dev, r.cap, n, dev, ino);
        lemma_what_is_there_is_named(t, r.dev, (dev, ino), trip.walk.index[key]);
    }
    if let Some(p) = trip.search.found {
        a_search_finds_only_what_is_there(t, dev, ino, budget, m, p);
        lemma_what_is_there_is_named(t, dev, (dev, ino), p);
    }
}

/// Law: a file with one path is found at that path, unless a young index that
/// covered the tree did not hold it. The walk that is made, if one is, covers the
/// tree.
pub proof fn a_file_is_found_at_its_path(
    r: IdentityView,
    t: TreeView,
    trip: Trip,
    e: DirItemView,
    now: u64,
)
    requires
        r.cap != 0,
        r.rooted(t.root),
        r.index.dom().contains(identity::ident(e.dev, e.ino)) || !r.answers_for_misses(now),
        t.still(),
        t.holds(r.dev, e),
        forall|p: Seq<u8>| #[trigger] t.named(p) == Some((e.dev, e.ino)) ==> p == e.path,
        trip.through(t, r, e.dev, e.ino),
        trip.walk.over(),
        trip.walk.complete,
    ensures
        r.located(t, trip, e.dev, e.ino, now).0 == Some(e.path),
{
    a_located_path_names_the_inode(r, t, trip, e.dev, e.ino, now);
    let n = choose|n: nat| trip.walk == #[trigger] IndexWalkView::over_tree(t, r.dev, r.cap, n);
    a_complete_index_misses_nothing(t, r.dev, r.cap, n, e);
}

/// Law: a file that was found once and then renamed is found at its new path,
/// however short a while ago the index was made. `first` is the run that found it
/// and `second` the one after the rename, whose walk covers the tree.
pub proof fn a_renamed_file_is_found_at_its_new_path(
    r: IdentityView,
    before: TreeView,
    first: Trip,
    then: u64,
    after: TreeView,
    second: Trip,
    now: u64,
    dev: u64,
    e: DirItemView,
)
    requires
        r.cap != 0,
        r.located(before, first, dev, e.ino, then).0 is Some,
        r.rooted(after.root),
        before.root == after.root,
        before.still(),
        first.through(before, r, dev, e.ino),
        after.still(),
        after.holds(dev, e),
        forall|p: Seq<u8>| #[trigger] after.named(p) == Some((dev, e.ino)) ==> p == e.path,
        second.through(after, r, dev, e.ino),
        second.walk.over(),
        second.walk.complete,
    ensures
        r.located(before, first, dev, e.ino, then).1.located(
            after,
            second,
            dev,
            e.ino,
            now,
        ).0 == Some(e.path),
{
    let known = r.located(before, first, dev, e.ino, then).1;
    a_located_path_names_the_inode(r, before, first, dev, e.ino, then);
    a_file_is_found_at_its_path(known, after, second, e, now);
}

/// Law: the same where the bound exceeds the number of entries: a walk that is over has
/// then covered the tree. `paths` are the paths of its entries.
pub proof fn a_renamed_file_is_found_while_the_bound_suffices(
    r: IdentityView,
    before: TreeView,
    first: Trip,
    then: u64,
    after: TreeView,
    second: Trip,
    now: u64,
    dev: u64,
    e: DirItemView,
    paths: Set<Seq<u8>>,
)
    requires
        r.located(before, first, dev, e.ino, then).0 is Some,
        r.rooted(after.root),
        before.root == after.root,
        before.still(),
        first.through(before, r, dev, e.ino),
        after.still(),
        after.tidy(),
        after.holds(dev, e),
        forall|p: Seq<u8>| #[trigger] after.named(p) == Some((dev, e.ino)) ==> p == e.path,
        forall|x: DirItemView| #[trigger] after.holds(r.dev, x) ==> paths.contains(x.path),
        forall|d: Seq<u8>| #[trigger] after.enters(r.dev, d) ==> after.listings.dom().contains(d),
        paths.finite(),
        paths.len() < r.cap,
        second.through(after, r, dev, e.ino),
        second.walk.over(),
    ensures
        r.located(before, first, dev, e.ino, then).1.located(
            after,
            second,
            dev,
            e.ino,
            now,
        ).0 == Some(e.path),
{
    let n = choose|n: nat|
        second.walk == #[trigger] IndexWalkView::over_tree(after, r.dev, r.cap, n);
    a_bound_above_the_entries_is_enough(after, r.dev, r.cap, n, paths);
    a_renamed_file_is_found_at_its_new_path(r, before, first, then, after, second, now, dev, e);
}

/// Law: a file that was unlinked is found nowhere.
pub proof fn an_unlinked_file_is_found_nowhere(
    r: IdentityView,
    t: TreeView,
    trip: Trip,
    dev: u64,
    ino: u64,
    now: u64,
)
    requires
        t.still(),
        r.rooted(t.root),
        trip.through(t, r, dev, ino),
        forall|p: Seq<u8>| #[trigger] t.named(p) != Some((dev, ino)),
    ensures
        r.located(t, trip, dev, ino, now).0 is None,
{
    a_located_path_names_the_inode(r, t, trip, dev, ino, now);
}

/// Law: on another device nothing is found, whatever the tree.
pub proof fn a_foreign_inode_is_found_nowhere(
    r: IdentityView,
    t: TreeView,
    trip: Trip,
    dev: u64,
    ino: u64,
    now: u64,
)
    requires
        dev != r.dev,
    ensures
        r.located(t, trip, dev, ino, now) == (None::<Seq<u8>>, r),
{
}

} // verus!
