//! Minting and resolving kernel handles: what to make of each answer of the
//! kernel.
use crate::fh_kernel::handle;
use crate::fh_kernel::handle::{decode_v4, encode_v4, FhError};
use crate::fh_kernel::identity;
use crate::fh_kernel::identity::{
    trusted_resolution, DirItemView, IdentityResolver, IdentityView,
};
use crate::fh_kernel::tree;
use crate::fh_kernel::tree::{TreeView, Trip};
use crate::octets;
use crate::protocol::Nfs4FileHandle;
use vstd::prelude::*;

verus! {

/// "No such file or directory".
pub const ENOENT: i32 = 2;

/// "Stale file handle".
pub const ESTALE: i32 = 116;

/// A system call that failed: its error number, if it has one, and what the
/// system says of it.
#[derive(Debug)]
pub struct OsFailure {
    pub errno: Option<i32>,
    pub message: String,
}

/// Why no handle was minted.
#[derive(Debug)]
pub enum MintError {
    /// There is no such object: the caller mints a handle of another form.
    NoEnt,
    Other(String),
}

/// Why a handle was not resolved.
#[derive(Debug)]
pub enum ResolveError {
    /// The object is gone. The caller may still find it among the open files.
    Stale,
    Other(String),
}

pub enum FailureView {
    /// [`MintError::NoEnt`] or [`ResolveError::Stale`].
    Missing,
    Other(Seq<char>),
}

impl View for MintError {
    type V = FailureView;

    open spec fn view(&self) -> FailureView {
        match *self {
            MintError::NoEnt => FailureView::Missing,
            MintError::Other(m) => FailureView::Other(m@),
        }
    }
}

impl View for ResolveError {
    type V = FailureView;

    open spec fn view(&self) -> FailureView {
        match *self {
            ResolveError::Stale => FailureView::Missing,
            ResolveError::Other(m) => FailureView::Other(m@),
        }
    }
}

/// What `name_to_handle_at` gave: a handle type and the handle.
#[derive(Debug)]
pub struct KernelHandle {
    pub handle_type: i32,
    pub handle: Vec<u8>,
}

/// The outcome of a probe that a start-up failed.
#[derive(Debug)]
pub enum ProbeError {
    ObjectMissing,
    Mint(String),
    AnsweredStale,
    Resolve(String),
}

/// What to do with an inode that was opened.
#[derive(Debug)]
pub enum Resolution {
    /// Its path.
    Path(Vec<u8>),
    /// The path that the kernel gave is not to be believed: find the inode by
    /// its identity.
    Recover,
}

/// Whether the path that the kernel gives for an inode is believed.
pub open spec fn believed(under_root: bool, named: Option<(u64, u64)>, dev: u64, ino: u64) -> bool {
    under_root && named == Some((dev, ino))
}

/// Whether the kernel says by this error that the object is gone.
pub open spec fn gone(errno: Option<i32>) -> bool {
    errno == Some(ESTALE) || errno == Some(ENOENT)
}

/// What resolving an inode that was opened comes to, `link` being the path that
/// the kernel gives for it: that path if it is believed, else the path that the
/// recovery found; a stale handle where there is none.
pub open spec fn resolved_path(
    t: TreeView,
    link: Seq<u8>,
    under_root: bool,
    recovered: Option<Seq<u8>>,
    dev: u64,
    ino: u64,
) -> Option<Seq<u8>> {
    if believed(under_root, t.named(link), dev, ino) {
        Some(link)
    } else {
        recovered
    }
}

fn prefixed(prefix: &str, message: &str) -> (s: String)
    ensures
        s@ == prefix@ + message@,
{
    let mut s = prefix.to_owned();
    s.append(message);
    s
}

/// Handles of one export.
pub struct KernelFh {
    pub key: [u8; 32],
    pub instance_id: u64,
    pub identity: IdentityResolver,
}

impl KernelFh {
    pub fn new(key: [u8; 32], instance_id: u64, dev: u64, cap: usize) -> (k: KernelFh)
        ensures
            k.key == key,
            k.instance_id == instance_id,
            k.identity@ == (IdentityView {
                dev,
                cap,
                index: Map::empty(),
                complete: false,
                built_at: None,
            }),
    {
        KernelFh { key, instance_id, identity: IdentityResolver::new(dev, cap) }
    }

    /// Whether handles work here at all: an object that is known to exist was
    /// minted, and its handle was resolved. `resolved` counts only if a handle
    /// was minted.
    pub fn try_new(
        self,
        minted: Result<(), MintError>,
        resolved: Result<(), ResolveError>,
    ) -> (r: Result<KernelFh, ProbeError>)
        ensures
            match (minted, resolved) {
                (Err(MintError::NoEnt), _) => r == Err::<KernelFh, ProbeError>(
                    ProbeError::ObjectMissing,
                ),
                (Err(MintError::Other(m)), _) => r == Err::<KernelFh, ProbeError>(
                    ProbeError::Mint(m),
                ),
                (Ok(_), Err(ResolveError::Stale)) => r == Err::<KernelFh, ProbeError>(
                    ProbeError::AnsweredStale,
                ),
                (Ok(_), Err(ResolveError::Other(m))) => r == Err::<KernelFh, ProbeError>(
                    ProbeError::Resolve(m),
                ),
                (Ok(_), Ok(_)) => r == Ok::<KernelFh, ProbeError>(self),
            },
    {
        match minted {
            Err(MintError::NoEnt) => Err(ProbeError::ObjectMissing),
            Err(MintError::Other(m)) => Err(ProbeError::Mint(m)),
            Ok(_) => match resolved {
                Err(ResolveError::Stale) => Err(ProbeError::AnsweredStale),
                Err(ResolveError::Other(m)) => Err(ProbeError::Resolve(m)),
                Ok(_) => Ok(self),
            },
        }
    }

    /// The handle of an object, from what the kernel said of it: its handle and
    /// then its inode number. `ino` counts only if there is a handle.
    pub fn mint(&self, named: Result<KernelHandle, OsFailure>, ino: Result<u64, OsFailure>) -> (r:
        Result<Nfs4FileHandle, MintError>)
        ensures
            match (named, ino) {
                (Err(f), _) => r is Err && (r->Err_0)@ == (if f.errno == Some(ENOENT) {
                    FailureView::Missing
                } else {
                    FailureView::Other("name_to_handle_at: "@ + f.message@)
                }),
                (Ok(_), Err(f)) => r is Err && (r->Err_0)@ == FailureView::Other(
                    "stat after mint: "@ + f.message@,
                ),
                (Ok(kh), Ok(ino)) => if kh.handle@.len() <= handle::MAX_KHANDLE {
                    r is Ok && (r->Ok_0)@ == handle::wire_v4(
                        self.key@,
                        self.instance_id,
                        ino,
                        kh.handle_type,
                        kh.handle@,
                    )
                } else {
                    r is Err && (r->Err_0)@ == FailureView::Other(
                        (FhError::KernelHandleTooLarge { len: kh.handle@.len() as usize }).text(),
                    )
                },
            },
    {
        match named {
            Err(f) => match f.errno {
                Some(e) => if e == ENOENT {
                    Err(MintError::NoEnt)
                } else {
                    Err(MintError::Other(prefixed("name_to_handle_at: ", f.message.as_str())))
                },
                None => Err(MintError::Other(prefixed("name_to_handle_at: ", f.message.as_str()))),
            },
            Ok(kh) => match ino {
                Err(f) => Err(MintError::Other(prefixed("stat after mint: ", f.message.as_str()))),
                Ok(ino) => match encode_v4(
                    &self.key,
                    self.instance_id,
                    ino,
                    kh.handle_type,
                    kh.handle.as_slice(),
                ) {
                    Ok(fh) => Ok(fh),
                    Err(e) => Err(MintError::Other(e.describe())),
                },
            },
        }
    }

    /// The kernel handle to open for a filehandle of a client.
    pub fn open_handle(&self, data: &[u8]) -> (r: Result<KernelHandle, ResolveError>)
        ensures
            match handle::parse_v4(self.key@, self.instance_id, data@) {
                Ok((_, htype, kh)) => r is Ok && (r->Ok_0).handle_type == htype && (
                r->Ok_0).handle@ == kh,
                Err(e) => r is Err && (r->Err_0)@ == FailureView::Other(e.text()),
            },
    {
        match decode_v4(&self.key, self.instance_id, data) {
            Ok((_, handle_type, handle)) => Ok(KernelHandle { handle_type, handle }),
            Err(e) => Err(ResolveError::Other(e.describe())),
        }
    }

    /// What it means that the kernel did not open a handle.
    pub fn open_failed(f: OsFailure) -> (e: ResolveError)
        ensures
            e@ == (if gone(f.errno) {
                FailureView::Missing
            } else {
                FailureView::Other("open_by_handle_at: "@ + f.message@)
            }),
    {
        match f.errno {
            Some(e) => if e == ESTALE || e == ENOENT {
                ResolveError::Stale
            } else {
                ResolveError::Other(prefixed("open_by_handle_at: ", f.message.as_str()))
            },
            None => ResolveError::Other(prefixed("open_by_handle_at: ", f.message.as_str())),
        }
    }

    /// The path of an inode that was opened, from the path that the kernel gives
    /// for it. `under_root` says whether that path lies under the export root,
    /// and `named` what it names now.
    pub fn resolve(
        path: Result<Vec<u8>, OsFailure>,
        under_root: bool,
        named: Option<(u64, u64)>,
        dev: u64,
        ino: u64,
    ) -> (r: Result<Resolution, ResolveError>)
        ensures
            match path {
                Err(f) => r is Err && (r->Err_0)@ == FailureView::Other(
                    "proc readlink: "@ + f.message@,
                ),
                Ok(p) => if believed(under_root, named, dev, ino) {
                    r == Ok::<Resolution, ResolveError>(Resolution::Path(p))
                } else {
                    r == Ok::<Resolution, ResolveError>(Resolution::Recover)
                },
            },
    {
        match path {
            Err(f) => Err(ResolveError::Other(prefixed("proc readlink: ", f.message.as_str()))),
            Ok(p) => if trusted_resolution(under_root, named, dev, ino) {
                Ok(Resolution::Path(p))
            } else {
                Ok(Resolution::Recover)
            },
        }
    }

    /// The outcome of a recovery: the path that the walk found, and otherwise a
    /// stale handle, never some other path.
    pub fn recover_by_identity(located: Option<Vec<u8>>) -> (r: Result<Vec<u8>, ResolveError>)
        ensures
            match located {
                Some(p) => r == Ok::<Vec<u8>, ResolveError>(p),
                None => r == Err::<Vec<u8>, ResolveError>(ResolveError::Stale),
            },
    {
        match located {
            Some(p) => Ok(p),
            None => Err(ResolveError::Stale),
        }
    }

    /// Whether to index the tree before the first request.
    pub fn prewarm(&self) -> (b: bool)
        ensures
            b == (self.identity@.cap != 0),
    {
        self.identity.wants_prewarm()
    }
}

// ---------------------------------------------------------------------------
// Laws
// ---------------------------------------------------------------------------

/// Law: a handle that was minted gives back the kernel handle that it was minted
/// from, and the inode that the kernel then opens is resolved to a path under the
/// export root that names this very inode, as the tree now is. Where no path names
/// it any more the handle is stale; no other path is ever given, whatever name the
/// kernel has for it.
pub proof fn a_minted_handle_resolves_to_its_object(
    key: Seq<u8>,
    instance: u64,
    minted_ino: u64,
    htype: i32,
    kh: Seq<u8>,
    t: TreeView,
    r: IdentityView,
    trip: Trip,
    link: Seq<u8>,
    under_root: bool,
    dev: u64,
    ino: u64,
    now: u64,
)
    requires
        kh.len() <= handle::MAX_KHANDLE,
        t.still(),
        r.rooted(t.root),
        trip.through(t, r, dev, ino),
        under_root ==> tree::under(t.root, link),
    ensures
        handle::parse_v4(
            key,
            instance,
            handle::wire_v4(key, instance, minted_ino, htype, kh),
        ) == Ok::<(u64, i32, Seq<u8>), FhError>((minted_ino, htype, kh)),
        ({
            let found = resolved_path(
                t,
                link,
                under_root,
                r.located(t, trip, dev, ino, now).0,
                dev,
                ino,
            );
            &&& found matches Some(p) ==> tree::under(t.root, p) && t.named(p) == Some((dev, ino))
            &&& (forall|p: Seq<u8>| #[trigger] t.named(p) != Some((dev, ino))) ==> found is None
        }),
{
    handle::a_minted_handle_is_taken_back(key, instance, minted_ino, htype, kh);
    tree::a_located_path_names_the_inode(r, t, trip, dev, ino, now);
}

/// Law: a handle survives a rename. The object is resolved to the one path that it
/// now has, whether the kernel knows that path or calls the object by another
/// name; the walk that is made, if one is, covers the tree.
pub proof fn a_handle_survives_a_rename(
    t: TreeView,
    r: IdentityView,
    trip: Trip,
    link: Seq<u8>,
    under_root: bool,
    e: DirItemView,
    now: u64,
)
    requires
        r.cap != 0,
        r.rooted(t.root),
        r.index.dom().contains(identity::ident(e.dev, e.ino)) || !r.answers_for_misses(now),
        t.still(),
        t.holds(r.dev, e),
        forall|p: Seq<u8>| #[trigger] t.named(p) == Some((e.dev, e.ino)) ==> p == e.path,
        trip.through(t, r, e.dev, e.ino),
        trip.walk.over(),
        trip.walk.complete,
    ensures
        resolved_path(
            t,
            link,
            under_root,
            r.located(t, trip, e.dev, e.ino, now).0,
            e.dev,
            e.ino,
        ) == Some(e.path),
{
    tree::a_file_is_found_at_its_path(r, t, trip, e, now);
}

/// Law: a handle that was minted is opened as the kernel handle that it was minted from,
/// type and octets, by the same export. A handle of the kernel's that is too long is not
/// minted; an object that is missing is said to be so, and any other failure is passed on.
pub proof fn minting_and_opening_undo_each_other(
    k: &KernelFh,
    kh: KernelHandle,
    ino: u64,
    minted: Result<Nfs4FileHandle, MintError>,
    data: &[u8],
    opened: Result<KernelHandle, ResolveError>,
)
    requires
        call_ensures(
            KernelFh::mint,
            (k, Ok::<KernelHandle, OsFailure>(kh), Ok::<u64, OsFailure>(ino)),
            minted,
        ),
        call_ensures(KernelFh::open_handle, (k, data), opened),
    ensures
        minted is Ok <==> kh.handle@.len() <= 64,
        minted is Ok && data@ == (minted->Ok_0)@ ==> opened is Ok && (opened->Ok_0).handle_type
            == kh.handle_type && (opened->Ok_0).handle@ == kh.handle@,
{
    if kh.handle@.len() <= 64 {
        handle::a_minted_handle_is_taken_back(
            k.key@,
            k.instance_id,
            ino,
            kh.handle_type,
            kh.handle@,
        );
    }
}

/// Law: a handle that another instance minted is not opened, whatever it holds.
pub proof fn a_handle_of_another_instance_is_not_opened(
    k: &KernelFh,
    data: &[u8],
    opened: Result<KernelHandle, ResolveError>,
)
    requires
        call_ensures(KernelFh::open_handle, (k, data), opened),
        data@.len() >= 38,
        octets::u64_of(data@.subrange(1, 9)) != k.instance_id,
    ensures
        opened is Err,
        (opened->Err_0)@ is Other,
{
}

/// Law: an object that the kernel cannot name for want of it is missing, whatever else
/// went wrong is an error; and a handle that the kernel will not open for want of the
/// object is stale.
pub proof fn what_is_missing_is_said_to_be_so(
    k: &KernelFh,
    f: OsFailure,
    ino: Result<u64, OsFailure>,
    minted: Result<Nfs4FileHandle, MintError>,
    failed: ResolveError,
)
    requires
        call_ensures(KernelFh::mint, (k, Err::<KernelHandle, OsFailure>(f), ino), minted),
        call_ensures(KernelFh::open_failed, (f,), failed),
    ensures
        minted is Err,
        (minted->Err_0)@ is Missing <==> f.errno == Some(2i32),
        failed@ is Missing <==> f.errno == Some(2i32) || f.errno == Some(116i32),
{
}

/// Law: handles are used only where an object was minted and its handle resolved; what
/// stood in the way is what is reported.
pub proof fn a_probe_has_to_go_there_and_back(
    k: KernelFh,
    minted: Result<(), MintError>,
    resolved: Result<(), ResolveError>,
    r: Result<KernelFh, ProbeError>,
)
    requires
        call_ensures(KernelFh::try_new, (k, minted, resolved), r),
    ensures
        r is Ok <==> minted is Ok && resolved is Ok,
        r matches Ok(same) ==> same == k,
        minted is Err && minted->Err_0 is NoEnt ==> r == Err::<KernelFh, ProbeError>(
            ProbeError::ObjectMissing,
        ),
        minted is Ok && resolved is Err && resolved->Err_0 is Stale ==> r == Err::<
            KernelFh,
            ProbeError,
        >(ProbeError::AnsweredStale),
        minted is Err && minted->Err_0 is Other ==> r is Err && r->Err_0 is Mint,
        minted is Ok && resolved is Err && resolved->Err_0 is Other ==> r is Err
            && r->Err_0 is Resolve,
{
}

/// Law: the path that the kernel gives is used where it lies under the export and names
/// the inode that was opened; otherwise the inode is looked for, and where it is not found
/// the handle is stale.
pub proof fn a_path_is_used_only_for_its_inode(
    path: Vec<u8>,
    under_root: bool,
    named: Option<(u64, u64)>,
    dev: u64,
    ino: u64,
    r: Result<Resolution, ResolveError>,
    located: Option<Vec<u8>>,
    recovered: Result<Vec<u8>, ResolveError>,
)
    requires
        call_ensures(
            KernelFh::resolve,
            (Ok::<Vec<u8>, OsFailure>(path), under_root, named, dev, ino),
            r,
        ),
        call_ensures(KernelFh::recover_by_identity, (located,), recovered),
    ensures
        under_root && named == Some((dev, ino)) ==> r == Ok::<Resolution, ResolveError>(
            Resolution::Path(path),
        ),
        !(under_root && named == Some((dev, ino))) ==> r == Ok::<Resolution, ResolveError>(
            Resolution::Recover,
        ),
        located matches Some(p) ==> recovered == Ok::<Vec<u8>, ResolveError>(p),
        located is None ==> recovered == Err::<Vec<u8>, ResolveError>(ResolveError::Stale),
{
}

} // verus!
