use flint_nfs::fh_kernel::handle::{
    decode_v4, encode_v4, key_step, v4_ino, FhError, KeyRead, KeyStep,
};
use flint_nfs::fh_kernel::identity::{
    ident_cap, trusted_resolution, DirItem, IdentityResolver, IndexWalk, LocateStep, TargetedWalk,
    IDENT_CAP_DEFAULT,
};
use flint_nfs::fh_kernel::kernel::{
    KernelFh, KernelHandle, MintError, OsFailure, ProbeError, Resolution, ResolveError,
};

const KEY: [u8; 32] = [7u8; 32];

#[test]
fn v4_roundtrip_and_ino() {
    let fh = encode_v4(&KEY, 42, 12345, 1, &[9, 9, 9, 9, 1, 2, 3, 4]).unwrap();
    assert_eq!(fh.data[0], 4);
    assert!(fh.data.len() <= 128);
    assert_eq!(v4_ino(&fh.data), Some(12345));
    let (ino, htype, kh) = decode_v4(&KEY, 42, &fh.data).unwrap();
    assert_eq!((ino, htype), (12345, 1));
    assert_eq!(kh, vec![9, 9, 9, 9, 1, 2, 3, 4]);
}

#[test]
fn v4_rejects_tamper_wrong_key_wrong_instance_truncation() {
    let fh = encode_v4(&KEY, 42, 12345, 1, &[1, 2, 3, 4, 5, 6, 7, 8]).unwrap();
    // Flip one khandle bit: HMAC failure.
    let mut evil = fh.data.clone();
    *evil.last_mut().unwrap() ^= 1;
    assert!(decode_v4(&KEY, 42, &evil).unwrap_err().describe().contains("authentication"));
    // Flip the advisory ino: HMAC failure (it's covered by the tag).
    let mut evil = fh.data.clone();
    evil[10] ^= 1;
    assert!(decode_v4(&KEY, 42, &evil).unwrap_err().describe().contains("authentication"));
    // Wrong key.
    assert!(decode_v4(&[8u8; 32], 42, &fh.data).is_err());
    // Wrong instance.
    assert!(decode_v4(&KEY, 43, &fh.data).unwrap_err().describe().contains("stale"));
    // Truncated.
    assert!(decode_v4(&KEY, 42, &fh.data[..20]).is_err());
}

#[test]
fn every_refusal_of_a_handle_says_why() {
    let fh = encode_v4(&KEY, 42, 7, -3, &[1; 8]).unwrap().data;
    assert_eq!(decode_v4(&KEY, 42, &fh).unwrap(), (7, -3, vec![1; 8]));
    assert_eq!(decode_v4(&KEY, 42, &[]).unwrap_err(), FhError::NotV4);
    let mut other = fh.clone();
    other[0] = 3;
    assert_eq!(decode_v4(&KEY, 42, &other).unwrap_err(), FhError::NotV4);
    assert_eq!(v4_ino(&other), None);
    assert_eq!(
        decode_v4(&KEY, 43, &fh).unwrap_err(),
        FhError::Stale { instance: 42, expected: 43 }
    );
    let mut longer = fh.clone();
    longer.push(0);
    assert_eq!(decode_v4(&KEY, 42, &longer).unwrap_err(), FhError::LengthMismatch);
    assert!(matches!(
        encode_v4(&KEY, 42, 7, 1, &[0; 200]),
        Err(FhError::KernelHandleTooLarge { len: 200 })
    ));
}

#[test]
fn a_handle_is_laid_out_octet_for_octet() {
    let fh = encode_v4(&KEY, 42, 12345, 1, &[9, 9, 9, 9, 1, 2, 3, 4]).unwrap().data;
    assert_eq!(&fh[0..9], &[4, 0, 0, 0, 0, 0, 0, 0, 42]);
    assert_eq!(&fh[9..17], &[0, 0, 0, 0, 0, 0, 0x30, 0x39]);
    // HMAC-SHA256 over instance, inode, type and kernel handle, cut to 16 octets.
    assert_eq!(
        &fh[17..33],
        &[0x20, 0xf6, 0x8e, 0x6f, 0xec, 0x74, 0xd5, 0x2a,
          0x05, 0xeb, 0x9d, 0x46, 0x3c, 0x24, 0x26, 0xeb]
    );
    assert_eq!(&fh[33..], &[0, 0, 0, 1, 8, 9, 9, 9, 9, 1, 2, 3, 4]);
}

#[test]
fn the_tag_depends_on_the_key() {
    let a = encode_v4(&KEY, 42, 7, 1, &[1; 8]).unwrap().data;
    let b = encode_v4(&[8u8; 32], 42, 7, 1, &[1; 8]).unwrap().data;
    assert_ne!(a, b);
    assert_eq!(a, encode_v4(&KEY, 42, 7, 1, &[1; 8]).unwrap().data);
}

// A tree:  /x/{a, sub/{b, deep/c}}, all on device 1.

#[derive(Clone)]
struct Tree(Vec<(&'static str, u64, bool)>);

fn temp_tree() -> Tree {
    Tree(vec![
        ("/x", 10, true),
        ("/x/a", 11, false),
        ("/x/sub", 12, true),
        ("/x/sub/b", 13, false),
        ("/x/sub/deep", 14, true),
        ("/x/sub/deep/c", 15, false),
    ])
}

impl Tree {
    fn named(&self, path: &[u8]) -> Option<(u64, u64)> {
        self.0.iter().find(|e| e.0.as_bytes() == path).map(|e| (1, e.1))
    }

    fn list(&self, dir: &[u8]) -> Vec<DirItem> {
        let dir = String::from_utf8(dir.to_vec()).unwrap();
        self.0
            .iter()
            .filter(|e| e.0.rsplit_once('/').map(|p| p.0) == Some(dir.as_str()))
            .map(|e| DirItem { dev: 1, ino: e.1, is_dir: e.2, path: e.0.as_bytes().to_vec() })
            .collect()
    }

    fn index(&self, dev: u64, cap: usize) -> IndexWalk {
        let mut w = IndexWalk::new(b"/x".to_vec(), self.named(b"/x"), dev, cap);
        while let Some(dir) = w.next() {
            w.listed(self.list(&dir));
        }
        w
    }

    fn find(&self, dev: u64, ino: u64, budget: usize) -> Option<Vec<u8>> {
        let mut w = TargetedWalk::new(b"/x".to_vec(), self.named(b"/x"), dev, ino, budget);
        while let Some(dir) = w.next() {
            w.listed(self.list(&dir));
        }
        w.finish()
    }

    /// Locate an inode as the server does, and count the walks.
    fn locate(&self, r: &mut IdentityResolver, dev: u64, ino: u64, now: u64, walks: &mut u32) -> Option<Vec<u8>> {
        let mut step = r.locate(dev, ino, now);
        loop {
            step = match step {
                LocateStep::Nowhere => return None,
                LocateStep::Found(p) => return Some(p),
                LocateStep::Check(p) => {
                    let named = self.named(&p);
                    r.checked(p, named, dev, ino)
                }
                LocateStep::Walk => {
                    *walks += 1;
                    r.install(self.index(1, 1000), now);
                    r.walked(dev, ino)
                }
                LocateStep::Search => return self.find(dev, ino, 10_000),
            }
        }
    }
}

#[test]
fn walk_ino_index_maps_tree_and_flags_cap() {
    let t = temp_tree();
    let mut r = IdentityResolver::new(1, 1000);
    let (n, complete) = r.install(t.index(1, 1000), 5);
    assert!(complete);
    assert_eq!(n, 6, "every entry indexed");
    for (path, ino, _) in &t.0 {
        match r.walked(1, *ino) {
            LocateStep::Found(p) => assert_eq!(p, path.as_bytes()),
            other => panic!("{}: {:?}", path, other),
        }
    }
    // Exhaustion is reported, not silently truncated.
    let mut r = IdentityResolver::new(1, 2);
    let (_, complete) = r.install(t.index(1, 2), 5);
    assert!(!complete);
    // Nothing of another device is taken up.
    assert_eq!(t.index(2, 1000).len(), 1);
}

#[test]
fn a_bound_of_the_root_and_its_entries_is_enough() {
    let t = temp_tree();
    let mut r = IdentityResolver::new(1, 6);
    assert_eq!(r.install(t.index(1, 6), 5), (6, true));
    let mut r = IdentityResolver::new(1, 5);
    assert_eq!(r.install(t.index(1, 5), 5), (5, false));
}

#[test]
fn a_directory_that_cannot_be_listed_leaves_the_index_incomplete() {
    let t = temp_tree();
    let mut w = IndexWalk::new(b"/x".to_vec(), t.named(b"/x"), 1, 1000);
    while let Some(dir) = w.next() {
        if dir == b"/x/sub/deep" {
            w.unlisted();
        } else {
            w.listed(t.list(&dir));
        }
    }
    // The walk went on: only what lies in that directory is missing.
    let mut r = IdentityResolver::new(1, 1000);
    assert_eq!(r.install(w, 0), (5, false));
    assert!(matches!(r.walked(1, 13), LocateStep::Found(p) if p == b"/x/sub/b"));
    // A miss is no proof that the inode is gone, however young the index is.
    assert!(matches!(r.locate(1, 15, 1), LocateStep::Walk));
    assert!(matches!(r.walked(1, 15), LocateStep::Search));
}

#[test]
fn find_by_ino_targeted_hits_and_misses() {
    let t = temp_tree();
    assert_eq!(t.find(1, 15, 10_000), Some(b"/x/sub/deep/c".to_vec()));
    // The root itself resolves too.
    assert_eq!(t.find(1, 10, 10_000), Some(b"/x".to_vec()));
    assert_eq!(t.find(1, 0, 10_000), None);
    assert_eq!(t.find(1, 15, 1), None, "the budget ends the search");
}

#[test]
fn trusted_resolution_gate() {
    let t = temp_tree();
    let (dev, ino) = t.named(b"/x/a").unwrap();
    assert!(trusted_resolution(true, t.named(b"/x/a"), dev, ino));
    // The kernel says "/" for a disconnected dentry.
    assert!(!trusted_resolution(false, Some((1, 2)), dev, ino));
    // A path under the root that names a DIFFERENT inode (renamed-over).
    assert!(!trusted_resolution(true, t.named(b"/x/sub/b"), dev, ino));
    // Outside the export root entirely, even if the inode matched.
    assert!(!trusted_resolution(false, Some((dev, ino)), dev, ino));
    // Deleted.
    assert!(!trusted_resolution(true, None, dev, ino));
}

#[test]
fn identity_locate_recovers_rename_and_stales_unlink() {
    let mut t = temp_tree();
    let mut r = IdentityResolver::new(1, 1000);
    let mut walks = 0;
    assert_eq!(t.locate(&mut r, 1, 11, 0, &mut walks), Some(b"/x/a".to_vec()));
    // Rename: the indexed path is now a lie, within the cooldown.
    t.0[1] = ("/x/sub/a-renamed", 11, false);
    assert_eq!(t.locate(&mut r, 1, 11, 1, &mut walks), Some(b"/x/sub/a-renamed".to_vec()));
    assert_eq!(walks, 2);
    // Unlink: no path exists.
    t.0.remove(1);
    assert_eq!(t.locate(&mut r, 1, 11, 2, &mut walks), None);
    // Foreign device is refused outright.
    assert_eq!(t.locate(&mut r, 2, 11, 3, &mut walks), None);
}

#[test]
fn identity_miss_cooldown_skips_rewalk() {
    let t = temp_tree();
    let mut r = IdentityResolver::new(1, 1000);
    assert!(r.wants_prewarm());
    r.install(t.index(1, 1000), 1_000);
    let mut walks = 0;
    for _ in 0..3 {
        assert_eq!(t.locate(&mut r, 1, 0, 2_000, &mut walks), None);
    }
    assert_eq!(walks, 0, "misses within the cooldown of a complete index must not re-walk");
    // Long after, they do.
    assert_eq!(t.locate(&mut r, 1, 0, 3_600_000_000_000, &mut walks), None);
    assert_eq!(walks, 1);
}

#[test]
fn ident_cap_env_parsing() {
    assert_eq!(ident_cap(None), IDENT_CAP_DEFAULT);
    assert_eq!(ident_cap(Some("12345")), 12345);
    assert_eq!(ident_cap(Some("not-a-number")), IDENT_CAP_DEFAULT);
    assert_eq!(ident_cap(Some("0")), 0);
}

#[test]
fn identity_targeted_mode_cap_zero() {
    let t = temp_tree();
    let mut r = IdentityResolver::new(1, 0);
    assert!(!r.wants_prewarm());
    let mut walks = 0;
    assert_eq!(t.locate(&mut r, 1, 15, 0, &mut walks), Some(b"/x/sub/deep/c".to_vec()));
    assert_eq!(walks, 0);
}

#[test]
fn key_created_once_and_stable() {
    assert!(matches!(key_step(KeyRead::NotFound), KeyStep::Create));
    match key_step(KeyRead::Octets(vec![5; 32])) {
        KeyStep::Use(k) => assert_eq!(k, [5; 32]),
        other => panic!("{:?}", other),
    }
    // A file that is no key is never a reason for a fresh one.
    assert!(matches!(
        key_step(KeyRead::Octets(vec![5; 31])),
        KeyStep::Refuse(FhError::KeyCorrupt { len: 31 })
    ));
    assert!(matches!(key_step(KeyRead::Failed("denied".to_string())), KeyStep::Report(_)));
}

fn failure(errno: i32) -> OsFailure {
    OsFailure { errno: Some(errno), message: "oops".to_string() }
}

#[test]
fn kernel_mint_resolve_rename_stale() {
    let t = temp_tree();
    let mut k = KernelFh::new(KEY, 7, 1, 1000);
    let named = Ok(KernelHandle { handle_type: 1, handle: vec![4; 8] });
    let fh = k.mint(named, Ok(11)).unwrap();
    let h = k.open_handle(&fh.data).unwrap();
    assert_eq!((h.handle_type, h.handle), (1, vec![4; 8]));
    // The path that the kernel gives is the one that names the inode.
    let r = KernelFh::resolve(Ok(b"/x/a".to_vec()), true, t.named(b"/x/a"), 1, 11).unwrap();
    assert!(matches!(r, Resolution::Path(p) if p == b"/x/a"));
    // As if disconnected: the path is not believed, and the walk finds it.
    let r = KernelFh::resolve(Ok(b"/".to_vec()), false, Some((9, 2)), 1, 11).unwrap();
    assert!(matches!(r, Resolution::Recover));
    let mut walks = 0;
    let found = t.locate(&mut k.identity, 1, 11, 0, &mut walks);
    assert_eq!(KernelFh::recover_by_identity(found).unwrap(), b"/x/a".to_vec());
    assert!(matches!(KernelFh::recover_by_identity(None), Err(ResolveError::Stale)));
    // Gone.
    assert!(matches!(KernelFh::open_failed(failure(116)), ResolveError::Stale));
    assert!(matches!(KernelFh::open_failed(failure(2)), ResolveError::Stale));
    assert!(matches!(
        KernelFh::open_failed(failure(1)),
        ResolveError::Other(m) if m == "open_by_handle_at: oops"
    ));
    assert!(k.prewarm());
}

#[test]
fn minting_fails_as_the_kernel_does() {
    let k = KernelFh::new(KEY, 7, 1, 1000);
    assert!(matches!(k.mint(Err(failure(2)), Ok(1)), Err(MintError::NoEnt)));
    assert!(matches!(
        k.mint(Err(failure(95)), Ok(1)),
        Err(MintError::Other(m)) if m == "name_to_handle_at: oops"
    ));
    let named = Ok(KernelHandle { handle_type: 1, handle: vec![4; 8] });
    assert!(matches!(
        k.mint(named, Err(failure(2))),
        Err(MintError::Other(m)) if m == "stat after mint: oops"
    ));
    // A handle of another instance does not open.
    let foreign = encode_v4(&KEY, 8, 1, 1, &[4; 8]).unwrap();
    assert!(matches!(k.open_handle(&foreign.data), Err(ResolveError::Other(_))));
}

#[test]
fn a_server_that_cannot_resolve_what_it_mints_does_not_start() {
    let k = || KernelFh::new(KEY, 7, 1, 1000);
    assert!(k().try_new(Ok(()), Ok(())).is_ok());
    assert!(matches!(
        k().try_new(Err(MintError::NoEnt), Ok(())),
        Err(ProbeError::ObjectMissing)
    ));
    assert!(matches!(
        k().try_new(Ok(()), Err(ResolveError::Stale)),
        Err(ProbeError::AnsweredStale)
    ));
    assert!(matches!(
        k().try_new(Err(MintError::Other("m".to_string())), Ok(())),
        Err(ProbeError::Mint(_))
    ));
    assert!(matches!(
        k().try_new(Ok(()), Err(ResolveError::Other("r".to_string()))),
        Err(ProbeError::Resolve(_))
    ));
}
