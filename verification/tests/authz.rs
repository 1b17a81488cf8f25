use flint_nfs::authz::{
    check, check_chmod, check_chown, ident_of, mode, permits, sticky_permits, Cred, FileMeta, Mode,
    R, W, X,
};
use flint_nfs::protocol::Nfs4Status;

fn cred(uid: u32, gid: u32) -> Cred {
    Cred { uid, gid, gids: vec![] }
}

fn file() -> FileMeta {
    FileMeta { uid: 1000, gid: 1000, mode: 0o100644 }
}

#[test]
fn owner_group_other_are_tiers_not_a_union() {
    // 0466: owner r--, group rw-, other rw-.
    assert!(
        !permits(&cred(100, 100), 100, 100, 0o466, W),
        "owner must be denied write by 0466: the tiers are exclusive, not a union"
    );
    assert!(
        permits(&cred(101, 100), 100, 100, 0o466, W),
        "a group member IS granted write by 0466"
    );
    assert!(permits(&cred(102, 102), 100, 100, 0o466, W), "other IS granted write by 0466");
}

#[test]
fn a_0600_file_is_private_to_its_owner() {
    assert!(permits(&cred(100, 100), 100, 100, 0o600, R | W));
    assert!(!permits(&cred(101, 101), 100, 100, 0o600, R));
    assert!(!permits(&cred(101, 100), 100, 100, 0o600, R), "group has no bits in 0600");
}

#[test]
fn supplementary_groups_grant_access() {
    let c = Cred { uid: 100, gid: 999, gids: vec![42, 500] };
    assert!(
        permits(&c, 1, 42, 0o060, R | W),
        "a supplementary group membership must grant group access"
    );
}

#[test]
fn root_bypasses_rwx_but_not_execute_on_a_non_executable() {
    assert!(permits(&cred(0, 0), 100, 100, 0o000, R | W));
    assert!(
        !permits(&cred(0, 0), 100, 100, 0o644, X),
        "even root may not execute a file with no execute bit set anywhere"
    );
    assert!(permits(&cred(0, 0), 100, 100, 0o755, X));
}

#[test]
fn chown_is_root_only_and_chgrp_needs_membership() {
    let md = file();
    let (fuid, fgid, _) = ident_of(&md);

    let other = Cred { uid: fuid.wrapping_add(1), gid: fgid, gids: vec![] };
    assert!(
        check_chown(Mode::Enforce, Some(&other), &md, Some(other.uid), None).is_err(),
        "a non-owner must not be able to chown a file to themselves"
    );

    let owner = Cred { uid: fuid, gid: fgid, gids: vec![] };
    assert!(
        check_chown(Mode::Enforce, Some(&owner), &md, Some(fuid + 5), None).is_err(),
        "even the owner may not change the uid: that is root-only"
    );

    let owner_multi = Cred { uid: fuid, gid: fgid, gids: vec![4242] };
    assert!(check_chown(Mode::Enforce, Some(&owner_multi), &md, None, Some(4242)).is_ok());
    assert!(
        check_chown(Mode::Enforce, Some(&owner_multi), &md, None, Some(9999)).is_err(),
        "a group the caller does not belong to must be refused"
    );
    assert!(check_chown(Mode::Enforce, Some(&cred(0, 0)), &md, Some(7), Some(9999)).is_ok());
}

#[test]
fn warn_mode_never_denies() {
    let md = file();
    let nobody = Cred { uid: 65533, gid: 65533, gids: vec![] };
    assert!(check(Mode::Warn, Some(&nobody), &md, R | W).is_ok());
    assert!(check_chown(Mode::Warn, Some(&nobody), &md, Some(1), None).is_ok());
    assert!(check_chmod(Mode::Warn, Some(&nobody), &md).is_ok());

    let denied = check(Mode::Enforce, Some(&nobody), &md, W).is_err()
        || check_chown(Mode::Enforce, Some(&nobody), &md, Some(1), None).is_err();
    assert!(denied, "Enforce must deny what Warn merely logged");
}

#[test]
fn no_credential_is_allowed_because_there_is_nothing_to_evaluate() {
    let md = file();
    assert!(check(Mode::Enforce, None, &md, R | W).is_ok());
    assert!(check_chown(Mode::Enforce, None, &md, Some(1), None).is_ok());
    assert!(check_chmod(Mode::Enforce, None, &md).is_ok());
}

#[test]
fn a_denial_says_whether_access_or_permission_is_missing() {
    let md = file();
    let nobody = cred(65533, 65533);
    assert_eq!(check(Mode::Enforce, Some(&nobody), &md, W), Err(Nfs4Status::Access));
    assert_eq!(check(Mode::Enforce, Some(&nobody), &md, R), Ok(()));
    assert_eq!(
        check_chown(Mode::Enforce, Some(&nobody), &md, Some(65533), None),
        Err(Nfs4Status::Perm)
    );
    assert_eq!(check_chmod(Mode::Enforce, Some(&nobody), &md), Err(Nfs4Status::Perm));
    assert_eq!(check_chmod(Mode::Enforce, Some(&cred(1000, 1)), &md), Ok(()));
    assert_eq!(check(Mode::Off, Some(&nobody), &md, W), Ok(()));
}

#[test]
fn the_file_type_is_no_permission() {
    assert_eq!(ident_of(&file()), (1000, 1000, 0o644));
    let sticky = FileMeta { uid: 0, gid: 0, mode: 0o041777 };
    assert_eq!(ident_of(&sticky), (0, 0, 0o1777));
}

#[test]
fn a_sticky_directory_protects_its_entries() {
    let sticky = FileMeta { uid: 10, gid: 10, mode: 0o041777 };
    let plain = FileMeta { uid: 10, gid: 10, mode: 0o040777 };
    let victim = FileMeta { uid: 20, gid: 20, mode: 0o100644 };
    assert!(sticky_permits(&cred(20, 1), &sticky, &victim), "the owner of the entry");
    assert!(sticky_permits(&cred(10, 1), &sticky, &victim), "the owner of the directory");
    assert!(sticky_permits(&cred(0, 1), &sticky, &victim), "root");
    assert!(!sticky_permits(&cred(30, 1), &sticky, &victim), "anybody else");
    assert!(sticky_permits(&cred(30, 1), &plain, &victim), "without the sticky bit");
}

#[test]
fn groups_count_whether_primary_or_supplementary() {
    let c = Cred { uid: 5, gid: 6, gids: vec![7] };
    assert!(c.in_group(6) && c.in_group(7) && !c.in_group(8));
    assert!(!c.is_root() && cred(0, 9).is_root());
}

#[test]
fn the_mode_follows_its_setting() {
    assert_eq!(mode(None), Mode::Warn);
    assert_eq!(mode(Some("enforce")), Mode::Enforce);
    assert_eq!(mode(Some("off")), Mode::Off);
    assert_eq!(mode(Some("nonsense")), Mode::Warn);
}
