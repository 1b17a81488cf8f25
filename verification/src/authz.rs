//! POSIX permission checking against the caller.
//!
//! The mode-bit model only: no access control lists, and uid 0 is honoured as
//! root. An AUTH_SYS uid is a claim that nothing verifies, so this guards
//! against accident and misconfiguration.
use crate::protocol::Nfs4Status;
use crate::text;
use crate::text::trim;
use vstd::prelude::*;

verus! {

/// Permission to read.
pub const R: u32 = 0b100;

/// Permission to write.
pub const W: u32 = 0b010;

/// Permission to execute, or to search a directory.
pub const X: u32 = 0b001;

/// How seriously a failed check is taken.
#[derive(Debug, Clone, Copy, PartialEq, Eq, Structural)]
pub enum Mode {
    /// Do not evaluate at all.
    Off,
    /// Evaluate, deny nothing; the caller logs what would have been denied.
    Warn,
    /// Evaluate and deny.
    Enforce,
}

pub open spec fn lowered(c: char) -> char {
    if 'A' <= c && c <= 'Z' {
        (c as u32 + 32) as char
    } else {
        c
    }
}

/// A setting as it is compared: no white space at its ends, ASCII letters in
/// lower case.
pub open spec fn normalised(s: Seq<char>) -> Seq<char> {
    text::trimmed(s).map_values(|c: char| lowered(c))
}

pub open spec fn says_enforce(s: Seq<char>) -> bool {
    s == "1"@ || s == "enforce"@ || s == "true"@ || s == "on"@
}

pub open spec fn says_off(s: Seq<char>) -> bool {
    s == "0"@ || s == "off"@ || s == "false"@
}

/// The mode that a setting asks for. Whatever is not understood, and no setting
/// at all, is `Warn`: a typing error neither disables the evaluation nor starts
/// to deny.
pub open spec fn mode_for(setting: Option<Seq<char>>) -> Mode {
    match setting {
        Some(s) => if says_enforce(normalised(s)) {
            Mode::Enforce
        } else if says_off(normalised(s)) {
            Mode::Off
        } else {
            Mode::Warn
        },
        None => Mode::Warn,
    }
}

fn lower(c: char) -> (r: char)
    ensures
        r == lowered(c),
{
    if 'A' <= c && c <= 'Z' {
        let n: u8 = c as u8;
        (n + 32) as char
    } else {
        c
    }
}

fn same(v: &Vec<char>, s: &str) -> (b: bool)
    ensures
        b == (v@ == s@),
{
    let n: usize = s.unicode_len();
    if v.len() != n {
        return false;
    }
    let mut i: usize = 0;
    while i < n
        invariant
            v@.len() == n == s@.len(),
            0 <= i <= n,
            forall|k: int| 0 <= k < i ==> v@[k] == s@[k],
        decreases n - i,
    {
        if v[i] != s.get_char(i) {
            assert(v@ != s@);
            return false;
        }
        i = i + 1;
    }
    assert(v@ =~= s@);
    true
}

fn normal_form(s: &str) -> (v: Vec<char>)
    ensures
        v@ == normalised(s@),
{
    let kept = trim(s);
    let mut v: Vec<char> = Vec::new();
    let n: usize = kept.unicode_len();
    let mut i: usize = 0;
    while i < n
        invariant
            n == kept@.len(),
            i <= n,
            v@ =~= kept@.take(i as int).map_values(|c: char| lowered(c)),
        decreases n - i,
    {
        v.push(lower(kept.get_char(i)));
        i = i + 1;
    }
    assert(kept@.take(n as int) =~= kept@);
    v
}

/// The mode that the setting of the server's environment asks for.
pub fn mode(setting: Option<&str>) -> (m: Mode)
    ensures
        m == mode_for(
            match setting {
                Some(s) => Some(s@),
                None => None,
            },
        ),
{
    match setting {
        Some(s) => {
            let v = normal_form(s);
            if same(&v, "1") || same(&v, "enforce") || same(&v, "true") || same(&v, "on") {
                Mode::Enforce
            } else if same(&v, "0") || same(&v, "off") || same(&v, "false") {
                Mode::Off
            } else {
                Mode::Warn
            }
        },
        None => Mode::Warn,
    }
}

/// The caller's AUTH_SYS identity.
#[derive(Debug)]
pub struct Cred {
    pub uid: u32,
    pub gid: u32,
    /// Supplementary groups. Without them a user whose access comes from such a
    /// group would be denied.
    pub gids: Vec<u32>,
}

pub struct CredView {
    pub uid: u32,
    pub gid: u32,
    pub gids: Seq<u32>,
}

impl View for Cred {
    type V = CredView;

    open spec fn view(&self) -> CredView {
        CredView { uid: self.uid, gid: self.gid, gids: self.gids@ }
    }
}

impl CredView {
    pub open spec fn is_member(self, gid: u32) -> bool {
        self.gid == gid || self.gids.contains(gid)
    }
}

impl Clone for Cred {
    fn clone(&self) -> (c: Cred)
        ensures
            c@ == self@,
    {
        let gids = self.gids.clone();
        assert(gids@ =~= self.gids@);
        Cred { uid: self.uid, gid: self.gid, gids }
    }
}

impl Default for Cred {
    fn default() -> (c: Cred)
        ensures
            c@ == (CredView { uid: 0, gid: 0, gids: Seq::<u32>::empty() }),
    {
        Cred { uid: 0, gid: 0, gids: Vec::new() }
    }
}

impl Cred {
    pub fn is_root(&self) -> (b: bool)
        ensures
            b == (self.uid == 0),
    {
        self.uid == 0
    }

    pub fn in_group(&self, gid: u32) -> (b: bool)
        ensures
            b == self@.is_member(gid),
    {
        if self.gid == gid {
            return true;
        }
        let mut i: usize = 0;
        while i < self.gids.len()
            invariant
                i <= self.gids@.len(),
                forall|k: int| 0 <= k < i ==> self.gids@[k] != gid,
            decreases self.gids@.len() - i,
        {
            if self.gids[i] == gid {
                return true;
            }
            i = i + 1;
        }
        false
    }
}

/// The three permission bits that apply to a caller: the owner's if the uid
/// matches, else the group's if a group matches, else the others'.
pub open spec fn tier(cred: CredView, file_uid: u32, file_gid: u32, mode_bits: u32) -> u32 {
    if cred.uid == file_uid {
        (mode_bits >> 6) & 0o7
    } else if cred.is_member(file_gid) {
        (mode_bits >> 3) & 0o7
    } else {
        mode_bits & 0o7
    }
}

/// Whether `mode_bits` grant all of `want`. Root passes, but executes nothing
/// that has no execute bit at all.
pub open spec fn permitted(
    cred: CredView,
    file_uid: u32,
    file_gid: u32,
    mode_bits: u32,
    want: u32,
) -> bool {
    if cred.uid == 0 {
        want & X == 0 || mode_bits & 0o111 != 0
    } else {
        tier(cred, file_uid, file_gid, mode_bits) & want == want
    }
}

/// Whether the mode bits grant all of `want` to this caller.
pub fn permits(cred: &Cred, file_uid: u32, file_gid: u32, mode_bits: u32, want: u32) -> (b: bool)
    ensures
        b == permitted(cred@, file_uid, file_gid, mode_bits, want),
{
    if cred.is_root() {
        if want & X != 0 && mode_bits & 0o111 == 0 {
            return false;
        }
        return true;
    }
    let granted: u32 = if cred.uid == file_uid {
        (mode_bits >> 6) & 0o7
    } else if cred.in_group(file_gid) {
        (mode_bits >> 3) & 0o7
    } else {
        mode_bits & 0o7
    };
    granted & want == want
}

/// What the checks read of a file's metadata. `mode` is `st_mode` as the kernel
/// gives it, file type included.
#[derive(Debug, Clone, Copy)]
pub struct FileMeta {
    pub uid: u32,
    pub gid: u32,
    pub mode: u32,
}

impl FileMeta {
    /// The permission bits, the sticky bit and the set-id bits.
    pub open spec fn bits(self) -> u32 {
        self.mode & 0o7777
    }
}

/// Owner, group and permission bits of a file.
pub fn ident_of(md: &FileMeta) -> (r: (u32, u32, u32))
    ensures
        r == (md.uid, md.gid, md.bits()),
{
    (md.uid, md.gid, md.mode & 0o7777)
}

/// What becomes of a request: only `Enforce`, with a credential to evaluate,
/// turns a failed check into `refusal`.
pub open spec fn decided(m: Mode, cred: Option<CredView>, allowed: bool, refusal: Nfs4Status) ->
    Result<(), Nfs4Status> {
    if m == Mode::Enforce && cred is Some && !allowed {
        Err(refusal)
    } else {
        Ok(())
    }
}

pub open spec fn cred_view(cred: Option<&Cred>) -> Option<CredView> {
    match cred {
        Some(c) => Some(c@),
        None => None,
    }
}

/// Whether this caller may do `want` to this file.
///
/// No credential means AUTH_NONE or GSS, or the server's own file interface:
/// there is no uid to evaluate, and nothing is refused.
pub fn check(m: Mode, cred: Option<&Cred>, md: &FileMeta, want: u32) -> (r: Result<(), Nfs4Status>)
    ensures
        r == decided(
            m,
            cred_view(cred),
            permitted(cred_view(cred)->0, md.uid, md.gid, md.bits(), want),
            Nfs4Status::Access,
        ),
        m == Mode::Enforce ==> (cred matches Some(c) ==> (r is Ok <==> permitted(
            c@,
            md.uid,
            md.gid,
            md.mode & 0o7777,
            want,
        ))),
        r matches Err(e) ==> e is Access,
{
    if m == Mode::Off {
        return Ok(());
    }
    match cred {
        Some(c) => {
            let (fuid, fgid, bits) = ident_of(md);
            if permits(c, fuid, fgid, bits, want) {
                return Ok(());
            }
            match m {
                Mode::Enforce => Err(Nfs4Status::Access),
                _ => Ok(()),
            }
        },
        None => Ok(()),
    }
}

/// POSIX `chown(2)`: the uid changes for root alone, and the owner may move the
/// file to a group that they belong to. A value that does not change counts as
/// no change.
pub open spec fn may_chown(
    cred: CredView,
    md: FileMeta,
    want_uid: Option<u32>,
    want_gid: Option<u32>,
) -> bool {
    ||| cred.uid == 0
    ||| {
        &&& want_uid is None || want_uid == Some(md.uid)
        &&& want_gid is None || want_gid == Some(md.gid) || cred.is_member(want_gid->0)
        &&& cred.uid == md.uid
    }
}

/// Whether this caller may give the file these owners. Write permission on the
/// file plays no part, and a refusal is EPERM.
pub fn check_chown(
    m: Mode,
    cred: Option<&Cred>,
    md: &FileMeta,
    want_uid: Option<u32>,
    want_gid: Option<u32>,
) -> (r: Result<(), Nfs4Status>)
    ensures
        r == decided(
            m,
            cred_view(cred),
            may_chown(cred_view(cred)->0, *md, want_uid, want_gid),
            Nfs4Status::Perm,
        ),
        r matches Err(e) ==> e is Perm,
{
    if m == Mode::Off {
        return Ok(());
    }
    match cred {
        Some(c) => {
            let (fuid, fgid, _) = ident_of(md);
            let allowed = if c.is_root() {
                true
            } else {
                let uid_ok = match want_uid {
                    None => true,
                    Some(u) => u == fuid,
                };
                let gid_ok = match want_gid {
                    None => true,
                    Some(g) => g == fgid || c.in_group(g),
                };
                uid_ok && gid_ok && c.uid == fuid
            };
            if allowed {
                return Ok(());
            }
            match m {
                Mode::Enforce => Err(Nfs4Status::Perm),
                _ => Ok(()),
            }
        },
        None => Ok(()),
    }
}

/// Whether this caller may change the file's mode: its owner and root may.
pub fn check_chmod(m: Mode, cred: Option<&Cred>, md: &FileMeta) -> (r: Result<(), Nfs4Status>)
    ensures
        r == decided(
            m,
            cred_view(cred),
            (cred_view(cred)->0).uid == 0 || (cred_view(cred)->0).uid == md.uid,
            Nfs4Status::Perm,
        ),
        m != Mode::Enforce ==> r is Ok,
        cred is None ==> r is Ok,
        m == Mode::Enforce ==> (cred matches Some(c) ==> (r is Ok <==> c.uid == 0 || c.uid
            == md.uid)),
        r matches Err(e) ==> e is Perm,
{
    if m == Mode::Off {
        return Ok(());
    }
    match cred {
        Some(c) => {
            let (fuid, _, _) = ident_of(md);
            if c.is_root() || c.uid == fuid {
                return Ok(());
            }
            match m {
                Mode::Enforce => Err(Nfs4Status::Perm),
                _ => Ok(()),
            }
        },
        None => Ok(()),
    }
}

/// Whether this caller may remove or rename a name out of a directory: in a
/// sticky one, only the owner of the file, the owner of the directory and root
/// may.
pub fn sticky_permits(cred: &Cred, dir: &FileMeta, victim: &FileMeta) -> (b: bool)
    ensures
        b == (dir.bits() & 0o1000 == 0 || cred.uid == 0 || cred.uid == victim.uid || cred.uid
            == dir.uid),
        cred.uid == 0 || cred.uid == victim.uid || cred.uid == dir.uid ==> b,
        cred.uid != 0 && cred.uid != victim.uid && cred.uid != dir.uid ==> (b <==> dir.mode & 0o1000
            == 0),
{
    let ghost m = dir.mode;
    assert((m & 0o7777) & 0o1000 == m & 0o1000) by (bit_vector);
    let (duid, _, dbits) = ident_of(dir);
    if dbits & 0o1000 == 0 {
        return true;
    }
    let (vuid, _, _) = ident_of(victim);
    cred.is_root() || cred.uid == vuid || cred.uid == duid
}

/// Law: short of `Enforce` no check refuses anything, and neither does any
/// check without a credential.
pub proof fn only_enforcement_denies(
    m: Mode,
    cred: Option<CredView>,
    allowed: bool,
    refusal: Nfs4Status,
)
    ensures
        m != Mode::Enforce ==> decided(m, cred, allowed, refusal) is Ok,
        cred is None ==> decided(m, cred, allowed, refusal) is Ok,
        decided(m, cred, allowed, refusal) is Err ==> decided(Mode::Warn, cred, allowed, refusal)
            is Ok,
{
}

/// Law: the tiers exclude each other. What the owner may do depends on the
/// owner's bits alone, what a group member who is not the owner may do on the
/// group's alone, and what anybody else may do on the others' alone.
pub proof fn the_tiers_are_not_a_union(
    cred: CredView,
    file_uid: u32,
    file_gid: u32,
    a: u32,
    b: u32,
    want: u32,
)
    requires
        cred.uid != 0,
        cred.uid == file_uid ==> (a >> 6) & 0o7 == (b >> 6) & 0o7,
        cred.uid != file_uid && cred.is_member(file_gid) ==> (a >> 3) & 0o7 == (b >> 3) & 0o7,
        cred.uid != file_uid && !cred.is_member(file_gid) ==> a & 0o7 == b & 0o7,
    ensures
        permitted(cred, file_uid, file_gid, a, want) == permitted(cred, file_uid, file_gid, b, want),
{
}

/// Law: for anybody but root, to be permitted two things together is to be permitted
/// each of them. Nothing is refused to who wants nothing, and what is no permission is
/// never granted.
pub proof fn every_wanted_bit_is_needed(
    cred: CredView,
    file_uid: u32,
    file_gid: u32,
    mode_bits: u32,
    want1: u32,
    want2: u32,
)
    requires
        cred.uid != 0,
    ensures
        permitted(cred, file_uid, file_gid, mode_bits, want1 | want2) <==> permitted(
            cred,
            file_uid,
            file_gid,
            mode_bits,
            want1,
        ) && permitted(cred, file_uid, file_gid, mode_bits, want2),
        permitted(cred, file_uid, file_gid, mode_bits, 0),
        want1 > 7 ==> !permitted(cred, file_uid, file_gid, mode_bits, want1),
{
    let t = tier(cred, file_uid, file_gid, mode_bits);
    assert({
        &&& t & (want1 | want2) == want1 | want2 <==> t & want1 == want1 && t & want2 == want2
        &&& t & 0 == 0
        &&& (mode_bits >> 6) & 0o7 <= 7
        &&& (mode_bits >> 3) & 0o7 <= 7
        &&& mode_bits & 0o7 <= 7
        &&& t <= 7 ==> t & want1 <= 7
    }) by (bit_vector);
}

/// Law: the owner reads, writes and executes by the bits 0400, 0200 and 0100 of the
/// mode, who is not the owner but in the group by 0040, 0020 and 0010, and anybody else
/// by 0004, 0002 and 0001.
pub proof fn each_bit_of_the_mode_grants_one_thing(
    cred: CredView,
    file_uid: u32,
    file_gid: u32,
    mode_bits: u32,
)
    requires
        cred.uid != 0,
    ensures
        cred.uid == file_uid ==> {
            &&& permitted(cred, file_uid, file_gid, mode_bits, R) <==> mode_bits & 0o400 != 0
            &&& permitted(cred, file_uid, file_gid, mode_bits, W) <==> mode_bits & 0o200 != 0
            &&& permitted(cred, file_uid, file_gid, mode_bits, X) <==> mode_bits & 0o100 != 0
        },
        cred.uid != file_uid && (cred.gid == file_gid || cred.gids.contains(file_gid)) ==> {
            &&& permitted(cred, file_uid, file_gid, mode_bits, R) <==> mode_bits & 0o040 != 0
            &&& permitted(cred, file_uid, file_gid, mode_bits, W) <==> mode_bits & 0o020 != 0
            &&& permitted(cred, file_uid, file_gid, mode_bits, X) <==> mode_bits & 0o010 != 0
        },
        cred.uid != file_uid && cred.gid != file_gid && !cred.gids.contains(file_gid) ==> {
            &&& permitted(cred, file_uid, file_gid, mode_bits, R) <==> mode_bits & 0o004 != 0
            &&& permitted(cred, file_uid, file_gid, mode_bits, W) <==> mode_bits & 0o002 != 0
            &&& permitted(cred, file_uid, file_gid, mode_bits, X) <==> mode_bits & 0o001 != 0
        },
{
    let m = mode_bits;
    assert({
        &&& ((m >> 6) & 0o7) & 0b100 == 0b100 <==> m & 0o400 != 0
        &&& ((m >> 6) & 0o7) & 0b010 == 0b010 <==> m & 0o200 != 0
        &&& ((m >> 6) & 0o7) & 0b001 == 0b001 <==> m & 0o100 != 0
        &&& ((m >> 3) & 0o7) & 0b100 == 0b100 <==> m & 0o040 != 0
        &&& ((m >> 3) & 0o7) & 0b010 == 0b010 <==> m & 0o020 != 0
        &&& ((m >> 3) & 0o7) & 0b001 == 0b001 <==> m & 0o010 != 0
        &&& (m & 0o7) & 0b100 == 0b100 <==> m & 0o004 != 0
        &&& (m & 0o7) & 0b010 == 0b010 <==> m & 0o002 != 0
        &&& (m & 0o7) & 0b001 == 0b001 <==> m & 0o001 != 0
    }) by (bit_vector);
}

/// Law: root reads and writes everything, and executes what anybody may execute.
pub proof fn root_executes_only_what_somebody_may(
    cred: CredView,
    file_uid: u32,
    file_gid: u32,
    mode_bits: u32,
    want: u32,
)
    requires
        cred.uid == 0,
    ensures
        want & 1 == 0 ==> permitted(cred, file_uid, file_gid, mode_bits, want),
        want & 1 != 0 ==> (permitted(cred, file_uid, file_gid, mode_bits, want) <==> mode_bits
            & 0o100 != 0 || mode_bits & 0o010 != 0 || mode_bits & 0o001 != 0),
{
    assert(mode_bits & 0o111 != 0 <==> mode_bits & 0o100 != 0 || mode_bits & 0o010 != 0 || mode_bits
        & 0o001 != 0) by (bit_vector);
}

/// Law: under `Enforce` a check with a credential refuses exactly what is not allowed,
/// and with the status that belongs to the check.
pub proof fn enforcement_refuses_what_is_not_allowed(
    cred: CredView,
    allowed: bool,
    refusal: Nfs4Status,
)
    ensures
        decided(Mode::Enforce, Some(cred), allowed, refusal) == (if allowed {
            Ok::<(), Nfs4Status>(())
        } else {
            Err::<(), Nfs4Status>(refusal)
        }),
{
}

/// Law: root gives a file any owner and any group; its owner may leave both as they are
/// and may give it a group that they are in.
pub proof fn an_owner_gives_a_file_their_own_groups(
    cred: CredView,
    md: FileMeta,
    want_uid: Option<u32>,
    want_gid: Option<u32>,
)
    ensures
        cred.uid == 0 ==> may_chown(cred, md, want_uid, want_gid),
        cred.uid == md.uid && (want_uid is None || want_uid == Some(md.uid)) && (
        want_gid matches Some(g) ==> g == md.gid || g == cred.gid || cred.gids.contains(g))
            ==> may_chown(cred, md, want_uid, want_gid),
{
}

/// Law: the permission bits of a file are the last twelve bits of its mode.
pub proof fn the_file_type_is_no_permission(md: FileMeta, kind: u32)
    ensures
        md.bits() <= 0o7777,
        md.mode <= 0o7777 ==> md.bits() == md.mode,
        (FileMeta { mode: md.mode | (kind << 12), ..md }).bits() == md.bits(),
{
    let m = md.mode;
    assert({
        &&& m & 0o7777 <= 0o7777
        &&& m <= 0o7777 ==> m & 0o7777 == m
        &&& (m | (kind << 12)) & 0o7777 == m & 0o7777
    }) by (bit_vector);
}

/// Law: nobody but root gives a file another owner, and nobody but root and its
/// owner gives it another group.
pub proof fn ownership_changes_only_for_root(
    cred: CredView,
    md: FileMeta,
    want_uid: Option<u32>,
    want_gid: Option<u32>,
)
    requires
        may_chown(cred, md, want_uid, want_gid),
        cred.uid != 0,
    ensures
        want_uid matches Some(u) ==> u == md.uid,
        cred.uid == md.uid,
        want_gid matches Some(g) ==> g == md.gid || cred.is_member(g),
{
}

/// Law: for anybody but root, asking for two permissions at once comes to the same as
/// asking for each of them, and who wants nothing is let through.
pub proof fn two_wants_are_two_questions(
    cred: &Cred,
    file_uid: u32,
    file_gid: u32,
    mode_bits: u32,
    want1: u32,
    want2: u32,
    first: bool,
    second: bool,
    both: bool,
    nothing: bool,
)
    requires
        cred.uid != 0,
        call_ensures(permits, (cred, file_uid, file_gid, mode_bits, want1), first),
        call_ensures(permits, (cred, file_uid, file_gid, mode_bits, want2), second),
        call_ensures(permits, (cred, file_uid, file_gid, mode_bits, want1 | want2), both),
        call_ensures(permits, (cred, file_uid, file_gid, mode_bits, 0u32), nothing),
    ensures
        both <==> first && second,
        nothing,
{
    every_wanted_bit_is_needed(cred@, file_uid, file_gid, mode_bits, want1, want2);
}

/// Law: a check that is enforced comes to what the mode bits permit, and one that is not
/// refuses nothing.
pub proof fn a_check_comes_to_what_is_permitted(
    m: Mode,
    cred: &Cred,
    md: &FileMeta,
    want: u32,
    b: bool,
    r: Result<(), Nfs4Status>,
)
    requires
        call_ensures(permits, (cred, md.uid, md.gid, md.mode & 0o7777, want), b),
        call_ensures(check, (m, Some(cred), md, want), r),
    ensures
        m is Enforce ==> (r is Ok <==> b),
        !(m is Enforce) ==> r is Ok,
        r matches Err(e) ==> e == Nfs4Status::Access,
{
}

/// Law: in a sticky directory only root, the owner of the file and the owner of the
/// directory remove a file; in any other directory the bit stands in nobody's way.
pub proof fn a_sticky_directory_keeps_other_peoples_files(
    cred: &Cred,
    dir: &FileMeta,
    victim: &FileMeta,
    b: bool,
)
    requires
        call_ensures(sticky_permits, (cred, dir, victim), b),
    ensures
        cred.uid == 0 || cred.uid == victim.uid || cred.uid == dir.uid ==> b,
        cred.uid != 0 && cred.uid != victim.uid && cred.uid != dir.uid ==> (b <==> dir.mode & 0o1000
            == 0),
{
}

/// Law: nobody but root and the owner of a file changes its mode, where that is enforced.
pub proof fn a_mode_is_changed_by_its_owner(
    m: Mode,
    cred: &Cred,
    md: &FileMeta,
    r: Result<(), Nfs4Status>,
)
    requires
        call_ensures(check_chmod, (m, Some(cred), md), r),
    ensures
        m is Enforce ==> (r is Ok <==> cred.uid == 0 || cred.uid == md.uid),
        !(m is Enforce) ==> r is Ok,
        r matches Err(e) ==> e == Nfs4Status::Perm,
{
}

/// Law: a setting is compared in lower case and without the white space around it. Four
/// words ask for enforcement and three for none; with no setting, or one that is not
/// among them, checks only warn.
pub proof fn a_setting_is_one_of_a_few_words(a: Seq<char>, s: Seq<char>, b: Seq<char>)
    requires
        forall|k: int| 0 <= k < a.len() ==> text::is_white_space(#[trigger] a[k]),
        forall|k: int| 0 <= k < b.len() ==> text::is_white_space(#[trigger] b[k]),
        s.len() > 0,
        !text::is_white_space(s[0]),
        !text::is_white_space(s.last()),
    ensures
        ({
            let word = s.map_values(|c: char| lowered(c));
            let on = word == seq!['1'] || word == seq!['o', 'n'] || word == seq!['t', 'r', 'u', 'e']
                || word == seq!['e', 'n', 'f', 'o', 'r', 'c', 'e'];
            let off = word == seq!['0'] || word == seq!['o', 'f', 'f'] || word == seq![
                'f',
                'a',
                'l',
                's',
                'e',
            ];
            &&& mode_for(Some(a + (s + b))) is Enforce <==> on
            &&& mode_for(Some(a + (s + b))) is Off <==> off
        }),
        mode_for(None) is Warn,
{
    text::only_the_white_space_at_the_ends_goes(a, s, b);
    reveal_strlit("1");
    reveal_strlit("on");
    reveal_strlit("true");
    reveal_strlit("enforce");
    reveal_strlit("0");
    reveal_strlit("off");
    reveal_strlit("false");
    assert("1"@ =~= seq!['1']);
    assert("on"@ =~= seq!['o', 'n']);
    assert("true"@ =~= seq!['t', 'r', 'u', 'e']);
    assert("enforce"@ =~= seq!['e', 'n', 'f', 'o', 'r', 'c', 'e']);
    assert("0"@ =~= seq!['0']);
    assert("off"@ =~= seq!['o', 'f', 'f']);
    assert("false"@ =~= seq!['f', 'a', 'l', 's', 'e']);
    let word = s.map_values(|c: char| lowered(c));
    if word == seq!['0'] {
        assert(word[0] == '0');
    }
    if word == seq!['o', 'f', 'f'] || word == seq!['f', 'a', 'l', 's', 'e'] {
        assert(word.len() == 3 || word.len() == 5);
    }
}

/// Law: a capital letter is compared as its small letter, and everything else as itself.
pub proof fn capitals_are_compared_as_small_letters(c: char)
    ensures
        lowered('A') == 'a' && lowered('Z') == 'z',
        'A' <= c <= 'Z' ==> lowered(c) as u32 - c as u32 == 'a' as u32 - 'A' as u32,
        !('A' <= c <= 'Z') ==> lowered(c) == c,
{
}

} // verus!
