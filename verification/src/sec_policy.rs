//! The weakest security an export accepts.
use vstd::prelude::*;

verus! {

/// How well a call is protected, weakest first.
#[derive(Debug, Clone, Copy, PartialEq, Eq, Structural)]
pub enum SecLevel {
    /// AUTH_NONE: no identity at all.
    AuthNone,
    /// AUTH_SYS: a uid that the client claims.
    Sys,
    /// Kerberos, authentication only.
    Krb5,
    /// Kerberos with integrity.
    Krb5i,
    /// Kerberos with privacy.
    Krb5p,
}

/// The place of a level in the order of strength.
pub open spec fn strength(level: SecLevel) -> int {
    match level {
        SecLevel::AuthNone => 0,
        SecLevel::Sys => 1,
        SecLevel::Krb5 => 2,
        SecLevel::Krb5i => 3,
        SecLevel::Krb5p => 4,
    }
}

impl SecLevel {
    fn rank(self) -> (r: u8)
        ensures
            r == strength(self),
    {
        match self {
            SecLevel::AuthNone => 0,
            SecLevel::Sys => 1,
            SecLevel::Krb5 => 2,
            SecLevel::Krb5i => 3,
            SecLevel::Krb5p => 4,
        }
    }

    /// The name mount options use.
    pub fn name(self) -> (s: &'static str)
        ensures
            s@ == (match self {
                SecLevel::AuthNone => "none"@,
                SecLevel::Sys => "sys"@,
                SecLevel::Krb5 => "krb5"@,
                SecLevel::Krb5i => "krb5i"@,
                SecLevel::Krb5p => "krb5p"@,
            }),
    {
        match self {
            SecLevel::AuthNone => "none",
            SecLevel::Sys => "sys",
            SecLevel::Krb5 => "krb5",
            SecLevel::Krb5i => "krb5i",
            SecLevel::Krb5p => "krb5p",
        }
    }
}

/// The floor of an export: nothing weaker is served, and nothing weaker is
/// offered.
#[derive(Debug, Clone, Copy, PartialEq, Eq, Structural)]
pub struct SecPolicy {
    pub floor: SecLevel,
}

/// A level that the policy accepts.
pub open spec fn accepted(policy: SecPolicy, level: SecLevel) -> bool {
    strength(policy.floor) <= strength(level)
}

impl SecPolicy {
    pub fn new(floor: SecLevel) -> (p: SecPolicy)
        ensures
            p.floor == floor,
    {
        SecPolicy { floor }
    }

    /// Whether a call at `level` is served.
    pub fn permits(self, level: SecLevel) -> (b: bool)
        ensures
            b == accepted(self, level),
    {
        self.floor.rank() <= level.rank()
    }

    /// Whether SECINFO lists `level`: exactly when a call at that level would be
    /// served.
    pub fn advertises(self, level: SecLevel) -> (b: bool)
        ensures
            b == accepted(self, level),
    {
        self.permits(level)
    }
}

impl Default for SecPolicy {
    /// No floor: everything down to AUTH_NONE is accepted.
    fn default() -> (p: SecPolicy)
        ensures
            p.floor == SecLevel::AuthNone,
            forall|level: SecLevel| accepted(p, level),
    {
        SecPolicy { floor: SecLevel::AuthNone }
    }
}

/// What SECINFO is answered from: whether Kerberos keys were loaded, and the
/// export's floor.
#[derive(Debug, Clone, Copy, PartialEq, Eq, Structural)]
pub struct SecOffer {
    pub gss: bool,
    pub policy: SecPolicy,
}

impl Default for SecOffer {
    /// No keys and no floor.
    fn default() -> (o: SecOffer)
        ensures
            !o.gss,
            o.policy.floor == SecLevel::AuthNone,
    {
        SecOffer { gss: false, policy: SecPolicy::default() }
    }
}

/// Law: AUTH_NONE, AUTH_SYS and Kerberos with authentication, integrity and privacy are
/// one stronger than the other, in this order. A floor accepts itself and what is
/// stronger, and nothing weaker.
pub proof fn a_floor_accepts_nothing_weaker(policy: SecPolicy, a: SecLevel, b: SecLevel)
    ensures
        strength(SecLevel::AuthNone) < strength(SecLevel::Sys) < strength(SecLevel::Krb5)
            < strength(SecLevel::Krb5i) < strength(SecLevel::Krb5p),
        accepted(policy, policy.floor),
        strength(a) < strength(policy.floor) ==> !accepted(policy, a),
        accepted(policy, a) && strength(a) <= strength(b) ==> accepted(policy, b),
        policy.floor is Krb5 ==> !accepted(policy, SecLevel::Sys) && !accepted(
            policy,
            SecLevel::AuthNone,
        ) && accepted(policy, SecLevel::Krb5p),
{
}

/// Law: what an export accepts is what it advertises, and a call as strong as the floor or
/// stronger is accepted.
pub proof fn what_is_accepted_is_advertised(
    policy: SecPolicy,
    level: SecLevel,
    taken: bool,
    told: bool,
)
    requires
        call_ensures(SecPolicy::permits, (policy, level), taken),
        call_ensures(SecPolicy::advertises, (policy, level), told),
    ensures
        taken == told,
        policy.floor == level || policy.floor is AuthNone || level is Krb5p ==> taken,
        level is AuthNone && !(policy.floor is AuthNone) ==> !taken,
        level is Sys && policy.floor is Krb5 ==> !taken,
{
}

} // verus!
