//! The timings of the ladder.
use crate::text;
use crate::text::parse_number;
use vstd::prelude::*;

verus! {

/// All in whole seconds.
#[derive(Debug, Clone, Copy, PartialEq, Eq)]
pub struct RecallLadderConfig {
    /// From the first transmit that succeeded to the revocation. Not from the
    /// conflict: a client that was never asked is not revoked for being slow.
    pub revoke_deadline: u64,
    /// When a recall is sent again, counted from the first transmit.
    pub rungs: [u64; 2],
    /// How long a client that cannot be reached is given.
    pub path_down_window: u64,
    /// How long to wait between attempts while it cannot be reached.
    pub path_retry: u64,
    /// How long to wait before a client that denies holding the delegation is
    /// asked once more: the recall may have crossed the reply that grants it.
    pub disown_probe_delay: u64,
}

/// A setting of the environment in seconds; the default where it is absent, is no
/// number, or is 0. A deadline of 0 would make every recall a revocation.
pub open spec fn seconds(setting: Option<Seq<char>>, default: u64) -> u64 {
    match setting {
        Some(s) => match text::parsed_number(s, u64::MAX as nat) {
            Some(n) => if n > 0 {
                n as u64
            } else {
                default
            },
            None => default,
        },
        None => default,
    }
}

pub open spec fn setting_view(s: Option<&str>) -> Option<Seq<char>> {
    match s {
        Some(s) => Some(s@),
        None => None,
    }
}

pub fn env_secs(setting: Option<&str>, default: u64) -> (n: u64)
    ensures
        n == seconds(setting_view(setting), default),
{
    match setting {
        Some(s) => match parse_number(s) {
            Some(n) => if n > 0 {
                n
            } else {
                default
            },
            None => default,
        },
        None => default,
    }
}

impl RecallLadderConfig {
    pub open spec fn shipped(self) -> bool {
        &&& self.revoke_deadline == 90
        &&& self.rungs@ == seq![30u64, 60u64]
        &&& self.path_down_window == 30
        &&& self.path_retry == 5
        &&& self.disown_probe_delay == 2
    }

    /// The timings, with the deadline, the window and the retry spacing as the
    /// environment sets them. The rungs lie inside the deadline and are left
    /// alone.
    pub fn from_env(
        revoke_deadline: Option<&str>,
        path_down_window: Option<&str>,
        path_retry: Option<&str>,
    ) -> (c: RecallLadderConfig)
        ensures
            c.revoke_deadline == seconds(setting_view(revoke_deadline), 90),
            c.rungs@ == seq![30u64, 60u64],
            c.path_down_window == seconds(setting_view(path_down_window), 30),
            c.path_retry == seconds(setting_view(path_retry), 5),
            c.disown_probe_delay == 2,
    {
        let d = RecallLadderConfig::default();
        RecallLadderConfig {
            revoke_deadline: env_secs(revoke_deadline, d.revoke_deadline),
            rungs: d.rungs,
            path_down_window: env_secs(path_down_window, d.path_down_window),
            path_retry: env_secs(path_retry, d.path_retry),
            disown_probe_delay: d.disown_probe_delay,
        }
    }
}

impl Default for RecallLadderConfig {
    fn default() -> (c: RecallLadderConfig)
        ensures
            c.shipped(),
    {
        let rungs: [u64; 2] = [30, 60];
        assert(rungs@ =~= seq![30u64, 60u64]);
        RecallLadderConfig {
            revoke_deadline: 90,
            rungs,
            path_down_window: 30,
            path_retry: 5,
            disown_probe_delay: 2,
        }
    }
}

/// Law: the shipped timings. Both resends fall before the deadline, one after the
/// other, and a client that cannot be reached is tried more than once.
pub proof fn the_shipped_timings_fit_together(c: RecallLadderConfig)
    requires
        c.shipped(),
    ensures
        c.revoke_deadline == 90,
        c.rungs@[0] == 30,
        c.rungs@[1] == 60,
        c.rungs@[0] < c.rungs@[1] < c.revoke_deadline,
        c.path_down_window == 30,
        c.path_retry == 5,
        c.path_retry < c.path_down_window,
        c.disown_probe_delay == 2,
{
}

/// Law: a setting is taken as the number that it writes. One that is absent, that
/// is 0, that does not fit or that is no number leaves the default, so a default
/// above 0 never becomes 0.
pub proof fn a_setting_is_taken_as_written(n: nat, s: Seq<char>, default: u64)
    ensures
        0 < n <= u64::MAX ==> seconds(Some(text::decimal(n)), default) == n,
        n == 0 || n > u64::MAX ==> seconds(Some(text::decimal(n)), default) == default,
        seconds(None, default) == default,
        s.len() == 0 ==> seconds(Some(s), default) == default,
        s.len() > 0 && !('0' <= s[0] <= '9') && s[0] != '+' ==> seconds(Some(s), default)
            == default,
        default > 0 ==> seconds(Some(s), default) > 0,
{
    text::a_written_number_is_read_back(n, u64::MAX as nat);
    text::what_is_not_digits_is_no_number(s, u64::MAX as nat, 0);
}

} // verus!
