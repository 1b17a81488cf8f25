//! The words of an ONC RPC header (RFC 5531 section 9) that a callback uses.
use vstd::prelude::*;

verus! {

pub const RPC_VERSION: u32 = 2;

/// `msg_type`.
#[derive(Debug, Clone, Copy, PartialEq, Eq, Structural)]
pub enum MessageType {
    Call,
    Reply,
}

impl MessageType {
    pub open spec fn spec_code(self) -> u32 {
        match self {
            MessageType::Call => 0,
            MessageType::Reply => 1,
        }
    }

    pub fn code(self) -> (c: u32)
        ensures
            c == self.spec_code(),
    {
        match self {
            MessageType::Call => 0,
            MessageType::Reply => 1,
        }
    }
}

/// `reply_stat`.
#[derive(Debug, Clone, Copy, PartialEq, Eq, Structural)]
pub enum ReplyStatus {
    Accepted,
    Denied,
}

impl ReplyStatus {
    pub open spec fn spec_code(self) -> u32 {
        match self {
            ReplyStatus::Accepted => 0,
            ReplyStatus::Denied => 1,
        }
    }

    pub fn code(self) -> (c: u32)
        ensures
            c == self.spec_code(),
    {
        match self {
            ReplyStatus::Accepted => 0,
            ReplyStatus::Denied => 1,
        }
    }
}

/// `accept_stat`.
#[derive(Debug, Clone, Copy, PartialEq, Eq, Structural)]
pub enum AcceptStatus {
    Success,
    ProgUnavail,
    ProgMismatch,
    ProcUnavail,
    GarbageArgs,
    SystemErr,
}

impl AcceptStatus {
    pub open spec fn spec_code(self) -> u32 {
        match self {
            AcceptStatus::Success => 0,
            AcceptStatus::ProgUnavail => 1,
            AcceptStatus::ProgMismatch => 2,
            AcceptStatus::ProcUnavail => 3,
            AcceptStatus::GarbageArgs => 4,
            AcceptStatus::SystemErr => 5,
        }
    }

    pub fn code(self) -> (c: u32)
        ensures
            c == self.spec_code(),
    {
        match self {
            AcceptStatus::Success => 0,
            AcceptStatus::ProgUnavail => 1,
            AcceptStatus::ProgMismatch => 2,
            AcceptStatus::ProcUnavail => 3,
            AcceptStatus::GarbageArgs => 4,
            AcceptStatus::SystemErr => 5,
        }
    }

    pub fn name(self) -> (s: &'static str)
        ensures
            s@ == accept_name(self),
    {
        match self {
            AcceptStatus::Success => "Success",
            AcceptStatus::ProgUnavail => "ProgUnavail",
            AcceptStatus::ProgMismatch => "ProgMismatch",
            AcceptStatus::ProcUnavail => "ProcUnavail",
            AcceptStatus::GarbageArgs => "GarbageArgs",
            AcceptStatus::SystemErr => "SystemErr",
        }
    }
}

pub open spec fn accept_name(a: AcceptStatus) -> Seq<char> {
    match a {
        AcceptStatus::Success => "Success"@,
        AcceptStatus::ProgUnavail => "ProgUnavail"@,
        AcceptStatus::ProgMismatch => "ProgMismatch"@,
        AcceptStatus::ProcUnavail => "ProcUnavail"@,
        AcceptStatus::GarbageArgs => "GarbageArgs"@,
        AcceptStatus::SystemErr => "SystemErr"@,
    }
}

/// The `accept_stat` that a word stands for.
pub open spec fn accept_named(code: u32) -> Option<AcceptStatus> {
    if code == 0 {
        Some(AcceptStatus::Success)
    } else if code == 1 {
        Some(AcceptStatus::ProgUnavail)
    } else if code == 2 {
        Some(AcceptStatus::ProgMismatch)
    } else if code == 3 {
        Some(AcceptStatus::ProcUnavail)
    } else if code == 4 {
        Some(AcceptStatus::GarbageArgs)
    } else if code == 5 {
        Some(AcceptStatus::SystemErr)
    } else {
        None
    }
}

pub fn accept_status(code: u32) -> (a: Option<AcceptStatus>)
    ensures
        a == accept_named(code),
{
    match code {
        0 => Some(AcceptStatus::Success),
        1 => Some(AcceptStatus::ProgUnavail),
        2 => Some(AcceptStatus::ProgMismatch),
        3 => Some(AcceptStatus::ProcUnavail),
        4 => Some(AcceptStatus::GarbageArgs),
        5 => Some(AcceptStatus::SystemErr),
        _ => None,
    }
}

/// `auth_flavor`: the one that callbacks go out under.
#[derive(Debug, Clone, Copy, PartialEq, Eq, Structural)]
pub enum AuthFlavor {
    Null,
}

impl AuthFlavor {
    pub open spec fn spec_code(self) -> u32 {
        0
    }

    pub fn code(self) -> (c: u32)
        ensures
            c == self.spec_code(),
    {
        0
    }
}

/// Law: the words of an RPC header have these numbers (RFC 5531 section 9), and a word
/// stands for the outcome that has it.
pub proof fn rpc_words_have_their_numbers(a: AcceptStatus)
    ensures
        RPC_VERSION == 2,
        MessageType::Call.spec_code() == 0,
        MessageType::Reply.spec_code() == 1,
        ReplyStatus::Accepted.spec_code() == 0,
        ReplyStatus::Denied.spec_code() == 1,
        AuthFlavor::Null.spec_code() == 0,
        a is Success <==> a.spec_code() == 0,
        a is ProgUnavail <==> a.spec_code() == 1,
        a is ProgMismatch <==> a.spec_code() == 2,
        a is ProcUnavail <==> a.spec_code() == 3,
        a is GarbageArgs <==> a.spec_code() == 4,
        a is SystemErr <==> a.spec_code() == 5,
        accept_named(a.spec_code()) == Some(a),
{
}

/// Law: a word that is no outcome stands for none.
pub proof fn an_unknown_outcome_has_no_name(code: u32)
    ensures
        accept_named(code) is None <==> code > 5,
{
}

/// Law: no two outcomes have one name, and a name is spelled as the outcome is.
pub proof fn outcomes_have_names_of_their_own(a: AcceptStatus, b: AcceptStatus)
    ensures
        accept_name(a) == accept_name(b) ==> a == b,
        accept_name(AcceptStatus::Success)[0] == 'S',
        accept_name(AcceptStatus::ProgUnavail)[4] == 'U',
        accept_name(AcceptStatus::ProgMismatch)[4] == 'M',
        accept_name(AcceptStatus::ProcUnavail)[3] == 'c',
        accept_name(AcceptStatus::GarbageArgs)[0] == 'G',
        accept_name(AcceptStatus::SystemErr)[1] == 'y',
{
    reveal_strlit("Success");
    reveal_strlit("ProgUnavail");
    reveal_strlit("ProgMismatch");
    reveal_strlit("ProcUnavail");
    reveal_strlit("GarbageArgs");
    reveal_strlit("SystemErr");
    assert(accept_name(a).len() == accept_name(b).len() && accept_name(a)[3] == accept_name(b)[3]
        && accept_name(a)[4] == accept_name(b)[4] ==> a == b);
}

} // verus!
