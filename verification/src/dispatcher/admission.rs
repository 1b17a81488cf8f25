//! What is refused before a COMPOUND runs.
use crate::compound::ops::Operation;
use crate::compound::request::CompoundRequest;
use crate::protocol::{Nfs4Status, NFS_V4_MINOR_VERSION_1, NFS_V4_MINOR_VERSION_2};
use vstd::prelude::*;

verus! {

/// The verdict on a request.
#[derive(Debug, Clone, Copy, PartialEq, Eq, Structural)]
pub enum Admission {
    /// Refused as a whole, without any result.
    Refuse(Nfs4Status),
    /// Runs. A SEQUENCE that stands where none may is named by its place: the
    /// operations ahead of it run, and it is answered with an error.
    Run(Option<usize>),
}

/// An operation that sets up or tears down a session, a client or a connection.
pub open spec fn is_sole(op: Operation) -> bool {
    op is ExchangeId || op is CreateSession || op is DestroySession || op is DestroyClientId
        || op is BindConnToSession
}

pub open spec fn is_sequence(op: Operation) -> bool {
    op is Sequence
}

/// An operation that could not be decoded.
pub open spec fn is_undecoded(op: Operation) -> bool {
    op is BadXdr || op is Unsupported
}

pub open spec fn has_sole(ops: Seq<Operation>) -> bool {
    exists|i: int| 0 <= i < ops.len() && is_sole(#[trigger] ops[i])
}

pub open spec fn has_companion(ops: Seq<Operation>) -> bool {
    exists|i: int|
        0 <= i < ops.len() && !is_sequence(#[trigger] ops[i]) && !is_sole(ops[i])
}

pub open spec fn has_undecoded(ops: Seq<Operation>) -> bool {
    exists|i: int| 0 <= i < ops.len() && is_undecoded(#[trigger] ops[i])
}

/// The first SEQUENCE at place `from` or behind it.
pub open spec fn sequence_from(ops: Seq<Operation>, from: int) -> Option<usize>
    decreases ops.len() - from,
{
    if from < 0 || from >= ops.len() {
        None
    } else if is_sequence(ops[from]) {
        Some(from as usize)
    } else {
        sequence_from(ops, from + 1)
    }
}

/// Where SEQUENCE may stand: first, and nowhere else. A COMPOUND that does not
/// start with it runs outside any session, and is refused as a whole.
pub open spec fn session_rule(ops: Seq<Operation>) -> Admission {
    if ops.len() == 0 {
        Admission::Run(None)
    } else if is_sequence(ops[0]) {
        Admission::Run(sequence_from(ops, 1))
    } else if sequence_from(ops, 1) is Some {
        Admission::Refuse(Nfs4Status::SequencePos)
    } else {
        Admission::Refuse(Nfs4Status::OpNotInSession)
    }
}

/// The verdict on a request, by the first rule that applies: the minor version,
/// the tag, the company of an operation that stands alone or behind SEQUENCE,
/// and, from minor version 1 on, the place of SEQUENCE. The last rule is not
/// applied where an operation stands alone, nor where one could not be decoded:
/// that one has its own error to report.
pub open spec fn admission(ops: Seq<Operation>, minor_version: u32, tag_valid: bool) -> Admission {
    if minor_version > NFS_V4_MINOR_VERSION_2 {
        Admission::Refuse(Nfs4Status::MinorVersMismatch)
    } else if !tag_valid {
        Admission::Refuse(Nfs4Status::Inval)
    } else if has_sole(ops) && (has_companion(ops) || ops.len() > 2) {
        Admission::Refuse(Nfs4Status::NotOnlyOp)
    } else if minor_version >= NFS_V4_MINOR_VERSION_1 && !has_sole(ops) && !has_undecoded(ops) {
        session_rule(ops)
    } else {
        Admission::Run(None)
    }
}

fn requires_sole_op(op: &Operation) -> (b: bool)
    ensures
        b == is_sole(*op),
{
    match op {
        Operation::ExchangeId { .. } => true,
        Operation::CreateSession { .. } => true,
        Operation::DestroySession(_) => true,
        Operation::DestroyClientId(_) => true,
        Operation::BindConnToSession { .. } => true,
        _ => false,
    }
}

fn sequence_op(op: &Operation) -> (b: bool)
    ensures
        b == is_sequence(*op),
{
    match op {
        Operation::Sequence { .. } => true,
        _ => false,
    }
}

fn undecoded_op(op: &Operation) -> (b: bool)
    ensures
        b == is_undecoded(*op),
{
    match op {
        Operation::BadXdr(_) => true,
        Operation::Unsupported(_) => true,
        _ => false,
    }
}

fn next_sequence(ops: &Vec<Operation>, from: usize) -> (r: Option<usize>)
    ensures
        r == sequence_from(ops@, from as int),
{
    let mut i: usize = from;
    while i < ops.len()
        invariant
            from <= i,
            sequence_from(ops@, from as int) == sequence_from(ops@, i as int),
        decreases ops@.len() - i,
    {
        if sequence_op(&ops[i]) {
            return Some(i);
        }
        i = i + 1;
    }
    None
}

/// Decide whether a request runs.
pub fn screen(request: &CompoundRequest) -> (a: Admission)
    ensures
        a == admission(request.operations@, request.minor_version, request.tag_valid),
{
    if request.minor_version > NFS_V4_MINOR_VERSION_2 {
        return Admission::Refuse(Nfs4Status::MinorVersMismatch);
    }
    if !request.tag_valid {
        return Admission::Refuse(Nfs4Status::Inval);
    }
    let ops = &request.operations;
    let mut sole = false;
    let mut companion = false;
    let mut undecoded = false;
    let mut i: usize = 0;
    while i < ops.len()
        invariant
            i <= ops@.len(),
            ops@ == request.operations@,
            sole <==> exists|k: int| 0 <= k < i && is_sole(#[trigger] ops@[k]),
            companion <==> exists|k: int|
                0 <= k < i && !is_sequence(#[trigger] ops@[k]) && !is_sole(ops@[k]),
            undecoded <==> exists|k: int| 0 <= k < i && is_undecoded(#[trigger] ops@[k]),
        decreases ops@.len() - i,
    {
        let op = &ops[i];
        if requires_sole_op(op) {
            sole = true;
        } else if !sequence_op(op) {
            companion = true;
        }
        if undecoded_op(op) {
            undecoded = true;
        }
        i = i + 1;
    }
    if sole && (companion || ops.len() > 2) {
        return Admission::Refuse(Nfs4Status::NotOnlyOp);
    }
    if request.minor_version >= NFS_V4_MINOR_VERSION_1 && !sole && !undecoded {
        if ops.len() == 0 {
            return Admission::Run(None);
        }
        let misplaced = next_sequence(ops, 1);
        if sequence_op(&ops[0]) {
            return Admission::Run(misplaced);
        }
        if misplaced.is_some() {
            return Admission::Refuse(Nfs4Status::SequencePos);
        }
        return Admission::Refuse(Nfs4Status::OpNotInSession);
    }
    Admission::Run(None)
}

/// Law: from minor version 1 on, a COMPOUND that runs either starts with
/// SEQUENCE, or is empty, or holds an operation that stands alone or could not
/// be decoded.
pub proof fn what_runs_has_a_session(ops: Seq<Operation>, minor_version: u32)
    requires
        minor_version >= NFS_V4_MINOR_VERSION_1,
        admission(ops, minor_version, true) is Run,
    ensures
        ops.len() == 0 || is_sequence(ops[0]) || has_sole(ops) || has_undecoded(ops),
{
}

/// Law: a SEQUENCE that is named as misplaced is one, stands behind the first,
/// and is the first such.
pub proof fn the_misplaced_sequence_is_the_second(ops: Seq<Operation>, from: int)
    requires
        0 <= from,
        ops.len() <= usize::MAX,
    ensures
        sequence_from(ops, from) matches Some(at) ==> from <= at < ops.len() && is_sequence(
            ops[at as int],
        ) && forall|k: int| from <= k < at ==> !is_sequence(#[trigger] ops[k]),
        sequence_from(ops, from) is None ==> forall|k: int|
            from <= k < ops.len() ==> !is_sequence(#[trigger] ops[k]),
    decreases ops.len() - from,
{
    if from < ops.len() && !is_sequence(ops[from]) {
        the_misplaced_sequence_is_the_second(ops, from + 1);
    }
}

/// Law: an operation that stands alone never runs next to anything but SEQUENCE.
pub proof fn a_sole_operation_has_no_company(
    ops: Seq<Operation>,
    minor_version: u32,
    tag_valid: bool,
    i: int,
)
    requires
        admission(ops, minor_version, tag_valid) is Run,
        has_sole(ops),
        0 <= i < ops.len(),
    ensures
        is_sequence(ops[i]) || is_sole(ops[i]),
        ops.len() <= 2,
{
}

/// Law: the operations that stand alone are those on clients, sessions and connections.
pub proof fn these_operations_stand_alone(op: Operation)
    ensures
        op is ExchangeId || op is CreateSession || op is DestroySession || op is DestroyClientId
            || op is BindConnToSession <==> is_sole(op),
        op is Sequence <==> is_sequence(op),
        op is BadXdr || op is Unsupported <==> is_undecoded(op),
{
}

/// Law: a request is refused for a minor version above 2, then for its tag, and then for
/// the company of an operation that stands alone; an earlier reason hides a later one.
pub proof fn a_request_is_refused_for_the_first_reason(
    ops: Seq<Operation>,
    minor_version: u32,
    tag_valid: bool,
)
    ensures
        minor_version > 2 ==> admission(ops, minor_version, tag_valid) == Admission::Refuse(
            Nfs4Status::MinorVersMismatch,
        ),
        minor_version <= 2 && !tag_valid ==> admission(ops, minor_version, tag_valid)
            == Admission::Refuse(Nfs4Status::Inval),
        minor_version <= 2 && tag_valid && has_sole(ops) ==> (admission(
            ops,
            minor_version,
            tag_valid,
        ) == Admission::Refuse(Nfs4Status::NotOnlyOp) || admission(ops, minor_version, tag_valid)
            == Admission::Run(None)),
        minor_version == 0 && tag_valid && !has_sole(ops) ==> admission(
            ops,
            minor_version,
            tag_valid,
        ) == Admission::Run(None),
{
}

/// Law: an operation that stands alone runs alone and next to a SEQUENCE, and is refused
/// next to anything else.
pub proof fn an_operation_that_stands_alone_runs_alone(
    op: Operation,
    other: Operation,
    minor_version: u32,
)
    requires
        is_sole(op),
        minor_version <= 2,
    ensures
        admission(seq![op], minor_version, true) == Admission::Run(None),
        is_sequence(other) ==> admission(seq![other, op], minor_version, true) == Admission::Run(
            None,
        ),
        !is_sequence(other) && !is_sole(other) ==> admission(seq![op, other], minor_version, true)
            == Admission::Refuse(Nfs4Status::NotOnlyOp) && admission(
            seq![other, op],
            minor_version,
            true,
        ) == Admission::Refuse(Nfs4Status::NotOnlyOp),
{
    assert(is_sole(seq![op][0]));
    assert(is_sole(seq![other, op][1]));
    assert(is_sole(seq![op, other][0]));
    if !is_sequence(other) && !is_sole(other) {
        assert(!is_sole(seq![op, other][1]) && !is_sequence(seq![op, other][1]));
        assert(!is_sole(seq![other, op][0]) && !is_sequence(seq![other, op][0]));
    }
}

/// Law: from minor version 1 on, a COMPOUND of operations that need a session runs if it
/// starts with SEQUENCE. Without any SEQUENCE it is outside of a session; with one that
/// does not come first, SEQUENCE is out of place. A second SEQUENCE is out of place too,
/// and what comes before it runs.
pub proof fn sequence_comes_first(ops: Seq<Operation>, minor_version: u32)
    requires
        1 <= minor_version <= 2,
        0 < ops.len() <= usize::MAX,
        !has_sole(ops),
        !has_undecoded(ops),
    ensures
        is_sequence(ops[0]) && (forall|i: int| 0 < i < ops.len() ==> !is_sequence(#[trigger] ops[i]))
            ==> admission(ops, minor_version, true) == Admission::Run(None),
        is_sequence(ops[0]) && (exists|i: int| 0 < i < ops.len() && is_sequence(#[trigger] ops[i]))
            ==> (admission(ops, minor_version, true) matches Admission::Run(Some(at)) && 0 < at
            < ops.len() && is_sequence(ops[at as int])),
        (forall|i: int| 0 <= i < ops.len() ==> !is_sequence(#[trigger] ops[i])) ==> admission(
            ops,
            minor_version,
            true,
        ) == Admission::Refuse(Nfs4Status::OpNotInSession),
        !is_sequence(ops[0]) && (exists|i: int| 0 < i < ops.len() && is_sequence(#[trigger] ops[i]))
            ==> admission(ops, minor_version, true) == Admission::Refuse(Nfs4Status::SequencePos),
{
    the_misplaced_sequence_is_the_second(ops, 1);
}

} // verus!
