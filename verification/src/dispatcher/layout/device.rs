//! GETDEVICEINFO.
use crate::compound::results::OperationResult;
use crate::dispatcher::layout::codec;
use crate::dispatcher::layout::codec::{
    encode_device_addr, frame_getdeviceinfo_reply, layout_type_served, DeviceAddr4, LayoutType,
};
use crate::dispatcher::layout::scsi;
use crate::dispatcher::layout::scsi::encode_scsi_device_addr;
use crate::octets;
use crate::octets::bytes_as_slice;
use crate::protocol::Nfs4Status;
use vstd::prelude::*;

verus! {

/// What to do about a GETDEVICEINFO.
#[derive(Debug)]
pub enum DeviceStep {
    Refuse(Nfs4Status),
    /// The device is a block volume: answer with [`scsi_device_reply`].
    Scsi { device_id: [u8; 16], pr_key: u64 },
    /// Ask the metadata server for the addresses of this device.
    Files { device_id: [u8; 16], layout_type: LayoutType },
}

/// What stands against a GETDEVICEINFO, in the order in which it is looked for.
/// A block volume is known by its identifier alone, and the reservation key that
/// goes out with it is the number of the client.
pub open spec fn device_refusal(
    pnfs: bool,
    id_len: nat,
    layout_type: u32,
    volume_known: bool,
    client_id: u64,
) -> Option<Nfs4Status> {
    if !pnfs {
        Some(Nfs4Status::NotSupp)
    } else if id_len < 16 {
        Some(Nfs4Status::NoEnt)
    } else if layout_type == 5 {
        if !volume_known {
            Some(Nfs4Status::NoEnt)
        } else if client_id == 0 {
            Some(Nfs4Status::OpNotInSession)
        } else {
            None
        }
    } else if layout_type != 1 {
        Some(Nfs4Status::UnknownLayoutType)
    } else {
        None
    }
}

/// The first sixteen octets, which name a device.
pub fn device_id_of(octets: &[u8]) -> (r: Option<[u8; 16]>)
    ensures
        match r {
            Some(id) => octets@.len() >= 16 && id@ == octets@.take(16),
            None => octets@.len() < 16,
        },
{
    if octets.len() < 16 {
        return None;
    }
    let mut id: [u8; 16] = [0u8; 16];
    let mut i: usize = 0;
    while i < 16
        invariant
            i <= 16 <= octets@.len(),
            forall|k: int| 0 <= k < i ==> #[trigger] id@[k] == octets@[k],
        decreases 16 - i,
    {
        id[i] = octets[i];
        i = i + 1;
    }
    assert(id@ =~= octets@.take(16));
    Some(id)
}

/// Decide a GETDEVICEINFO. `volume_known` says whether a block volume has this
/// identifier, `client_id` is the client of the session, or 0.
pub fn begin_getdeviceinfo(
    device_id: &[u8],
    layout_type: u32,
    pnfs: bool,
    volume_known: bool,
    client_id: u64,
) -> (step: DeviceStep)
    ensures
        ({
            let refusal = device_refusal(
                pnfs,
                device_id@.len(),
                layout_type,
                volume_known,
                client_id,
            );
            match step {
                DeviceStep::Refuse(status) => refusal == Some(status),
                DeviceStep::Scsi { device_id: id, pr_key } => refusal is None && layout_type == 5
                    && id@ == device_id@.take(16) && pr_key == client_id,
                DeviceStep::Files { device_id: id, layout_type: t } => refusal is None
                    && layout_type == 1 && id@ == device_id@.take(16) && t is NfsV4_1Files,
            }
        }),
{
    if !pnfs {
        return DeviceStep::Refuse(Nfs4Status::NotSupp);
    }
    let id = match device_id_of(device_id) {
        Some(id) => id,
        None => {
            return DeviceStep::Refuse(Nfs4Status::NoEnt);
        },
    };
    if layout_type == 5 {
        if !volume_known {
            return DeviceStep::Refuse(Nfs4Status::NoEnt);
        }
        if client_id == 0 {
            return DeviceStep::Refuse(Nfs4Status::OpNotInSession);
        }
        return DeviceStep::Scsi { device_id: id, pr_key: client_id };
    }
    match layout_type_served(layout_type) {
        Ok(t) => DeviceStep::Files { device_id: id, layout_type: t },
        Err(status) => DeviceStep::Refuse(status),
    }
}

/// A reply that carries these octets, or says how much room they take.
pub open spec fn device_answer(
    layout_type: u32,
    addr: Seq<u8>,
    maxcount: u32,
    r: OperationResult,
) -> bool {
    if maxcount > 0 && codec::device_reply_len(addr.len()) > maxcount {
        r matches OperationResult::GetDeviceInfo(Nfs4Status::TooSmall, Some(b)) && octets::bytes_of(
            b,
        ) == octets::be32(codec::device_reply_len(addr.len()) as u32)
    } else {
        r matches OperationResult::GetDeviceInfo(Nfs4Status::NfsOk, Some(b)) && octets::bytes_of(b)
            == codec::wire_device_reply(layout_type, addr)
    }
}

/// The reply for a block volume.
pub fn scsi_device_reply(device_id: &[u8; 16], pr_key: u64, maxcount: u32) -> (r: OperationResult)
    ensures
        device_answer(5, scsi::wire_scsi_device(device_id@, pr_key), maxcount, r),
{
    let body = encode_scsi_device_addr(device_id, pr_key);
    frame_getdeviceinfo_reply(5, bytes_as_slice(&body), maxcount)
}

/// The reply for the data servers of a stripe group, as far as the metadata
/// server knows the device.
pub fn complete_getdeviceinfo(addr: Option<DeviceAddr4>, maxcount: u32) -> (r: OperationResult)
    ensures
        match addr {
            Some(a) => device_answer(
                1,
                codec::wire_device_addr(a.netid@, codec::list_views(a.ds_list@)),
                maxcount,
                r,
            ),
            None => r == OperationResult::GetDeviceInfo(Nfs4Status::NoEnt, None),
        },
{
    match addr {
        Some(a) => {
            let body = encode_device_addr(&a);
            frame_getdeviceinfo_reply(1, bytes_as_slice(&body), maxcount)
        },
        None => OperationResult::GetDeviceInfo(Nfs4Status::NoEnt, None),
    }
}

/// Law: a client that is told the room is too small and asks again with the room
/// it was told gets the address.
pub proof fn the_room_asked_for_is_granted(
    layout_type: u32,
    addr: Seq<u8>,
    room: u32,
    r: OperationResult,
)
    requires
        room == codec::device_reply_len(addr.len()),
        device_answer(layout_type, addr, room, r),
    ensures
        r matches OperationResult::GetDeviceInfo(Nfs4Status::NfsOk, Some(b)) && octets::bytes_of(b)
            == codec::wire_device_reply(layout_type, addr),
{
}

} // verus!
