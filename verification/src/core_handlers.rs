//! What the core handlers take from the packets they handle: the avatar's
//! position after entering a region, and the display names of agents.

use crate::packets::{UUIDNameReplyUUIDNameBlockBlock, Vector3Bits, WrappedPacket};
use crate::text::{string_from_utf8_lossy, utf8_lossy};
use crate::uuid::UUID;
use vstd::prelude::*;

verus! {

/// The avatar's position and look-at direction, from
/// `AgentMovementComplete`.
#[derive(Debug, Clone, Copy, PartialEq, Eq, Default)]
pub struct AvatarPosition {
    pub position: Vector3Bits,
    pub look_at: Vector3Bits,
    pub region_handle: u64,
    pub timestamp: u32,
}

/// The position an `AgentMovementComplete` packet reports; `None` for any
/// other packet.
pub fn avatar_position_of(packet: &WrappedPacket) -> (r: Option<AvatarPosition>)
    ensures
        match packet {
            WrappedPacket::AgentMovementComplete(p) => r == Some(AvatarPosition {
                position: p.data.position,
                look_at: p.data.look_at,
                region_handle: p.data.region_handle,
                timestamp: p.data.timestamp,
            }),
            _ => r is None,
        },
{
    match packet {
        WrappedPacket::AgentMovementComplete(m) => Some(AvatarPosition {
            position: m.data.position,
            look_at: m.data.look_at,
            region_handle: m.data.region_handle,
            timestamp: m.data.timestamp,
        }),
        _ => None,
    }
}

/// `n` is the (agent, first name, last name) entry of the block, names
/// decoded as lossy UTF-8.
pub open spec fn spec_name_entry_of(b: UUIDNameReplyUUIDNameBlockBlock, n: (UUID, String, String)) -> bool {
    &&& n.0 == b.i_d
    &&& n.1@ == utf8_lossy(b.first_name@)
    &&& n.2@ == utf8_lossy(b.last_name@)
}

/// The display names a `UUIDNameReply` carries, in packet order; empty for
/// any other packet.
pub fn names_of(packet: &WrappedPacket) -> (r: Vec<(UUID, String, String)>)
    ensures
        match packet {
            WrappedPacket::UUIDNameReply(p) => {
                &&& r@.len() == p.u_u_i_d_name_block@.len()
                &&& forall|i: int| 0 <= i < r@.len() ==> spec_name_entry_of(#[trigger] p.u_u_i_d_name_block@[i], r@[i])
            },
            _ => r@.len() == 0,
        },
{
    let mut out: Vec<(UUID, String, String)> = Vec::new();
    match packet {
        WrappedPacket::UUIDNameReply(reply) => {
            let blocks = &reply.u_u_i_d_name_block;
            let mut i: usize = 0;
            while i < blocks.len()
                invariant
                    i <= blocks@.len(),
                    out@.len() == i,
                    forall|j: int| 0 <= j < i ==> spec_name_entry_of(#[trigger] blocks@[j], out@[j]),
                decreases blocks@.len() - i,
            {
                let first = string_from_utf8_lossy(blocks[i].first_name.as_slice());
                let last = string_from_utf8_lossy(blocks[i].last_name.as_slice());
                out.push((blocks[i].i_d, first, last));
                i = i + 1;
            }
        },
        _ => {},
    }
    out
}

} // verus!
