//! Instant messages: the dialog codes of `ImprovedInstantMessage`, sending
//! one, and the messages it delivers.

use crate::packets::{ImprovedInstantMessagePacket, WrappedPacket};
use crate::text::{string_from_utf8_lossy, utf8_lossy};
use crate::uuid::UUID;
use crate::header::PacketFrequency;
use crate::messages::{bytes_to_vec, message_header, spec_plain_header};
use crate::packets::{
    ImprovedInstantMessageAgentDataBlock, ImprovedInstantMessageEstateBlockBlock, ImprovedInstantMessageMessageBlockBlock,
    Vector3Bits,
};
use vstd::prelude::*;
use vstd::string::StringSliceAdditionalSpecFns;

verus! {

pub const IM_DIALOG_MESSAGE_FROM_AGENT: u8 = 0;
pub const IM_DIALOG_MESSAGE_FROM_OBJECT: u8 = 1;
pub const IM_DIALOG_GROUP_INVITATION: u8 = 15;
pub const IM_DIALOG_REQUEST_TELEPORT: u8 = 19;
pub const IM_DIALOG_GOTO_IM: u8 = 20;
pub const IM_DIALOG_SESSION_SEND: u8 = 21;
pub const IM_DIALOG_TYPING_START: u8 = 41;
pub const IM_DIALOG_TYPING_STOP: u8 = 42;
pub const IM_DIALOG_FRIENDSHIP_OFFERED: u8 = 38;
pub const IM_DIALOG_FRIENDSHIP_ACCEPTED: u8 = 39;
pub const IM_DIALOG_FRIENDSHIP_DECLINED: u8 = 40;

/// An instant message delivered to the agent.
#[derive(Debug, Clone)]
pub struct IncomingIM {
    pub from_agent_id: UUID,
    pub from_agent_name: String,
    pub to_agent_id: UUID,
    pub dialog: u8,
    pub im_id: UUID,
    pub timestamp: u32,
    pub message: String,
    pub binary_bucket: Vec<u8>,
}

/// `m` is the message the packet carries: name and text decoded as lossy
/// UTF-8, the sender from the agent block, the rest from the message block.
pub open spec fn spec_incoming_im_of(p: ImprovedInstantMessagePacket, m: IncomingIM) -> bool {
    &&& m.from_agent_id == p.agent_data.agent_i_d
    &&& m.from_agent_name@ == utf8_lossy(p.message_block.from_agent_name@)
    &&& m.to_agent_id == p.message_block.to_agent_i_d
    &&& m.dialog == p.message_block.dialog
    &&& m.im_id == p.message_block.i_d
    &&& m.timestamp == p.message_block.timestamp
    &&& m.message@ == utf8_lossy(p.message_block.message@)
    &&& m.binary_bucket@ == p.message_block.binary_bucket@
}

/// The message of an `ImprovedInstantMessage` packet; `None` for any other
/// packet.
pub fn parse_im(packet: &WrappedPacket) -> (r: Option<IncomingIM>)
    ensures
        match packet {
            WrappedPacket::ImprovedInstantMessage(p) => r is Some && spec_incoming_im_of(*p, r->0),
            _ => r is None,
        },
{
    match packet {
        WrappedPacket::ImprovedInstantMessage(im) => {
            let mb = &im.message_block;
            Some(IncomingIM {
                from_agent_id: im.agent_data.agent_i_d,
                from_agent_name: string_from_utf8_lossy(mb.from_agent_name.as_slice()),
                to_agent_id: mb.to_agent_i_d,
                dialog: mb.dialog,
                im_id: mb.i_d,
                timestamp: mb.timestamp,
                message: string_from_utf8_lossy(mb.message.as_slice()),
                binary_bucket: mb.binary_bucket.clone(),
            })
        },
        _ => None,
    }
}


/// The `ImprovedInstantMessage` (Low 254, reliable) sending `message` to
/// `target_id` with dialog `dialog`, as message `im_id` at `now_secs`
/// (Unix seconds, truncated to 32 bits): not from a group, parent estate
/// and estate 1, online, at the origin, with an empty name (the simulator
/// fills it in), bucket and metadata.
pub fn improved_instant_message(
    sequence: u32,
    agent_id: UUID,
    session_id: UUID,
    region_id: UUID,
    target_id: UUID,
    message: &str,
    dialog: u8,
    im_id: UUID,
    now_secs: i64,
) -> (p: ImprovedInstantMessagePacket)
    ensures
        spec_plain_header(p.header, PacketFrequency::Low, 254, true, sequence),
        p.agent_data == (ImprovedInstantMessageAgentDataBlock { agent_i_d: agent_id, session_i_d: session_id }),
        !p.message_block.from_group,
        p.message_block.to_agent_i_d == target_id,
        p.message_block.parent_estate_i_d == 1,
        p.message_block.region_i_d == region_id,
        p.message_block.position == (Vector3Bits { x: 0, y: 0, z: 0 }),
        p.message_block.offline == 0,
        p.message_block.dialog == dialog,
        p.message_block.i_d == im_id,
        p.message_block.timestamp == now_secs as u32,
        p.message_block.from_agent_name@ == Seq::<u8>::empty(),
        p.message_block.message@ == message.spec_bytes(),
        p.message_block.binary_bucket@ == Seq::<u8>::empty(),
        p.estate_block.estate_i_d == 1,
        p.meta_data@ == Seq::<Vec<u8>>::empty(),
{
    ImprovedInstantMessagePacket {
        header: message_header(PacketFrequency::Low, 254, true, sequence),
        agent_data: ImprovedInstantMessageAgentDataBlock { agent_i_d: agent_id, session_i_d: session_id },
        message_block: ImprovedInstantMessageMessageBlockBlock {
            from_group: false,
            to_agent_i_d: target_id,
            parent_estate_i_d: 1,
            region_i_d: region_id,
            position: Vector3Bits { x: 0, y: 0, z: 0 },
            offline: 0,
            dialog,
            i_d: im_id,
            timestamp: now_secs as u32,
            from_agent_name: Vec::new(),
            message: bytes_to_vec(message.as_bytes()),
            binary_bucket: Vec::new(),
        },
        estate_block: ImprovedInstantMessageEstateBlockBlock { estate_i_d: 1 },
        meta_data: Vec::new(),
    }
}

} // verus!
