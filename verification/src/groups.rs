//! Groups: joining and leaving a group, the replies, and group profiles.

use crate::packets::{GroupProfileReplyGroupDataBlock, WrappedPacket};
use crate::text::{string_from_utf8_lossy, utf8_lossy};
use crate::uuid::UUID;
use crate::header::PacketFrequency;
use crate::messages::{message_header, spec_plain_header, AgentSessionBlock, JoinGroupRequestPacket, LeaveGroupRequestPacket};
use vstd::prelude::*;

verus! {

/// A group profile, from `GroupProfileReply`.
#[derive(Debug, Clone)]
pub struct GroupProfile {
    pub group_id: UUID,
    pub name: String,
    pub charter: String,
    pub show_in_list: bool,
    pub member_title: String,
    pub powers_mask: u64,
    pub insignia_id: UUID,
    pub founder_id: UUID,
    pub membership_fee: i32,
    pub open_enrollment: bool,
    pub money: i32,
    pub group_membership_count: i32,
    pub group_roles_count: i32,
    pub allow_publish: bool,
    pub mature_publish: bool,
    pub owner_role: UUID,
}

/// `p` is the profile carried by the block: texts decoded as lossy UTF-8,
/// every other field copied.
pub open spec fn spec_group_profile_of(b: GroupProfileReplyGroupDataBlock, p: GroupProfile) -> bool {
    &&& p.group_id == b.group_i_d
    &&& p.name@ == utf8_lossy(b.name@)
    &&& p.charter@ == utf8_lossy(b.charter@)
    &&& p.show_in_list == b.show_in_list
    &&& p.member_title@ == utf8_lossy(b.member_title@)
    &&& p.powers_mask == b.powers_mask
    &&& p.insignia_id == b.insignia_i_d
    &&& p.founder_id == b.founder_i_d
    &&& p.membership_fee == b.membership_fee
    &&& p.open_enrollment == b.open_enrollment
    &&& p.money == b.money
    &&& p.group_membership_count == b.group_membership_count
    &&& p.group_roles_count == b.group_roles_count
    &&& p.allow_publish == b.allow_publish
    &&& p.mature_publish == b.mature_publish
    &&& p.owner_role == b.owner_role
}

/// The agent and the outcome of a `JoinGroupReply`; `None` for any other
/// packet.
pub fn parse_join_group_reply(packet: &WrappedPacket) -> (r: Option<(UUID, bool)>)
    ensures
        match packet {
            WrappedPacket::JoinGroupReply(p) => r == Some((p.agent_data.agent_i_d, p.group_data.success)),
            _ => r is None,
        },
{
    match packet {
        WrappedPacket::JoinGroupReply(reply) => Some((reply.agent_data.agent_i_d, reply.group_data.success)),
        _ => None,
    }
}

/// The agent and the outcome of a `LeaveGroupReply`; `None` for any other
/// packet.
pub fn parse_leave_group_reply(packet: &WrappedPacket) -> (r: Option<(UUID, bool)>)
    ensures
        match packet {
            WrappedPacket::LeaveGroupReply(p) => r == Some((p.agent_data.agent_i_d, p.group_data.success)),
            _ => r is None,
        },
{
    match packet {
        WrappedPacket::LeaveGroupReply(reply) => Some((reply.agent_data.agent_i_d, reply.group_data.success)),
        _ => None,
    }
}

/// The profile of a `GroupProfileReply`; `None` for any other packet.
pub fn parse_group_profile_reply(packet: &WrappedPacket) -> (r: Option<GroupProfile>)
    ensures
        match packet {
            WrappedPacket::GroupProfileReply(p) => r is Some && spec_group_profile_of(p.group_data, r->0),
            _ => r is None,
        },
{
    match packet {
        WrappedPacket::GroupProfileReply(reply) => {
            let g = &reply.group_data;
            Some(GroupProfile {
                group_id: g.group_i_d,
                name: string_from_utf8_lossy(g.name.as_slice()),
                charter: string_from_utf8_lossy(g.charter.as_slice()),
                show_in_list: g.show_in_list,
                member_title: string_from_utf8_lossy(g.member_title.as_slice()),
                powers_mask: g.powers_mask,
                insignia_id: g.insignia_i_d,
                founder_id: g.founder_i_d,
                membership_fee: g.membership_fee,
                open_enrollment: g.open_enrollment,
                money: g.money,
                group_membership_count: g.group_membership_count,
                group_roles_count: g.group_roles_count,
                allow_publish: g.allow_publish,
                mature_publish: g.mature_publish,
                owner_role: g.owner_role,
            })
        },
        _ => None,
    }
}


/// The `JoinGroupRequest` (Low 343, reliable) asking to join `group_id`.
pub fn join_group_request(sequence: u32, agent_id: UUID, session_id: UUID, group_id: UUID) -> (p: JoinGroupRequestPacket)
    ensures
        spec_plain_header(p.header, PacketFrequency::Low, 343, true, sequence),
        p.agent_data == (AgentSessionBlock { agent_i_d: agent_id, session_i_d: session_id }),
        p.group_i_d == group_id,
{
    JoinGroupRequestPacket {
        header: message_header(PacketFrequency::Low, 343, true, sequence),
        agent_data: AgentSessionBlock { agent_i_d: agent_id, session_i_d: session_id },
        group_i_d: group_id,
    }
}

/// The `LeaveGroupRequest` (Low 347, reliable) leaving `group_id`.
pub fn leave_group_request(sequence: u32, agent_id: UUID, session_id: UUID, group_id: UUID) -> (p: LeaveGroupRequestPacket)
    ensures
        spec_plain_header(p.header, PacketFrequency::Low, 347, true, sequence),
        p.agent_data == (AgentSessionBlock { agent_i_d: agent_id, session_i_d: session_id }),
        p.group_i_d == group_id,
{
    LeaveGroupRequestPacket {
        header: message_header(PacketFrequency::Low, 347, true, sequence),
        agent_data: AgentSessionBlock { agent_i_d: agent_id, session_i_d: session_id },
        group_i_d: group_id,
    }
}

} // verus!
