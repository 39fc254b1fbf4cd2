//! The LLUDP messages the client reads: each message is a header and a set
//! of blocks, and a received packet is one of the known messages.
//!
//! Single-precision vectors are carried as the bit patterns of their three
//! `f32` components.

use crate::header::Header;
use crate::messages::PacketAckPacket;
use crate::uuid::UUID;
use vstd::prelude::*;

verus! {

/// A vector of three `f32`, each held as its IEEE-754 bit pattern.
#[derive(Debug, Clone, Copy, PartialEq, Eq, Default)]
pub struct Vector3Bits {
    pub x: u32,
    pub y: u32,
    pub z: u32,
}

/// A rotation of four `f32`, each held as its IEEE-754 bit pattern.
#[derive(Debug, Clone, Copy, PartialEq, Eq, Default)]
pub struct QuaternionBits {
    pub x: u32,
    pub y: u32,
    pub z: u32,
    pub w: u32,
}

/// `ChatFromSimulator.ChatData`.
#[derive(Debug, Clone, PartialEq)]
pub struct ChatFromSimulatorChatDataBlock {
    pub from_name: Vec<u8>,
    pub source_i_d: UUID,
    pub owner_i_d: UUID,
    pub source_type: u8,
    pub chat_type: u8,
    pub audible: u8,
    pub position: Vector3Bits,
    pub message: Vec<u8>,
}

/// `ChatFromSimulator`: local chat heard by the agent.
#[derive(Debug, Clone, PartialEq)]
pub struct ChatFromSimulatorPacket {
    pub header: Header,
    pub chat_data: ChatFromSimulatorChatDataBlock,
}

/// `JoinGroupReply.AgentData` and `LeaveGroupReply.AgentData`.
#[derive(Debug, Clone, Copy, PartialEq, Eq)]
pub struct GroupReplyAgentDataBlock {
    pub agent_i_d: UUID,
}

/// `JoinGroupReply.GroupData` and `LeaveGroupReply.GroupData`.
#[derive(Debug, Clone, Copy, PartialEq, Eq)]
pub struct GroupReplyGroupDataBlock {
    pub group_i_d: UUID,
    pub success: bool,
}

/// `JoinGroupReply`.
#[derive(Debug, Clone, PartialEq)]
pub struct JoinGroupReplyPacket {
    pub header: Header,
    pub agent_data: GroupReplyAgentDataBlock,
    pub group_data: GroupReplyGroupDataBlock,
}

/// `LeaveGroupReply`.
#[derive(Debug, Clone, PartialEq)]
pub struct LeaveGroupReplyPacket {
    pub header: Header,
    pub agent_data: GroupReplyAgentDataBlock,
    pub group_data: GroupReplyGroupDataBlock,
}

/// `GroupProfileReply.GroupData`.
#[derive(Debug, Clone, PartialEq)]
pub struct GroupProfileReplyGroupDataBlock {
    pub group_i_d: UUID,
    pub name: Vec<u8>,
    pub charter: Vec<u8>,
    pub show_in_list: bool,
    pub member_title: Vec<u8>,
    pub powers_mask: u64,
    pub insignia_i_d: UUID,
    pub founder_i_d: UUID,
    pub membership_fee: i32,
    pub open_enrollment: bool,
    pub money: i32,
    pub group_membership_count: i32,
    pub group_roles_count: i32,
    pub allow_publish: bool,
    pub mature_publish: bool,
    pub owner_role: UUID,
}

/// `GroupProfileReply`.
#[derive(Debug, Clone, PartialEq)]
pub struct GroupProfileReplyPacket {
    pub header: Header,
    pub agent_data: GroupReplyAgentDataBlock,
    pub group_data: GroupProfileReplyGroupDataBlock,
}

/// `InventoryDescendents.AgentData`.
#[derive(Debug, Clone, Copy, PartialEq, Eq)]
pub struct InventoryDescendentsAgentDataBlock {
    pub agent_i_d: UUID,
    pub folder_i_d: UUID,
    pub owner_i_d: UUID,
    pub version: i32,
    pub descendents: i32,
}

/// `InventoryDescendents.FolderData`.
#[derive(Debug, Clone, PartialEq)]
pub struct InventoryDescendentsFolderDataBlock {
    pub folder_i_d: UUID,
    pub parent_i_d: UUID,
    pub folder_type: i8,
    pub name: Vec<u8>,
}

/// `InventoryDescendents.ItemData`.
#[derive(Debug, Clone, PartialEq)]
pub struct InventoryDescendentsItemDataBlock {
    pub item_i_d: UUID,
    pub folder_i_d: UUID,
    pub creator_i_d: UUID,
    pub owner_i_d: UUID,
    pub group_i_d: UUID,
    pub base_mask: u32,
    pub owner_mask: u32,
    pub group_mask: u32,
    pub everyone_mask: u32,
    pub next_owner_mask: u32,
    pub group_owned: bool,
    pub asset_i_d: UUID,
    pub asset_type: i8,
    pub inv_type: i8,
    pub flags: u32,
    pub sale_type: u8,
    pub sale_price: i32,
    pub name: Vec<u8>,
    pub description: Vec<u8>,
    pub creation_date: i32,
    pub c_r_c: u32,
}

/// `InventoryDescendents`: the contents of one folder.
#[derive(Debug, Clone, PartialEq)]
pub struct InventoryDescendentsPacket {
    pub header: Header,
    pub agent_data: InventoryDescendentsAgentDataBlock,
    pub folder_data: Vec<InventoryDescendentsFolderDataBlock>,
    pub item_data: Vec<InventoryDescendentsItemDataBlock>,
}

/// `ImprovedInstantMessage.AgentData`.
#[derive(Debug, Clone, Copy, PartialEq, Eq)]
pub struct ImprovedInstantMessageAgentDataBlock {
    pub agent_i_d: UUID,
    pub session_i_d: UUID,
}

/// `ImprovedInstantMessage.MessageBlock`.
#[derive(Debug, Clone, PartialEq)]
pub struct ImprovedInstantMessageMessageBlockBlock {
    pub from_group: bool,
    pub to_agent_i_d: UUID,
    pub parent_estate_i_d: u32,
    pub region_i_d: UUID,
    pub position: Vector3Bits,
    pub offline: u8,
    pub dialog: u8,
    pub i_d: UUID,
    pub timestamp: u32,
    pub from_agent_name: Vec<u8>,
    pub message: Vec<u8>,
    pub binary_bucket: Vec<u8>,
}

/// `ImprovedInstantMessage.EstateBlock`.
#[derive(Debug, Clone, Copy, PartialEq, Eq)]
pub struct ImprovedInstantMessageEstateBlockBlock {
    pub estate_i_d: u32,
}

/// `ImprovedInstantMessage`: every kind of instant message.
#[derive(Debug, Clone, PartialEq)]
pub struct ImprovedInstantMessagePacket {
    pub header: Header,
    pub agent_data: ImprovedInstantMessageAgentDataBlock,
    pub message_block: ImprovedInstantMessageMessageBlockBlock,
    pub estate_block: ImprovedInstantMessageEstateBlockBlock,
    /// The `Data` field of each `MetaData` block.
    pub meta_data: Vec<Vec<u8>>,
}

/// `AvatarAppearance.Sender`.
#[derive(Debug, Clone, Copy, PartialEq, Eq)]
pub struct AvatarAppearanceSenderBlock {
    pub i_d: UUID,
    pub is_trial: bool,
}

/// `AvatarAppearance.ObjectData`.
#[derive(Debug, Clone, PartialEq)]
pub struct AvatarAppearanceObjectDataBlock {
    pub texture_entry: Vec<u8>,
}

/// `AvatarAppearance.VisualParam`.
#[derive(Debug, Clone, Copy, PartialEq, Eq)]
pub struct AvatarAppearanceVisualParamBlock {
    pub param_value: u8,
}

/// `AvatarAppearance.AppearanceData`.
#[derive(Debug, Clone, Copy, PartialEq, Eq)]
pub struct AvatarAppearanceAppearanceDataBlock {
    pub appearance_version: u8,
    pub cof_version: i32,
    pub flags: u32,
}

/// `AvatarAppearance.AppearanceHover`.
#[derive(Debug, Clone, Copy, PartialEq, Eq)]
pub struct AvatarAppearanceAppearanceHoverBlock {
    pub hover_height: Vector3Bits,
}

/// `AvatarAppearance.AttachmentBlock`.
#[derive(Debug, Clone, Copy, PartialEq, Eq)]
pub struct AvatarAppearanceAttachmentBlockBlock {
    pub i_d: UUID,
    pub attachment_point: u8,
}

/// `AvatarAppearance`: the visual state of a nearby avatar.
#[derive(Debug, Clone, PartialEq)]
pub struct AvatarAppearancePacket {
    pub header: Header,
    pub sender: AvatarAppearanceSenderBlock,
    pub object_data: AvatarAppearanceObjectDataBlock,
    pub visual_param: Vec<AvatarAppearanceVisualParamBlock>,
    pub appearance_data: Vec<AvatarAppearanceAppearanceDataBlock>,
    pub appearance_hover: Vec<AvatarAppearanceAppearanceHoverBlock>,
    pub attachment_block: Vec<AvatarAppearanceAttachmentBlockBlock>,
}

/// `AgentMovementComplete.Data`.
#[derive(Debug, Clone, Copy, PartialEq, Eq)]
pub struct AgentMovementCompleteDataBlock {
    pub position: Vector3Bits,
    pub look_at: Vector3Bits,
    pub region_handle: u64,
    pub timestamp: u32,
}

/// `AgentMovementComplete`: where the avatar stands after entering a region.
#[derive(Debug, Clone, PartialEq)]
pub struct AgentMovementCompletePacket {
    pub header: Header,
    pub agent_data: ImprovedInstantMessageAgentDataBlock,
    pub data: AgentMovementCompleteDataBlock,
}

/// `UUIDNameReply.UUIDNameBlock`.
#[derive(Debug, Clone, PartialEq)]
pub struct UUIDNameReplyUUIDNameBlockBlock {
    pub i_d: UUID,
    pub first_name: Vec<u8>,
    pub last_name: Vec<u8>,
}

/// `UUIDNameReply`: display names for agent identifiers.
#[derive(Debug, Clone, PartialEq)]
pub struct UUIDNameReplyPacket {
    pub header: Header,
    pub u_u_i_d_name_block: Vec<UUIDNameReplyUUIDNameBlockBlock>,
}

/// `StartPingCheck`: the simulator checks that the circuit is alive.
#[derive(Debug, Clone, PartialEq)]
pub struct StartPingCheckPacket {
    pub header: Header,
    pub ping_i_d: u8,
    pub oldest_unacked: u32,
}

/// `RegionHandshake`, of which the client keeps the region's name and
/// identifier.
#[derive(Debug, Clone, PartialEq)]
pub struct RegionHandshakePacket {
    pub header: Header,
    pub sim_name: Vec<u8>,
    pub region_i_d: UUID,
}

/// A received packet: one of the messages the client reads, or any other
/// message, of which only the header is kept.
#[derive(Debug, Clone, PartialEq)]
pub enum WrappedPacket {
    PacketAck(PacketAckPacket),
    StartPingCheck(StartPingCheckPacket),
    RegionHandshake(RegionHandshakePacket),
    ChatFromSimulator(ChatFromSimulatorPacket),
    JoinGroupReply(JoinGroupReplyPacket),
    LeaveGroupReply(LeaveGroupReplyPacket),
    GroupProfileReply(GroupProfileReplyPacket),
    InventoryDescendents(InventoryDescendentsPacket),
    ImprovedInstantMessage(ImprovedInstantMessagePacket),
    AvatarAppearance(AvatarAppearancePacket),
    AgentMovementComplete(AgentMovementCompletePacket),
    UUIDNameReply(UUIDNameReplyPacket),
    Other(Header),
}

} // verus!
