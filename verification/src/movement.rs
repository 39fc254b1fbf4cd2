//! Avatar movement: the control flags, state and flag bytes of
//! `AgentUpdate`, and the message itself.

use crate::header::PacketFrequency;
use crate::messages::{message_header, spec_plain_header, AgentUpdateAgentDataBlock, AgentUpdatePacket};
use crate::packets::{QuaternionBits, Vector3Bits};
use crate::uuid::UUID;
use vstd::prelude::*;

verus! {

pub const CONTROL_AT_POS: u32 = 0x00000001;
pub const CONTROL_AT_NEG: u32 = 0x00000002;
pub const CONTROL_LEFT_POS: u32 = 0x00000004;
pub const CONTROL_LEFT_NEG: u32 = 0x00000008;
pub const CONTROL_UP_POS: u32 = 0x00000010;
pub const CONTROL_UP_NEG: u32 = 0x00000020;
pub const CONTROL_TURN_LEFT: u32 = 0x00000100;
pub const CONTROL_TURN_RIGHT: u32 = 0x00000200;
pub const CONTROL_FINISH_TERRAIN: u32 = 0x00000800;
pub const CONTROL_NUDGE_AT_POS: u32 = 0x00001000;
pub const CONTROL_NUDGE_AT_NEG: u32 = 0x00002000;
pub const CONTROL_NUDGE_LEFT_POS: u32 = 0x00004000;
pub const CONTROL_NUDGE_LEFT_NEG: u32 = 0x00008000;
pub const CONTROL_NUDGE_UP_POS: u32 = 0x00010000;
pub const CONTROL_NUDGE_UP_NEG: u32 = 0x00020000;
pub const CONTROL_FAST_AT: u32 = 0x00040000;
pub const CONTROL_FAST_LEFT: u32 = 0x00080000;
pub const CONTROL_FAST_UP: u32 = 0x00100000;
pub const CONTROL_FLY: u32 = 0x00200000;
pub const CONTROL_STOP: u32 = 0x00400000;

/// The `state` byte of `AgentUpdate`.
pub const AGENT_STATE_NONE: u8 = 0;
pub const AGENT_STATE_TYPING: u8 = 1 << 2;
pub const AGENT_STATE_EDITING: u8 = 1 << 3;

/// The `flags` byte of `AgentUpdate`.
pub const AGENT_FLAG_NONE: u8 = 0;


/// The `AgentUpdate` (High 4, unreliable for low latency) driving the
/// avatar with `control_flags`; rotations, camera vectors and the far clip
/// distance are bit patterns of `f32` values, carried as given.
pub fn agent_update(
    sequence: u32,
    agent_id: UUID,
    session_id: UUID,
    body_rotation: QuaternionBits,
    head_rotation: QuaternionBits,
    camera_center: Vector3Bits,
    camera_at_axis: Vector3Bits,
    camera_left_axis: Vector3Bits,
    camera_up_axis: Vector3Bits,
    far: u32,
    control_flags: u32,
    state: u8,
    flags: u8,
) -> (p: AgentUpdatePacket)
    ensures
        spec_plain_header(p.header, PacketFrequency::High, 4, false, sequence),
        p.agent_data == (AgentUpdateAgentDataBlock {
            agent_i_d: agent_id,
            session_i_d: session_id,
            body_rotation,
            head_rotation,
            state,
            camera_center,
            camera_at_axis,
            camera_left_axis,
            camera_up_axis,
            far,
            control_flags,
            flags,
        }),
{
    AgentUpdatePacket {
        header: message_header(PacketFrequency::High, 4, false, sequence),
        agent_data: AgentUpdateAgentDataBlock {
            agent_i_d: agent_id,
            session_i_d: session_id,
            body_rotation,
            head_rotation,
            state,
            camera_center,
            camera_at_axis,
            camera_left_axis,
            camera_up_axis,
            far,
            control_flags,
            flags,
        },
    }
}

} // verus!
