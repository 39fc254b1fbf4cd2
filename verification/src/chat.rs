//! Local chat: the chat types a viewer speaks with, what the agent says,
//! and the messages the simulator relays to nearby avatars.

use crate::packets::{ChatFromSimulatorChatDataBlock, Vector3Bits, WrappedPacket};
use crate::text::{string_from_utf8_lossy, utf8_lossy};
use crate::uuid::UUID;
use crate::header::PacketFrequency;
use crate::messages::{bytes_to_vec, message_header, spec_plain_header, AgentSessionBlock, ChatFromViewerChatDataBlock, ChatFromViewerPacket};
use vstd::prelude::*;
use vstd::string::StringSliceAdditionalSpecFns;

verus! {

pub const CHAT_TYPE_WHISPER: u8 = 0;
pub const CHAT_TYPE_NORMAL: u8 = 1;
pub const CHAT_TYPE_SHOUT: u8 = 2;
pub const CHAT_TYPE_SAY: u8 = 3;
pub const CHAT_TYPE_START_TYPING: u8 = 6;
pub const CHAT_TYPE_STOP_TYPING: u8 = 7;

pub const CHAT_SOURCE_SYSTEM: u8 = 0;
pub const CHAT_SOURCE_AGENT: u8 = 1;
pub const CHAT_SOURCE_OBJECT: u8 = 2;

/// A chat message relayed by the simulator.
#[derive(Debug, Clone)]
pub struct ChatMessage {
    pub from_name: String,
    pub source_id: UUID,
    pub owner_id: UUID,
    pub source_type: u8,
    pub chat_type: u8,
    pub audible: u8,
    pub position: Vector3Bits,
    pub message: String,
}

/// `m` is the message carried by the block: the names and text decoded as
/// lossy UTF-8, every other field copied.
pub open spec fn spec_chat_message_of(b: ChatFromSimulatorChatDataBlock, m: ChatMessage) -> bool {
    &&& m.from_name@ == utf8_lossy(b.from_name@)
    &&& m.source_id == b.source_i_d
    &&& m.owner_id == b.owner_i_d
    &&& m.source_type == b.source_type
    &&& m.chat_type == b.chat_type
    &&& m.audible == b.audible
    &&& m.position == b.position
    &&& m.message@ == utf8_lossy(b.message@)
}

/// The chat message of a `ChatFromSimulator` packet; `None` for any other
/// packet.
pub fn parse_chat_from_simulator(packet: &WrappedPacket) -> (r: Option<ChatMessage>)
    ensures
        match packet {
            WrappedPacket::ChatFromSimulator(c) => r is Some && spec_chat_message_of(c.chat_data, r->0),
            _ => r is None,
        },
{
    match packet {
        WrappedPacket::ChatFromSimulator(chat) => {
            let b = &chat.chat_data;
            Some(ChatMessage {
                from_name: string_from_utf8_lossy(b.from_name.as_slice()),
                source_id: b.source_i_d,
                owner_id: b.owner_i_d,
                source_type: b.source_type,
                chat_type: b.chat_type,
                audible: b.audible,
                position: b.position,
                message: string_from_utf8_lossy(b.message.as_slice()),
            })
        },
        _ => None,
    }
}


/// The `ChatFromViewer` (Low 80, reliable) by which the agent says
/// `message` with chat type `chat_type` on `channel`: the message as its
/// UTF-8 bytes.
pub fn chat_from_viewer(sequence: u32, agent_id: UUID, session_id: UUID, message: &str, chat_type: u8, channel: i32) -> (p:
    ChatFromViewerPacket)
    ensures
        spec_plain_header(p.header, PacketFrequency::Low, 80, true, sequence),
        p.agent_data == (AgentSessionBlock { agent_i_d: agent_id, session_i_d: session_id }),
        p.chat_data.message@ == message.spec_bytes(),
        p.chat_data.chat_type == chat_type,
        p.chat_data.channel == channel,
{
    ChatFromViewerPacket {
        header: message_header(PacketFrequency::Low, 80, true, sequence),
        agent_data: AgentSessionBlock { agent_i_d: agent_id, session_i_d: session_id },
        chat_data: ChatFromViewerChatDataBlock { message: bytes_to_vec(message.as_bytes()), chat_type, channel },
    }
}

} // verus!
