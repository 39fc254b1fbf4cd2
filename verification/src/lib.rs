//! A verified core for a Second Life / OpenSimulator client: the LLUDP wire
//! format (packet header, zero-coding, bounds-checked reads), the LLSD
//! structured-data codecs, and the packet-level decisions of the client.

pub mod buffers;
pub mod safebuf;
pub mod zerocoding;
pub mod header;
pub mod uuid;
pub mod text;
pub mod realbits;
pub mod osd;
pub mod binary;
pub mod xml;
pub mod notation;
pub mod packets;
pub mod chat;
pub mod groups;
pub mod inventory;
pub mod messaging;
pub mod appearance;
pub mod movement;
pub mod objects;
pub mod core_handlers;
pub mod login;
pub mod client;
pub mod reliability;
pub mod messages;
pub mod decode;
pub mod notation_round_trip;
pub mod xml_round_trip;
