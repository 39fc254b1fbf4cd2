//! The LLUDP messages the client sends, and their encoding: a message is
//! its header, its blocks in template order, and the appended
//! acknowledgements. Integers and floats are little-endian, identifiers
//! their 16 bytes, variable fields prefixed by their length (one byte for
//! `Variable 1`, two for `Variable 2`) and variable blocks by their count.
//!
//! Single-precision values are carried as their IEEE-754 bit patterns.

use crate::buffers::bytes_mut_contents;
use crate::buffers::bytes_mut_extend_from_slice;
use crate::header::{
    lemma_header_round_trip, spec_acks_bytes, spec_header_bytes, spec_header_parsed, spec_header_round_trips, spec_id_end,
    Header, PacketFrequency,
};
use crate::packets::{
    ImprovedInstantMessageMessageBlockBlock, ImprovedInstantMessagePacket, QuaternionBits, Vector3Bits,
};
use crate::uuid::UUID;
use bytes::BytesMut;
use vstd::prelude::*;

verus! {

/// A header with the given encoding, message number, reliability and
/// sequence number, and nothing else set.
pub open spec fn spec_plain_header(h: Header, frequency: PacketFrequency, id: u16, reliable: bool, sequence: u32) -> bool {
    &&& h.frequency == frequency
    &&& h.id == id
    &&& h.reliable == reliable
    &&& h.sequence == sequence
    &&& !h.resent && !h.zerocoded && !h.appended_acks
    &&& h.acks@ == Seq::<u32>::empty()
}

/// The header of an outgoing message: encoding, message number,
/// reliability and sequence number; not resent, not zero-coded, no
/// acknowledgements.
pub fn message_header(frequency: PacketFrequency, id: u16, reliable: bool, sequence: u32) -> (h: Header)
    ensures
        spec_plain_header(h, frequency, id, reliable, sequence),
{
    Header {
        reliable,
        resent: false,
        zerocoded: false,
        appended_acks: false,
        sequence,
        id,
        frequency,
        acks: Vec::new(),
    }
}

// ---- field encodings ------------------------------------------------------
/// Little-endian bytes of a `u16`.
pub open spec fn le16(v: u16) -> Seq<u8> {
    seq![(v & 0xff) as u8, (v >> 8) as u8]
}

/// Little-endian bytes of a `u32`.
pub open spec fn le32(v: u32) -> Seq<u8> {
    seq![(v & 0xff) as u8, ((v >> 8) & 0xff) as u8, ((v >> 16) & 0xff) as u8, (v >> 24) as u8]
}

/// The bytes of an identifier.
pub open spec fn uuid_bytes(u: UUID) -> Seq<u8> {
    u.0@
}

/// One byte for a boolean: 1 for true.
pub open spec fn bool_byte(b: bool) -> Seq<u8> {
    seq![if b { 1u8 } else { 0u8 }]
}

/// An `LLVector3`: its three components.
pub open spec fn vector3_bytes(v: Vector3Bits) -> Seq<u8> {
    le32(v.x) + le32(v.y) + le32(v.z)
}

/// An `LLQuaternion`: its `x`, `y` and `z` components; `w` is implied.
pub open spec fn quaternion_bytes(q: QuaternionBits) -> Seq<u8> {
    le32(q.x) + le32(q.y) + le32(q.z)
}

/// A `Variable 1` field: its length in one byte, then its bytes; a longer
/// value is cut to 255 bytes.
pub open spec fn var1_bytes(b: Seq<u8>) -> Seq<u8> {
    let n: int = if b.len() > 255 { 255 } else { b.len() as int };
    seq![n as u8] + b.take(n)
}

/// A `Variable 2` field: its length in two bytes, then its bytes; a longer
/// value is cut to 65535 bytes.
pub open spec fn var2_bytes(b: Seq<u8>) -> Seq<u8> {
    let n: int = if b.len() > 65535 { 65535 } else { b.len() as int };
    le16(n as u16) + b.take(n)
}

fn push_u8(out: &mut Vec<u8>, v: u8)
    ensures
        final(out)@ == old(out)@ + seq![v],
{
    out.push(v);
}

fn push_u16(out: &mut Vec<u8>, v: u16)
    ensures
        final(out)@ == old(out)@ + le16(v),
{
    out.push((v & 0xff) as u8);
    out.push((v >> 8) as u8);
}

fn push_u32(out: &mut Vec<u8>, v: u32)
    ensures
        final(out)@ == old(out)@ + le32(v),
{
    out.push((v & 0xff) as u8);
    out.push(((v >> 8) & 0xff) as u8);
    out.push(((v >> 16) & 0xff) as u8);
    out.push((v >> 24) as u8);
}

fn push_bool(out: &mut Vec<u8>, b: bool)
    ensures
        final(out)@ == old(out)@ + bool_byte(b),
{
    out.push(if b { 1u8 } else { 0u8 });
}

fn push_slice(out: &mut Vec<u8>, b: &[u8], n: usize)
    requires
        n <= b@.len(),
    ensures
        final(out)@ == old(out)@ + b@.take(n as int),
{
    let mut i: usize = 0;
    while i < n
        invariant
            i <= n <= b@.len(),
            out@ == old(out)@ + b@.take(i as int),
        decreases n - i,
    {
        out.push(b[i]);
        assert(b@.take(i + 1) == b@.take(i as int).push(b@[i as int]));
        i = i + 1;
    }
}

fn push_uuid(out: &mut Vec<u8>, u: &UUID)
    ensures
        final(out)@ == old(out)@ + uuid_bytes(*u),
{
    push_slice(out, &u.0, 16);
    assert(u.0@.take(16) == u.0@);
}

fn push_vector3(out: &mut Vec<u8>, v: &Vector3Bits)
    ensures
        final(out)@ == old(out)@ + vector3_bytes(*v),
{
    push_u32(out, v.x);
    push_u32(out, v.y);
    push_u32(out, v.z);
}

fn push_quaternion(out: &mut Vec<u8>, q: &QuaternionBits)
    ensures
        final(out)@ == old(out)@ + quaternion_bytes(*q),
{
    push_u32(out, q.x);
    push_u32(out, q.y);
    push_u32(out, q.z);
}

fn push_var1(out: &mut Vec<u8>, b: &[u8])
    ensures
        final(out)@ == old(out)@ + var1_bytes(b@),
{
    let n: usize = if b.len() > 255 { 255 } else { b.len() };
    out.push(n as u8);
    push_slice(out, b, n);
}

fn push_var2(out: &mut Vec<u8>, b: &[u8])
    ensures
        final(out)@ == old(out)@ + var2_bytes(b@),
{
    let n: usize = if b.len() > 65535 { 65535 } else { b.len() };
    push_u16(out, n as u16);
    push_slice(out, b, n);
}

/// The bytes of a message with header `h` and body `body`.
pub open spec fn spec_frame(h: Header, body: Seq<u8>) -> Seq<u8> {
    spec_header_bytes(h) + body + spec_acks_bytes(h)
}

/// Writes the message with header `h` and body `body` to `buf`: the
/// header, the body, then the appended acknowledgements.
pub fn write_frame(h: &Header, body: &[u8], buf: &mut BytesMut)
    requires
        bytes_mut_contents(*old(buf)).len() + 10 + body@.len() + 4 * h.acks@.len() + 1 <= usize::MAX,
    ensures
        bytes_mut_contents(*final(buf)) == bytes_mut_contents(*old(buf)) + spec_frame(*h, body@),
{
    let ghost start = bytes_mut_contents(*buf);
    h.serialize(buf);
    assert(spec_header_bytes(*h).len() <= 10);
    bytes_mut_extend_from_slice(buf, body);
    h.write_acks(buf);
    assert(bytes_mut_contents(*buf) =~= start + spec_frame(*h, body@));
}


/// A copy of the bytes of `b`.
pub fn bytes_to_vec(b: &[u8]) -> (r: Vec<u8>)
    ensures
        r@ == b@,
{
    let mut r: Vec<u8> = Vec::new();
    push_slice(&mut r, b, b.len());
    assert(b@.take(b@.len() as int) == b@);
    r
}

/// Local identifiers, four bytes each.
pub open spec fn local_ids_bytes(ids: Seq<u32>) -> Seq<u8>
    decreases ids.len(),
{
    if ids.len() == 0 {
        Seq::empty()
    } else {
        local_ids_bytes(ids.drop_last()) + le32(ids.last())
    }
}

/// The count byte and the blocks of a variable block of local identifiers;
/// blocks past the 255th are left out.
pub open spec fn local_id_blocks_bytes(ids: Seq<u32>) -> Seq<u8> {
    let n: int = if ids.len() > 255 { 255 } else { ids.len() as int };
    seq![n as u8] + local_ids_bytes(ids.take(n))
}

fn push_local_id_blocks(out: &mut Vec<u8>, ids: &[u32])
    ensures
        final(out)@ == old(out)@ + local_id_blocks_bytes(ids@),
{
    let n: usize = if ids.len() > 255 { 255 } else { ids.len() };
    out.push(n as u8);
    let ghost start = out@;
    let mut i: usize = 0;
    while i < n
        invariant
            i <= n <= ids@.len(),
            out@ == start + local_ids_bytes(ids@.take(i as int)),
        decreases n - i,
    {
        push_u32(out, ids[i]);
        assert(ids@.take(i + 1).drop_last() == ids@.take(i as int));
        i = i + 1;
    }
}

/// `AgentData` of most client messages.
#[derive(Debug, Clone, Copy, PartialEq, Eq)]
pub struct AgentSessionBlock {
    pub agent_i_d: UUID,
    pub session_i_d: UUID,
}

pub open spec fn agent_session_bytes(b: AgentSessionBlock) -> Seq<u8> {
    uuid_bytes(b.agent_i_d) + uuid_bytes(b.session_i_d)
}

fn push_agent_session(out: &mut Vec<u8>, b: &AgentSessionBlock)
    ensures
        final(out)@ == old(out)@ + agent_session_bytes(*b),
{
    push_uuid(out, &b.agent_i_d);
    push_uuid(out, &b.session_i_d);
}

/// Room for a frame with header `h` and a body of `body_len` bytes after
/// `used` bytes.
pub open spec fn spec_frame_fits(used: nat, h: Header, body_len: nat) -> bool {
    used + 10 + body_len + 4 * h.acks@.len() + 1 <= usize::MAX
}

/// Law: a message the client writes is read back by `Header::deserialize`
/// as the same header, leaving exactly its body, whenever its header
/// survives a round trip.
pub proof fn lemma_frame_read_back(h: Header, body: Seq<u8>)
    requires
        spec_header_round_trips(h),
    ensures
        spec_id_end(spec_frame(h, body)) is Some,
        spec_header_parsed(spec_frame(h, body), h, body),
{
    lemma_header_round_trip(h, body);
}

/// Law: a plain header (no acknowledgements) survives a round trip when
/// its message number fits its encoding.
pub proof fn lemma_plain_header_round_trips(h: Header, frequency: PacketFrequency, id: u16, reliable: bool, sequence: u32)
    requires
        spec_plain_header(h, frequency, id, reliable, sequence),
        frequency != PacketFrequency::Low ==> id < 0xFF,
    ensures
        spec_header_round_trips(h),
{
}

// ---- ChatFromViewer -------------------------------------------------------
/// `ChatFromViewer.ChatData`.
#[derive(Debug, Clone, PartialEq, Eq)]
pub struct ChatFromViewerChatDataBlock {
    pub message: Vec<u8>,
    pub chat_type: u8,
    pub channel: i32,
}

/// `ChatFromViewer`: the agent speaks in local chat.
#[derive(Debug, Clone, PartialEq, Eq)]
pub struct ChatFromViewerPacket {
    pub header: Header,
    pub agent_data: AgentSessionBlock,
    pub chat_data: ChatFromViewerChatDataBlock,
}

impl ChatFromViewerPacket {
    pub open spec fn spec_body(&self) -> Seq<u8> {
        agent_session_bytes(self.agent_data) + var2_bytes(self.chat_data.message@) + seq![self.chat_data.chat_type]
            + le32(self.chat_data.channel as u32)
    }

    pub fn body(&self) -> (r: Vec<u8>)
        ensures
            r@ == self.spec_body(),
    {
        let mut out: Vec<u8> = Vec::new();
        push_agent_session(&mut out, &self.agent_data);
        push_var2(&mut out, self.chat_data.message.as_slice());
        push_u8(&mut out, self.chat_data.chat_type);
        push_u32(&mut out, self.chat_data.channel as u32);
        out
    }

    pub fn serialize(&self, buf: &mut BytesMut)
        requires
            spec_frame_fits(bytes_mut_contents(*old(buf)).len(), self.header, self.spec_body().len()),
        ensures
            bytes_mut_contents(*final(buf)) == bytes_mut_contents(*old(buf)) + spec_frame(self.header, self.spec_body()),
    {
        let body = self.body();
        write_frame(&self.header, body.as_slice(), buf);
    }
}

// ---- JoinGroupRequest / LeaveGroupRequest --------------------------------
/// `JoinGroupRequest`: the agent asks to join a group.
#[derive(Debug, Clone, PartialEq, Eq)]
pub struct JoinGroupRequestPacket {
    pub header: Header,
    pub agent_data: AgentSessionBlock,
    pub group_i_d: UUID,
}

impl JoinGroupRequestPacket {
    pub open spec fn spec_body(&self) -> Seq<u8> {
        agent_session_bytes(self.agent_data) + uuid_bytes(self.group_i_d)
    }

    pub fn body(&self) -> (r: Vec<u8>)
        ensures
            r@ == self.spec_body(),
    {
        let mut out: Vec<u8> = Vec::new();
        push_agent_session(&mut out, &self.agent_data);
        push_uuid(&mut out, &self.group_i_d);
        out
    }

    pub fn serialize(&self, buf: &mut BytesMut)
        requires
            spec_frame_fits(bytes_mut_contents(*old(buf)).len(), self.header, self.spec_body().len()),
        ensures
            bytes_mut_contents(*final(buf)) == bytes_mut_contents(*old(buf)) + spec_frame(self.header, self.spec_body()),
    {
        let body = self.body();
        write_frame(&self.header, body.as_slice(), buf);
    }
}

/// `LeaveGroupRequest`: the agent leaves a group.
#[derive(Debug, Clone, PartialEq, Eq)]
pub struct LeaveGroupRequestPacket {
    pub header: Header,
    pub agent_data: AgentSessionBlock,
    pub group_i_d: UUID,
}

impl LeaveGroupRequestPacket {
    pub open spec fn spec_body(&self) -> Seq<u8> {
        agent_session_bytes(self.agent_data) + uuid_bytes(self.group_i_d)
    }

    pub fn body(&self) -> (r: Vec<u8>)
        ensures
            r@ == self.spec_body(),
    {
        let mut out: Vec<u8> = Vec::new();
        push_agent_session(&mut out, &self.agent_data);
        push_uuid(&mut out, &self.group_i_d);
        out
    }

    pub fn serialize(&self, buf: &mut BytesMut)
        requires
            spec_frame_fits(bytes_mut_contents(*old(buf)).len(), self.header, self.spec_body().len()),
        ensures
            bytes_mut_contents(*final(buf)) == bytes_mut_contents(*old(buf)) + spec_frame(self.header, self.spec_body()),
    {
        let body = self.body();
        write_frame(&self.header, body.as_slice(), buf);
    }
}

// ---- FetchInventoryDescendents -------------------------------------------
/// `FetchInventoryDescendents.InventoryData`.
#[derive(Debug, Clone, Copy, PartialEq, Eq)]
pub struct FetchInventoryDescendentsInventoryDataBlock {
    pub folder_i_d: UUID,
    pub owner_i_d: UUID,
    pub sort_order: i32,
    pub fetch_folders: bool,
    pub fetch_items: bool,
}

/// `FetchInventoryDescendents`: asks for the contents of a folder.
#[derive(Debug, Clone, PartialEq, Eq)]
pub struct FetchInventoryDescendentsPacket {
    pub header: Header,
    pub agent_data: AgentSessionBlock,
    pub inventory_data: FetchInventoryDescendentsInventoryDataBlock,
}

impl FetchInventoryDescendentsPacket {
    pub open spec fn spec_body(&self) -> Seq<u8> {
        agent_session_bytes(self.agent_data) + uuid_bytes(self.inventory_data.folder_i_d) + uuid_bytes(
            self.inventory_data.owner_i_d,
        ) + le32(self.inventory_data.sort_order as u32) + bool_byte(self.inventory_data.fetch_folders)
            + bool_byte(self.inventory_data.fetch_items)
    }

    pub fn body(&self) -> (r: Vec<u8>)
        ensures
            r@ == self.spec_body(),
    {
        let mut out: Vec<u8> = Vec::new();
        push_agent_session(&mut out, &self.agent_data);
        push_uuid(&mut out, &self.inventory_data.folder_i_d);
        push_uuid(&mut out, &self.inventory_data.owner_i_d);
        push_u32(&mut out, self.inventory_data.sort_order as u32);
        push_bool(&mut out, self.inventory_data.fetch_folders);
        push_bool(&mut out, self.inventory_data.fetch_items);
        out
    }

    pub fn serialize(&self, buf: &mut BytesMut)
        requires
            spec_frame_fits(bytes_mut_contents(*old(buf)).len(), self.header, self.spec_body().len()),
        ensures
            bytes_mut_contents(*final(buf)) == bytes_mut_contents(*old(buf)) + spec_frame(self.header, self.spec_body()),
    {
        let body = self.body();
        write_frame(&self.header, body.as_slice(), buf);
    }
}

// ---- RebakeAvatarTextures ------------------------------------------------
/// `RebakeAvatarTextures`: asks the simulator to rebake a texture.
#[derive(Debug, Clone, PartialEq, Eq)]
pub struct RebakeAvatarTexturesPacket {
    pub header: Header,
    pub texture_i_d: UUID,
}

impl RebakeAvatarTexturesPacket {
    pub open spec fn spec_body(&self) -> Seq<u8> {
        uuid_bytes(self.texture_i_d)
    }

    pub fn body(&self) -> (r: Vec<u8>)
        ensures
            r@ == self.spec_body(),
    {
        let mut out: Vec<u8> = Vec::new();
        push_uuid(&mut out, &self.texture_i_d);
        out
    }

    pub fn serialize(&self, buf: &mut BytesMut)
        requires
            spec_frame_fits(bytes_mut_contents(*old(buf)).len(), self.header, self.spec_body().len()),
        ensures
            bytes_mut_contents(*final(buf)) == bytes_mut_contents(*old(buf)) + spec_frame(self.header, self.spec_body()),
    {
        let body = self.body();
        write_frame(&self.header, body.as_slice(), buf);
    }
}

// ---- ImprovedInstantMessage ----------------------------------------------
/// `Variable 2` fields, one after another.
pub open spec fn var2_list_bytes(items: Seq<Vec<u8>>) -> Seq<u8>
    decreases items.len(),
{
    if items.len() == 0 {
        Seq::empty()
    } else {
        var2_list_bytes(items.drop_last()) + var2_bytes(items.last()@)
    }
}

/// A count-prefixed variable block of one `Variable 2` field each; blocks
/// past the 255th are left out.
pub open spec fn var2_blocks_bytes(items: Seq<Vec<u8>>) -> Seq<u8> {
    let n: int = if items.len() > 255 { 255 } else { items.len() as int };
    seq![n as u8] + var2_list_bytes(items.take(n))
}

fn push_var2_blocks(out: &mut Vec<u8>, items: &Vec<Vec<u8>>)
    ensures
        final(out)@ == old(out)@ + var2_blocks_bytes(items@),
{
    let n: usize = if items.len() > 255 { 255 } else { items.len() };
    out.push(n as u8);
    let ghost start = out@;
    let mut i: usize = 0;
    while i < n
        invariant
            i <= n <= items@.len(),
            out@ == start + var2_list_bytes(items@.take(i as int)),
        decreases n - i,
    {
        push_var2(out, items[i].as_slice());
        assert(items@.take(i + 1).drop_last() == items@.take(i as int));
        i = i + 1;
    }
}

pub open spec fn im_message_block_bytes(m: ImprovedInstantMessageMessageBlockBlock) -> Seq<u8> {
    bool_byte(m.from_group) + uuid_bytes(m.to_agent_i_d) + le32(m.parent_estate_i_d) + uuid_bytes(m.region_i_d)
        + vector3_bytes(m.position) + seq![m.offline, m.dialog] + uuid_bytes(m.i_d) + le32(m.timestamp)
        + var1_bytes(m.from_agent_name@) + var2_bytes(m.message@) + var2_bytes(m.binary_bucket@)
}

impl ImprovedInstantMessagePacket {
    pub open spec fn spec_body(&self) -> Seq<u8> {
        uuid_bytes(self.agent_data.agent_i_d) + uuid_bytes(self.agent_data.session_i_d) + im_message_block_bytes(
            self.message_block,
        ) + le32(self.estate_block.estate_i_d) + var2_blocks_bytes(self.meta_data@)
    }

    pub fn body(&self) -> (r: Vec<u8>)
        ensures
            r@ == self.spec_body(),
    {
        let mut out: Vec<u8> = Vec::new();
        push_uuid(&mut out, &self.agent_data.agent_i_d);
        push_uuid(&mut out, &self.agent_data.session_i_d);
        let m = &self.message_block;
        push_bool(&mut out, m.from_group);
        push_uuid(&mut out, &m.to_agent_i_d);
        push_u32(&mut out, m.parent_estate_i_d);
        push_uuid(&mut out, &m.region_i_d);
        push_vector3(&mut out, &m.position);
        push_u8(&mut out, m.offline);
        push_u8(&mut out, m.dialog);
        push_uuid(&mut out, &m.i_d);
        push_u32(&mut out, m.timestamp);
        push_var1(&mut out, m.from_agent_name.as_slice());
        push_var2(&mut out, m.message.as_slice());
        push_var2(&mut out, m.binary_bucket.as_slice());
        push_u32(&mut out, self.estate_block.estate_i_d);
        push_var2_blocks(&mut out, &self.meta_data);
        assert(out@ =~= self.spec_body());
        out
    }

    pub fn serialize(&self, buf: &mut BytesMut)
        requires
            spec_frame_fits(bytes_mut_contents(*old(buf)).len(), self.header, self.spec_body().len()),
        ensures
            bytes_mut_contents(*final(buf)) == bytes_mut_contents(*old(buf)) + spec_frame(self.header, self.spec_body()),
    {
        let body = self.body();
        write_frame(&self.header, body.as_slice(), buf);
    }
}

// ---- AgentUpdate ----------------------------------------------------------
/// `AgentUpdate.AgentData`.
#[derive(Debug, Clone, Copy, PartialEq, Eq)]
pub struct AgentUpdateAgentDataBlock {
    pub agent_i_d: UUID,
    pub session_i_d: UUID,
    pub body_rotation: QuaternionBits,
    pub head_rotation: QuaternionBits,
    pub state: u8,
    pub camera_center: Vector3Bits,
    pub camera_at_axis: Vector3Bits,
    pub camera_left_axis: Vector3Bits,
    pub camera_up_axis: Vector3Bits,
    /// The far clip distance, as the bit pattern of an `f32`.
    pub far: u32,
    pub control_flags: u32,
    pub flags: u8,
}

/// `AgentUpdate`: the agent's rotation, camera and controls.
#[derive(Debug, Clone, PartialEq, Eq)]
pub struct AgentUpdatePacket {
    pub header: Header,
    pub agent_data: AgentUpdateAgentDataBlock,
}

impl AgentUpdatePacket {
    pub open spec fn spec_body(&self) -> Seq<u8> {
        let a = self.agent_data;
        uuid_bytes(a.agent_i_d) + uuid_bytes(a.session_i_d) + quaternion_bytes(a.body_rotation) + quaternion_bytes(
            a.head_rotation,
        ) + seq![a.state] + vector3_bytes(a.camera_center) + vector3_bytes(a.camera_at_axis) + vector3_bytes(
            a.camera_left_axis,
        ) + vector3_bytes(a.camera_up_axis) + le32(a.far) + le32(a.control_flags) + seq![a.flags]
    }

    pub fn body(&self) -> (r: Vec<u8>)
        ensures
            r@ == self.spec_body(),
    {
        let mut out: Vec<u8> = Vec::new();
        let a = &self.agent_data;
        push_uuid(&mut out, &a.agent_i_d);
        push_uuid(&mut out, &a.session_i_d);
        push_quaternion(&mut out, &a.body_rotation);
        push_quaternion(&mut out, &a.head_rotation);
        push_u8(&mut out, a.state);
        push_vector3(&mut out, &a.camera_center);
        push_vector3(&mut out, &a.camera_at_axis);
        push_vector3(&mut out, &a.camera_left_axis);
        push_vector3(&mut out, &a.camera_up_axis);
        push_u32(&mut out, a.far);
        push_u32(&mut out, a.control_flags);
        push_u8(&mut out, a.flags);
        assert(out@ =~= self.spec_body());
        out
    }

    pub fn serialize(&self, buf: &mut BytesMut)
        requires
            spec_frame_fits(bytes_mut_contents(*old(buf)).len(), self.header, self.spec_body().len()),
        ensures
            bytes_mut_contents(*final(buf)) == bytes_mut_contents(*old(buf)) + spec_frame(self.header, self.spec_body()),
    {
        let body = self.body();
        write_frame(&self.header, body.as_slice(), buf);
    }
}

// ---- ObjectAdd ------------------------------------------------------------
/// `ObjectAdd.AgentData`.
#[derive(Debug, Clone, Copy, PartialEq, Eq)]
pub struct ObjectAddAgentDataBlock {
    pub agent_i_d: UUID,
    pub session_i_d: UUID,
    pub group_i_d: UUID,
}

/// `ObjectAdd.ObjectData`: the shape of the new prim and where to put it.
#[derive(Debug, Clone, Copy, PartialEq, Eq)]
pub struct ObjectAddObjectDataBlock {
    pub p_code: u8,
    pub material: u8,
    pub add_flags: u32,
    pub path_curve: u8,
    pub profile_curve: u8,
    pub path_begin: u16,
    pub path_end: u16,
    pub path_scale_x: u8,
    pub path_scale_y: u8,
    pub path_shear_x: u8,
    pub path_shear_y: u8,
    pub path_twist: i8,
    pub path_twist_begin: i8,
    pub path_radius_offset: i8,
    pub path_taper_x: i8,
    pub path_taper_y: i8,
    pub path_revolutions: u8,
    pub path_skew: i8,
    pub profile_begin: u16,
    pub profile_end: u16,
    pub profile_hollow: u16,
    pub bypass_raycast: u8,
    pub ray_start: Vector3Bits,
    pub ray_end: Vector3Bits,
    pub ray_target_i_d: UUID,
    pub ray_end_is_intersection: u8,
    pub scale: Vector3Bits,
    pub rotation: QuaternionBits,
    pub state: u8,
}

/// `ObjectAdd`: creates a prim where a ray hits.
#[derive(Debug, Clone, PartialEq, Eq)]
pub struct ObjectAddPacket {
    pub header: Header,
    pub agent_data: ObjectAddAgentDataBlock,
    pub object_data: ObjectAddObjectDataBlock,
}

pub open spec fn object_add_shape_bytes(o: ObjectAddObjectDataBlock) -> Seq<u8> {
    seq![o.p_code, o.material] + le32(o.add_flags) + seq![o.path_curve, o.profile_curve] + le16(o.path_begin)
        + le16(o.path_end) + seq![
        o.path_scale_x,
        o.path_scale_y,
        o.path_shear_x,
        o.path_shear_y,
        o.path_twist as u8,
        o.path_twist_begin as u8,
        o.path_radius_offset as u8,
        o.path_taper_x as u8,
        o.path_taper_y as u8,
        o.path_revolutions,
        o.path_skew as u8,
    ] + le16(o.profile_begin) + le16(o.profile_end) + le16(o.profile_hollow)
}

pub open spec fn object_add_placement_bytes(o: ObjectAddObjectDataBlock) -> Seq<u8> {
    seq![o.bypass_raycast] + vector3_bytes(o.ray_start) + vector3_bytes(o.ray_end) + uuid_bytes(o.ray_target_i_d)
        + seq![o.ray_end_is_intersection] + vector3_bytes(o.scale) + quaternion_bytes(o.rotation) + seq![o.state]
}

impl ObjectAddPacket {
    pub open spec fn spec_body(&self) -> Seq<u8> {
        uuid_bytes(self.agent_data.agent_i_d) + uuid_bytes(self.agent_data.session_i_d) + uuid_bytes(
            self.agent_data.group_i_d,
        ) + object_add_shape_bytes(self.object_data) + object_add_placement_bytes(self.object_data)
    }

    pub fn body(&self) -> (r: Vec<u8>)
        ensures
            r@ == self.spec_body(),
    {
        let mut out: Vec<u8> = Vec::new();
        push_uuid(&mut out, &self.agent_data.agent_i_d);
        push_uuid(&mut out, &self.agent_data.session_i_d);
        push_uuid(&mut out, &self.agent_data.group_i_d);
        let ghost head = out@;
        let o = &self.object_data;
        push_u8(&mut out, o.p_code);
        push_u8(&mut out, o.material);
        push_u32(&mut out, o.add_flags);
        push_u8(&mut out, o.path_curve);
        push_u8(&mut out, o.profile_curve);
        push_u16(&mut out, o.path_begin);
        push_u16(&mut out, o.path_end);
        push_u8(&mut out, o.path_scale_x);
        push_u8(&mut out, o.path_scale_y);
        push_u8(&mut out, o.path_shear_x);
        push_u8(&mut out, o.path_shear_y);
        push_u8(&mut out, o.path_twist as u8);
        push_u8(&mut out, o.path_twist_begin as u8);
        push_u8(&mut out, o.path_radius_offset as u8);
        push_u8(&mut out, o.path_taper_x as u8);
        push_u8(&mut out, o.path_taper_y as u8);
        push_u8(&mut out, o.path_revolutions);
        push_u8(&mut out, o.path_skew as u8);
        push_u16(&mut out, o.profile_begin);
        push_u16(&mut out, o.profile_end);
        push_u16(&mut out, o.profile_hollow);
        assert(out@ =~= head + object_add_shape_bytes(*o));
        let ghost shaped = out@;
        push_u8(&mut out, o.bypass_raycast);
        push_vector3(&mut out, &o.ray_start);
        push_vector3(&mut out, &o.ray_end);
        push_uuid(&mut out, &o.ray_target_i_d);
        push_u8(&mut out, o.ray_end_is_intersection);
        push_vector3(&mut out, &o.scale);
        push_quaternion(&mut out, &o.rotation);
        push_u8(&mut out, o.state);
        assert(out@ =~= shaped + object_add_placement_bytes(*o));
        assert(out@ =~= self.spec_body());
        out
    }

    pub fn serialize(&self, buf: &mut BytesMut)
        requires
            spec_frame_fits(bytes_mut_contents(*old(buf)).len(), self.header, self.spec_body().len()),
        ensures
            bytes_mut_contents(*final(buf)) == bytes_mut_contents(*old(buf)) + spec_frame(self.header, self.spec_body()),
    {
        let body = self.body();
        write_frame(&self.header, body.as_slice(), buf);
    }
}

// ---- ObjectDelete / ObjectLink / ObjectDelink -----------------------------
/// `ObjectDelete`: deletes objects by their local identifiers.
#[derive(Debug, Clone, PartialEq, Eq)]
pub struct ObjectDeletePacket {
    pub header: Header,
    pub agent_data: AgentSessionBlock,
    pub force: bool,
    /// The `ObjectLocalID` of each `ObjectData` block.
    pub object_data: Vec<u32>,
}

impl ObjectDeletePacket {
    pub open spec fn spec_body(&self) -> Seq<u8> {
        agent_session_bytes(self.agent_data) + bool_byte(self.force) + local_id_blocks_bytes(self.object_data@)
    }

    pub fn body(&self) -> (r: Vec<u8>)
        ensures
            r@ == self.spec_body(),
    {
        let mut out: Vec<u8> = Vec::new();
        push_agent_session(&mut out, &self.agent_data);
        push_bool(&mut out, self.force);
        push_local_id_blocks(&mut out, self.object_data.as_slice());
        out
    }

    pub fn serialize(&self, buf: &mut BytesMut)
        requires
            spec_frame_fits(bytes_mut_contents(*old(buf)).len(), self.header, self.spec_body().len()),
        ensures
            bytes_mut_contents(*final(buf)) == bytes_mut_contents(*old(buf)) + spec_frame(self.header, self.spec_body()),
    {
        let body = self.body();
        write_frame(&self.header, body.as_slice(), buf);
    }
}

/// `ObjectLink`: links objects; the first becomes the root.
#[derive(Debug, Clone, PartialEq, Eq)]
pub struct ObjectLinkPacket {
    pub header: Header,
    pub agent_data: AgentSessionBlock,
    /// The `ObjectLocalID` of each `ObjectData` block.
    pub object_data: Vec<u32>,
}

impl ObjectLinkPacket {
    pub open spec fn spec_body(&self) -> Seq<u8> {
        agent_session_bytes(self.agent_data) + local_id_blocks_bytes(self.object_data@)
    }

    pub fn body(&self) -> (r: Vec<u8>)
        ensures
            r@ == self.spec_body(),
    {
        let mut out: Vec<u8> = Vec::new();
        push_agent_session(&mut out, &self.agent_data);
        push_local_id_blocks(&mut out, self.object_data.as_slice());
        out
    }

    pub fn serialize(&self, buf: &mut BytesMut)
        requires
            spec_frame_fits(bytes_mut_contents(*old(buf)).len(), self.header, self.spec_body().len()),
        ensures
            bytes_mut_contents(*final(buf)) == bytes_mut_contents(*old(buf)) + spec_frame(self.header, self.spec_body()),
    {
        let body = self.body();
        write_frame(&self.header, body.as_slice(), buf);
    }
}

/// `ObjectDelink`: unlinks objects.
#[derive(Debug, Clone, PartialEq, Eq)]
pub struct ObjectDelinkPacket {
    pub header: Header,
    pub agent_data: AgentSessionBlock,
    /// The `ObjectLocalID` of each `ObjectData` block.
    pub object_data: Vec<u32>,
}

impl ObjectDelinkPacket {
    pub open spec fn spec_body(&self) -> Seq<u8> {
        agent_session_bytes(self.agent_data) + local_id_blocks_bytes(self.object_data@)
    }

    pub fn body(&self) -> (r: Vec<u8>)
        ensures
            r@ == self.spec_body(),
    {
        let mut out: Vec<u8> = Vec::new();
        push_agent_session(&mut out, &self.agent_data);
        push_local_id_blocks(&mut out, self.object_data.as_slice());
        out
    }

    pub fn serialize(&self, buf: &mut BytesMut)
        requires
            spec_frame_fits(bytes_mut_contents(*old(buf)).len(), self.header, self.spec_body().len()),
        ensures
            bytes_mut_contents(*final(buf)) == bytes_mut_contents(*old(buf)) + spec_frame(self.header, self.spec_body()),
    {
        let body = self.body();
        write_frame(&self.header, body.as_slice(), buf);
    }
}

// ---- ObjectName / ObjectDescription ---------------------------------------
/// An `ObjectData` block of `ObjectName` or `ObjectDescription`: an
/// object's local identifier and its new name or description.
#[derive(Debug, Clone, PartialEq, Eq)]
pub struct ObjectTextBlock {
    pub local_i_d: u32,
    pub text: Vec<u8>,
}

/// Local identifiers with a `Variable 1` text each.
pub open spec fn object_text_list_bytes(items: Seq<ObjectTextBlock>) -> Seq<u8>
    decreases items.len(),
{
    if items.len() == 0 {
        Seq::empty()
    } else {
        object_text_list_bytes(items.drop_last()) + le32(items.last().local_i_d) + var1_bytes(items.last().text@)
    }
}

/// A count-prefixed variable block of `ObjectTextBlock`; blocks past the
/// 255th are left out.
pub open spec fn object_text_blocks_bytes(items: Seq<ObjectTextBlock>) -> Seq<u8> {
    let n: int = if items.len() > 255 { 255 } else { items.len() as int };
    seq![n as u8] + object_text_list_bytes(items.take(n))
}

fn push_object_text_blocks(out: &mut Vec<u8>, items: &Vec<ObjectTextBlock>)
    ensures
        final(out)@ == old(out)@ + object_text_blocks_bytes(items@),
{
    let n: usize = if items.len() > 255 { 255 } else { items.len() };
    out.push(n as u8);
    let ghost start = out@;
    let mut i: usize = 0;
    while i < n
        invariant
            i <= n <= items@.len(),
            out@ == start + object_text_list_bytes(items@.take(i as int)),
        decreases n - i,
    {
        push_u32(out, items[i].local_i_d);
        push_var1(out, items[i].text.as_slice());
        assert(items@.take(i + 1).drop_last() == items@.take(i as int));
        i = i + 1;
    }
}

/// `ObjectName`: renames objects.
#[derive(Debug, Clone, PartialEq, Eq)]
pub struct ObjectNamePacket {
    pub header: Header,
    pub agent_data: AgentSessionBlock,
    pub object_data: Vec<ObjectTextBlock>,
}

impl ObjectNamePacket {
    pub open spec fn spec_body(&self) -> Seq<u8> {
        agent_session_bytes(self.agent_data) + object_text_blocks_bytes(self.object_data@)
    }

    pub fn body(&self) -> (r: Vec<u8>)
        ensures
            r@ == self.spec_body(),
    {
        let mut out: Vec<u8> = Vec::new();
        push_agent_session(&mut out, &self.agent_data);
        push_object_text_blocks(&mut out, &self.object_data);
        out
    }

    pub fn serialize(&self, buf: &mut BytesMut)
        requires
            spec_frame_fits(bytes_mut_contents(*old(buf)).len(), self.header, self.spec_body().len()),
        ensures
            bytes_mut_contents(*final(buf)) == bytes_mut_contents(*old(buf)) + spec_frame(self.header, self.spec_body()),
    {
        let body = self.body();
        write_frame(&self.header, body.as_slice(), buf);
    }
}

/// `ObjectDescription`: sets the descriptions of objects.
#[derive(Debug, Clone, PartialEq, Eq)]
pub struct ObjectDescriptionPacket {
    pub header: Header,
    pub agent_data: AgentSessionBlock,
    pub object_data: Vec<ObjectTextBlock>,
}

impl ObjectDescriptionPacket {
    pub open spec fn spec_body(&self) -> Seq<u8> {
        agent_session_bytes(self.agent_data) + object_text_blocks_bytes(self.object_data@)
    }

    pub fn body(&self) -> (r: Vec<u8>)
        ensures
            r@ == self.spec_body(),
    {
        let mut out: Vec<u8> = Vec::new();
        push_agent_session(&mut out, &self.agent_data);
        push_object_text_blocks(&mut out, &self.object_data);
        out
    }

    pub fn serialize(&self, buf: &mut BytesMut)
        requires
            spec_frame_fits(bytes_mut_contents(*old(buf)).len(), self.header, self.spec_body().len()),
        ensures
            bytes_mut_contents(*final(buf)) == bytes_mut_contents(*old(buf)) + spec_frame(self.header, self.spec_body()),
    {
        let body = self.body();
        write_frame(&self.header, body.as_slice(), buf);
    }
}

// ---- circuit and region messages -------------------------------------------
/// `UseCircuitCode.CircuitCode`.
#[derive(Debug, Clone, Copy, PartialEq, Eq)]
pub struct UseCircuitCodeCircuitCodeBlock {
    pub code: u32,
    pub session_i_d: UUID,
    pub i_d: UUID,
}

/// `UseCircuitCode`: opens the circuit the login granted.
#[derive(Debug, Clone, PartialEq, Eq)]
pub struct UseCircuitCodePacket {
    pub header: Header,
    pub circuit_code: UseCircuitCodeCircuitCodeBlock,
}

impl UseCircuitCodePacket {
    pub open spec fn spec_body(&self) -> Seq<u8> {
        le32(self.circuit_code.code) + uuid_bytes(self.circuit_code.session_i_d) + uuid_bytes(self.circuit_code.i_d)
    }

    pub fn body(&self) -> (r: Vec<u8>)
        ensures
            r@ == self.spec_body(),
    {
        let mut out: Vec<u8> = Vec::new();
        push_u32(&mut out, self.circuit_code.code);
        push_uuid(&mut out, &self.circuit_code.session_i_d);
        push_uuid(&mut out, &self.circuit_code.i_d);
        out
    }

    pub fn serialize(&self, buf: &mut BytesMut)
        requires
            spec_frame_fits(bytes_mut_contents(*old(buf)).len(), self.header, self.spec_body().len()),
        ensures
            bytes_mut_contents(*final(buf)) == bytes_mut_contents(*old(buf)) + spec_frame(self.header, self.spec_body()),
    {
        let body = self.body();
        write_frame(&self.header, body.as_slice(), buf);
    }
}

/// `AgentData` of `CompleteAgentMovement` and `AgentHeightWidth`.
#[derive(Debug, Clone, Copy, PartialEq, Eq)]
pub struct AgentCircuitBlock {
    pub agent_i_d: UUID,
    pub session_i_d: UUID,
    pub circuit_code: u32,
}

pub open spec fn agent_circuit_bytes(b: AgentCircuitBlock) -> Seq<u8> {
    uuid_bytes(b.agent_i_d) + uuid_bytes(b.session_i_d) + le32(b.circuit_code)
}

/// `CompleteAgentMovement`: the agent enters the region.
#[derive(Debug, Clone, PartialEq, Eq)]
pub struct CompleteAgentMovementPacket {
    pub header: Header,
    pub agent_data: AgentCircuitBlock,
}

impl CompleteAgentMovementPacket {
    pub open spec fn spec_body(&self) -> Seq<u8> {
        agent_circuit_bytes(self.agent_data)
    }

    pub fn body(&self) -> (r: Vec<u8>)
        ensures
            r@ == self.spec_body(),
    {
        let mut out: Vec<u8> = Vec::new();
        push_uuid(&mut out, &self.agent_data.agent_i_d);
        push_uuid(&mut out, &self.agent_data.session_i_d);
        push_u32(&mut out, self.agent_data.circuit_code);
        out
    }

    pub fn serialize(&self, buf: &mut BytesMut)
        requires
            spec_frame_fits(bytes_mut_contents(*old(buf)).len(), self.header, self.spec_body().len()),
        ensures
            bytes_mut_contents(*final(buf)) == bytes_mut_contents(*old(buf)) + spec_frame(self.header, self.spec_body()),
    {
        let body = self.body();
        write_frame(&self.header, body.as_slice(), buf);
    }
}

/// `RegionHandshakeReply`: answers the region handshake.
#[derive(Debug, Clone, PartialEq, Eq)]
pub struct RegionHandshakeReplyPacket {
    pub header: Header,
    pub agent_data: AgentSessionBlock,
    pub flags: u32,
}

impl RegionHandshakeReplyPacket {
    pub open spec fn spec_body(&self) -> Seq<u8> {
        agent_session_bytes(self.agent_data) + le32(self.flags)
    }

    pub fn body(&self) -> (r: Vec<u8>)
        ensures
            r@ == self.spec_body(),
    {
        let mut out: Vec<u8> = Vec::new();
        push_agent_session(&mut out, &self.agent_data);
        push_u32(&mut out, self.flags);
        out
    }

    pub fn serialize(&self, buf: &mut BytesMut)
        requires
            spec_frame_fits(bytes_mut_contents(*old(buf)).len(), self.header, self.spec_body().len()),
        ensures
            bytes_mut_contents(*final(buf)) == bytes_mut_contents(*old(buf)) + spec_frame(self.header, self.spec_body()),
    {
        let body = self.body();
        write_frame(&self.header, body.as_slice(), buf);
    }
}

/// `AgentHeightWidth.HeightWidthBlock`.
#[derive(Debug, Clone, Copy, PartialEq, Eq)]
pub struct AgentHeightWidthHeightWidthBlock {
    pub gen_counter: u32,
    pub height: u16,
    pub width: u16,
}

/// `AgentHeightWidth`: the size of the agent's view.
#[derive(Debug, Clone, PartialEq, Eq)]
pub struct AgentHeightWidthPacket {
    pub header: Header,
    pub agent_data: AgentCircuitBlock,
    pub height_width_block: AgentHeightWidthHeightWidthBlock,
}

impl AgentHeightWidthPacket {
    pub open spec fn spec_body(&self) -> Seq<u8> {
        agent_circuit_bytes(self.agent_data) + le32(self.height_width_block.gen_counter) + le16(
            self.height_width_block.height,
        ) + le16(self.height_width_block.width)
    }

    pub fn body(&self) -> (r: Vec<u8>)
        ensures
            r@ == self.spec_body(),
    {
        let mut out: Vec<u8> = Vec::new();
        push_uuid(&mut out, &self.agent_data.agent_i_d);
        push_uuid(&mut out, &self.agent_data.session_i_d);
        push_u32(&mut out, self.agent_data.circuit_code);
        push_u32(&mut out, self.height_width_block.gen_counter);
        push_u16(&mut out, self.height_width_block.height);
        push_u16(&mut out, self.height_width_block.width);
        out
    }

    pub fn serialize(&self, buf: &mut BytesMut)
        requires
            spec_frame_fits(bytes_mut_contents(*old(buf)).len(), self.header, self.spec_body().len()),
        ensures
            bytes_mut_contents(*final(buf)) == bytes_mut_contents(*old(buf)) + spec_frame(self.header, self.spec_body()),
    {
        let body = self.body();
        write_frame(&self.header, body.as_slice(), buf);
    }
}

/// `PacketAck`: acknowledges reliable packets.
#[derive(Debug, Clone, PartialEq, Eq)]
pub struct PacketAckPacket {
    pub header: Header,
    /// The `ID` of each `Packets` block.
    pub packets: Vec<u32>,
}

impl PacketAckPacket {
    pub open spec fn spec_body(&self) -> Seq<u8> {
        local_id_blocks_bytes(self.packets@)
    }

    pub fn body(&self) -> (r: Vec<u8>)
        ensures
            r@ == self.spec_body(),
    {
        let mut out: Vec<u8> = Vec::new();
        push_local_id_blocks(&mut out, self.packets.as_slice());
        out
    }

    pub fn serialize(&self, buf: &mut BytesMut)
        requires
            spec_frame_fits(bytes_mut_contents(*old(buf)).len(), self.header, self.spec_body().len()),
        ensures
            bytes_mut_contents(*final(buf)) == bytes_mut_contents(*old(buf)) + spec_frame(self.header, self.spec_body()),
    {
        let body = self.body();
        write_frame(&self.header, body.as_slice(), buf);
    }
}

/// `CompletePingCheck`: answers a ping.
#[derive(Debug, Clone, PartialEq, Eq)]
pub struct CompletePingCheckPacket {
    pub header: Header,
    pub ping_i_d: u8,
}

impl CompletePingCheckPacket {
    pub open spec fn spec_body(&self) -> Seq<u8> {
        seq![self.ping_i_d]
    }

    pub fn body(&self) -> (r: Vec<u8>)
        ensures
            r@ == self.spec_body(),
    {
        let mut out: Vec<u8> = Vec::new();
        push_u8(&mut out, self.ping_i_d);
        out
    }

    pub fn serialize(&self, buf: &mut BytesMut)
        requires
            spec_frame_fits(bytes_mut_contents(*old(buf)).len(), self.header, self.spec_body().len()),
        ensures
            bytes_mut_contents(*final(buf)) == bytes_mut_contents(*old(buf)) + spec_frame(self.header, self.spec_body()),
    {
        let body = self.body();
        write_frame(&self.header, body.as_slice(), buf);
    }
}

} // verus!
