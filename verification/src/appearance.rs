//! Avatar appearance: wearable and baked-texture codes, asking for a
//! rebake, and the visual state a nearby avatar announces with
//! `AvatarAppearance`.

use crate::packets::{AvatarAppearanceAttachmentBlockBlock, AvatarAppearancePacket, Vector3Bits, WrappedPacket};
use crate::uuid::UUID;
use crate::header::PacketFrequency;
use crate::messages::{message_header, spec_plain_header, RebakeAvatarTexturesPacket};
use vstd::prelude::*;

verus! {

pub const WEARABLE_SHAPE: u8 = 0;
pub const WEARABLE_SKIN: u8 = 1;
pub const WEARABLE_HAIR: u8 = 2;
pub const WEARABLE_EYES: u8 = 3;
pub const WEARABLE_SHIRT: u8 = 4;
pub const WEARABLE_PANTS: u8 = 5;
pub const WEARABLE_SHOES: u8 = 6;
pub const WEARABLE_SOCKS: u8 = 7;
pub const WEARABLE_JACKET: u8 = 8;
pub const WEARABLE_GLOVES: u8 = 9;
pub const WEARABLE_UNDERSHIRT: u8 = 10;
pub const WEARABLE_UNDERPANTS: u8 = 11;
pub const WEARABLE_SKIRT: u8 = 12;
pub const WEARABLE_ALPHA: u8 = 13;
pub const WEARABLE_TATTOO: u8 = 14;
pub const WEARABLE_PHYSICS: u8 = 15;

pub const BAKED_HEAD: u8 = 0;
pub const BAKED_UPPER: u8 = 1;
pub const BAKED_LOWER: u8 = 2;
pub const BAKED_EYES: u8 = 3;
pub const BAKED_HAIR: u8 = 4;
pub const BAKED_SKIRT: u8 = 5;

/// The appearance an avatar announces.
#[derive(Debug, Clone)]
pub struct AvatarAppearance {
    pub sender_id: UUID,
    pub is_trial: bool,
    pub texture_entry: Vec<u8>,
    pub param_value: u8,
    pub appearance_version: u8,
    pub cof_version: i32,
    pub flags: u32,
    pub hover_height: Vector3Bits,
    pub attachments: Vec<AvatarAttachment>,
}

/// An object attached to an avatar, and where.
#[derive(Debug, Clone, Copy, PartialEq, Eq)]
pub struct AvatarAttachment {
    pub item_id: UUID,
    pub attachment_point: u8,
}

/// `a` is the appearance the packet announces. Of the repeated blocks for
/// visual parameters, appearance data and hover height only the first is
/// read, and a missing one reads as zero.
pub open spec fn spec_appearance_of(p: AvatarAppearancePacket, a: AvatarAppearance) -> bool {
    &&& a.sender_id == p.sender.i_d
    &&& a.is_trial == p.sender.is_trial
    &&& a.texture_entry@ == p.object_data.texture_entry@
    &&& a.param_value == (if p.visual_param@.len() > 0 { p.visual_param@[0].param_value } else { 0u8 })
    &&& a.appearance_version == (if p.appearance_data@.len() > 0 { p.appearance_data@[0].appearance_version } else { 0u8 })
    &&& a.cof_version == (if p.appearance_data@.len() > 0 { p.appearance_data@[0].cof_version } else { 0i32 })
    &&& a.flags == (if p.appearance_data@.len() > 0 { p.appearance_data@[0].flags } else { 0u32 })
    &&& a.hover_height == (if p.appearance_hover@.len() > 0 {
        p.appearance_hover@[0].hover_height
    } else {
        Vector3Bits { x: 0, y: 0, z: 0 }
    })
    &&& a.attachments@.len() == p.attachment_block@.len()
    &&& forall|i: int| 0 <= i < p.attachment_block@.len() ==> (#[trigger] a.attachments@[i]).item_id == p.attachment_block@[i].i_d
        && a.attachments@[i].attachment_point == p.attachment_block@[i].attachment_point
}

fn attachments_of(blocks: &Vec<AvatarAppearanceAttachmentBlockBlock>) -> (r: Vec<AvatarAttachment>)
    ensures
        r@.len() == blocks@.len(),
        forall|i: int| 0 <= i < blocks@.len() ==> (#[trigger] r@[i]).item_id == blocks@[i].i_d
            && r@[i].attachment_point == blocks@[i].attachment_point,
{
    let mut out: Vec<AvatarAttachment> = Vec::new();
    let mut i: usize = 0;
    while i < blocks.len()
        invariant
            i <= blocks@.len(),
            out@.len() == i,
            forall|j: int| 0 <= j < i ==> (#[trigger] out@[j]).item_id == blocks@[j].i_d
                && out@[j].attachment_point == blocks@[j].attachment_point,
        decreases blocks@.len() - i,
    {
        out.push(AvatarAttachment { item_id: blocks[i].i_d, attachment_point: blocks[i].attachment_point });
        i = i + 1;
    }
    out
}

/// The appearance of an `AvatarAppearance` packet; `None` for any other
/// packet.
pub fn parse_avatar_appearance(packet: &WrappedPacket) -> (r: Option<AvatarAppearance>)
    ensures
        match packet {
            WrappedPacket::AvatarAppearance(p) => r is Some && spec_appearance_of(*p, r->0),
            _ => r is None,
        },
{
    match packet {
        WrappedPacket::AvatarAppearance(ap) => {
            let attachments = attachments_of(&ap.attachment_block);
            let param_value: u8 = if ap.visual_param.len() > 0 { ap.visual_param[0].param_value } else { 0 };
            let (appearance_version, cof_version, flags): (u8, i32, u32) = if ap.appearance_data.len() > 0 {
                (ap.appearance_data[0].appearance_version, ap.appearance_data[0].cof_version, ap.appearance_data[0].flags)
            } else {
                (0, 0, 0)
            };
            let hover_height = if ap.appearance_hover.len() > 0 {
                ap.appearance_hover[0].hover_height
            } else {
                Vector3Bits { x: 0, y: 0, z: 0 }
            };
            Some(AvatarAppearance {
                sender_id: ap.sender.i_d,
                is_trial: ap.sender.is_trial,
                texture_entry: ap.object_data.texture_entry.clone(),
                param_value,
                appearance_version,
                cof_version,
                flags,
                hover_height,
                attachments,
            })
        },
        _ => None,
    }
}


/// The `RebakeAvatarTextures` (Low 87, reliable) asking to rebake
/// `texture_id`.
pub fn rebake_avatar_textures(sequence: u32, texture_id: UUID) -> (p: RebakeAvatarTexturesPacket)
    ensures
        spec_plain_header(p.header, PacketFrequency::Low, 87, true, sequence),
        p.texture_i_d == texture_id,
{
    RebakeAvatarTexturesPacket { header: message_header(PacketFrequency::Low, 87, true, sequence), texture_i_d: texture_id }
}

} // verus!
