//! Objects: the primitive shape codes and materials of a new prim, and the
//! messages that create, delete, link, unlink, name and describe objects
//! (identified by their per-region local identifiers).

use crate::header::PacketFrequency;
use crate::messages::{
    bytes_to_vec, message_header, spec_plain_header, AgentSessionBlock, ObjectAddAgentDataBlock, ObjectAddObjectDataBlock,
    ObjectAddPacket, ObjectDeletePacket, ObjectDelinkPacket, ObjectDescriptionPacket, ObjectLinkPacket, ObjectNamePacket,
    ObjectTextBlock,
};
use crate::packets::{QuaternionBits, Vector3Bits};
use crate::uuid::{spec_is_nil, UUID};
use vstd::string::StringSliceAdditionalSpecFns;
use vstd::prelude::*;

verus! {

pub const P_CODE_SPHERE: u8 = 0x20;
pub const P_CODE_BOX: u8 = 0x10;
pub const P_CODE_CYLINDER: u8 = 0x30;
pub const P_CODE_CONE: u8 = 0x40;
pub const P_CODE_TORUS: u8 = 0x50;
pub const P_CODE_PRISM: u8 = 0x60;
pub const P_CODE_SCULPT: u8 = 0x70;

pub const MATERIAL_STONE: u8 = 0;
pub const MATERIAL_METAL: u8 = 1;
pub const MATERIAL_GLASS: u8 = 2;
pub const MATERIAL_WOOD: u8 = 3;
pub const MATERIAL_FLESH: u8 = 4;
pub const MATERIAL_PLASTIC: u8 = 5;
pub const MATERIAL_RUBBER: u8 = 6;
pub const MATERIAL_LIGHT: u8 = 7;


/// The shape `ObjectAdd` gives a new prim of kind `p_code` and material
/// `material`: a straight path (curve 16) with a circle profile (curve 1),
/// full path scale (100, 100), and every other shape parameter zero.
pub open spec fn spec_prim_shape(o: ObjectAddObjectDataBlock, p_code: u8, material: u8) -> bool {
    &&& o.p_code == p_code && o.material == material && o.add_flags == 0
    &&& o.path_curve == 16 && o.profile_curve == 1
    &&& o.path_begin == 0 && o.path_end == 0
    &&& o.path_scale_x == 100 && o.path_scale_y == 100
    &&& o.path_shear_x == 0 && o.path_shear_y == 0
    &&& o.path_twist == 0 && o.path_twist_begin == 0 && o.path_radius_offset == 0
    &&& o.path_taper_x == 0 && o.path_taper_y == 0 && o.path_revolutions == 0 && o.path_skew == 0
    &&& o.profile_begin == 0 && o.profile_end == 0 && o.profile_hollow == 0
}

/// The `ObjectAdd` (Medium 1, reliable) creating a prim where the ray from
/// `ray_start` to `ray_end` hits: no group, the ray is cast (no bypass, no
/// target, its end taken as the intersection), with `scale` and
/// `rotation`, state 0, and the shape of `spec_prim_shape`.
pub fn object_add(
    sequence: u32,
    agent_id: UUID,
    session_id: UUID,
    p_code: u8,
    material: u8,
    scale: Vector3Bits,
    rotation: QuaternionBits,
    ray_start: Vector3Bits,
    ray_end: Vector3Bits,
) -> (p: ObjectAddPacket)
    ensures
        spec_plain_header(p.header, PacketFrequency::Medium, 1, true, sequence),
        p.agent_data.agent_i_d == agent_id && p.agent_data.session_i_d == session_id,
        spec_is_nil(p.agent_data.group_i_d),
        spec_prim_shape(p.object_data, p_code, material),
        p.object_data.bypass_raycast == 0,
        p.object_data.ray_start == ray_start,
        p.object_data.ray_end == ray_end,
        spec_is_nil(p.object_data.ray_target_i_d),
        p.object_data.ray_end_is_intersection == 1,
        p.object_data.scale == scale,
        p.object_data.rotation == rotation,
        p.object_data.state == 0,
{
    ObjectAddPacket {
        header: message_header(PacketFrequency::Medium, 1, true, sequence),
        agent_data: ObjectAddAgentDataBlock { agent_i_d: agent_id, session_i_d: session_id, group_i_d: UUID([0u8; 16]) },
        object_data: ObjectAddObjectDataBlock {
            p_code,
            material,
            add_flags: 0,
            path_curve: 16,
            profile_curve: 1,
            path_begin: 0,
            path_end: 0,
            path_scale_x: 100,
            path_scale_y: 100,
            path_shear_x: 0,
            path_shear_y: 0,
            path_twist: 0,
            path_twist_begin: 0,
            path_radius_offset: 0,
            path_taper_x: 0,
            path_taper_y: 0,
            path_revolutions: 0,
            path_skew: 0,
            profile_begin: 0,
            profile_end: 0,
            profile_hollow: 0,
            bypass_raycast: 0,
            ray_start,
            ray_end,
            ray_target_i_d: UUID([0u8; 16]),
            ray_end_is_intersection: 1,
            scale,
            rotation,
            state: 0,
        },
    }
}

/// The `ObjectDelete` (Low 89, reliable) deleting the objects with local
/// identifiers `object_local_ids`, in order.
pub fn object_delete(sequence: u32, agent_id: UUID, session_id: UUID, object_local_ids: &[u32], force: bool) -> (p:
    ObjectDeletePacket)
    ensures
        spec_plain_header(p.header, PacketFrequency::Low, 89, true, sequence),
        p.agent_data == (AgentSessionBlock { agent_i_d: agent_id, session_i_d: session_id }),
        p.force == force,
        p.object_data@ == object_local_ids@,
{
    ObjectDeletePacket {
        header: message_header(PacketFrequency::Low, 89, true, sequence),
        agent_data: AgentSessionBlock { agent_i_d: agent_id, session_i_d: session_id },
        force,
        object_data: local_ids_to_vec(object_local_ids),
    }
}

fn local_ids_to_vec(ids: &[u32]) -> (r: Vec<u32>)
    ensures
        r@ == ids@,
{
    let mut r: Vec<u32> = Vec::new();
    let mut i: usize = 0;
    while i < ids.len()
        invariant
            i <= ids@.len(),
            r@ == ids@.take(i as int),
        decreases ids@.len() - i,
    {
        r.push(ids[i]);
        assert(ids@.take(i + 1) == ids@.take(i as int).push(ids@[i as int]));
        i = i + 1;
    }
    assert(ids@.take(ids@.len() as int) == ids@);
    r
}

/// The `ObjectLink` (Low 115, reliable) linking the objects with local
/// identifiers `object_local_ids`; the first becomes the root.
pub fn object_link(sequence: u32, agent_id: UUID, session_id: UUID, object_local_ids: &[u32]) -> (p: ObjectLinkPacket)
    ensures
        spec_plain_header(p.header, PacketFrequency::Low, 115, true, sequence),
        p.agent_data == (AgentSessionBlock { agent_i_d: agent_id, session_i_d: session_id }),
        p.object_data@ == object_local_ids@,
{
    ObjectLinkPacket {
        header: message_header(PacketFrequency::Low, 115, true, sequence),
        agent_data: AgentSessionBlock { agent_i_d: agent_id, session_i_d: session_id },
        object_data: local_ids_to_vec(object_local_ids),
    }
}

/// The `ObjectDelink` (Low 116, reliable) unlinking the objects with local
/// identifiers `object_local_ids`.
pub fn object_delink(sequence: u32, agent_id: UUID, session_id: UUID, object_local_ids: &[u32]) -> (p: ObjectDelinkPacket)
    ensures
        spec_plain_header(p.header, PacketFrequency::Low, 116, true, sequence),
        p.agent_data == (AgentSessionBlock { agent_i_d: agent_id, session_i_d: session_id }),
        p.object_data@ == object_local_ids@,
{
    ObjectDelinkPacket {
        header: message_header(PacketFrequency::Low, 116, true, sequence),
        agent_data: AgentSessionBlock { agent_i_d: agent_id, session_i_d: session_id },
        object_data: local_ids_to_vec(object_local_ids),
    }
}

/// The `ObjectName` (Low 107, reliable) naming object `object_local_id`
/// `name`, as its UTF-8 bytes.
pub fn object_name(sequence: u32, agent_id: UUID, session_id: UUID, object_local_id: u32, name: &str) -> (p:
    ObjectNamePacket)
    ensures
        spec_plain_header(p.header, PacketFrequency::Low, 107, true, sequence),
        p.agent_data == (AgentSessionBlock { agent_i_d: agent_id, session_i_d: session_id }),
        p.object_data@.len() == 1,
        p.object_data@[0].local_i_d == object_local_id,
        p.object_data@[0].text@ == name.spec_bytes(),
{
    let mut object_data: Vec<ObjectTextBlock> = Vec::new();
    object_data.push(ObjectTextBlock { local_i_d: object_local_id, text: bytes_to_vec(name.as_bytes()) });
    ObjectNamePacket {
        header: message_header(PacketFrequency::Low, 107, true, sequence),
        agent_data: AgentSessionBlock { agent_i_d: agent_id, session_i_d: session_id },
        object_data,
    }
}

/// The `ObjectDescription` (Low 108, reliable) describing object
/// `object_local_id` as `description`, as its UTF-8 bytes.
pub fn object_description(sequence: u32, agent_id: UUID, session_id: UUID, object_local_id: u32, description: &str) -> (p:
    ObjectDescriptionPacket)
    ensures
        spec_plain_header(p.header, PacketFrequency::Low, 108, true, sequence),
        p.agent_data == (AgentSessionBlock { agent_i_d: agent_id, session_i_d: session_id }),
        p.object_data@.len() == 1,
        p.object_data@[0].local_i_d == object_local_id,
        p.object_data@[0].text@ == description.spec_bytes(),
{
    let mut object_data: Vec<ObjectTextBlock> = Vec::new();
    object_data.push(ObjectTextBlock { local_i_d: object_local_id, text: bytes_to_vec(description.as_bytes()) });
    ObjectDescriptionPacket {
        header: message_header(PacketFrequency::Low, 108, true, sequence),
        agent_data: AgentSessionBlock { agent_i_d: agent_id, session_i_d: session_id },
        object_data,
    }
}

} // verus!
