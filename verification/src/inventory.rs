//! Inventory: the type codes of items and assets, sort orders, asking for a
//! folder's contents, and those contents as `InventoryDescendents` reports
//! them.

use crate::packets::{
    InventoryDescendentsFolderDataBlock, InventoryDescendentsItemDataBlock, WrappedPacket,
};
use crate::text::{string_from_utf8_lossy, utf8_lossy};
use crate::uuid::UUID;
use crate::header::PacketFrequency;
use crate::messages::{
    message_header, spec_plain_header, AgentSessionBlock, FetchInventoryDescendentsInventoryDataBlock,
    FetchInventoryDescendentsPacket,
};
use vstd::prelude::*;

verus! {

pub const SORT_ORDER_BY_NAME: i32 = 0;
pub const SORT_ORDER_BY_DATE: i32 = 1;
pub const SORT_ORDER_FOLDERS_BY_NAME: i32 = 2;
pub const SORT_ORDER_SYSTEM_FOLDERS_TO_TOP: i32 = 4;

pub const INV_TYPE_TEXTURE: i8 = 0;
pub const INV_TYPE_SOUND: i8 = 1;
pub const INV_TYPE_CALLING_CARD: i8 = 2;
pub const INV_TYPE_LANDMARK: i8 = 3;
pub const INV_TYPE_CLOTHING: i8 = 5;
pub const INV_TYPE_OBJECT: i8 = 6;
pub const INV_TYPE_NOTECARD: i8 = 7;
pub const INV_TYPE_LSL: i8 = 8;
pub const INV_TYPE_BODY_PART: i8 = 13;
pub const INV_TYPE_ANIMATION: i8 = 19;
pub const INV_TYPE_GESTURE: i8 = 20;

pub const ASSET_TYPE_TEXTURE: i8 = 0;
pub const ASSET_TYPE_SOUND: i8 = 1;
pub const ASSET_TYPE_CALLING_CARD: i8 = 2;
pub const ASSET_TYPE_LANDMARK: i8 = 3;
pub const ASSET_TYPE_CLOTHING: i8 = 5;
pub const ASSET_TYPE_OBJECT: i8 = 6;
pub const ASSET_TYPE_NOTECARD: i8 = 7;
pub const ASSET_TYPE_LSL_TEXT: i8 = 8;
pub const ASSET_TYPE_LSL_BYTECODE: i8 = 9;
pub const ASSET_TYPE_BODYPART: i8 = 13;
pub const ASSET_TYPE_ANIMATION: i8 = 19;
pub const ASSET_TYPE_GESTURE: i8 = 20;

/// An inventory folder.
#[derive(Debug, Clone)]
pub struct InventoryFolder {
    pub folder_id: UUID,
    pub parent_id: UUID,
    pub folder_type: i8,
    pub name: String,
}

/// An inventory item.
#[derive(Debug, Clone)]
pub struct InventoryItem {
    pub item_id: UUID,
    pub folder_id: UUID,
    pub creator_id: UUID,
    pub owner_id: UUID,
    pub group_id: UUID,
    pub base_mask: u32,
    pub owner_mask: u32,
    pub group_mask: u32,
    pub everyone_mask: u32,
    pub next_owner_mask: u32,
    pub group_owned: bool,
    pub asset_id: UUID,
    pub asset_type: i8,
    pub inv_type: i8,
    pub flags: u32,
    pub sale_type: u8,
    pub sale_price: i32,
    pub name: String,
    pub description: String,
    pub creation_date: i32,
    pub crc: u32,
}

/// The contents of a folder.
#[derive(Debug, Clone)]
pub struct InventoryDescendents {
    pub agent_id: UUID,
    pub folder_id: UUID,
    pub owner_id: UUID,
    pub version: i32,
    pub descendents: i32,
    pub folders: Vec<InventoryFolder>,
    pub items: Vec<InventoryItem>,
}

/// `f` is the folder the block describes, its name decoded as lossy UTF-8.
pub open spec fn spec_folder_of(b: InventoryDescendentsFolderDataBlock, f: InventoryFolder) -> bool {
    &&& f.folder_id == b.folder_i_d
    &&& f.parent_id == b.parent_i_d
    &&& f.folder_type == b.folder_type
    &&& f.name@ == utf8_lossy(b.name@)
}

/// `it` is the item the block describes, its texts decoded as lossy UTF-8.
pub open spec fn spec_item_of(b: InventoryDescendentsItemDataBlock, it: InventoryItem) -> bool {
    &&& it.item_id == b.item_i_d
    &&& it.folder_id == b.folder_i_d
    &&& it.creator_id == b.creator_i_d
    &&& it.owner_id == b.owner_i_d
    &&& it.group_id == b.group_i_d
    &&& it.base_mask == b.base_mask
    &&& it.owner_mask == b.owner_mask
    &&& it.group_mask == b.group_mask
    &&& it.everyone_mask == b.everyone_mask
    &&& it.next_owner_mask == b.next_owner_mask
    &&& it.group_owned == b.group_owned
    &&& it.asset_id == b.asset_i_d
    &&& it.asset_type == b.asset_type
    &&& it.inv_type == b.inv_type
    &&& it.flags == b.flags
    &&& it.sale_type == b.sale_type
    &&& it.sale_price == b.sale_price
    &&& it.name@ == utf8_lossy(b.name@)
    &&& it.description@ == utf8_lossy(b.description@)
    &&& it.creation_date == b.creation_date
    &&& it.crc == b.c_r_c
}

fn folder_of(b: &InventoryDescendentsFolderDataBlock) -> (r: InventoryFolder)
    ensures
        spec_folder_of(*b, r),
{
    InventoryFolder {
        folder_id: b.folder_i_d,
        parent_id: b.parent_i_d,
        folder_type: b.folder_type,
        name: string_from_utf8_lossy(b.name.as_slice()),
    }
}

fn item_of(b: &InventoryDescendentsItemDataBlock) -> (r: InventoryItem)
    ensures
        spec_item_of(*b, r),
{
    InventoryItem {
        item_id: b.item_i_d,
        folder_id: b.folder_i_d,
        creator_id: b.creator_i_d,
        owner_id: b.owner_i_d,
        group_id: b.group_i_d,
        base_mask: b.base_mask,
        owner_mask: b.owner_mask,
        group_mask: b.group_mask,
        everyone_mask: b.everyone_mask,
        next_owner_mask: b.next_owner_mask,
        group_owned: b.group_owned,
        asset_id: b.asset_i_d,
        asset_type: b.asset_type,
        inv_type: b.inv_type,
        flags: b.flags,
        sale_type: b.sale_type,
        sale_price: b.sale_price,
        name: string_from_utf8_lossy(b.name.as_slice()),
        description: string_from_utf8_lossy(b.description.as_slice()),
        creation_date: b.creation_date,
        crc: b.c_r_c,
    }
}

/// The folder contents of an `InventoryDescendents` packet, folders and
/// items in packet order; `None` for any other packet.
pub fn parse_inventory_descendents(packet: &WrappedPacket) -> (r: Option<InventoryDescendents>)
    ensures
        match packet {
            WrappedPacket::InventoryDescendents(p) => {
                &&& r is Some
                &&& r->0.agent_id == p.agent_data.agent_i_d
                &&& r->0.folder_id == p.agent_data.folder_i_d
                &&& r->0.owner_id == p.agent_data.owner_i_d
                &&& r->0.version == p.agent_data.version
                &&& r->0.descendents == p.agent_data.descendents
                &&& r->0.folders@.len() == p.folder_data@.len()
                &&& forall|i: int| 0 <= i < p.folder_data@.len() ==> spec_folder_of(#[trigger] p.folder_data@[i], r->0.folders@[i])
                &&& r->0.items@.len() == p.item_data@.len()
                &&& forall|i: int| 0 <= i < p.item_data@.len() ==> spec_item_of(#[trigger] p.item_data@[i], r->0.items@[i])
            },
            _ => r is None,
        },
{
    match packet {
        WrappedPacket::InventoryDescendents(desc) => {
            let mut folders: Vec<InventoryFolder> = Vec::new();
            let mut i: usize = 0;
            while i < desc.folder_data.len()
                invariant
                    i <= desc.folder_data@.len(),
                    folders@.len() == i,
                    forall|j: int| 0 <= j < i ==> spec_folder_of(#[trigger] desc.folder_data@[j], folders@[j]),
                decreases desc.folder_data@.len() - i,
            {
                folders.push(folder_of(&desc.folder_data[i]));
                i = i + 1;
            }
            let mut items: Vec<InventoryItem> = Vec::new();
            let mut k: usize = 0;
            while k < desc.item_data.len()
                invariant
                    k <= desc.item_data@.len(),
                    items@.len() == k,
                    forall|j: int| 0 <= j < k ==> spec_item_of(#[trigger] desc.item_data@[j], items@[j]),
                decreases desc.item_data@.len() - k,
            {
                items.push(item_of(&desc.item_data[k]));
                k = k + 1;
            }
            let agent = &desc.agent_data;
            Some(InventoryDescendents {
                agent_id: agent.agent_i_d,
                folder_id: agent.folder_i_d,
                owner_id: agent.owner_i_d,
                version: agent.version,
                descendents: agent.descendents,
                folders,
                items,
            })
        },
        _ => None,
    }
}


/// The `FetchInventoryDescendents` (Low 277, reliable) asking for the
/// contents of `folder_id`, owned by `owner_id`.
pub fn fetch_inventory_descendents(
    sequence: u32,
    agent_id: UUID,
    session_id: UUID,
    folder_id: UUID,
    owner_id: UUID,
    sort_order: i32,
    fetch_folders: bool,
    fetch_items: bool,
) -> (p: FetchInventoryDescendentsPacket)
    ensures
        spec_plain_header(p.header, PacketFrequency::Low, 277, true, sequence),
        p.agent_data == (AgentSessionBlock { agent_i_d: agent_id, session_i_d: session_id }),
        p.inventory_data == (FetchInventoryDescendentsInventoryDataBlock {
            folder_i_d: folder_id,
            owner_i_d: owner_id,
            sort_order,
            fetch_folders,
            fetch_items,
        }),
{
    FetchInventoryDescendentsPacket {
        header: message_header(PacketFrequency::Low, 277, true, sequence),
        agent_data: AgentSessionBlock { agent_i_d: agent_id, session_i_d: session_id },
        inventory_data: FetchInventoryDescendentsInventoryDataBlock {
            folder_i_d: folder_id,
            owner_i_d: owner_id,
            sort_order,
            fetch_folders,
            fetch_items,
        },
    }
}

} // verus!
