use rustmetaverse::appearance::{
    BAKED_HAIR, BAKED_HEAD, BAKED_UPPER, WEARABLE_HAIR, WEARABLE_SHAPE, WEARABLE_SKIN,
};
use rustmetaverse::chat::{CHAT_TYPE_NORMAL, CHAT_TYPE_SAY, CHAT_TYPE_SHOUT, CHAT_TYPE_WHISPER};
use rustmetaverse::groups::GroupProfile;
use rustmetaverse::inventory::{
    ASSET_TYPE_ANIMATION, ASSET_TYPE_OBJECT, ASSET_TYPE_TEXTURE, INV_TYPE_ANIMATION,
    INV_TYPE_LSL, INV_TYPE_NOTECARD, INV_TYPE_TEXTURE, SORT_ORDER_BY_DATE, SORT_ORDER_BY_NAME,
};
use rustmetaverse::messaging::{
    IM_DIALOG_FRIENDSHIP_OFFERED, IM_DIALOG_MESSAGE_FROM_AGENT, IM_DIALOG_REQUEST_TELEPORT,
};
use rustmetaverse::movement::{
    CONTROL_AT_NEG, CONTROL_AT_POS, CONTROL_LEFT_NEG, CONTROL_LEFT_POS, CONTROL_TURN_LEFT,
    CONTROL_TURN_RIGHT, CONTROL_UP_NEG, CONTROL_UP_POS,
};
use rustmetaverse::objects::{
    MATERIAL_LIGHT, MATERIAL_STONE, MATERIAL_WOOD, P_CODE_BOX, P_CODE_CONE, P_CODE_CYLINDER,
    P_CODE_SPHERE, P_CODE_TORUS,
};
use rustmetaverse::uuid::UUID;

#[test]
fn wearable_constants() {
    assert_eq!(WEARABLE_SHAPE, 0);
    assert_eq!(WEARABLE_SKIN, 1);
    assert_eq!(WEARABLE_HAIR, 2);
}

#[test]
fn baked_constants() {
    assert_eq!(BAKED_HEAD, 0);
    assert_eq!(BAKED_UPPER, 1);
    assert_eq!(BAKED_HAIR, 4);
}

#[test]
fn chat_type_constants() {
    assert_eq!(CHAT_TYPE_WHISPER, 0);
    assert_eq!(CHAT_TYPE_NORMAL, 1);
    assert_eq!(CHAT_TYPE_SHOUT, 2);
    assert_eq!(CHAT_TYPE_SAY, 3);
}

#[test]
fn group_profile_roundtrip_fields() {
    let profile = GroupProfile {
        group_id: UUID::default(),
        name: "Test Group".to_string(),
        charter: "A test".to_string(),
        show_in_list: true,
        member_title: "Member".to_string(),
        powers_mask: 0,
        insignia_id: UUID::default(),
        founder_id: UUID::default(),
        membership_fee: 0,
        open_enrollment: false,
        money: 0,
        group_membership_count: 1,
        group_roles_count: 1,
        allow_publish: false,
        mature_publish: false,
        owner_role: UUID::default(),
    };
    assert_eq!(profile.name, "Test Group");
    assert_eq!(profile.group_membership_count, 1);
}

#[test]
fn inv_type_constants() {
    assert_eq!(INV_TYPE_TEXTURE, 0);
    assert_eq!(INV_TYPE_NOTECARD, 7);
    assert_eq!(INV_TYPE_LSL, 8);
    assert_eq!(INV_TYPE_ANIMATION, 19);
}

#[test]
fn asset_type_constants() {
    assert_eq!(ASSET_TYPE_TEXTURE, 0);
    assert_eq!(ASSET_TYPE_OBJECT, 6);
    assert_eq!(ASSET_TYPE_ANIMATION, 19);
}

#[test]
fn sort_order_constants() {
    assert_eq!(SORT_ORDER_BY_NAME, 0);
    assert_eq!(SORT_ORDER_BY_DATE, 1);
}

#[test]
fn im_dialog_constants() {
    assert_eq!(IM_DIALOG_MESSAGE_FROM_AGENT, 0);
    assert_eq!(IM_DIALOG_REQUEST_TELEPORT, 19);
    assert_eq!(IM_DIALOG_FRIENDSHIP_OFFERED, 38);
}

#[test]
fn control_flags_are_distinct() {
    assert_ne!(CONTROL_AT_POS, CONTROL_AT_NEG);
    assert_ne!(CONTROL_LEFT_POS, CONTROL_LEFT_NEG);
    assert_ne!(CONTROL_UP_POS, CONTROL_UP_NEG);
    assert_ne!(CONTROL_TURN_LEFT, CONTROL_TURN_RIGHT);
}

#[test]
fn control_flags_can_combine() {
    let combined = CONTROL_AT_POS | CONTROL_TURN_LEFT;
    assert!(combined & CONTROL_AT_POS != 0);
    assert!(combined & CONTROL_TURN_LEFT != 0);
}

#[test]
fn p_code_constants() {
    assert_eq!(P_CODE_BOX, 0x10);
    assert_eq!(P_CODE_SPHERE, 0x20);
    assert_eq!(P_CODE_CYLINDER, 0x30);
    assert_eq!(P_CODE_CONE, 0x40);
    assert_eq!(P_CODE_TORUS, 0x50);
}

#[test]
fn material_constants() {
    assert_eq!(MATERIAL_STONE, 0);
    assert_eq!(MATERIAL_WOOD, 3);
    assert_eq!(MATERIAL_LIGHT, 7);
}

#[test]
fn uuid_zero_is_nil() {
    let z = rustmetaverse::uuid::UUID::zero();
    assert!(z.is_zero());
    assert_eq!(z, rustmetaverse::uuid::UUID::default());
    assert_eq!(z.to_string(), "00000000-0000-0000-0000-000000000000");
}
