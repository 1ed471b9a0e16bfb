use protocol::data::entity::teleport::{MovementMode, TeleportCause};
use protocol::data::generic::{PlayStatusType, TextType};
use protocol::data::inventory::{InventorySourceType, InventoryTransactionData};
use protocol::data::item::{ItemStack, ItemType};
use protocol::data::{Position, Rotation, UBlockPos, UUID};
use protocol::error::Error;
use protocol::packet::header::PacketHeader;
use protocol::data::entity::attribute::{Attribute, AttributeModifier, AttributeOperation, AttributeTargetOperand};
use protocol::data::game::ExperimentData;
use protocol::data::resource_pack::StackResourcePack;
use protocol::packet::play::{
    AddPlayer, C2SHandshake, Disconnect, Login, MovePlayer, PlayStatus, ResourcePackStack,
    SetTime, StartGame, Text, UpdateAttributes, UpdateBlock,
};
use protocol::packet::prelogin::{NetworkSettings, RequestNetworkSettings};
use protocol::packet::{Packet, PacketID};
use protocol::wire;

fn body_of<F: Fn(&mut Vec<u8>)>(f: F) -> Vec<u8> {
    let mut out = Vec::new();
    f(&mut out);
    out
}

#[test]
fn disconnect_hidden_screen_is_one_byte() {
    let d = Disconnect { hide_screen: true, message: None };
    let bytes = body_of(|o| d.serialize(o));
    assert_eq!(bytes, vec![1]);
    let (back, used) = Disconnect::deserialize(&bytes, 0).unwrap();
    assert_eq!(back, d);
    assert_eq!(used, 1);
}

#[test]
fn disconnect_shown_screen_writes_message() {
    let d = Disconnect { hide_screen: false, message: Some("x".to_string()) };
    let bytes = body_of(|o| d.serialize(o));
    assert_eq!(bytes, vec![0, 1, b'x']);
    let (back, used) = Disconnect::deserialize(&bytes, 0).unwrap();
    assert_eq!(back, d);
    assert_eq!(used, 3);
}

#[test]
fn disconnect_message_beside_hidden_screen_is_dropped() {
    let d = Disconnect { hide_screen: true, message: Some("gone".to_string()) };
    assert_eq!(body_of(|o| d.serialize(o)), vec![1]);
}

#[test]
fn disconnect_invalid_utf8_is_an_error() {
    assert_eq!(Disconnect::deserialize(&[0, 1, 0xff], 0), Err(Error::InvalidText));
}

#[test]
fn disconnect_decodes_message_text() {
    let (d, _) = Disconnect::deserialize(&[0, 2, b'h', b'i'], 0).unwrap();
    assert_eq!(d.message, Some("hi".to_string()));
}

#[test]
fn text_chat_writes_source_and_message() {
    let t = Text {
        text_type: TextType::Chat,
        source_name: "Bob".to_string(),
        message: "hi".to_string(),
        ..Default::default()
    };
    let bytes = body_of(|o| t.serialize(o));
    assert_eq!(bytes, vec![1, 0, 3, b'B', b'o', b'b', 2, b'h', b'i', 0, 0]);
    let (back, used) = Text::deserialize(&bytes, 0).unwrap();
    assert_eq!(back, t);
    assert_eq!(used, bytes.len());
}

#[test]
fn text_translation_writes_message_and_parameters() {
    let t = Text {
        text_type: TextType::Translation,
        message: "%s".to_string(),
        parameters: vec!["a".to_string()],
        xuid: "x".to_string(),
        platform_chat_id: "p".to_string(),
        ..Default::default()
    };
    let bytes = body_of(|o| t.serialize(o));
    assert_eq!(bytes, vec![2, 0, 2, b'%', b's', 1, 1, b'a', 1, b'x', 1, b'p']);
    let (back, _) = Text::deserialize(&bytes, 0).unwrap();
    assert_eq!(back, t);
}

#[test]
fn text_raw_writes_message_only() {
    let t = Text {
        text_type: TextType::Raw,
        needs_translation: true,
        source_name: "ignored".to_string(),
        message: "m".to_string(),
        ..Default::default()
    };
    assert_eq!(body_of(|o| t.serialize(o)), vec![0, 1, 1, b'm', 0, 0]);
}

#[test]
fn text_unknown_kind_writes_no_body() {
    let t = Text {
        text_type: TextType::Invalid,
        message: "m".to_string(),
        ..Default::default()
    };
    assert_eq!(body_of(|o| t.serialize(o)), vec![12, 0, 0, 0]);
    let (back, _) = Text::deserialize(&[200, 0, 0, 0], 0).unwrap();
    assert_eq!(back.text_type, TextType::Invalid);
    assert_eq!(back.message, "");
}

#[test]
fn item_stack_without_item_is_one_varint() {
    let s = ItemStack {
        item_type: ItemType { network_id: 0, metadata_value: 7 },
        block_runtime_id: 5,
        count: 99,
        can_be_placed_on: vec!["stone".to_string()],
        can_break: vec![],
    };
    assert_eq!(body_of(|o| s.serialize(o)), vec![0]);
}

#[test]
fn item_stack_with_item_writes_all_fields() {
    let s = ItemStack {
        item_type: ItemType { network_id: 3, metadata_value: 1 },
        block_runtime_id: 2,
        count: 99,
        can_be_placed_on: vec!["ab".to_string()],
        can_break: vec![],
    };
    assert_eq!(
        body_of(|o| s.serialize(o)),
        vec![3, 99, 0, 1, 2, 1, 0, 0, 0, 2, 0, b'a', b'b', 0, 0, 0, 0]
    );
}

#[test]
fn item_stack_decode_is_unsupported() {
    assert_eq!(ItemStack::deserialize(&[0], 0), Err(Error::Unsupported));
}

#[test]
fn header_packs_and_unpacks() {
    let h = PacketHeader { id: 0x3FF, sender_subclient_id: 3, target_subclient_id: 2 };
    let bytes = body_of(|o| h.serialize(o));
    // 0x3FF | 3 << 10 | 2 << 12 = 0x2FFF
    assert_eq!(bytes, vec![0xFF, 0x5F]);
    let (back, used) = PacketHeader::deserialize(&bytes, 0).unwrap();
    assert_eq!(back, h);
    assert_eq!(used, 2);
    assert_eq!(PacketHeader::new(9).id(), 9);
}

#[test]
fn header_new_has_zero_subclients() {
    let h = PacketHeader::new(0x13);
    assert_eq!(h.sender_subclient_id, 0);
    assert_eq!(h.target_subclient_id, 0);
    assert_eq!(body_of(|o| h.serialize(o)), vec![0x13]);
}

#[test]
fn unknown_tag_decodes_to_sentinel() {
    assert_eq!(TextType::from_tag(200), TextType::Invalid);
    assert_eq!(TextType::deserialize(&[77], 0), Ok((TextType::Invalid, 1)));
    assert_eq!(PlayStatusType::deserialize(&[0, 0, 0, 42], 0), Ok((PlayStatusType::Invalid, 4)));
    assert_eq!(TeleportCause::from_tag(9), TeleportCause::Unknown);
    assert_eq!(InventorySourceType::from_tag(5000), InventorySourceType::NonImplemented);
    assert_eq!(
        InventoryTransactionData::deserialize(&[9, 1, 2, 3], 0),
        Ok((InventoryTransactionData::Invalid, 1))
    );
}

#[test]
fn known_tags_round_trip() {
    assert_eq!(TextType::from_tag(TextType::Whisper.tag()), TextType::Whisper);
    assert_eq!(InventorySourceType::Invalid.tag(), 0xFFFF_FFFF);
    assert_eq!(InventorySourceType::from_tag(0xFFFF_FFFF), InventorySourceType::Invalid);
    assert_eq!(MovementMode::from_tag(3), MovementMode::Rotation);
}

#[test]
fn play_status_is_big_endian() {
    let p = PlayStatus { status: PlayStatusType::PlayerSpawn };
    assert_eq!(body_of(|o| p.serialize(o)), vec![0, 0, 0, 3]);
}

#[test]
fn inventory_transaction_round_trip() {
    let v = InventoryTransactionData::UseItemOnEntity {
        target_runtime_id: 300,
        action_type: 1,
        hotbar_slot: -1,
    };
    let bytes = body_of(|o| v.serialize(o));
    assert_eq!(bytes, vec![3, 0xAC, 0x02, 1, 0xFF, 0xFF, 0xFF, 0xFF, 0x0F]);
    assert_eq!(InventoryTransactionData::deserialize(&bytes, 0), Ok((v, bytes.len())));
}

#[test]
fn unknown_packet_id_is_an_error() {
    // header value 0x3FF: an ID nothing is registered under
    assert_eq!(
        Packet::decode(&[0xFF, 0x07]),
        Err(Error::UnknownPacketId { id: 0x3FF, offset: 0 })
    );
    assert_eq!(
        Packet::deserialize(&[9, 9, 0x20], 2),
        Err(Error::UnknownPacketId { id: 0x20, offset: 2 })
    );
}

#[test]
fn truncated_input_is_an_error() {
    assert_eq!(Packet::decode(&[]), Err(Error::UnexpectedEnd));
    assert_eq!(Packet::decode(&[0x0a]), Err(Error::UnexpectedEnd));
    assert_eq!(wire::read_le(&[1, 2], 0, 4), Err(Error::UnexpectedEnd));
}

#[test]
fn overlong_varint_is_an_error() {
    assert_eq!(wire::read_var_u32(&[0xFF; 6], 0), Err(Error::VarIntOverflow));
    assert_eq!(wire::read_var_u32(&[0xFF, 0xFF, 0xFF, 0xFF, 0x7F], 0), Err(Error::VarIntOverflow));
}

#[test]
fn varint_values() {
    assert_eq!(body_of(|o| wire::write_var_u32(o, 300)), vec![0xAC, 0x02]);
    assert_eq!(body_of(|o| wire::write_var_i32(o, -1)), vec![0xFF, 0xFF, 0xFF, 0xFF, 0x0F]);
    assert_eq!(wire::read_var_u32(&[0xAC, 0x02], 0), Ok((300, 2)));
    assert_eq!(wire::read_var_u64(&[0xFF; 9].iter().chain([1u8].iter()).cloned().collect::<Vec<u8>>(), 0), Ok((u64::MAX, 10)));
}

#[test]
fn packet_round_trips_keep_kind() {
    let packets = vec![
        Packet::SetTime(SetTime { time: -5 }),
        Packet::C2SHandshake(C2SHandshake {}),
        Packet::Login(Login { protocol: 618, data: vec![1, 2, 3] }),
        Packet::Disconnect(Disconnect { hide_screen: false, message: Some("bye".to_string()) }),
        Packet::UpdateBlock(UpdateBlock {
            position: UBlockPos { x: -3, y: 64, z: 7 },
            new_runtime_id: 1000,
            flags: 3,
            layer: 0,
        }),
        Packet::MovePlayer(MovePlayer {
            entity_runtime_id: 1,
            position: Position { x: 1.5f32.to_bits(), y: 64.0f32.to_bits(), z: (-2.0f32).to_bits() },
            pitch: 0,
            yaw: 90.0f32.to_bits(),
            head_yaw: 90.0f32.to_bits(),
            mode: MovementMode::Teleportation,
            on_ground: true,
            ridden_runtime_id: 0,
            cause: TeleportCause::Command,
            source_entity_type: -1,
            tick: 12345,
        }),
        Packet::NetworkSettings(NetworkSettings {
            compression_threshold: 256,
            compression_alogrithm: 1,
            client_throttle: false,
            client_throttle_threshold: 0,
            client_throttle_scalar: 0.5f32.to_bits(),
        }),
    ];
    for p in packets {
        let bytes = p.encode();
        let (back, used) = Packet::decode(&bytes).unwrap();
        assert_eq!(used, bytes.len());
        assert_eq!(back.id(), p.id());
        assert_eq!(back, p);
    }
}

#[test]
fn request_network_settings_bytes() {
    let p = Packet::RequestNetworkSettings(RequestNetworkSettings { client_protocol: 618 });
    assert_eq!(p.id_of(), 0xc1);
    assert_eq!(p.encode(), vec![0xC1, 0x01, 0, 0, 0x02, 0x6A]);
}

#[test]
fn registry_ids_are_distinct() {
    let kinds = [
        PacketID::Login, PacketID::PlayStatus, PacketID::S2CHandshake, PacketID::C2SHandshake,
        PacketID::Disconnect, PacketID::ResourcePackClientResponse, PacketID::Text,
        PacketID::SetTime, PacketID::TakeItemActor, PacketID::MoveActorAbsolute,
        PacketID::MovePlayer, PacketID::PassengerJump, PacketID::UpdateBlock,
        PacketID::AddPainting, PacketID::TickSync, PacketID::LevelEvent, PacketID::BlockEvent,
        PacketID::ActorEvent, PacketID::MobEffect, PacketID::RequestNetworkSettings,
        PacketID::NetworkSettings, PacketID::ResourcePacksInfo, PacketID::ResourcePackStack,
        PacketID::UpdateAttributes, PacketID::StartGame, PacketID::AddPlayer,
    ];
    assert_eq!(kinds.len(), 26);
    for (i, a) in kinds.iter().enumerate() {
        assert_eq!(PacketID::from_wire_id(a.wire_id()), Some(*a));
        for b in kinds.iter().skip(i + 1) {
            assert_ne!(a.wire_id(), b.wire_id());
        }
    }
    assert_eq!(PacketID::from_wire_id(0x0b + 0x100), None);
}

#[test]
fn rotation_and_uuid_bytes() {
    let r = Rotation { x: 128, y: 0, z: 255 };
    assert_eq!(body_of(|o| r.serialize(o)), vec![128, 0, 255]);
    let raw: [u8; 16] = [1, 2, 3, 4, 5, 6, 7, 8, 9, 10, 11, 12, 13, 14, 15, 16];
    let u = UUID { bytes: raw };
    let bytes = body_of(|o| u.serialize(o));
    assert_eq!(bytes, raw.to_vec());
    assert_eq!(UUID::deserialize(&bytes, 0), Ok((u, 16)));
    assert_eq!(UUID::deserialize(&bytes[..15], 0), Err(Error::UnexpectedEnd));
}

#[test]
fn rotation_quantization_steps() {
    let step: f32 = 360.0 / 256.0;
    let r = Rotation { x: (180.0f32 / step) as u8, y: (0.0f32 / step) as u8, z: 0 };
    let bytes = body_of(|o| r.serialize(o));
    let (back, _) = Rotation::deserialize(&bytes, 0).unwrap();
    let angle = back.x as f32 * step;
    assert!((angle - 180.0).abs() <= step);
    assert_eq!(back.y as f32 * step, 0.0);
}

#[test]
fn resource_pack_stack_round_trip() {
    let p = Packet::ResourcePackStack(ResourcePackStack {
        texture_pack_required: true,
        behaviour_packs: vec![StackResourcePack {
            uuid: "u".to_string(),
            version: "1.0".to_string(),
            subpack_name: String::new(),
        }],
        texture_packs: vec![],
        base_game_version: "1.20".to_string(),
        experiments: vec![ExperimentData { name: "e".to_string(), enabled: true }],
        experiments_previously_toggled: false,
    });
    let bytes = p.encode();
    assert_eq!(&bytes[..3], &[0x07, 1, 1]);
    assert_eq!(Packet::decode(&bytes), Ok((p, bytes.len())));
}

#[test]
fn update_attributes_round_trip() {
    let p = Packet::UpdateAttributes(UpdateAttributes {
        entity_runtime_id: 7,
        attributes: vec![Attribute {
            min: 0,
            max: 20.0f32.to_bits(),
            current: 20.0f32.to_bits(),
            default: 20.0f32.to_bits(),
            id: "minecraft:health".to_string(),
            modifiers: vec![AttributeModifier {
                id: "m".to_string(),
                name: "n".to_string(),
                amound: 1.0f32.to_bits(),
                operation: AttributeOperation::Add,
                operand: AttributeTargetOperand::Max,
                serializable: true,
            }],
        }],
        tick: 99,
    });
    let bytes = p.encode();
    assert_eq!(Packet::decode(&bytes), Ok((p, bytes.len())));
}

#[test]
fn encode_only_kinds_report_unsupported() {
    let start = Packet::StartGame(StartGame::default());
    let bytes = start.encode();
    assert_eq!(bytes[0], 0x0b);
    assert_eq!(Packet::decode(&bytes), Err(Error::Unsupported));
    let add = Packet::AddPlayer(AddPlayer { username: "Steve".to_string(), ..Default::default() });
    let bytes = add.encode();
    assert_eq!(&bytes[..2], &[0x0c, 0]);
    assert_eq!(&bytes[17..23], &[5, b'S', b't', b'e', b'v', b'e']);
    assert_eq!(Packet::decode(&bytes), Err(Error::Unsupported));
}

#[test]
fn header_round_trips_for_every_in_range_value() {
    for id in 0..=0x3FFu32 {
        for sender in 0..4u8 {
            for target in 0..4u8 {
                let h = PacketHeader { id, sender_subclient_id: sender, target_subclient_id: target };
                let bytes = body_of(|o| h.serialize(o));
                assert_eq!(PacketHeader::deserialize(&bytes, 0), Ok((h, bytes.len())));
            }
        }
    }
}

#[test]
fn text_round_trips_for_every_kind() {
    for tag in 0..13u32 {
        let kind = TextType::from_tag(tag);
        let mut t = Text { text_type: kind, xuid: "1".to_string(), ..Default::default() };
        match kind {
            TextType::Chat | TextType::Whisper | TextType::Announcement => {
                t.source_name = "s".to_string();
                t.message = "m".to_string();
            }
            TextType::Translation | TextType::Popup | TextType::JukeboxPopup => {
                t.message = "m".to_string();
                t.parameters = vec!["a".to_string(), "b".to_string()];
            }
            TextType::Invalid => {}
            _ => t.message = "m".to_string(),
        }
        let p = Packet::Text(t);
        let bytes = p.encode();
        assert_eq!(Packet::decode(&bytes), Ok((p, bytes.len())));
    }
}

#[test]
fn explicit_subclients_go_into_the_header() {
    let p = Packet::SetTime(SetTime { time: 1 });
    let mut out = Vec::new();
    p.serialize_with_subclients(1, 2, &mut out);
    // 0x0a | 1 << 10 | 2 << 12 = 0x240a
    assert_eq!(out, vec![0x8A, 0x48, 1]);
    let (h, used) = PacketHeader::deserialize(&out, 0).unwrap();
    assert_eq!((h.id(), h.sender_subclient_id, h.target_subclient_id), (0x0a, 1, 2));
    assert_eq!(SetTime::deserialize(&out, used), Ok((SetTime { time: 1 }, 3)));
}
