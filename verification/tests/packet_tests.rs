use pumpkin_protocol::DecodeError;
use pumpkin_protocol::buffer::ReadBuffer;
use pumpkin_protocol::packet::ActionType;
use pumpkin_protocol::packet::Phase;
use pumpkin_protocol::packet::SInteract;
use pumpkin_protocol::packet::ServerPacket;
use pumpkin_protocol::varint::VarInt;

#[test]
fn interact_discriminant_zero_has_hand_no_position() {
    // entity 7, action 0 (Interact), hand 1, sneaking true
    let mut buf = ReadBuffer::new(vec![0x07, 0x00, 0x01, 0x01]);
    let p = SInteract::read(&mut buf).unwrap();
    assert_eq!(p.entity_id, VarInt(7));
    assert_eq!(p.action, VarInt(0));
    assert!(p.target_position.is_none());
    assert_eq!(p.hand, Some(VarInt(1)));
    assert!(p.sneaking);
    assert_eq!(buf.remaining_len(), 0);
}

#[test]
fn interact_discriminant_one_has_no_position_no_hand() {
    // entity 7, action 1 (Attack), sneaking false
    let mut buf = ReadBuffer::new(vec![0x07, 0x01, 0x00]);
    let p = SInteract::read(&mut buf).unwrap();
    assert_eq!(p.action, VarInt(1));
    assert!(p.target_position.is_none());
    assert!(p.hand.is_none());
    assert!(!p.sneaking);
}

#[test]
fn interact_discriminant_two_has_position_and_hand() {
    // entity 7, action 2 (InteractAt), position (1.0, 2.0, -0.5), hand 0,
    // sneaking false.
    let mut payload = vec![0x07u8, 0x02];
    payload.extend_from_slice(&1.0f32.to_bits().to_be_bytes());
    payload.extend_from_slice(&2.0f32.to_bits().to_be_bytes());
    payload.extend_from_slice(&(-0.5f32).to_bits().to_be_bytes());
    payload.push(0x00);
    payload.push(0x00);
    let mut buf = ReadBuffer::new(payload);
    let p = SInteract::read(&mut buf).unwrap();
    assert_eq!(p.action, VarInt(2));
    let pos = p.target_position.unwrap();
    assert_eq!(f32::from_bits(pos.x_bits), 1.0);
    assert_eq!(f32::from_bits(pos.y_bits), 2.0);
    assert_eq!(f32::from_bits(pos.z_bits), -0.5);
    assert_eq!(p.hand, Some(VarInt(0)));
    assert!(!p.sneaking);
    assert_eq!(buf.remaining_len(), 0);
}

#[test]
fn interact_unknown_discriminant_is_malformed() {
    let mut buf = ReadBuffer::new(vec![0x07, 0x03, 0x00, 0x00]);
    assert_eq!(SInteract::read(&mut buf).unwrap_err(), DecodeError::Malformed);
    assert_eq!(buf.cursor(), 0);
}

#[test]
fn interact_negative_discriminant_is_malformed() {
    // VarInt -1: the unsigned reinterpretation is far outside the set.
    let mut buf = ReadBuffer::new(vec![0x07, 0xFF, 0xFF, 0xFF, 0xFF, 0x0F, 0x00]);
    assert_eq!(SInteract::read(&mut buf).unwrap_err(), DecodeError::Malformed);
}

#[test]
fn interact_truncated_is_incomplete_and_leaves_cursor() {
    // Only the entity id is present.
    let mut buf = ReadBuffer::new(vec![0x07]);
    assert_eq!(SInteract::read(&mut buf).unwrap_err(), DecodeError::Incomplete);
    assert_eq!(buf.cursor(), 0);
    // Position block cut short after action 2.
    let mut buf2 = ReadBuffer::new(vec![0x07, 0x02, 0x3F, 0x80]);
    assert_eq!(SInteract::read(&mut buf2).unwrap_err(), DecodeError::Incomplete);
    assert_eq!(buf2.cursor(), 0);
}

#[test]
fn interact_is_bound_to_play_phase_opcode() {
    assert_eq!(SInteract::opcode(), 22);
    assert_eq!(SInteract::phase(), Phase::Play);
}

#[test]
fn action_type_mapping_is_exact() {
    assert_eq!(ActionType::try_from(0).unwrap(), ActionType::Interact);
    assert_eq!(ActionType::try_from(1).unwrap(), ActionType::Attack);
    assert_eq!(ActionType::try_from(2).unwrap(), ActionType::InteractAt);
    assert!(ActionType::try_from(3).is_err());
    assert!(ActionType::try_from(-1).is_err());
}
