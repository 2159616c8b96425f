use pumpkin_protocol::DecodeError;
use pumpkin_protocol::packet::Phase;
use pumpkin_protocol::registry::DecodedPacket;
use pumpkin_protocol::registry::Direction;
use pumpkin_protocol::registry::DispatchError;
use pumpkin_protocol::registry::PacketRegistry;
use pumpkin_protocol::varint::VarInt;

#[test]
fn dispatch_decodes_registered_packet() {
    let reg = PacketRegistry::new();
    let payload = vec![0x07, 0x00, 0x01, 0x01];
    match reg.dispatch(Direction::Serverbound, Phase::Play, 22, payload) {
        Ok(DecodedPacket::Interact(p)) => {
            assert_eq!(p.entity_id, VarInt(7));
            assert_eq!(p.hand, Some(VarInt(1)));
        },
        _ => panic!("expected a decoded interaction"),
    }
}

#[test]
fn dispatch_unknown_opcode_is_reported() {
    let reg = PacketRegistry::new();
    assert_eq!(
        reg.dispatch(Direction::Serverbound, Phase::Play, 99, vec![0x00]).unwrap_err(),
        DispatchError::UnknownOpcode
    );
    assert_eq!(
        reg.dispatch(Direction::Serverbound, Phase::Status, 22, vec![0x00]).unwrap_err(),
        DispatchError::UnknownOpcode
    );
    assert_eq!(
        reg.dispatch(Direction::Clientbound, Phase::Play, 22, vec![0x00]).unwrap_err(),
        DispatchError::UnknownOpcode
    );
}

#[test]
fn dispatch_reports_trailing_bytes() {
    let reg = PacketRegistry::new();
    // A full Attack message followed by one stray byte.
    let payload = vec![0x07, 0x01, 0x00, 0xAA];
    assert_eq!(
        reg.dispatch(Direction::Serverbound, Phase::Play, 22, payload).unwrap_err(),
        DispatchError::TrailingBytes
    );
}

#[test]
fn dispatch_passes_decode_failures_through() {
    let reg = PacketRegistry::new();
    assert_eq!(
        reg.dispatch(Direction::Serverbound, Phase::Play, 22, vec![0x07]).unwrap_err(),
        DispatchError::Packet(DecodeError::Incomplete)
    );
    assert_eq!(
        reg.dispatch(Direction::Serverbound, Phase::Play, 22, vec![0x07, 0x05, 0x00]).unwrap_err(),
        DispatchError::Packet(DecodeError::Malformed)
    );
}

#[test]
fn registry_opcodes_are_unique_per_direction_and_phase() {
    let reg = PacketRegistry::new();
    let n = reg.entry_count();
    assert!(n >= 1);
    for i in 0..n {
        for j in (i + 1)..n {
            let a = reg.entry_at(i);
            let b = reg.entry_at(j);
            assert!(
                !(a.direction == b.direction && a.phase == b.phase && a.opcode == b.opcode),
                "duplicate registry key"
            );
        }
    }
}
