use intercom::packet::NetworkPacket;
use intercom::packet::NetworkPacketType;
use intercom::packet::bytes_to_samples;
use intercom::packet::samples_to_bytes;

#[test]
fn serialize_empty_payload_kinds() {
    assert_eq!(NetworkPacket::new_start_connection().serialize(), vec![0u8]);
    assert_eq!(NetworkPacket::new_stop_connection().serialize(), vec![1u8]);
    assert_eq!(NetworkPacket::new_heartbeat().serialize(), vec![3u8]);
    assert_eq!(NetworkPacket::new_accept().serialize(), vec![4u8]);
}

#[test]
fn serialize_audio_little_endian() {
    let packet = NetworkPacket::new_audio(vec![0x0001i16, 0x0002i16]);
    assert_eq!(packet.serialize(), vec![0x02u8, 0x01, 0x00, 0x02, 0x00]);
}

#[test]
fn serialize_audio_negative_samples() {
    let packet = NetworkPacket::new_audio(vec![-1i16, 0x1234i16]);
    assert_eq!(packet.serialize(), vec![0x02u8, 0xff, 0xff, 0x34, 0x12]);
}

#[test]
fn round_trip_every_kind() {
    let packets = vec![
        NetworkPacket::new_start_connection(),
        NetworkPacket::new_stop_connection(),
        NetworkPacket::new_heartbeat(),
        NetworkPacket::new_accept(),
        NetworkPacket::new_audio(vec![5i16, -7i16, 300i16, -32768i16]),
    ];
    for packet in packets {
        let kind = packet.packet_type;
        let data = packet.data.clone();
        let bytes = packet.serialize();
        let back = NetworkPacket::deserialize(bytes).expect("well-formed datagram");
        assert_eq!(back.packet_type, kind);
        assert_eq!(back.data, data);
    }
}

#[test]
fn round_trip_all_kind_bytes() {
    for kind_byte in 0u8..=4u8 {
        let mut datagram = vec![kind_byte];
        datagram.extend_from_slice(&[10, 20, 30, 40]);
        let packet = NetworkPacket::deserialize(datagram.clone()).expect("known kind");
        assert_eq!(packet.serialize(), datagram);
    }
}

#[test]
fn deserialize_unknown_kind_discarded() {
    assert!(NetworkPacket::deserialize(vec![5u8]).is_none());
    assert!(NetworkPacket::deserialize(vec![7u8, 1, 2, 3]).is_none());
    assert!(NetworkPacket::deserialize(vec![255u8]).is_none());
}

#[test]
fn deserialize_empty_datagram_discarded() {
    assert!(NetworkPacket::deserialize(Vec::new()).is_none());
}

#[test]
fn deserialize_kind_and_payload() {
    let packet = NetworkPacket::deserialize(vec![2u8, 1, 0, 2, 0]).expect("audio datagram");
    assert_eq!(packet.packet_type, NetworkPacketType::Audio);
    assert_eq!(packet.data, vec![1u8, 0, 2, 0]);
}

#[test]
fn sample_byte_round_trip() {
    let samples = vec![0i16, 1, -1, 255, 256, -32768, 32767];
    let bytes = samples_to_bytes(&samples);
    assert_eq!(bytes.len(), 2 * samples.len());
    assert_eq!(bytes_to_samples(&bytes), samples);
}

#[test]
fn bytes_to_samples_ignores_trailing_odd_byte() {
    let bytes = vec![0x01u8, 0x00, 0x99];
    assert_eq!(bytes_to_samples(&bytes), vec![1i16]);
}
