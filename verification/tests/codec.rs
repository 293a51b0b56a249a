use pl3xus::frame::decode_all_packets;
use pl3xus::frame::encode_batch;
use pl3xus::frame::NetworkError;
use pl3xus::frame::NetworkPacket;
use pl3xus::frame::Pl3xusBincodeCodec;
use pl3xus::frame::Pl3xusBincodeSingleMsgCodec;
use pl3xus::names::schema_hash_of;
use pl3xus::network::recv_step;
use pl3xus::network::NetworkSettings;
use pl3xus::network::RecvStep;

fn packet(name: &str, hash: u64, data: Vec<u8>) -> NetworkPacket {
    NetworkPacket::new(name.to_string(), hash, data)
}

#[test]
fn test_multi_message_codec() {
    let packet = packet("TestMessage", 0x1234567890abcdef, vec![1, 2, 3, 4, 5]);

    let enc = Pl3xusBincodeCodec::encode(&packet).unwrap();
    assert!(enc.len() > 8);

    let length_bytes: [u8; 8] = enc[..8].try_into().unwrap();
    let length = u64::from_le_bytes(length_bytes);
    assert_eq!(length as usize, enc.len() - 8);

    let dec: NetworkPacket = Pl3xusBincodeCodec::decode(&enc).unwrap();
    assert_eq!(dec.type_path, packet.type_path);
    assert_eq!(dec.schema_hash, packet.schema_hash);
    assert_eq!(dec.data, packet.data);
}

#[test]
fn test_single_message_codec() {
    // The message { s: "party time 🎉", i: 42 }, serialized field by field.
    let s = String::from("party time 🎉");
    let i: i32 = 42;
    let payload = bincode::serde::encode_to_vec((&s, i), bincode::config::standard()).unwrap();
    let name = "codec::test_single_message_codec::TestMessage";

    let enc = Pl3xusBincodeSingleMsgCodec::encode(name, schema_hash_of(name), payload).unwrap();
    assert!(enc.len() > 8);

    let length_bytes: [u8; 8] = enc[..8].try_into().unwrap();
    let length = u64::from_le_bytes(length_bytes);
    assert_eq!(length as usize, enc.len() - 8);

    let data = Pl3xusBincodeSingleMsgCodec::decode(&enc).unwrap();
    let ((ds, di), _): ((String, i32), usize) =
        bincode::serde::decode_from_slice(&data, bincode::config::standard()).unwrap();
    assert_eq!(ds, s);
    assert_eq!(di, i);
}

#[test]
fn codec_wire_layout_is_prefix_then_bincode_fields() {
    let p = packet("a::B", 7, vec![9, 8]);
    let enc = Pl3xusBincodeCodec::encode(&p).unwrap();
    let fields = bincode::serde::encode_to_vec(("a::B", 7u64, vec![9u8, 8]), bincode::config::standard()).unwrap();
    assert_eq!(&enc[8..], &fields[..]);
    assert_eq!(&enc[..8], &(fields.len() as u64).to_le_bytes());
}

#[test]
fn codec_decode_rejects_short_buffers() {
    assert_eq!(Pl3xusBincodeCodec::decode(&[]).err(), Some(NetworkError::Serialization));
    assert_eq!(Pl3xusBincodeCodec::decode(&[1, 2, 3, 4, 5, 6, 7]).err(), Some(NetworkError::Serialization));
    assert_eq!(Pl3xusBincodeSingleMsgCodec::decode(&[0; 7]).err(), Some(NetworkError::Serialization));
}

#[test]
fn codec_decode_rejects_garbage_after_prefix() {
    // A string length far beyond the buffer cannot decode.
    let bad = [1, 0, 0, 0, 0, 0, 0, 0, 250];
    assert_eq!(Pl3xusBincodeCodec::decode(&bad).err(), Some(NetworkError::Serialization));
}

#[test]
fn batch_roundtrip_gives_the_packets_back() {
    let batch = vec![
        packet("x::One", 1, vec![]),
        packet("x::Two", 2, vec![1, 2, 3]),
        packet("", 0, vec![255; 300]),
    ];
    let buffer = encode_batch(&batch);
    let decoded = decode_all_packets(&buffer);
    assert_eq!(decoded.len(), 3);
    for (d, p) in decoded.iter().zip(batch.iter()) {
        assert_eq!(d.type_path, p.type_path);
        assert_eq!(d.schema_hash, p.schema_hash);
        assert_eq!(d.data, p.data);
    }
}

#[test]
fn decode_all_stops_at_incomplete_frame() {
    let batch = vec![packet("x::One", 1, vec![5]), packet("x::Two", 2, vec![6])];
    let mut buffer = encode_batch(&batch);
    // Cut the second frame short.
    buffer.pop();
    let decoded = decode_all_packets(&buffer);
    assert_eq!(decoded.len(), 1);
    assert_eq!(decoded[0].type_path, "x::One");

    // A trailing partial header yields nothing more.
    let mut two = encode_batch(&batch);
    two.extend_from_slice(&[1, 2, 3]);
    assert_eq!(decode_all_packets(&two).len(), 2);

    // A length larger than the rest of the buffer stops reading.
    let mut huge = (u64::MAX).to_le_bytes().to_vec();
    huge.extend_from_slice(&[0; 16]);
    assert_eq!(decode_all_packets(&huge).len(), 0);
    assert_eq!(decode_all_packets(&[]).len(), 0);
}

#[test]
fn recv_step_decisions() {
    let max = NetworkSettings::default().max_packet_length;
    let header = 16u64.to_le_bytes();
    assert_eq!(recv_step(0, &header, max), RecvStep::Closed);
    assert_eq!(recv_step(5, &header, max), RecvStep::ShortHeader);
    assert_eq!(recv_step(8, &header, max), RecvStep::ReadPayload(16));
    let big = ((max as u64) + 1).to_le_bytes();
    assert_eq!(recv_step(8, &big, max), RecvStep::TooLarge);
    let exact = (max as u64).to_le_bytes();
    assert_eq!(recv_step(8, &exact, max), RecvStep::ReadPayload(max));
}

#[test]
fn network_settings_defaults() {
    let s = NetworkSettings::default();
    assert_eq!(s.max_packet_length, 10 * 1024 * 1024);
    assert_eq!(s.channel_capacity, 500);
    assert_eq!(s.channel_warning_threshold, 80);
}

// A type name whose length claims 2^63 bytes: bincode's marker for a
// following little-endian u64 (0xFD), then 2^63.
const OVERSIZED_NAME: [u8; 9] = [0xFD, 0, 0, 0, 0, 0, 0, 0, 0x80];

#[test]
fn oversized_name_lengths_are_refused() {
    assert_eq!(pl3xus::frame::decode_packet(&OVERSIZED_NAME).err(), Some(NetworkError::Serialization));
    let mut framed = (OVERSIZED_NAME.len() as u64).to_le_bytes().to_vec();
    framed.extend_from_slice(&OVERSIZED_NAME);
    assert_eq!(Pl3xusBincodeCodec::decode(&framed).err(), Some(NetworkError::Serialization));
    assert!(Pl3xusBincodeSingleMsgCodec::decode(&framed).is_err());
    assert!(decode_all_packets(&framed).is_empty());
    // A name length just one byte too long is refused as well.
    assert!(pl3xus::frame::decode_packet(&[3, b'a', b'b']).is_err());
}

#[test]
fn batches_written_one_after_another_read_back_as_one() {
    let first = vec![packet("a::A", 1, vec![1]), packet("a::B", 2, vec![])];
    let second = vec![packet("a::C", 3, vec![3, 3])];
    let mut wire = encode_batch(&first);
    wire.extend_from_slice(&encode_batch(&second));
    let back = decode_all_packets(&wire);
    let names: Vec<&str> = back.iter().map(|p| p.type_path.as_str()).collect();
    assert_eq!(names, vec!["a::A", "a::B", "a::C"]);
    assert_eq!(back[2].data, vec![3, 3]);
}
