use cplp::packet::AudioPacket;
use cplp::types::CplpError;

fn bits(v: &[f32]) -> Vec<u32> {
    v.iter().map(|x| x.to_bits()).collect()
}

#[test]
fn audio_packet_roundtrip() {
    let orig = AudioPacket { seq: 42, timestamp: 12345678, pcm_bits: bits(&[0.1, -0.5, 0.9, 0.0]) };
    let bytes = orig.to_bytes();
    let restored = AudioPacket::from_bytes(&bytes).unwrap();
    assert_eq!(restored.seq, orig.seq);
    assert_eq!(restored.timestamp, orig.timestamp);
    assert_eq!(restored.pcm_bits.len(), orig.pcm_bits.len());
    for (a, b) in restored.pcm_bits.iter().zip(orig.pcm_bits.iter()) {
        assert!((f32::from_bits(*a) - f32::from_bits(*b)).abs() < f32::EPSILON);
    }
    assert_eq!(restored, orig);
}

#[test]
fn audio_packet_empty_pcm() {
    let pkt = AudioPacket { seq: 0, timestamp: 0, pcm_bits: vec![] };
    let bytes = pkt.to_bytes();
    assert_eq!(bytes.len(), 12);
    let restored = AudioPacket::from_bytes(&bytes).unwrap();
    assert!(restored.pcm_bits.is_empty());
}

#[test]
fn audio_packet_too_short_error() {
    let short = vec![0u8; 11];
    assert!(AudioPacket::from_bytes(&short).is_err());
    assert!(AudioPacket::from_bytes(&[]).is_err());
    assert_eq!(
        AudioPacket::from_bytes(&short),
        Err(CplpError::Network("パケットが短すぎます: 11 bytes (最低 12)".to_string()))
    );
}

#[test]
fn audio_packet_misaligned_size_error() {
    let bad = vec![0u8; 15];
    assert!(AudioPacket::from_bytes(&bad).is_err());
    let bad2 = vec![0u8; 13];
    assert!(AudioPacket::from_bytes(&bad2).is_err());
    assert_eq!(
        AudioPacket::from_bytes(&bad),
        Err(CplpError::Network("PCM データサイズが不正: 3 bytes (4の倍数でない)".to_string()))
    );
}

#[test]
fn audio_packet_byte_size_formula() {
    let pkt = AudioPacket { seq: 1, timestamp: 2, pcm_bits: vec![0.0f32.to_bits(); 10] };
    assert_eq!(pkt.byte_size(), 12 + 10 * 4);
    let empty = AudioPacket { seq: 0, timestamp: 0, pcm_bits: vec![] };
    assert_eq!(empty.byte_size(), 12);
}

#[test]
fn wire_format_is_little_endian() {
    let pkt = AudioPacket { seq: 0x0102_0304, timestamp: 0x0A0B_0C0D_0E0F_1011, pcm_bits: vec![1.0f32.to_bits()] };
    let mut expected = Vec::new();
    expected.extend_from_slice(&0x0102_0304u32.to_le_bytes());
    expected.extend_from_slice(&0x0A0B_0C0D_0E0F_1011u64.to_le_bytes());
    expected.extend_from_slice(&1.0f32.to_le_bytes());
    assert_eq!(pkt.to_bytes(), expected);
    assert_eq!(pkt.byte_size(), expected.len());
}

#[test]
fn bytes_read_back_to_themselves() {
    let bytes: Vec<u8> = (0u8..20).collect();
    let p = AudioPacket::from_bytes(&bytes).unwrap();
    assert_eq!(p.seq, u32::from_le_bytes([0, 1, 2, 3]));
    assert_eq!(p.timestamp, u64::from_le_bytes([4, 5, 6, 7, 8, 9, 10, 11]));
    assert_eq!(p.pcm_bits, vec![u32::from_le_bytes([12, 13, 14, 15]), u32::from_le_bytes([16, 17, 18, 19])]);
    assert_eq!(p.to_bytes(), bytes);
}
