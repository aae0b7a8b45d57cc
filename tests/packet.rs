use toytcp::{PacketError, TCPPacket};

const LOCAL: [u8; 4] = [192, 168, 0, 1];
const REMOTE: [u8; 4] = [192, 168, 0, 2];

fn syn_segment() -> TCPPacket {
    let mut p = TCPPacket::new(4);
    p.set_src(12345);
    p.set_dest(80);
    p.set_seq(1000);
    p.set_ack(0);
    p.set_data_offset(5);
    p.set_flag(0x02);
    p.set_window_size(65535);
    p.set_payload(&[1, 2, 3, 4]).unwrap();
    p
}

fn checksummed_syn_segment() -> TCPPacket {
    let mut p = syn_segment();
    let c = p.compute_checksum(LOCAL, REMOTE);
    p.set_checksum(c);
    p
}

#[test]
fn new_has_header_plus_payload_length() {
    for n in [0usize, 1, 4, 1000] {
        let p = TCPPacket::new(n);
        assert_eq!(p.packet().len(), 20 + n);
        assert_eq!(p.payload().len(), n);
        assert!(p.packet().iter().all(|b| *b == 0));
    }
}

#[test]
fn fresh_segment_reads_zero() {
    let p = TCPPacket::new(3);
    assert_eq!(p.get_src(), 0);
    assert_eq!(p.get_dest(), 0);
    assert_eq!(p.get_seq(), 0);
    assert_eq!(p.get_ack(), 0);
    assert_eq!(p.get_flag(), 0);
    assert_eq!(p.get_window_size(), 0);
    assert_eq!(p.get_checksum(), 0);
}

#[test]
fn ports_round_trip() {
    let mut p = TCPPacket::new(0);
    for v in [0u16, 1, 80, 0x1234, 12345, 0xFFFF] {
        p.set_src(v);
        p.set_dest(v.wrapping_add(1));
        assert_eq!(p.get_src(), v);
        assert_eq!(p.get_dest(), v.wrapping_add(1));
    }
}

#[test]
fn numbers_round_trip() {
    let mut p = TCPPacket::new(2);
    for v in [0u32, 1, 1000, 0x0102_0304, 0xFFFF_FFFF] {
        p.set_seq(v);
        p.set_ack(!v);
        assert_eq!(p.get_seq(), v);
        assert_eq!(p.get_ack(), !v);
    }
}

#[test]
fn window_and_checksum_round_trip() {
    let mut p = TCPPacket::new(1);
    for v in [0u16, 7, 0x8000, 65535] {
        p.set_window_size(v);
        p.set_checksum(!v);
        assert_eq!(p.get_window_size(), v);
        assert_eq!(p.get_checksum(), !v);
    }
}

#[test]
fn setters_leave_other_fields_alone() {
    let mut p = syn_segment();
    p.set_seq(0xDEAD_BEEF);
    p.set_checksum(0xABCD);
    assert_eq!(p.get_src(), 12345);
    assert_eq!(p.get_dest(), 80);
    assert_eq!(p.get_seq(), 0xDEAD_BEEF);
    assert_eq!(p.get_ack(), 0);
    assert_eq!(p.get_flag(), 0x02);
    assert_eq!(p.get_window_size(), 65535);
    assert_eq!(p.get_checksum(), 0xABCD);
    assert_eq!(p.payload(), &[1, 2, 3, 4]);
}

#[test]
fn fields_are_big_endian_at_their_offsets() {
    let mut p = TCPPacket::new(0);
    p.set_src(0x0102);
    p.set_dest(0x0304);
    p.set_seq(0x0506_0708);
    p.set_ack(0x090A_0B0C);
    p.set_data_offset(0x0D);
    p.set_flag(0x0E);
    p.set_window_size(0x0F10);
    p.set_checksum(0x1112);
    assert_eq!(
        p.packet(),
        &[1, 2, 3, 4, 5, 6, 7, 8, 9, 10, 11, 12, 0xD0, 14, 15, 16, 17, 18, 0, 0]
    );
}

#[test]
fn flags_round_trip_every_byte() {
    let mut p = TCPPacket::new(0);
    for v in 0..=255u8 {
        p.set_flag(v);
        assert_eq!(p.get_flag(), v);
        assert_eq!(p.packet()[13], v);
    }
}

#[test]
fn data_offset_accumulates_bits() {
    let mut p = TCPPacket::new(0);
    p.set_data_offset(5);
    assert_eq!(p.packet()[12], 0x50);
    p.set_data_offset(10);
    assert_eq!(p.packet()[12] >> 4, 5 | 10);
    let mut q = TCPPacket::new(0);
    q.set_data_offset(4);
    q.set_data_offset(1);
    assert_eq!(q.packet()[12], 0x50);
}

#[test]
fn data_offset_keeps_only_low_nibble_of_value() {
    let mut p = TCPPacket::new(0);
    p.set_data_offset(0x35);
    assert_eq!(p.packet()[12], 0x50);
}

#[test]
fn set_payload_of_exact_length_succeeds() {
    let mut p = TCPPacket::new(3);
    assert_eq!(p.set_payload(&[7, 8, 9]), Ok(()));
    assert_eq!(p.payload(), &[7, 8, 9]);
    assert_eq!(p.packet().len(), 23);
}

#[test]
fn set_payload_of_wrong_length_fails_and_changes_nothing() {
    let mut p = TCPPacket::new(3);
    p.set_src(99);
    assert_eq!(p.set_payload(&[1, 2]), Err(PacketError::PayloadLengthMismatch));
    assert_eq!(p.set_payload(&[1, 2, 3, 4]), Err(PacketError::PayloadLengthMismatch));
    assert_eq!(p.payload(), &[0, 0, 0]);
    assert_eq!(p.get_src(), 99);
    let mut empty = TCPPacket::new(0);
    assert_eq!(empty.set_payload(&[]), Ok(()));
    assert_eq!(empty.set_payload(&[1]), Err(PacketError::PayloadLengthMismatch));
}

#[test]
fn from_bytes_needs_a_whole_header() {
    assert_eq!(TCPPacket::from_bytes(vec![0; 19]).err(), Some(PacketError::BufferTooShort));
    assert_eq!(TCPPacket::from_bytes(Vec::new()).err(), Some(PacketError::BufferTooShort));
    let p = TCPPacket::from_bytes(syn_segment().packet().to_vec()).unwrap();
    assert_eq!(p.get_src(), 12345);
    assert_eq!(p.get_dest(), 80);
    assert_eq!(p.payload(), &[1, 2, 3, 4]);
    let bare = TCPPacket::from_bytes(vec![0; 20]).unwrap();
    assert_eq!(bare.payload().len(), 0);
}

#[test]
fn checksum_of_syn_segment() {
    let p = syn_segment();
    assert_eq!(p.compute_checksum(LOCAL, REMOTE), 0xF613);
    let q = checksummed_syn_segment();
    assert_eq!(q.get_checksum(), 0xF613);
    assert!(q.is_correct_checksum(LOCAL, REMOTE));
}

#[test]
fn checksum_ignores_stored_checksum_field() {
    let mut p = syn_segment();
    p.set_checksum(0x1234);
    assert_eq!(p.compute_checksum(LOCAL, REMOTE), 0xF613);
}

#[test]
fn unset_checksum_is_not_correct() {
    assert!(!syn_segment().is_correct_checksum(LOCAL, REMOTE));
}

#[test]
fn any_single_byte_change_breaks_checksum() {
    let good = checksummed_syn_segment();
    for i in 0..good.packet().len() {
        for delta in [1u8, 0x80, 0xFF] {
            let mut bytes = good.packet().to_vec();
            bytes[i] = bytes[i].wrapping_add(delta);
            let bad = TCPPacket::from_bytes(bytes).unwrap();
            assert!(!bad.is_correct_checksum(LOCAL, REMOTE), "byte {} changed by {}", i, delta);
        }
    }
}

#[test]
fn other_remote_address_fails_checksum() {
    let good = checksummed_syn_segment();
    assert!(!good.is_correct_checksum(LOCAL, [192, 168, 0, 3]));
    assert!(!good.is_correct_checksum(LOCAL, [10, 0, 0, 2]));
    assert!(!good.is_correct_checksum(REMOTE, LOCAL.map(|b| b ^ 1)));
}

#[test]
fn remote_with_same_word_sum_passes_checksum() {
    let good = checksummed_syn_segment();
    assert!(good.is_correct_checksum(LOCAL, [192, 169, 0, 1]));
}

#[test]
fn odd_length_segment_checksums_trailing_byte() {
    let mut p = TCPPacket::new(1);
    p.set_payload(&[0xAB]).unwrap();
    let c = p.compute_checksum([0, 0, 0, 0], [0, 0, 0, 0]);
    assert_eq!(c, !(6u16 + 21 + 0xAB00));
    p.set_checksum(c);
    assert!(p.is_correct_checksum([0, 0, 0, 0], [0, 0, 0, 0]));
}
