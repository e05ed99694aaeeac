use wol::{build_magic_packet, magic_packet_of, MAGIC_PACKET_LEN};

#[test]
fn test_build_magic_packet_length() {
    let packet = build_magic_packet("00:11:22:33:44:55");
    // 6 bytes of 0xFF + 16 * 6 bytes of MAC = 102 bytes
    assert_eq!(packet.len(), 102);
}

#[test]
fn test_build_magic_packet_header() {
    let packet = build_magic_packet("00:11:22:33:44:55");
    assert_eq!(&packet[0..6], &[0xFF; 6]);
}

#[test]
fn test_build_magic_packet_mac_repetitions() {
    let packet = build_magic_packet("b8:ae:ed:9c:c7:89");
    let expected_mac = [0xb8, 0xae, 0xed, 0x9c, 0xc7, 0x89];
    for i in 0..16 {
        let offset = 6 + i * 6;
        assert_eq!(&packet[offset..offset + 6], &expected_mac);
    }
}

#[test]
fn build_magic_packet_gives_every_byte() {
    let packet = build_magic_packet("01:23:45:67:89:ab");
    let mut expected: Vec<u8> = vec![0xFF; 6];
    for _ in 0..16 {
        expected.extend_from_slice(&[0x01, 0x23, 0x45, 0x67, 0x89, 0xab]);
    }
    assert_eq!(packet, expected);
    assert_eq!(packet.len(), MAGIC_PACKET_LEN);
}

#[test]
fn build_magic_packet_twice_gives_the_same_bytes() {
    let first = build_magic_packet("b8:ae:ed:9c:c7:89");
    let second = build_magic_packet("b8:ae:ed:9c:c7:89");
    assert_eq!(first, second);
}

#[test]
fn build_magic_packet_ignores_letter_case() {
    assert_eq!(build_magic_packet("AA:BB:CC:DD:EE:FF"), build_magic_packet("aa:bb:cc:dd:ee:ff"));
}

#[test]
fn build_magic_packet_tells_addresses_apart() {
    assert_ne!(build_magic_packet("00:11:22:33:44:55"), build_magic_packet("00:11:22:33:44:56"));
    assert_ne!(build_magic_packet("00:11:22:33:44:55"), build_magic_packet("55:44:33:22:11:00"));
}

#[test]
fn magic_packet_of_broadcast_address_is_all_ones() {
    let packet = magic_packet_of(&[0xFF; 6]);
    assert_eq!(packet, vec![0xFFu8; 102]);
}

#[test]
fn magic_packet_of_keeps_the_order_of_the_octets() {
    let octets: [u8; 6] = [1, 2, 3, 4, 5, 6];
    let packet = magic_packet_of(&octets);
    assert_eq!(packet.len(), 102);
    assert_eq!(&packet[0..6], &[0xFFu8; 6]);
    for k in 6..102usize {
        assert_eq!(packet[k], octets[(k - 6) % 6]);
    }
    assert_eq!(&packet[96..102], &octets);
}

#[test]
fn magic_packet_of_zero_address_keeps_the_header() {
    let packet = magic_packet_of(&[0u8; 6]);
    assert_eq!(&packet[0..6], &[0xFFu8; 6]);
    assert!(packet[6..].iter().all(|byte| *byte == 0));
}
