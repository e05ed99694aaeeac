//! The magic packet: six bytes of `0xFF`, then the target's six octets
//! sixteen times over.

use vstd::prelude::*;
use vstd::pervasive::unreached;
use crate::mac::{is_mac_text, mac_octets, parse_mac};

verus! {

/// Length of a magic packet in bytes.
pub const MAGIC_PACKET_LEN: usize = 102;

/// `block` written `times` times in a row.
pub open spec fn repeated(block: Seq<u8>, times: nat) -> Seq<u8>
    decreases times,
{
    if times == 0 {
        Seq::<u8>::empty()
    } else {
        repeated(block, (times - 1) as nat) + block
    }
}

/// The magic packet that wakes the device with the given octets.
pub open spec fn magic_packet(octets: Seq<u8>) -> Seq<u8>
    recommends
        octets.len() == 6,
{
    Seq::new(6, |i: int| 0xFFu8) + repeated(octets, 16)
}

/// The layout of a magic packet, byte by byte: `MAGIC_PACKET_LEN` bytes, the
/// first six of them `0xFF`, and from there on the six octets over and over, so that the
/// sixteen blocks of six that follow the header each equal `octets`.
pub open spec fn has_magic_layout(packet: Seq<u8>, octets: Seq<u8>) -> bool {
    &&& octets.len() == 6
    &&& packet.len() == MAGIC_PACKET_LEN
    &&& forall|i: int| 0 <= i < 6 ==> #[trigger] packet[i] == 0xFFu8
    &&& forall|i: int| 6 <= i < 102 ==> #[trigger] packet[i] == octets[(i - 6) % 6]
}

/// `times` copies of a block are `times` times as long as the block, and the
/// byte at any place is the block's byte at that place modulo its length.
pub proof fn lemma_repeated(block: Seq<u8>, times: nat)
    requires
        block.len() > 0,
    ensures
        repeated(block, times).len() == times * block.len(),
        forall|i: int|
            0 <= i < times * block.len() ==> #[trigger] repeated(block, times)[i] == block[i
                % block.len() as int],
    decreases times,
{
    let len = block.len() as int;
    if times == 0 {
        assert(times * len == 0) by (nonlinear_arith)
            requires
                times == 0,
        ;
    } else {
        let fewer = (times - 1) as nat;
        lemma_repeated(block, fewer);
        assert(times * len == fewer * len + len && fewer * len >= 0) by (nonlinear_arith)
            requires
                fewer == times - 1,
                fewer >= 0,
                len > 0,
        ;
        assert forall|i: int| 0 <= i < times * len implies #[trigger] repeated(block, times)[i]
            == block[i % len] by {
            if i >= fewer * len {
                let base = fewer * len;
                assert(i - base == i % len) by (nonlinear_arith)
                    requires
                        base == fewer * len,
                        base <= i < base + len,
                        len > 0,
                ;
                assert(repeated(block, times)[i] == block[i - base]);
            } else {
                assert(repeated(block, times)[i] == repeated(block, fewer)[i]);
            }
        }
    }
}

/// The magic packet of six octets has the magic layout.
pub proof fn lemma_magic_packet_layout(octets: Seq<u8>)
    requires
        octets.len() == 6,
    ensures
        has_magic_layout(magic_packet(octets), octets),
{
    lemma_repeated(octets, 16);
    let packet = magic_packet(octets);
    assert forall|i: int| 6 <= i < 102 implies #[trigger] packet[i] == octets[(i - 6) % 6] by {
        assert(packet[i] == repeated(octets, 16)[i - 6]);
    }
}

/// In a packet of the magic layout, each of the sixteen blocks of six bytes
/// after the header is the octets in order.
pub proof fn lemma_magic_layout_block(packet: Seq<u8>, octets: Seq<u8>, block: int)
    requires
        has_magic_layout(packet, octets),
        0 <= block < 16,
    ensures
        packet.subrange(6 + 6 * block, 6 + 6 * block + 6) == octets,
{
    let bytes = packet.subrange(6 + 6 * block, 6 + 6 * block + 6);
    assert forall|j: int| 0 <= j < 6 implies bytes[j] == octets[j] by {
        let i = 6 + 6 * block + j;
        assert(packet[i] == octets[(i - 6) % 6]);
    }
    assert(bytes =~= octets);
}

/// The magic layout leaves no byte open: two packets that have it for the
/// same octets are equal. Building twice for one address therefore gives the
/// same bytes.
pub proof fn lemma_magic_layout_unique(first: Seq<u8>, second: Seq<u8>, octets: Seq<u8>)
    requires
        has_magic_layout(first, octets),
        has_magic_layout(second, octets),
    ensures
        first == second,
{
    assert(first =~= second);
}

/// Builds the magic packet for six octets.
pub fn magic_packet_of(octets: &[u8; 6]) -> (packet: Vec<u8>)
    ensures
        packet@ == magic_packet(octets@),
        has_magic_layout(packet@, octets@),
{
    let mut packet: Vec<u8> = Vec::new();
    let header: [u8; 6] = [0xFFu8; 6];
    packet.extend_from_slice(header.as_slice());
    let mut count: usize = 0;
    while count < 16
        invariant
            count <= 16,
            packet@ == Seq::new(6, |i: int| 0xFFu8) + repeated(octets@, count as nat),
        decreases 16 - count,
    {
        packet.extend_from_slice(octets.as_slice());
        count = count + 1;
    }
    proof {
        lemma_magic_packet_layout(octets@);
    }
    packet
}

/// Builds the magic packet for a hardware address given in its textual form.
pub fn build_magic_packet(mac: &str) -> (packet: Vec<u8>)
    requires
        is_mac_text(mac@),
    ensures
        packet@ == magic_packet(mac_octets(mac@)),
        has_magic_layout(packet@, mac_octets(mac@)),
{
    match parse_mac(mac) {
        Some(octets) => magic_packet_of(&octets),
        None => unreached(),
    }
}

} // verus!
