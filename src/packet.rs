//! The Wake-on-LAN magic packet: six `0xFF` bytes followed by sixteen copies
//! of the target's hardware address.
use vstd::prelude::*;

verus! {

/// Number of octets in a MAC address.
pub const MAC_ADDR_SIZE: usize = 6;

/// Number of times the MAC address is repeated after the sync stream.
pub const MAC_REPETITIONS: usize = 16;

/// Total length of a magic packet in bytes.
pub const MAGIC_PACKET_LEN: usize = 102;

/// The magic packet for `mac`: byte `i` is `0xFF` in the leading sync stream
/// and otherwise the MAC octet that position `i` repeats.
pub open spec fn magic_packet_of(mac: Seq<u8>) -> Seq<u8> {
    Seq::new(
        102,
        |i: int|
            if i < 6 {
                0xffu8
            } else {
                mac[(i - 6) % 6]
            },
    )
}

/// Layout of a magic packet: it is 102 bytes long, starts with six `0xFF`
/// bytes, and each of the sixteen following 6-byte blocks equals the MAC
/// address.
pub proof fn lemma_magic_packet_layout(mac: Seq<u8>)
    requires
        mac.len() == 6,
    ensures
        magic_packet_of(mac).len() == 102,
        forall|k: int| 0 <= k < 6 ==> #[trigger] magic_packet_of(mac)[k] == 0xffu8,
        forall|i: int|
            0 <= i < 16 ==> #[trigger] magic_packet_of(mac).subrange(6 + 6 * i, 12 + 6 * i) == mac,
{
    assert forall|i: int| 0 <= i < 16 implies #[trigger] magic_packet_of(mac).subrange(
        6 + 6 * i,
        12 + 6 * i,
    ) == mac by {
        assert forall|j: int| 0 <= j < 6 implies magic_packet_of(mac).subrange(
            6 + 6 * i,
            12 + 6 * i,
        )[j] == mac[j] by {
            assert((6 + 6 * i + j - 6) % 6 == j) by (nonlinear_arith)
                requires
                    0 <= j < 6,
                    0 <= i,
            ;
        }
        assert(magic_packet_of(mac).subrange(6 + 6 * i, 12 + 6 * i) =~= mac);
    }
}

/// Builds the 102-byte magic packet that wakes the host with address `mac`.
pub fn create_magic_packet(mac: &[u8; 6]) -> (r: Vec<u8>)
    ensures
        r@ == magic_packet_of(mac@),
        r@.len() == MAGIC_PACKET_LEN,
{
    let mut packet: Vec<u8> = Vec::with_capacity(MAGIC_PACKET_LEN);
    for i in 0..MAC_ADDR_SIZE
        invariant
            packet@.len() == i,
            forall|k: int| 0 <= k < i ==> packet@[k] == 0xffu8,
    {
        packet.push(0xff);
    }
    for i in 0..MAC_REPETITIONS
        invariant
            packet@.len() == 6 + 6 * i,
            forall|k: int| 0 <= k < 6 ==> packet@[k] == 0xffu8,
            forall|k: int| 6 <= k < 6 + 6 * i ==> packet@[k] == mac@[(k - 6) % 6],
    {
        for j in 0..MAC_ADDR_SIZE
            invariant
                i < 16,
                packet@.len() == 6 + 6 * i + j,
                forall|k: int| 0 <= k < 6 ==> packet@[k] == 0xffu8,
                forall|k: int| 6 <= k < 6 + 6 * i + j ==> packet@[k] == mac@[(k - 6) % 6],
        {
            proof {
                assert((6 + 6 * i + j - 6) % 6 == j as int) by (nonlinear_arith)
                    requires j < 6;
            }
            packet.push(mac[j]);
        }
    }
    assert(packet@ =~= magic_packet_of(mac@));
    packet
}

} // verus!
