//! Magic-packet encoding: a 6-byte synchronization stream of `0xFF`
//! followed by 16 verbatim repetitions of the 6-byte hardware address,
//! 102 bytes in all.

use vstd::prelude::*;

use vstd::arithmetic::div_mod::lemma_mod_multiples_vanish;
use vstd::arithmetic::div_mod::lemma_small_mod;

use crate::address::convert_mac;
use crate::address::is_mac_syntax;
use crate::address::mac_bytes;
use crate::errors::WakeUpError;

verus! {

/// The magic packet for a 6-byte hardware address: 6 bytes of `0xFF`, then
/// the address repeated 16 times — 102 bytes in all.
pub open spec fn magic_packet_bytes(mac: Seq<u8>) -> Seq<u8> {
    Seq::new(
        102,
        |i: int|
            if i < 6 {
                0xffu8
            } else {
                mac[(i - 6) % 6]
            },
    )
}

/// Index arithmetic for the repetitions: offset `6 * r + j` into the
/// repeated part selects address byte `j`.
proof fn lemma_rep_index(r: int, j: int)
    requires
        0 <= r,
        0 <= j < 6,
    ensures
        (6 * r + j) % 6 == j,
{
    lemma_mod_multiples_vanish(r, j, 6);
    lemma_small_mod(j as nat, 6nat);
}

/// The byte of `p` at offset `j` within repetition `r` of the repeated part.
pub open spec fn rep_byte(p: Seq<u8>, r: int, j: int) -> u8 {
    p[6 + 6 * r + j]
}

/// The shape of the packet: 102 bytes, the first 6 all `0xFF`, and bytes
/// `[6 + 6r, 12 + 6r)` equal to the address for every repetition `r`.
pub proof fn lemma_magic_packet_shape(mac: Seq<u8>)
    requires
        mac.len() == 6,
    ensures
        magic_packet_bytes(mac).len() == 102,
        forall|i: int| 0 <= i < 6 ==> magic_packet_bytes(mac)[i] == 0xff,
        forall|r: int, j: int|
            0 <= r < 16 && 0 <= j < 6 ==> rep_byte(magic_packet_bytes(mac), r, j) == mac[j],
{
    assert forall|r: int, j: int|
        0 <= r < 16 && 0 <= j < 6 implies rep_byte(magic_packet_bytes(mac), r, j) == mac[j] by {
        lemma_rep_index(r, j);
        assert(magic_packet_bytes(mac)[6 + 6 * r + j] == mac[(6 * r + j) % 6]);
    }
}

/// Encoding is deterministic: two packets encoded from the same address
/// bytes are byte-identical.
pub proof fn lemma_encode_idempotent(mac: Seq<u8>, p1: Seq<u8>, p2: Seq<u8>)
    requires
        p1 == magic_packet_bytes(mac),
        p2 == magic_packet_bytes(mac),
    ensures
        p1 == p2,
{
}

/// Distinct 6-byte addresses encode to distinct packets.
pub proof fn lemma_distinct_addresses_distinct_packets(m1: Seq<u8>, m2: Seq<u8>)
    requires
        m1.len() == 6,
        m2.len() == 6,
        m1 != m2,
    ensures
        magic_packet_bytes(m1) != magic_packet_bytes(m2),
{
    assert(exists|i: int| 0 <= i < 6 && m1[i] != m2[i]) by {
        if forall|i: int| 0 <= i < 6 ==> m1[i] == m2[i] {
            assert(m1 =~= m2);
        }
    }
    let i = choose|i: int| 0 <= i < 6 && m1[i] != m2[i];
    lemma_rep_index(0, i);
    assert(magic_packet_bytes(m1)[6 + i] == m1[(6 + i - 6) % 6]);
    assert(magic_packet_bytes(m2)[6 + i] == m2[(6 + i - 6) % 6]);
    assert(magic_packet_bytes(m1)[6 + i] != magic_packet_bytes(m2)[6 + i]);
}

/// Build the magic packet for a textual hardware address: decode it, then
/// emit 6 bytes of `0xFF` followed by 16 repetitions of the 6 address
/// bytes.  Succeeds exactly on valid hardware-address syntax; the packet
/// length is checked as an internal invariant before the packet is handed
/// out, and the contract shows that check cannot fail.
pub fn craft_magic_packet(mac_address: &String) -> (r: Result<Vec<u8>, WakeUpError>)
    ensures
        r is Ok <==> is_mac_syntax(mac_address@),
        r matches Ok(p) ==> p@ == magic_packet_bytes(mac_bytes(mac_address@)),
        r matches Err(e) ==> e == WakeUpError::InvalidMacFormat,
{
    let mac_as_bytes = match convert_mac(mac_address) {
        Result::Ok(b) => b,
        Result::Err(e) => {
            return Result::Err(e);
        },
    };
    let mut magic: Vec<u8> = vec![0xffu8; 6];
    let mut rep: usize = 0;
    while rep < 16
        invariant
            mac_as_bytes@ == mac_bytes(mac_address@),
            mac_as_bytes@.len() == 6,
            0 <= rep <= 16,
            magic@.len() == 6 + 6 * rep,
            forall|i: int|
                0 <= i < magic@.len() ==> magic@[i] == (if i < 6 {
                    0xffu8
                } else {
                    mac_as_bytes@[(i - 6) % 6]
                }),
        decreases 16 - rep,
    {
        let mut j: usize = 0;
        while j < 6
            invariant
                mac_as_bytes@ == mac_bytes(mac_address@),
                mac_as_bytes@.len() == 6,
                0 <= rep < 16,
                0 <= j <= 6,
                magic@.len() == 6 + 6 * rep + j,
                forall|i: int|
                    0 <= i < magic@.len() ==> magic@[i] == (if i < 6 {
                        0xffu8
                    } else {
                        mac_as_bytes@[(i - 6) % 6]
                    }),
            decreases 6 - j,
        {
            proof {
                lemma_rep_index(rep as int, j as int);
            }
            magic.push(mac_as_bytes[j]);
            j = j + 1;
        }
        rep = rep + 1;
    }
    if magic.len() != 102 {
        return Result::Err(WakeUpError::PacketConstruction);
    }
    proof {
        assert(magic@ =~= magic_packet_bytes(mac_bytes(mac_address@)));
    }
    Result::Ok(magic)
}

} // verus!
