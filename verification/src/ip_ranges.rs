//! Which addresses count as public unicast, stated range by range on the octets: every
//! reserved range is refused, and the global unicast space is accepted.

use crate::ip::{is_public_spec, IpAddr};
use vstd::prelude::*;

verus! {

/// No IPv6 address in a non-public range is public: loopback `::1`, the unspecified `::`,
/// unique-local `fc00::/7`, link-local `fe80::/10`, multicast `ff00::/8` and IPv4-mapped
/// `::ffff:0:0/96`. Every other address, the global unicast block `2000::/3` among them, is
/// public.
pub proof fn reserved_v6_ranges_are_never_public(a: [u8; 16])
    ensures
        a@[0] == 0xfc || a@[0] == 0xfd ==> !is_public_spec(IpAddr::V6(a)),
        a@[0] == 0xfe && 0x80 <= a@[1] <= 0xbf ==> !is_public_spec(IpAddr::V6(a)),
        a@[0] == 0xff ==> !is_public_spec(IpAddr::V6(a)),
        (forall|i: int| 0 <= i < 16 ==> a@[i] == 0) ==> !is_public_spec(IpAddr::V6(a)),
        (forall|i: int| 0 <= i < 15 ==> a@[i] == 0) && a@[15] == 1 ==> !is_public_spec(
            IpAddr::V6(a),
        ),
        (forall|i: int| 0 <= i < 10 ==> a@[i] == 0) && a@[10] == 0xff && a@[11] == 0xff
            ==> !is_public_spec(IpAddr::V6(a)),
        0x20 <= a@[0] <= 0x3f ==> is_public_spec(IpAddr::V6(a)),
        0x01 <= a@[0] <= 0xfb ==> is_public_spec(IpAddr::V6(a)),
        a@[0] == 0xfe && !(0x80 <= a@[1] <= 0xbf) ==> is_public_spec(IpAddr::V6(a)),
        a@[0] == 0 && !(forall|i: int| 0 <= i < 15 ==> a@[i] == 0) && !((forall|i: int|
            0 <= i < 10 ==> a@[i] == 0) && a@[10] == 0xff && a@[11] == 0xff) ==> is_public_spec(
            IpAddr::V6(a),
        ),
{
    assert(a@.len() == 16);
    if 0x20 <= a@[0] <= 0x3f {
        assert(!(forall|i: int| 0 <= i < 15 ==> a@[i] == 0));
        assert(!(forall|i: int| 0 <= i < 16 ==> a@[i] == 0));
    }
}

/// No IPv4 address in a non-public range is public: private `10/8`, `172.16/12` and
/// `192.168/16`, loopback `127/8`, link-local `169.254/16`, multicast `224/4`, the unspecified
/// and broadcast addresses, carrier-grade NAT `100.64/10`, benchmarking `198.18/15`, the 6to4
/// relay `192.88.99/24` and class E `240/4`. Every other address is public.
pub proof fn reserved_v4_ranges_are_never_public(a: [u8; 4])
    ensures
        a@[0] == 10 ==> !is_public_spec(IpAddr::V4(a)),
        a@[0] == 172 && 16 <= a@[1] <= 31 ==> !is_public_spec(IpAddr::V4(a)),
        a@[0] == 192 && a@[1] == 168 ==> !is_public_spec(IpAddr::V4(a)),
        a@[0] == 127 ==> !is_public_spec(IpAddr::V4(a)),
        a@[0] == 169 && a@[1] == 254 ==> !is_public_spec(IpAddr::V4(a)),
        224 <= a@[0] ==> !is_public_spec(IpAddr::V4(a)),
        a@[0] == 0 && a@[1] == 0 && a@[2] == 0 && a@[3] == 0 ==> !is_public_spec(IpAddr::V4(a)),
        a@[0] == 100 && 64 <= a@[1] <= 127 ==> !is_public_spec(IpAddr::V4(a)),
        a@[0] == 198 && 18 <= a@[1] <= 19 ==> !is_public_spec(IpAddr::V4(a)),
        a@[0] == 192 && a@[1] == 88 && a@[2] == 99 ==> !is_public_spec(IpAddr::V4(a)),
        (1 <= a@[0] <= 9 || 11 <= a@[0] <= 99 || 101 <= a@[0] <= 126 || 128 <= a@[0] <= 168
            || 170 <= a@[0] <= 171 || 173 <= a@[0] <= 191 || 193 <= a@[0] <= 197 || 199 <= a@[0]
            <= 223) ==> is_public_spec(IpAddr::V4(a)),
        a@[0] == 172 && !(16 <= a@[1] <= 31) ==> is_public_spec(IpAddr::V4(a)),
        a@[0] == 169 && a@[1] != 254 ==> is_public_spec(IpAddr::V4(a)),
        a@[0] == 100 && !(64 <= a@[1] <= 127) ==> is_public_spec(IpAddr::V4(a)),
        a@[0] == 198 && !(18 <= a@[1] <= 19) ==> is_public_spec(IpAddr::V4(a)),
        a@[0] == 192 && a@[1] != 168 && !(a@[1] == 88 && a@[2] == 99) ==> is_public_spec(
            IpAddr::V4(a),
        ),
        a@[0] == 0 && !(a@[1] == 0 && a@[2] == 0 && a@[3] == 0) ==> is_public_spec(IpAddr::V4(a)),
{
}

} // verus!
