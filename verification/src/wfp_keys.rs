//! Rule keys of the configurations the rule tables are checked against, computed: moving the
//! staged core binary, or landing the tunnel on a new adapter, gives the affected permits new
//! keys, so the key-only diff replaces exactly those permits.

use crate::ip::{ip_text, IpAddr};
use crate::text::dec_text;
use crate::wfp_model::{
    ascii_prefix, endpoint_rule, endpoint_tag, fnv_prefix, keys_carry_the_namespace,
    lemma_fnv_ascii, lemma_rule_fields, tag_hash, tunnel_rule, tunnel_tag, IpProtocol, LayerKind,
};
use vstd::prelude::*;
use vstd::string::*;

verus! {

proof fn lemma_endpoint_a_chain()
    by (bit_vector)
    ensures
        vstd::wrapping::u64_specs::wrapping_mul(vstd::wrapping::u64_specs::wrapping_mul(vstd::wrapping::u64_specs::wrapping_mul(vstd::wrapping::u64_specs::wrapping_mul(vstd::wrapping::u64_specs::wrapping_mul(vstd::wrapping::u64_specs::wrapping_mul(vstd::wrapping::u64_specs::wrapping_mul(vstd::wrapping::u64_specs::wrapping_mul(vstd::wrapping::u64_specs::wrapping_mul(vstd::wrapping::u64_specs::wrapping_mul(vstd::wrapping::u64_specs::wrapping_mul(vstd::wrapping::u64_specs::wrapping_mul(vstd::wrapping::u64_specs::wrapping_mul(vstd::wrapping::u64_specs::wrapping_mul(vstd::wrapping::u64_specs::wrapping_mul(vstd::wrapping::u64_specs::wrapping_mul(vstd::wrapping::u64_specs::wrapping_mul(vstd::wrapping::u64_specs::wrapping_mul(vstd::wrapping::u64_specs::wrapping_mul(vstd::wrapping::u64_specs::wrapping_mul(vstd::wrapping::u64_specs::wrapping_mul(vstd::wrapping::u64_specs::wrapping_mul(vstd::wrapping::u64_specs::wrapping_mul(vstd::wrapping::u64_specs::wrapping_mul(vstd::wrapping::u64_specs::wrapping_mul(vstd::wrapping::u64_specs::wrapping_mul(vstd::wrapping::u64_specs::wrapping_mul(vstd::wrapping::u64_specs::wrapping_mul(vstd::wrapping::u64_specs::wrapping_mul(vstd::wrapping::u64_specs::wrapping_mul(vstd::wrapping::u64_specs::wrapping_mul(vstd::wrapping::u64_specs::wrapping_mul(vstd::wrapping::u64_specs::wrapping_mul(vstd::wrapping::u64_specs::wrapping_mul(vstd::wrapping::u64_specs::wrapping_mul(vstd::wrapping::u64_specs::wrapping_mul(vstd::wrapping::u64_specs::wrapping_mul(vstd::wrapping::u64_specs::wrapping_mul(vstd::wrapping::u64_specs::wrapping_mul(vstd::wrapping::u64_specs::wrapping_mul(vstd::wrapping::u64_specs::wrapping_mul(vstd::wrapping::u64_specs::wrapping_mul(vstd::wrapping::u64_specs::wrapping_mul(vstd::wrapping::u64_specs::wrapping_mul(vstd::wrapping::u64_specs::wrapping_mul(vstd::wrapping::u64_specs::wrapping_mul(vstd::wrapping::u64_specs::wrapping_mul(vstd::wrapping::u64_specs::wrapping_mul(vstd::wrapping::u64_specs::wrapping_mul(vstd::wrapping::u64_specs::wrapping_mul(vstd::wrapping::u64_specs::wrapping_mul(vstd::wrapping::u64_specs::wrapping_mul(vstd::wrapping::u64_specs::wrapping_mul(vstd::wrapping::u64_specs::wrapping_mul(vstd::wrapping::u64_specs::wrapping_mul(vstd::wrapping::u64_specs::wrapping_mul(vstd::wrapping::u64_specs::wrapping_mul(vstd::wrapping::u64_specs::wrapping_mul(vstd::wrapping::u64_specs::wrapping_mul(vstd::wrapping::u64_specs::wrapping_mul(vstd::wrapping::u64_specs::wrapping_mul(vstd::wrapping::u64_specs::wrapping_mul(vstd::wrapping::u64_specs::wrapping_mul(vstd::wrapping::u64_specs::wrapping_mul(vstd::wrapping::u64_specs::wrapping_mul(vstd::wrapping::u64_specs::wrapping_mul(vstd::wrapping::u64_specs::wrapping_mul(vstd::wrapping::u64_specs::wrapping_mul(vstd::wrapping::u64_specs::wrapping_mul(vstd::wrapping::u64_specs::wrapping_mul(vstd::wrapping::u64_specs::wrapping_mul(vstd::wrapping::u64_specs::wrapping_mul(0xcbf2_9ce4_8422_2325u64 ^ 115u64, 0x0000_0100_0000_01b3u64) ^ 101u64, 0x0000_0100_0000_01b3u64) ^ 115u64, 0x0000_0100_0000_01b3u64) ^ 115u64, 0x0000_0100_0000_01b3u64) ^ 105u64, 0x0000_0100_0000_01b3u64) ^ 111u64, 0x0000_0100_0000_01b3u64) ^ 110u64, 0x0000_0100_0000_01b3u64) ^ 47u64, 0x0000_0100_0000_01b3u64) ^ 112u64, 0x0000_0100_0000_01b3u64) ^ 101u64, 0x0000_0100_0000_01b3u64) ^ 114u64, 0x0000_0100_0000_01b3u64) ^ 109u64, 0x0000_0100_0000_01b3u64) ^ 105u64, 0x0000_0100_0000_01b3u64) ^ 116u64, 0x0000_0100_0000_01b3u64) ^ 45u64, 0x0000_0100_0000_01b3u64) ^ 101u64, 0x0000_0100_0000_01b3u64) ^ 110u64, 0x0000_0100_0000_01b3u64) ^ 100u64, 0x0000_0100_0000_01b3u64) ^ 112u64, 0x0000_0100_0000_01b3u64) ^ 111u64, 0x0000_0100_0000_01b3u64) ^ 105u64, 0x0000_0100_0000_01b3u64) ^ 110u64, 0x0000_0100_0000_01b3u64) ^ 116u64, 0x0000_0100_0000_01b3u64) ^ 47u64, 0x0000_0100_0000_01b3u64) ^ 67u64, 0x0000_0100_0000_01b3u64) ^ 58u64, 0x0000_0100_0000_01b3u64) ^ 92u64, 0x0000_0100_0000_01b3u64) ^ 80u64, 0x0000_0100_0000_01b3u64) ^ 114u64, 0x0000_0100_0000_01b3u64) ^ 111u64, 0x0000_0100_0000_01b3u64) ^ 103u64, 0x0000_0100_0000_01b3u64) ^ 114u64, 0x0000_0100_0000_01b3u64) ^ 97u64, 0x0000_0100_0000_01b3u64) ^ 109u64, 0x0000_0100_0000_01b3u64) ^ 68u64, 0x0000_0100_0000_01b3u64) ^ 97u64, 0x0000_0100_0000_01b3u64) ^ 116u64, 0x0000_0100_0000_01b3u64) ^ 97u64, 0x0000_0100_0000_01b3u64) ^ 92u64, 0x0000_0100_0000_01b3u64) ^ 84u64, 0x0000_0100_0000_01b3u64) ^ 111u64, 0x0000_0100_0000_01b3u64) ^ 110u64, 0x0000_0100_0000_01b3u64) ^ 111u64, 0x0000_0100_0000_01b3u64) ^ 92u64, 0x0000_0100_0000_01b3u64) ^ 98u64, 0x0000_0100_0000_01b3u64) ^ 105u64, 0x0000_0100_0000_01b3u64) ^ 110u64, 0x0000_0100_0000_01b3u64) ^ 92u64, 0x0000_0100_0000_01b3u64) ^ 109u64, 0x0000_0100_0000_01b3u64) ^ 105u64, 0x0000_0100_0000_01b3u64) ^ 104u64, 0x0000_0100_0000_01b3u64) ^ 111u64, 0x0000_0100_0000_01b3u64) ^ 109u64, 0x0000_0100_0000_01b3u64) ^ 111u64, 0x0000_0100_0000_01b3u64) ^ 46u64, 0x0000_0100_0000_01b3u64) ^ 101u64, 0x0000_0100_0000_01b3u64) ^ 120u64, 0x0000_0100_0000_01b3u64) ^ 101u64, 0x0000_0100_0000_01b3u64) ^ 47u64, 0x0000_0100_0000_01b3u64) ^ 56u64, 0x0000_0100_0000_01b3u64) ^ 46u64, 0x0000_0100_0000_01b3u64) ^ 56u64, 0x0000_0100_0000_01b3u64) ^ 46u64, 0x0000_0100_0000_01b3u64) ^ 56u64, 0x0000_0100_0000_01b3u64) ^ 46u64, 0x0000_0100_0000_01b3u64) ^ 56u64, 0x0000_0100_0000_01b3u64) ^ 47u64, 0x0000_0100_0000_01b3u64) ^ 52u64, 0x0000_0100_0000_01b3u64) ^ 52u64, 0x0000_0100_0000_01b3u64) ^ 51u64, 0x0000_0100_0000_01b3u64) ^ 47u64, 0x0000_0100_0000_01b3u64) ^ 54u64, 0x0000_0100_0000_01b3u64) == 0xb287958d85176f33u64,
{
}

#[verifier::rlimit(60)]
proof fn lemma_endpoint_a_hash()
    ensures
        tag_hash("session/permit-endpoint/C:\\ProgramData\\Tono\\bin\\mihomo.exe/8.8.8.8/443/6"@) == 0xb287958d85176f33u64,
{
    let s = "session/permit-endpoint/C:\\ProgramData\\Tono\\bin\\mihomo.exe/8.8.8.8/443/6"@;
    reveal_strlit("session/permit-endpoint/C:\\ProgramData\\Tono\\bin\\mihomo.exe/8.8.8.8/443/6");
    assert(ascii_prefix(s, 72)) by {
        reveal_with_fuel(ascii_prefix, 73);
    }
    lemma_fnv_ascii(s, 72);
    assert(s.take(72) =~= s);
    lemma_endpoint_a_chain();
    assert(fnv_prefix(s, 72) == 0xb287958d85176f33u64) by {
        reveal_with_fuel(fnv_prefix, 73);
    }
}

proof fn lemma_endpoint_b_chain()
    by (bit_vector)
    ensures
        vstd::wrapping::u64_specs::wrapping_mul(vstd::wrapping::u64_specs::wrapping_mul(vstd::wrapping::u64_specs::wrapping_mul(vstd::wrapping::u64_specs::wrapping_mul(vstd::wrapping::u64_specs::wrapping_mul(vstd::wrapping::u64_specs::wrapping_mul(vstd::wrapping::u64_specs::wrapping_mul(vstd::wrapping::u64_specs::wrapping_mul(vstd::wrapping::u64_specs::wrapping_mul(vstd::wrapping::u64_specs::wrapping_mul(vstd::wrapping::u64_specs::wrapping_mul(vstd::wrapping::u64_specs::wrapping_mul(vstd::wrapping::u64_specs::wrapping_mul(vstd::wrapping::u64_specs::wrapping_mul(vstd::wrapping::u64_specs::wrapping_mul(vstd::wrapping::u64_specs::wrapping_mul(vstd::wrapping::u64_specs::wrapping_mul(vstd::wrapping::u64_specs::wrapping_mul(vstd::wrapping::u64_specs::wrapping_mul(vstd::wrapping::u64_specs::wrapping_mul(vstd::wrapping::u64_specs::wrapping_mul(vstd::wrapping::u64_specs::wrapping_mul(vstd::wrapping::u64_specs::wrapping_mul(vstd::wrapping::u64_specs::wrapping_mul(vstd::wrapping::u64_specs::wrapping_mul(vstd::wrapping::u64_specs::wrapping_mul(vstd::wrapping::u64_specs::wrapping_mul(vstd::wrapping::u64_specs::wrapping_mul(vstd::wrapping::u64_specs::wrapping_mul(vstd::wrapping::u64_specs::wrapping_mul(vstd::wrapping::u64_specs::wrapping_mul(vstd::wrapping::u64_specs::wrapping_mul(vstd::wrapping::u64_specs::wrapping_mul(vstd::wrapping::u64_specs::wrapping_mul(vstd::wrapping::u64_specs::wrapping_mul(vstd::wrapping::u64_specs::wrapping_mul(vstd::wrapping::u64_specs::wrapping_mul(vstd::wrapping::u64_specs::wrapping_mul(vstd::wrapping::u64_specs::wrapping_mul(vstd::wrapping::u64_specs::wrapping_mul(vstd::wrapping::u64_specs::wrapping_mul(vstd::wrapping::u64_specs::wrapping_mul(vstd::wrapping::u64_specs::wrapping_mul(vstd::wrapping::u64_specs::wrapping_mul(vstd::wrapping::u64_specs::wrapping_mul(vstd::wrapping::u64_specs::wrapping_mul(vstd::wrapping::u64_specs::wrapping_mul(vstd::wrapping::u64_specs::wrapping_mul(vstd::wrapping::u64_specs::wrapping_mul(vstd::wrapping::u64_specs::wrapping_mul(vstd::wrapping::u64_specs::wrapping_mul(vstd::wrapping::u64_specs::wrapping_mul(vstd::wrapping::u64_specs::wrapping_mul(vstd::wrapping::u64_specs::wrapping_mul(vstd::wrapping::u64_specs::wrapping_mul(vstd::wrapping::u64_specs::wrapping_mul(vstd::wrapping::u64_specs::wrapping_mul(vstd::wrapping::u64_specs::wrapping_mul(vstd::wrapping::u64_specs::wrapping_mul(vstd::wrapping::u64_specs::wrapping_mul(vstd::wrapping::u64_specs::wrapping_mul(vstd::wrapping::u64_specs::wrapping_mul(vstd::wrapping::u64_specs::wrapping_mul(vstd::wrapping::u64_specs::wrapping_mul(vstd::wrapping::u64_specs::wrapping_mul(vstd::wrapping::u64_specs::wrapping_mul(vstd::wrapping::u64_specs::wrapping_mul(vstd::wrapping::u64_specs::wrapping_mul(vstd::wrapping::u64_specs::wrapping_mul(vstd::wrapping::u64_specs::wrapping_mul(vstd::wrapping::u64_specs::wrapping_mul(vstd::wrapping::u64_specs::wrapping_mul(vstd::wrapping::u64_specs::wrapping_mul(vstd::wrapping::u64_specs::wrapping_mul(vstd::wrapping::u64_specs::wrapping_mul(vstd::wrapping::u64_specs::wrapping_mul(vstd::wrapping::u64_specs::wrapping_mul(vstd::wrapping::u64_specs::wrapping_mul(0xcbf2_9ce4_8422_2325u64 ^ 115u64, 0x0000_0100_0000_01b3u64) ^ 101u64, 0x0000_0100_0000_01b3u64) ^ 115u64, 0x0000_0100_0000_01b3u64) ^ 115u64, 0x0000_0100_0000_01b3u64) ^ 105u64, 0x0000_0100_0000_01b3u64) ^ 111u64, 0x0000_0100_0000_01b3u64) ^ 110u64, 0x0000_0100_0000_01b3u64) ^ 47u64, 0x0000_0100_0000_01b3u64) ^ 112u64, 0x0000_0100_0000_01b3u64) ^ 101u64, 0x0000_0100_0000_01b3u64) ^ 114u64, 0x0000_0100_0000_01b3u64) ^ 109u64, 0x0000_0100_0000_01b3u64) ^ 105u64, 0x0000_0100_0000_01b3u64) ^ 116u64, 0x0000_0100_0000_01b3u64) ^ 45u64, 0x0000_0100_0000_01b3u64) ^ 101u64, 0x0000_0100_0000_01b3u64) ^ 110u64, 0x0000_0100_0000_01b3u64) ^ 100u64, 0x0000_0100_0000_01b3u64) ^ 112u64, 0x0000_0100_0000_01b3u64) ^ 111u64, 0x0000_0100_0000_01b3u64) ^ 105u64, 0x0000_0100_0000_01b3u64) ^ 110u64, 0x0000_0100_0000_01b3u64) ^ 116u64, 0x0000_0100_0000_01b3u64) ^ 47u64, 0x0000_0100_0000_01b3u64) ^ 67u64, 0x0000_0100_0000_01b3u64) ^ 58u64, 0x0000_0100_0000_01b3u64) ^ 92u64, 0x0000_0100_0000_01b3u64) ^ 80u64, 0x0000_0100_0000_01b3u64) ^ 114u64, 0x0000_0100_0000_01b3u64) ^ 111u64, 0x0000_0100_0000_01b3u64) ^ 103u64, 0x0000_0100_0000_01b3u64) ^ 114u64, 0x0000_0100_0000_01b3u64) ^ 97u64, 0x0000_0100_0000_01b3u64) ^ 109u64, 0x0000_0100_0000_01b3u64) ^ 68u64, 0x0000_0100_0000_01b3u64) ^ 97u64, 0x0000_0100_0000_01b3u64) ^ 116u64, 0x0000_0100_0000_01b3u64) ^ 97u64, 0x0000_0100_0000_01b3u64) ^ 92u64, 0x0000_0100_0000_01b3u64) ^ 84u64, 0x0000_0100_0000_01b3u64) ^ 111u64, 0x0000_0100_0000_01b3u64) ^ 110u64, 0x0000_0100_0000_01b3u64) ^ 111u64, 0x0000_0100_0000_01b3u64) ^ 92u64, 0x0000_0100_0000_01b3u64) ^ 98u64, 0x0000_0100_0000_01b3u64) ^ 105u64, 0x0000_0100_0000_01b3u64) ^ 110u64, 0x0000_0100_0000_01b3u64) ^ 92u64, 0x0000_0100_0000_01b3u64) ^ 103u64, 0x0000_0100_0000_01b3u64) ^ 101u64, 0x0000_0100_0000_01b3u64) ^ 110u64, 0x0000_0100_0000_01b3u64) ^ 45u64, 0x0000_0100_0000_01b3u64) ^ 50u64, 0x0000_0100_0000_01b3u64) ^ 92u64, 0x0000_0100_0000_01b3u64) ^ 109u64, 0x0000_0100_0000_01b3u64) ^ 105u64, 0x0000_0100_0000_01b3u64) ^ 104u64, 0x0000_0100_0000_01b3u64) ^ 111u64, 0x0000_0100_0000_01b3u64) ^ 109u64, 0x0000_0100_0000_01b3u64) ^ 111u64, 0x0000_0100_0000_01b3u64) ^ 46u64, 0x0000_0100_0000_01b3u64) ^ 101u64, 0x0000_0100_0000_01b3u64) ^ 120u64, 0x0000_0100_0000_01b3u64) ^ 101u64, 0x0000_0100_0000_01b3u64) ^ 47u64, 0x0000_0100_0000_01b3u64) ^ 56u64, 0x0000_0100_0000_01b3u64) ^ 46u64, 0x0000_0100_0000_01b3u64) ^ 56u64, 0x0000_0100_0000_01b3u64) ^ 46u64, 0x0000_0100_0000_01b3u64) ^ 56u64, 0x0000_0100_0000_01b3u64) ^ 46u64, 0x0000_0100_0000_01b3u64) ^ 56u64, 0x0000_0100_0000_01b3u64) ^ 47u64, 0x0000_0100_0000_01b3u64) ^ 52u64, 0x0000_0100_0000_01b3u64) ^ 52u64, 0x0000_0100_0000_01b3u64) ^ 51u64, 0x0000_0100_0000_01b3u64) ^ 47u64, 0x0000_0100_0000_01b3u64) ^ 54u64, 0x0000_0100_0000_01b3u64) == 0x2f6d11e6e5458dd8u64,
{
}

#[verifier::rlimit(60)]
proof fn lemma_endpoint_b_hash()
    ensures
        tag_hash("session/permit-endpoint/C:\\ProgramData\\Tono\\bin\\gen-2\\mihomo.exe/8.8.8.8/443/6"@) == 0x2f6d11e6e5458dd8u64,
{
    let s = "session/permit-endpoint/C:\\ProgramData\\Tono\\bin\\gen-2\\mihomo.exe/8.8.8.8/443/6"@;
    reveal_strlit("session/permit-endpoint/C:\\ProgramData\\Tono\\bin\\gen-2\\mihomo.exe/8.8.8.8/443/6");
    assert(ascii_prefix(s, 78)) by {
        reveal_with_fuel(ascii_prefix, 79);
    }
    lemma_fnv_ascii(s, 78);
    assert(s.take(78) =~= s);
    lemma_endpoint_b_chain();
    assert(fnv_prefix(s, 78) == 0x2f6d11e6e5458dd8u64) by {
        reveal_with_fuel(fnv_prefix, 79);
    }
}

proof fn lemma_tunnel_v4_a_chain()
    by (bit_vector)
    ensures
        vstd::wrapping::u64_specs::wrapping_mul(vstd::wrapping::u64_specs::wrapping_mul(vstd::wrapping::u64_specs::wrapping_mul(vstd::wrapping::u64_specs::wrapping_mul(vstd::wrapping::u64_specs::wrapping_mul(vstd::wrapping::u64_specs::wrapping_mul(vstd::wrapping::u64_specs::wrapping_mul(vstd::wrapping::u64_specs::wrapping_mul(vstd::wrapping::u64_specs::wrapping_mul(vstd::wrapping::u64_specs::wrapping_mul(vstd::wrapping::u64_specs::wrapping_mul(vstd::wrapping::u64_specs::wrapping_mul(vstd::wrapping::u64_specs::wrapping_mul(vstd::wrapping::u64_specs::wrapping_mul(vstd::wrapping::u64_specs::wrapping_mul(vstd::wrapping::u64_specs::wrapping_mul(vstd::wrapping::u64_specs::wrapping_mul(vstd::wrapping::u64_specs::wrapping_mul(vstd::wrapping::u64_specs::wrapping_mul(vstd::wrapping::u64_specs::wrapping_mul(vstd::wrapping::u64_specs::wrapping_mul(vstd::wrapping::u64_specs::wrapping_mul(vstd::wrapping::u64_specs::wrapping_mul(vstd::wrapping::u64_specs::wrapping_mul(vstd::wrapping::u64_specs::wrapping_mul(vstd::wrapping::u64_specs::wrapping_mul(vstd::wrapping::u64_specs::wrapping_mul(vstd::wrapping::u64_specs::wrapping_mul(vstd::wrapping::u64_specs::wrapping_mul(vstd::wrapping::u64_specs::wrapping_mul(vstd::wrapping::u64_specs::wrapping_mul(vstd::wrapping::u64_specs::wrapping_mul(vstd::wrapping::u64_specs::wrapping_mul(vstd::wrapping::u64_specs::wrapping_mul(vstd::wrapping::u64_specs::wrapping_mul(vstd::wrapping::u64_specs::wrapping_mul(vstd::wrapping::u64_specs::wrapping_mul(vstd::wrapping::u64_specs::wrapping_mul(vstd::wrapping::u64_specs::wrapping_mul(vstd::wrapping::u64_specs::wrapping_mul(vstd::wrapping::u64_specs::wrapping_mul(vstd::wrapping::u64_specs::wrapping_mul(vstd::wrapping::u64_specs::wrapping_mul(vstd::wrapping::u64_specs::wrapping_mul(vstd::wrapping::u64_specs::wrapping_mul(vstd::wrapping::u64_specs::wrapping_mul(vstd::wrapping::u64_specs::wrapping_mul(vstd::wrapping::u64_specs::wrapping_mul(0xcbf2_9ce4_8422_2325u64 ^ 115u64, 0x0000_0100_0000_01b3u64) ^ 101u64, 0x0000_0100_0000_01b3u64) ^ 115u64, 0x0000_0100_0000_01b3u64) ^ 115u64, 0x0000_0100_0000_01b3u64) ^ 105u64, 0x0000_0100_0000_01b3u64) ^ 111u64, 0x0000_0100_0000_01b3u64) ^ 110u64, 0x0000_0100_0000_01b3u64) ^ 47u64, 0x0000_0100_0000_01b3u64) ^ 112u64, 0x0000_0100_0000_01b3u64) ^ 101u64, 0x0000_0100_0000_01b3u64) ^ 114u64, 0x0000_0100_0000_01b3u64) ^ 109u64, 0x0000_0100_0000_01b3u64) ^ 105u64, 0x0000_0100_0000_01b3u64) ^ 116u64, 0x0000_0100_0000_01b3u64) ^ 45u64, 0x0000_0100_0000_01b3u64) ^ 116u64, 0x0000_0100_0000_01b3u64) ^ 117u64, 0x0000_0100_0000_01b3u64) ^ 110u64, 0x0000_0100_0000_01b3u64) ^ 110u64, 0x0000_0100_0000_01b3u64) ^ 101u64, 0x0000_0100_0000_01b3u64) ^ 108u64, 0x0000_0100_0000_01b3u64) ^ 47u64, 0x0000_0100_0000_01b3u64) ^ 65u64, 0x0000_0100_0000_01b3u64) ^ 108u64, 0x0000_0100_0000_01b3u64) ^ 101u64, 0x0000_0100_0000_01b3u64) ^ 65u64, 0x0000_0100_0000_01b3u64) ^ 117u64, 0x0000_0100_0000_01b3u64) ^ 116u64, 0x0000_0100_0000_01b3u64) ^ 104u64, 0x0000_0100_0000_01b3u64) ^ 67u64, 0x0000_0100_0000_01b3u64) ^ 111u64, 0x0000_0100_0000_01b3u64) ^ 110u64, 0x0000_0100_0000_01b3u64) ^ 110u64, 0x0000_0100_0000_01b3u64) ^ 101u64, 0x0000_0100_0000_01b3u64) ^ 99u64, 0x0000_0100_0000_01b3u64) ^ 116u64, 0x0000_0100_0000_01b3u64) ^ 86u64, 0x0000_0100_0000_01b3u64) ^ 52u64, 0x0000_0100_0000_01b3u64) ^ 47u64, 0x0000_0100_0000_01b3u64) ^ 51u64, 0x0000_0100_0000_01b3u64) ^ 48u64, 0x0000_0100_0000_01b3u64) ^ 53u64, 0x0000_0100_0000_01b3u64) ^ 52u64, 0x0000_0100_0000_01b3u64) ^ 49u64, 0x0000_0100_0000_01b3u64) ^ 57u64, 0x0000_0100_0000_01b3u64) ^ 56u64, 0x0000_0100_0000_01b3u64) ^ 57u64, 0x0000_0100_0000_01b3u64) ^ 54u64, 0x0000_0100_0000_01b3u64) == 0x63a1404fb37285a3u64,
{
}

#[verifier::rlimit(60)]
proof fn lemma_tunnel_v4_a_hash()
    ensures
        tag_hash("session/permit-tunnel/AleAuthConnectV4/305419896"@) == 0x63a1404fb37285a3u64,
{
    let s = "session/permit-tunnel/AleAuthConnectV4/305419896"@;
    reveal_strlit("session/permit-tunnel/AleAuthConnectV4/305419896");
    assert(ascii_prefix(s, 48)) by {
        reveal_with_fuel(ascii_prefix, 49);
    }
    lemma_fnv_ascii(s, 48);
    assert(s.take(48) =~= s);
    lemma_tunnel_v4_a_chain();
    assert(fnv_prefix(s, 48) == 0x63a1404fb37285a3u64) by {
        reveal_with_fuel(fnv_prefix, 49);
    }
}

proof fn lemma_tunnel_v4_b_chain()
    by (bit_vector)
    ensures
        vstd::wrapping::u64_specs::wrapping_mul(vstd::wrapping::u64_specs::wrapping_mul(vstd::wrapping::u64_specs::wrapping_mul(vstd::wrapping::u64_specs::wrapping_mul(vstd::wrapping::u64_specs::wrapping_mul(vstd::wrapping::u64_specs::wrapping_mul(vstd::wrapping::u64_specs::wrapping_mul(vstd::wrapping::u64_specs::wrapping_mul(vstd::wrapping::u64_specs::wrapping_mul(vstd::wrapping::u64_specs::wrapping_mul(vstd::wrapping::u64_specs::wrapping_mul(vstd::wrapping::u64_specs::wrapping_mul(vstd::wrapping::u64_specs::wrapping_mul(vstd::wrapping::u64_specs::wrapping_mul(vstd::wrapping::u64_specs::wrapping_mul(vstd::wrapping::u64_specs::wrapping_mul(vstd::wrapping::u64_specs::wrapping_mul(vstd::wrapping::u64_specs::wrapping_mul(vstd::wrapping::u64_specs::wrapping_mul(vstd::wrapping::u64_specs::wrapping_mul(vstd::wrapping::u64_specs::wrapping_mul(vstd::wrapping::u64_specs::wrapping_mul(vstd::wrapping::u64_specs::wrapping_mul(vstd::wrapping::u64_specs::wrapping_mul(vstd::wrapping::u64_specs::wrapping_mul(vstd::wrapping::u64_specs::wrapping_mul(vstd::wrapping::u64_specs::wrapping_mul(vstd::wrapping::u64_specs::wrapping_mul(vstd::wrapping::u64_specs::wrapping_mul(vstd::wrapping::u64_specs::wrapping_mul(vstd::wrapping::u64_specs::wrapping_mul(vstd::wrapping::u64_specs::wrapping_mul(vstd::wrapping::u64_specs::wrapping_mul(vstd::wrapping::u64_specs::wrapping_mul(vstd::wrapping::u64_specs::wrapping_mul(vstd::wrapping::u64_specs::wrapping_mul(vstd::wrapping::u64_specs::wrapping_mul(vstd::wrapping::u64_specs::wrapping_mul(vstd::wrapping::u64_specs::wrapping_mul(vstd::wrapping::u64_specs::wrapping_mul(vstd::wrapping::u64_specs::wrapping_mul(vstd::wrapping::u64_specs::wrapping_mul(vstd::wrapping::u64_specs::wrapping_mul(vstd::wrapping::u64_specs::wrapping_mul(0xcbf2_9ce4_8422_2325u64 ^ 115u64, 0x0000_0100_0000_01b3u64) ^ 101u64, 0x0000_0100_0000_01b3u64) ^ 115u64, 0x0000_0100_0000_01b3u64) ^ 115u64, 0x0000_0100_0000_01b3u64) ^ 105u64, 0x0000_0100_0000_01b3u64) ^ 111u64, 0x0000_0100_0000_01b3u64) ^ 110u64, 0x0000_0100_0000_01b3u64) ^ 47u64, 0x0000_0100_0000_01b3u64) ^ 112u64, 0x0000_0100_0000_01b3u64) ^ 101u64, 0x0000_0100_0000_01b3u64) ^ 114u64, 0x0000_0100_0000_01b3u64) ^ 109u64, 0x0000_0100_0000_01b3u64) ^ 105u64, 0x0000_0100_0000_01b3u64) ^ 116u64, 0x0000_0100_0000_01b3u64) ^ 45u64, 0x0000_0100_0000_01b3u64) ^ 116u64, 0x0000_0100_0000_01b3u64) ^ 117u64, 0x0000_0100_0000_01b3u64) ^ 110u64, 0x0000_0100_0000_01b3u64) ^ 110u64, 0x0000_0100_0000_01b3u64) ^ 101u64, 0x0000_0100_0000_01b3u64) ^ 108u64, 0x0000_0100_0000_01b3u64) ^ 47u64, 0x0000_0100_0000_01b3u64) ^ 65u64, 0x0000_0100_0000_01b3u64) ^ 108u64, 0x0000_0100_0000_01b3u64) ^ 101u64, 0x0000_0100_0000_01b3u64) ^ 65u64, 0x0000_0100_0000_01b3u64) ^ 117u64, 0x0000_0100_0000_01b3u64) ^ 116u64, 0x0000_0100_0000_01b3u64) ^ 104u64, 0x0000_0100_0000_01b3u64) ^ 67u64, 0x0000_0100_0000_01b3u64) ^ 111u64, 0x0000_0100_0000_01b3u64) ^ 110u64, 0x0000_0100_0000_01b3u64) ^ 110u64, 0x0000_0100_0000_01b3u64) ^ 101u64, 0x0000_0100_0000_01b3u64) ^ 99u64, 0x0000_0100_0000_01b3u64) ^ 116u64, 0x0000_0100_0000_01b3u64) ^ 86u64, 0x0000_0100_0000_01b3u64) ^ 52u64, 0x0000_0100_0000_01b3u64) ^ 47u64, 0x0000_0100_0000_01b3u64) ^ 51u64, 0x0000_0100_0000_01b3u64) ^ 57u64, 0x0000_0100_0000_01b3u64) ^ 51u64, 0x0000_0100_0000_01b3u64) ^ 50u64, 0x0000_0100_0000_01b3u64) ^ 49u64, 0x0000_0100_0000_01b3u64) == 0x9233690c2c69c374u64,
{
}

#[verifier::rlimit(60)]
proof fn lemma_tunnel_v4_b_hash()
    ensures
        tag_hash("session/permit-tunnel/AleAuthConnectV4/39321"@) == 0x9233690c2c69c374u64,
{
    let s = "session/permit-tunnel/AleAuthConnectV4/39321"@;
    reveal_strlit("session/permit-tunnel/AleAuthConnectV4/39321");
    assert(ascii_prefix(s, 44)) by {
        reveal_with_fuel(ascii_prefix, 45);
    }
    lemma_fnv_ascii(s, 44);
    assert(s.take(44) =~= s);
    lemma_tunnel_v4_b_chain();
    assert(fnv_prefix(s, 44) == 0x9233690c2c69c374u64) by {
        reveal_with_fuel(fnv_prefix, 45);
    }
}

proof fn lemma_tunnel_v6_a_chain()
    by (bit_vector)
    ensures
        vstd::wrapping::u64_specs::wrapping_mul(vstd::wrapping::u64_specs::wrapping_mul(vstd::wrapping::u64_specs::wrapping_mul(vstd::wrapping::u64_specs::wrapping_mul(vstd::wrapping::u64_specs::wrapping_mul(vstd::wrapping::u64_specs::wrapping_mul(vstd::wrapping::u64_specs::wrapping_mul(vstd::wrapping::u64_specs::wrapping_mul(vstd::wrapping::u64_specs::wrapping_mul(vstd::wrapping::u64_specs::wrapping_mul(vstd::wrapping::u64_specs::wrapping_mul(vstd::wrapping::u64_specs::wrapping_mul(vstd::wrapping::u64_specs::wrapping_mul(vstd::wrapping::u64_specs::wrapping_mul(vstd::wrapping::u64_specs::wrapping_mul(vstd::wrapping::u64_specs::wrapping_mul(vstd::wrapping::u64_specs::wrapping_mul(vstd::wrapping::u64_specs::wrapping_mul(vstd::wrapping::u64_specs::wrapping_mul(vstd::wrapping::u64_specs::wrapping_mul(vstd::wrapping::u64_specs::wrapping_mul(vstd::wrapping::u64_specs::wrapping_mul(vstd::wrapping::u64_specs::wrapping_mul(vstd::wrapping::u64_specs::wrapping_mul(vstd::wrapping::u64_specs::wrapping_mul(vstd::wrapping::u64_specs::wrapping_mul(vstd::wrapping::u64_specs::wrapping_mul(vstd::wrapping::u64_specs::wrapping_mul(vstd::wrapping::u64_specs::wrapping_mul(vstd::wrapping::u64_specs::wrapping_mul(vstd::wrapping::u64_specs::wrapping_mul(vstd::wrapping::u64_specs::wrapping_mul(vstd::wrapping::u64_specs::wrapping_mul(vstd::wrapping::u64_specs::wrapping_mul(vstd::wrapping::u64_specs::wrapping_mul(vstd::wrapping::u64_specs::wrapping_mul(vstd::wrapping::u64_specs::wrapping_mul(vstd::wrapping::u64_specs::wrapping_mul(vstd::wrapping::u64_specs::wrapping_mul(vstd::wrapping::u64_specs::wrapping_mul(vstd::wrapping::u64_specs::wrapping_mul(vstd::wrapping::u64_specs::wrapping_mul(vstd::wrapping::u64_specs::wrapping_mul(vstd::wrapping::u64_specs::wrapping_mul(vstd::wrapping::u64_specs::wrapping_mul(vstd::wrapping::u64_specs::wrapping_mul(vstd::wrapping::u64_specs::wrapping_mul(vstd::wrapping::u64_specs::wrapping_mul(0xcbf2_9ce4_8422_2325u64 ^ 115u64, 0x0000_0100_0000_01b3u64) ^ 101u64, 0x0000_0100_0000_01b3u64) ^ 115u64, 0x0000_0100_0000_01b3u64) ^ 115u64, 0x0000_0100_0000_01b3u64) ^ 105u64, 0x0000_0100_0000_01b3u64) ^ 111u64, 0x0000_0100_0000_01b3u64) ^ 110u64, 0x0000_0100_0000_01b3u64) ^ 47u64, 0x0000_0100_0000_01b3u64) ^ 112u64, 0x0000_0100_0000_01b3u64) ^ 101u64, 0x0000_0100_0000_01b3u64) ^ 114u64, 0x0000_0100_0000_01b3u64) ^ 109u64, 0x0000_0100_0000_01b3u64) ^ 105u64, 0x0000_0100_0000_01b3u64) ^ 116u64, 0x0000_0100_0000_01b3u64) ^ 45u64, 0x0000_0100_0000_01b3u64) ^ 116u64, 0x0000_0100_0000_01b3u64) ^ 117u64, 0x0000_0100_0000_01b3u64) ^ 110u64, 0x0000_0100_0000_01b3u64) ^ 110u64, 0x0000_0100_0000_01b3u64) ^ 101u64, 0x0000_0100_0000_01b3u64) ^ 108u64, 0x0000_0100_0000_01b3u64) ^ 47u64, 0x0000_0100_0000_01b3u64) ^ 65u64, 0x0000_0100_0000_01b3u64) ^ 108u64, 0x0000_0100_0000_01b3u64) ^ 101u64, 0x0000_0100_0000_01b3u64) ^ 65u64, 0x0000_0100_0000_01b3u64) ^ 117u64, 0x0000_0100_0000_01b3u64) ^ 116u64, 0x0000_0100_0000_01b3u64) ^ 104u64, 0x0000_0100_0000_01b3u64) ^ 67u64, 0x0000_0100_0000_01b3u64) ^ 111u64, 0x0000_0100_0000_01b3u64) ^ 110u64, 0x0000_0100_0000_01b3u64) ^ 110u64, 0x0000_0100_0000_01b3u64) ^ 101u64, 0x0000_0100_0000_01b3u64) ^ 99u64, 0x0000_0100_0000_01b3u64) ^ 116u64, 0x0000_0100_0000_01b3u64) ^ 86u64, 0x0000_0100_0000_01b3u64) ^ 54u64, 0x0000_0100_0000_01b3u64) ^ 47u64, 0x0000_0100_0000_01b3u64) ^ 51u64, 0x0000_0100_0000_01b3u64) ^ 48u64, 0x0000_0100_0000_01b3u64) ^ 53u64, 0x0000_0100_0000_01b3u64) ^ 52u64, 0x0000_0100_0000_01b3u64) ^ 49u64, 0x0000_0100_0000_01b3u64) ^ 57u64, 0x0000_0100_0000_01b3u64) ^ 56u64, 0x0000_0100_0000_01b3u64) ^ 57u64, 0x0000_0100_0000_01b3u64) ^ 54u64, 0x0000_0100_0000_01b3u64) == 0x45a9f4766b5280fdu64,
{
}

#[verifier::rlimit(60)]
proof fn lemma_tunnel_v6_a_hash()
    ensures
        tag_hash("session/permit-tunnel/AleAuthConnectV6/305419896"@) == 0x45a9f4766b5280fdu64,
{
    let s = "session/permit-tunnel/AleAuthConnectV6/305419896"@;
    reveal_strlit("session/permit-tunnel/AleAuthConnectV6/305419896");
    assert(ascii_prefix(s, 48)) by {
        reveal_with_fuel(ascii_prefix, 49);
    }
    lemma_fnv_ascii(s, 48);
    assert(s.take(48) =~= s);
    lemma_tunnel_v6_a_chain();
    assert(fnv_prefix(s, 48) == 0x45a9f4766b5280fdu64) by {
        reveal_with_fuel(fnv_prefix, 49);
    }
}

proof fn lemma_tunnel_v6_b_chain()
    by (bit_vector)
    ensures
        vstd::wrapping::u64_specs::wrapping_mul(vstd::wrapping::u64_specs::wrapping_mul(vstd::wrapping::u64_specs::wrapping_mul(vstd::wrapping::u64_specs::wrapping_mul(vstd::wrapping::u64_specs::wrapping_mul(vstd::wrapping::u64_specs::wrapping_mul(vstd::wrapping::u64_specs::wrapping_mul(vstd::wrapping::u64_specs::wrapping_mul(vstd::wrapping::u64_specs::wrapping_mul(vstd::wrapping::u64_specs::wrapping_mul(vstd::wrapping::u64_specs::wrapping_mul(vstd::wrapping::u64_specs::wrapping_mul(vstd::wrapping::u64_specs::wrapping_mul(vstd::wrapping::u64_specs::wrapping_mul(vstd::wrapping::u64_specs::wrapping_mul(vstd::wrapping::u64_specs::wrapping_mul(vstd::wrapping::u64_specs::wrapping_mul(vstd::wrapping::u64_specs::wrapping_mul(vstd::wrapping::u64_specs::wrapping_mul(vstd::wrapping::u64_specs::wrapping_mul(vstd::wrapping::u64_specs::wrapping_mul(vstd::wrapping::u64_specs::wrapping_mul(vstd::wrapping::u64_specs::wrapping_mul(vstd::wrapping::u64_specs::wrapping_mul(vstd::wrapping::u64_specs::wrapping_mul(vstd::wrapping::u64_specs::wrapping_mul(vstd::wrapping::u64_specs::wrapping_mul(vstd::wrapping::u64_specs::wrapping_mul(vstd::wrapping::u64_specs::wrapping_mul(vstd::wrapping::u64_specs::wrapping_mul(vstd::wrapping::u64_specs::wrapping_mul(vstd::wrapping::u64_specs::wrapping_mul(vstd::wrapping::u64_specs::wrapping_mul(vstd::wrapping::u64_specs::wrapping_mul(vstd::wrapping::u64_specs::wrapping_mul(vstd::wrapping::u64_specs::wrapping_mul(vstd::wrapping::u64_specs::wrapping_mul(vstd::wrapping::u64_specs::wrapping_mul(vstd::wrapping::u64_specs::wrapping_mul(vstd::wrapping::u64_specs::wrapping_mul(vstd::wrapping::u64_specs::wrapping_mul(vstd::wrapping::u64_specs::wrapping_mul(vstd::wrapping::u64_specs::wrapping_mul(vstd::wrapping::u64_specs::wrapping_mul(0xcbf2_9ce4_8422_2325u64 ^ 115u64, 0x0000_0100_0000_01b3u64) ^ 101u64, 0x0000_0100_0000_01b3u64) ^ 115u64, 0x0000_0100_0000_01b3u64) ^ 115u64, 0x0000_0100_0000_01b3u64) ^ 105u64, 0x0000_0100_0000_01b3u64) ^ 111u64, 0x0000_0100_0000_01b3u64) ^ 110u64, 0x0000_0100_0000_01b3u64) ^ 47u64, 0x0000_0100_0000_01b3u64) ^ 112u64, 0x0000_0100_0000_01b3u64) ^ 101u64, 0x0000_0100_0000_01b3u64) ^ 114u64, 0x0000_0100_0000_01b3u64) ^ 109u64, 0x0000_0100_0000_01b3u64) ^ 105u64, 0x0000_0100_0000_01b3u64) ^ 116u64, 0x0000_0100_0000_01b3u64) ^ 45u64, 0x0000_0100_0000_01b3u64) ^ 116u64, 0x0000_0100_0000_01b3u64) ^ 117u64, 0x0000_0100_0000_01b3u64) ^ 110u64, 0x0000_0100_0000_01b3u64) ^ 110u64, 0x0000_0100_0000_01b3u64) ^ 101u64, 0x0000_0100_0000_01b3u64) ^ 108u64, 0x0000_0100_0000_01b3u64) ^ 47u64, 0x0000_0100_0000_01b3u64) ^ 65u64, 0x0000_0100_0000_01b3u64) ^ 108u64, 0x0000_0100_0000_01b3u64) ^ 101u64, 0x0000_0100_0000_01b3u64) ^ 65u64, 0x0000_0100_0000_01b3u64) ^ 117u64, 0x0000_0100_0000_01b3u64) ^ 116u64, 0x0000_0100_0000_01b3u64) ^ 104u64, 0x0000_0100_0000_01b3u64) ^ 67u64, 0x0000_0100_0000_01b3u64) ^ 111u64, 0x0000_0100_0000_01b3u64) ^ 110u64, 0x0000_0100_0000_01b3u64) ^ 110u64, 0x0000_0100_0000_01b3u64) ^ 101u64, 0x0000_0100_0000_01b3u64) ^ 99u64, 0x0000_0100_0000_01b3u64) ^ 116u64, 0x0000_0100_0000_01b3u64) ^ 86u64, 0x0000_0100_0000_01b3u64) ^ 54u64, 0x0000_0100_0000_01b3u64) ^ 47u64, 0x0000_0100_0000_01b3u64) ^ 51u64, 0x0000_0100_0000_01b3u64) ^ 57u64, 0x0000_0100_0000_01b3u64) ^ 51u64, 0x0000_0100_0000_01b3u64) ^ 50u64, 0x0000_0100_0000_01b3u64) ^ 49u64, 0x0000_0100_0000_01b3u64) == 0xc3691575e9425162u64,
{
}

#[verifier::rlimit(60)]
proof fn lemma_tunnel_v6_b_hash()
    ensures
        tag_hash("session/permit-tunnel/AleAuthConnectV6/39321"@) == 0xc3691575e9425162u64,
{
    let s = "session/permit-tunnel/AleAuthConnectV6/39321"@;
    reveal_strlit("session/permit-tunnel/AleAuthConnectV6/39321");
    assert(ascii_prefix(s, 44)) by {
        reveal_with_fuel(ascii_prefix, 45);
    }
    lemma_fnv_ascii(s, 44);
    assert(s.take(44) =~= s);
    lemma_tunnel_v6_b_chain();
    assert(fnv_prefix(s, 44) == 0xc3691575e9425162u64) by {
        reveal_with_fuel(fnv_prefix, 45);
    }
}

/// Moving the staged core from `C:\ProgramData\Tono\bin\mihomo.exe` to `C:\ProgramData\Tono\bin\gen-2\mihomo.exe` re-keys the permit of the endpoint
/// 8.8.8.8:443/tcp.
pub proof fn moving_the_tested_core_rekeys_its_endpoint_permit(t: (IpAddr, u16, IpProtocol))
    requires
        ip_text(t.0) == "8.8.8.8"@,
        t.1 == 443,
        t.2 == IpProtocol::Tcp,
    ensures
        endpoint_rule("C:\\ProgramData\\Tono\\bin\\mihomo.exe"@, t).key != endpoint_rule("C:\\ProgramData\\Tono\\bin\\gen-2\\mihomo.exe"@, t).key,
{
    broadcast use lemma_rule_fields;

    reveal_strlit("session/permit-endpoint/");
    reveal_strlit("/");
    reveal_strlit("8.8.8.8");
    reveal_strlit("C:\\ProgramData\\Tono\\bin\\mihomo.exe");
    reveal_strlit("C:\\ProgramData\\Tono\\bin\\gen-2\\mihomo.exe");
    reveal_strlit("session/permit-endpoint/C:\\ProgramData\\Tono\\bin\\mihomo.exe/8.8.8.8/443/6");
    reveal_strlit("session/permit-endpoint/C:\\ProgramData\\Tono\\bin\\gen-2\\mihomo.exe/8.8.8.8/443/6");
    assert(dec_text(443) =~= seq!['4', '4', '3']) by {
        reveal_with_fuel(crate::text::radix_text, 4);
    }
    assert(dec_text(6) =~= seq!['6']);
    assert(endpoint_tag("C:\\ProgramData\\Tono\\bin\\mihomo.exe"@, t) =~= "session/permit-endpoint/C:\\ProgramData\\Tono\\bin\\mihomo.exe/8.8.8.8/443/6"@);
    assert(endpoint_tag("C:\\ProgramData\\Tono\\bin\\gen-2\\mihomo.exe"@, t) =~= "session/permit-endpoint/C:\\ProgramData\\Tono\\bin\\gen-2\\mihomo.exe/8.8.8.8/443/6"@);
    lemma_endpoint_a_hash();
    lemma_endpoint_b_hash();
    keys_carry_the_namespace("session/permit-endpoint/C:\\ProgramData\\Tono\\bin\\mihomo.exe/8.8.8.8/443/6"@, "session/permit-endpoint/C:\\ProgramData\\Tono\\bin\\gen-2\\mihomo.exe/8.8.8.8/443/6"@);
}

/// Landing the tunnel on LUID 0x9999 instead of 0x1234_5678 re-keys both tunnel permits.
pub proof fn a_tested_tunnel_move_rekeys_its_permits()
    ensures
        tunnel_rule(LayerKind::AleAuthConnectV4, 0x1234_5678).key != tunnel_rule(
            LayerKind::AleAuthConnectV4,
            0x9999,
        ).key,
        tunnel_rule(LayerKind::AleAuthConnectV6, 0x1234_5678).key != tunnel_rule(
            LayerKind::AleAuthConnectV6,
            0x9999,
        ).key,
{
    broadcast use lemma_rule_fields;

    reveal_strlit("session/permit-tunnel/");
    reveal_strlit("AleAuthConnectV4");
    reveal_strlit("AleAuthConnectV6");
    reveal_strlit("/");
    reveal_strlit("session/permit-tunnel/AleAuthConnectV4/305419896");
    reveal_strlit("session/permit-tunnel/AleAuthConnectV4/39321");
    reveal_strlit("session/permit-tunnel/AleAuthConnectV6/305419896");
    reveal_strlit("session/permit-tunnel/AleAuthConnectV6/39321");
    assert(dec_text(0x1234_5678) =~= seq!['3', '0', '5', '4', '1', '9', '8', '9', '6']) by {
        reveal_with_fuel(crate::text::radix_text, 10);
    }
    assert(dec_text(0x9999) =~= seq!['3', '9', '3', '2', '1']) by {
        reveal_with_fuel(crate::text::radix_text, 6);
    }
    assert(tunnel_tag(LayerKind::AleAuthConnectV4, 0x1234_5678) =~= "session/permit-tunnel/AleAuthConnectV4/305419896"@);
    assert(tunnel_tag(LayerKind::AleAuthConnectV4, 0x9999) =~= "session/permit-tunnel/AleAuthConnectV4/39321"@);
    assert(tunnel_tag(LayerKind::AleAuthConnectV6, 0x1234_5678) =~= "session/permit-tunnel/AleAuthConnectV6/305419896"@);
    assert(tunnel_tag(LayerKind::AleAuthConnectV6, 0x9999) =~= "session/permit-tunnel/AleAuthConnectV6/39321"@);
    lemma_tunnel_v4_a_hash();
    lemma_tunnel_v4_b_hash();
    lemma_tunnel_v6_a_hash();
    lemma_tunnel_v6_b_hash();
    keys_carry_the_namespace("session/permit-tunnel/AleAuthConnectV4/305419896"@, "session/permit-tunnel/AleAuthConnectV4/39321"@);
    keys_carry_the_namespace("session/permit-tunnel/AleAuthConnectV6/305419896"@, "session/permit-tunnel/AleAuthConnectV6/39321"@);
}

} // verus!
