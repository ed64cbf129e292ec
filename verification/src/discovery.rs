//! Discovery-side helpers: which network interfaces a node advertises on,
//! and the endpoint information blob carried in the mDNS TXT record.

use vstd::prelude::*;

use vstd::string::StringSliceAdditionalSpecFns;

verus! {

/// ASCII lower-casing of one byte.
pub open spec fn ascii_lower(b: u8) -> u8 {
    if 65 <= b && b <= 90 {
        (b + 32) as u8
    } else {
        b
    }
}

/// Whether `s` starts with `p`, comparing ASCII case-insensitively.
pub open spec fn prefix_matches(s: Seq<u8>, p: Seq<u8>) -> bool {
    p.len() <= s.len() && forall|i: int| 0 <= i < p.len() ==> ascii_lower(#[trigger] s[i]) == p[i]
}

/// The interface-name prefixes that mark virtual or tunnel networks.
pub open spec fn virtual_prefixes() -> Seq<Seq<u8>> {
    seq![
        seq![100u8, 111u8, 99u8, 107u8, 101u8, 114u8],
        seq![98u8, 114u8, 45u8],
        seq![118u8, 101u8, 116u8, 104u8],
        seq![118u8, 105u8, 114u8, 98u8, 114u8],
        seq![116u8, 97u8, 105u8, 108u8, 115u8, 99u8, 97u8, 108u8, 101u8],
        seq![116u8, 117u8, 110u8],
        seq![116u8, 97u8, 112u8],
    ]
}

/// Whether an interface name, as UTF-8 bytes, belongs to a virtual or
/// tunnel network.
pub open spec fn is_virtual_name(s: Seq<u8>) -> bool {
    exists|k: int| 0 <= k < virtual_prefixes().len() && prefix_matches(s, #[trigger] virtual_prefixes()[k])
}

/// Whether `bytes` starts with `p`, ASCII case-insensitively.
fn bytes_have_prefix(bytes: &[u8], p: &Vec<u8>) -> (r: bool)
    ensures
        r == prefix_matches(bytes@, p@),
{
    if p.len() > bytes.len() {
        return false;
    }
    let mut i: usize = 0;
    while i < p.len()
        invariant
            i <= p@.len(),
            p@.len() <= bytes@.len(),
            forall|j: int| 0 <= j < i ==> ascii_lower(#[trigger] bytes@[j]) == p@[j],
        decreases p@.len() - i,
    {
        let b = bytes[i];
        let lowered: u8 = if 65 <= b && b <= 90 {
            b + 32
        } else {
            b
        };
        if lowered != p[i] {
            proof {
                assert(ascii_lower(bytes@[i as int]) != p@[i as int]);
            }
            return false;
        }
        i = i + 1;
    }
    true
}

/// Whether this interface name belongs to a virtual or tunnel network
/// (container bridges, virtual ethernet pairs, VPN tunnels), which the
/// mDNS responder must not advertise on.
pub fn is_virtual_interface(name: &str) -> (r: bool)
    ensures
        r == is_virtual_name(name.spec_bytes()),
{
    let bytes = name.as_bytes();
    let mut prefixes: Vec<Vec<u8>> = Vec::new();
    prefixes.push(vec![100u8, 111u8, 99u8, 107u8, 101u8, 114u8]);
    prefixes.push(vec![98u8, 114u8, 45u8]);
    prefixes.push(vec![118u8, 101u8, 116u8, 104u8]);
    prefixes.push(vec![118u8, 105u8, 114u8, 98u8, 114u8]);
    prefixes.push(vec![116u8, 97u8, 105u8, 108u8, 115u8, 99u8, 97u8, 108u8, 101u8]);
    prefixes.push(vec![116u8, 117u8, 110u8]);
    prefixes.push(vec![116u8, 97u8, 112u8]);
    proof {
        assert forall|k: int| 0 <= k < 7 implies prefixes@[k]@ =~= virtual_prefixes()[k] by {}
    }
    let mut k: usize = 0;
    while k < prefixes.len()
        invariant
            k <= prefixes@.len(),
            prefixes@.len() == 7,
            virtual_prefixes().len() == 7,
            forall|j: int| 0 <= j < 7 ==> (#[trigger] prefixes@[j])@ == virtual_prefixes()[j],
            bytes@ == name.spec_bytes(),
            forall|j: int| 0 <= j < k ==> !prefix_matches(bytes@, #[trigger] virtual_prefixes()[j]),
        decreases prefixes@.len() - k,
    {
        if bytes_have_prefix(bytes, &prefixes[k]) {
            proof {
                assert(prefix_matches(name.spec_bytes(), virtual_prefixes()[k as int]));
            }
            return true;
        }
        k = k + 1;
    }
    false
}

/// Whether an IPv4 interface address is usable for advertising: not
/// loopback, not on a virtual or tunnel interface, not link-local, not in
/// the common virtualization range, and not in the carrier-grade NAT
/// range used by mesh VPNs.
pub open spec fn usable_ipv4(name_bytes: Seq<u8>, o0: u8, o1: u8) -> bool {
    &&& o0 != 127
    &&& !is_virtual_name(name_bytes)
    &&& !(o0 == 169 && o1 == 254)
    &&& !(o0 == 172 && 16 <= o1 <= 31)
    &&& !(o0 == 100 && 64 <= o1 <= 127)
}

/// Decides whether to advertise on the interface `name` with the IPv4
/// address whose first two octets are `o0.o1`.
pub fn ip_is_usable(name: &str, o0: u8, o1: u8) -> (r: bool)
    ensures
        r == usable_ipv4(name.spec_bytes(), o0, o1),
{
    if o0 == 127 {
        return false;
    }
    if is_virtual_interface(name) {
        return false;
    }
    if o0 == 169 && o1 == 254 {
        return false;
    }
    if o0 == 172 && 16 <= o1 && o1 <= 31 {
        return false;
    }
    if o0 == 100 && 64 <= o1 && o1 <= 127 {
        return false;
    }
    true
}

/// The characters that URL-safe, unpadded base64 encoding yields for a
/// byte sequence.
pub uninterp spec fn base64url_of(bytes: Seq<u8>) -> Seq<char>;

/// Relies on base64's `URL_SAFE_NO_PAD` engine: the encoding depends on
/// the bytes alone and yields four characters for every three bytes,
/// without padding.
#[verifier::external_body]
fn base64url(bytes: &Vec<u8>) -> (r: String)
    ensures
        r@ == base64url_of(bytes@),
        r@.len() == (4 * bytes@.len() + 2) / 3,
{
    base64::Engine::encode(&base64::engine::general_purpose::URL_SAFE_NO_PAD, bytes.as_slice())
}

/// The endpoint information blob advertised in the TXT record: the
/// device-type byte, then the device name bytes.
pub open spec fn endpoint_info_bytes(device_type: u8, device_name: Seq<u8>) -> Seq<u8> {
    seq![device_type] + device_name
}

/// Builds the TXT record value under the key `n`: the endpoint
/// information blob, base64url-encoded without padding.
pub fn encode_endpoint_info(device_type: u8, device_name: &Vec<u8>) -> (r: String)
    ensures
        r@ == base64url_of(endpoint_info_bytes(device_type, device_name@)),
{
    let mut blob: Vec<u8> = Vec::new();
    blob.push(device_type);
    crate::wire::push_bytes(&mut blob, device_name);
    proof {
        assert(blob@ =~= endpoint_info_bytes(device_type, device_name@));
    }
    base64url(&blob)
}

} // verus!
