use crate::actor::ActorId;
use sails_rs::scale_codec::{Decode, Encode};
use vstd::prelude::*;
use vstd::string::StringSliceAdditionalSpecFns;

verus! {

/// Name of the operation asked of the age-verification service.
pub const KYC_OPERATION: &'static str = "is_over_18";

/// The `k` low bytes of `v`, least significant first.
pub open spec fn le_bytes(v: nat, k: nat) -> Seq<u8>
    decreases k,
{
    if k == 0 {
        Seq::empty()
    } else {
        seq![(v % 256) as u8] + le_bytes(v / 256, (k - 1) as nat)
    }
}

/// SCALE's compact encoding of a length that fits in 32 bits.
pub open spec fn compact_len(n: nat) -> Seq<u8> {
    if n < 64 {
        seq![(n * 4) as u8]
    } else if n < 16384 {
        le_bytes(n * 4 + 1, 2)
    } else if n < 1073741824 {
        le_bytes(n * 4 + 2, 4)
    } else {
        seq![3u8] + le_bytes(n, 4)
    }
}

/// What SCALE makes of a boolean's bytes: the first byte, 0 or 1; any other
/// first byte, or none, does not decode. Later bytes are not read.
pub open spec fn decoded_bool(b: Seq<u8>) -> Option<bool> {
    if b.len() == 0 {
        None
    } else if b[0] == 0 {
        Some(false)
    } else if b[0] == 1 {
        Some(true)
    } else {
        None
    }
}

/// The request sent to the age-verification service about `user`: the
/// operation name as a SCALE string, then the user's 32 bytes.
pub open spec fn kyc_request_spec(user: ActorId) -> Seq<u8> {
    compact_len(KYC_OPERATION.spec_bytes().len() as nat) + KYC_OPERATION.spec_bytes() + user.bytes@
}

/// Relies on parity-scale-codec's `Encode for str`: the compact length of the
/// UTF-8 bytes, then the bytes. It panics on a length past `u32::MAX`.
#[verifier::external_body]
fn scale_encode_str(s: &str) -> (r: Vec<u8>)
    requires
        s.spec_bytes().len() <= u32::MAX,
    ensures
        r@ == compact_len(s.spec_bytes().len() as nat) + s.spec_bytes(),
{
    s.encode()
}

/// Relies on parity-scale-codec's `Decode for bool`: it reads one byte, 0 or
/// 1, and fails on any other byte or on empty input.
#[verifier::external_body]
fn scale_decode_bool(bytes: &[u8]) -> (r: Option<bool>)
    ensures
        r == decoded_bool(bytes@),
{
    bool::decode(&mut &bytes[..]).ok()
}

/// Builds the age-verification request for `user`.
pub fn kyc_request(user: &ActorId) -> (r: Vec<u8>)
    ensures
        r@ == kyc_request_spec(*user),
{
    proof {
        reveal_strlit("is_over_18");
        assert(KYC_OPERATION@.len() == 10);
        assert(vstd::string::is_ascii(KYC_OPERATION));
        vstd::string::is_ascii_spec_bytes(KYC_OPERATION);
        assert(KYC_OPERATION.spec_bytes().len() == 10);
    }
    let mut r = scale_encode_str(KYC_OPERATION);
    let ghost prefix = r@;
    let mut i: usize = 0;
    while i < 32
        invariant
            0 <= i <= 32,
            r@ == prefix + user.bytes@.subrange(0, i as int),
        decreases 32 - i,
    {
        r.push(user.bytes[i]);
        assert(user.bytes@.subrange(0, i + 1) == user.bytes@.subrange(0, i as int).push(user.bytes@[i as int]));
        i = i + 1;
    }
    assert(user.bytes@.subrange(0, 32) == user.bytes@);
    r
}

/// Whether the age-verification reply says yes: it must decode as the
/// boolean `true`. An undecodable reply is a no.
pub fn kyc_approves(reply: &[u8]) -> (r: bool)
    ensures
        r == (decoded_bool(reply@) == Some(true)),
{
    match scale_decode_bool(reply) {
        Some(b) => b,
        None => false,
    }
}

} // verus!
