//! Stable 64-bit identifiers for stored points, derived by hashing a
//! string with a fixed seed so that re-ingesting identical input yields
//! the identical identifier.

use vstd::prelude::*;
use vstd::string::*;

use crate::text::dec_str;
use crate::text::u64_to_dec;

verus! {

/// The fixed seed every identifier hash uses.
pub const SEED: u64 = 2915580697;

/// What MurmurHash64A returns for a byte sequence and a seed.  The
/// digest is a function of its arguments alone, so it carries a name
/// rather than a written-out algorithm.
pub uninterp spec fn murmur64_of(bytes: Seq<u8>, seed: u64) -> u64;

/// Relies on murmurhash64::murmur_hash64a: the MurmurHash64A digest of
/// the string's UTF-8 bytes, under the fixed seed.
#[verifier::external_body]
pub fn murmurhash64int(s: &str) -> (r: u64)
    ensures
        r == murmur64_of(s.spec_bytes(), SEED),
{
    murmurhash64::murmur_hash64a(s.as_bytes(), SEED)
}

/// The identifier hash rendered in decimal.
pub fn murmurhash64str(s: &str) -> (r: String)
    ensures
        r@ == dec_str(murmur64_of(s.spec_bytes(), SEED) as nat),
{
    u64_to_dec(murmurhash64int(s))
}

} // verus!
