//! Randomness, encoding and the clock, which the key store and the engine
//! draw on.
use vstd::prelude::*;
use rand_chacha::rand_core::RngCore;
use rand_chacha::rand_core::SeedableRng;
use rand_chacha::ChaCha20Rng;

verus! {

/// `rand_chacha::ChaCha20Rng`, held as an opaque value.
#[verifier::external_type_specification]
#[verifier::external_body]
pub struct ExChaCha20Rng(ChaCha20Rng);

/// The generator behind secrets and keys: ChaCha with 20 rounds.
pub type SecretRng = ChaCha20Rng;

/// The text form of `b` in the URL-safe base64 alphabet, without padding.
pub uninterp spec fn base64_url(b: Seq<u8>) -> Seq<char>;

/// `s` is the URL-safe base64 text of some `n` bytes.
pub open spec fn encodes_bytes(s: Seq<char>, n: nat) -> bool {
    exists|b: Seq<u8>| b.len() == n && s == base64_url(b)
}

/// Relies on `SeedableRng::from_entropy` of `ChaCha20Rng`: a generator
/// seeded from the operating system; it panics only where the operating
/// system has no random source.
#[verifier::external_body]
pub(crate) fn make_rng() -> SecretRng {
    ChaCha20Rng::from_entropy()
}

/// Relies on `RngCore::fill_bytes` of `ChaCha20Rng`: it fills the buffer it
/// is given, here one of `n` bytes.
#[verifier::external_body]
pub(crate) fn random_bytes(rng: &mut SecretRng, n: usize) -> (r: Vec<u8>)
    ensures
        r@.len() == n,
{
    let mut bytes = vec![0u8; n];
    rng.fill_bytes(&mut bytes);
    bytes
}

/// Relies on `base64::encode_config` with `URL_SAFE_NO_PAD`: the result
/// depends on the bytes alone, and without padding it has four characters
/// for each three bytes and two or three for a last group of one or two
/// (`encoded_size`). It panics only where the encoded length overflows
/// `usize`, which the bound on the input rules out.
#[verifier::external_body]
pub(crate) fn encode_url(b: &Vec<u8>) -> (r: String)
    requires
        b@.len() <= 4096,
    ensures
        r@ == base64_url(b@),
        r@.len() == (4 * b@.len() + 2) / 3,
{
    base64::encode_config(&b[..], base64::URL_SAFE_NO_PAD)
}

/// Relies on `SystemTime::now` and `duration_since(UNIX_EPOCH)`: whole
/// seconds since the epoch, or zero for a clock set before it.
#[verifier::external_body]
pub(crate) fn unix_now() -> u64 {
    std::time::SystemTime::now()
        .duration_since(std::time::UNIX_EPOCH)
        .map(|d| d.as_secs())
        .unwrap_or(0)
}

} // verus!
