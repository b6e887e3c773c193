//! The operating system's random source, reached through `rand`.

use vstd::prelude::*;

verus! {

#[verifier::external_type_specification]
#[verifier::external_body]
pub struct ExOsRng(rand::rngs::OsRng);

#[verifier::external_type_specification]
#[verifier::external_body]
pub struct ExRandError(rand::Error);

/// The random source of the operating system could not be read.
#[derive(Clone, Copy, Debug, PartialEq, Eq, Structural)]
pub enum EntropyError {
    Unavailable,
}

/// Relies on `rand_core`'s `OsRng::try_fill_bytes`: it overwrites the bytes
/// of the buffer it is given in place, so the buffer keeps its length whether
/// the operating system delivered randomness or not.
#[verifier::external_body]
fn try_fill_from_os(rng: &mut rand::rngs::OsRng, buf: &mut Vec<u8>) -> (r: Result<(), rand::Error>)
    ensures
        final(buf)@.len() == old(buf)@.len(),
{
    rand::RngCore::try_fill_bytes(rng, &mut buf[..])
}

/// Fills `buf` with bytes drawn from the operating system; the length of
/// `buf` never changes.
pub fn fill_random(rng: &mut rand::rngs::OsRng, buf: &mut Vec<u8>) -> (r: Result<(), EntropyError>)
    ensures
        final(buf)@.len() == old(buf)@.len(),
{
    match try_fill_from_os(rng, buf) {
        Ok(()) => Ok(()),
        Err(_) => Err(EntropyError::Unavailable),
    }
}

/// Relies on `rand_core`'s derived `Default` for `OsRng`, a unit struct: a
/// handle on the operating system's random source.
pub assume_specification[ <rand::rngs::OsRng as core::default::Default>::default ]() -> rand::rngs::OsRng;

} // verus!
