//! Negotiation of the cipher that protects session parameters.
//!
//! The device is asked, through a probing session opened for this purpose
//! alone, which of the preferred ciphers it accepts. The first one accepted,
//! in order of preference, is the cipher of the session built afterwards.

use crate::error::BuildError;
use vstd::prelude::*;

verus! {

/// A symmetric cipher that the session can use to encrypt parameters.
#[derive(Clone, Copy, Debug, PartialEq, Eq, Structural)]
pub enum CipherChoice {
    /// AES with a 256-bit key in CFB mode.
    Aes256Cfb,
    /// AES with a 128-bit key in CFB mode.
    Aes128Cfb,
}

/// The ciphers sought, the most preferred first.
pub open spec fn cipher_preference() -> Seq<CipherChoice> {
    seq![CipherChoice::Aes256Cfb, CipherChoice::Aes128Cfb]
}

/// Whether the device has refused, on the probing session `probe`, every
/// cipher preferred to the one of rank `rank`.
pub open spec fn refused_before<P, A: Fn(&P, CipherChoice) -> bool>(
    probe: &P,
    accepts: A,
    rank: int,
) -> bool {
    forall|i: int|
        0 <= i < rank ==> call_ensures(accepts, (probe, #[trigger] cipher_preference()[i]), false)
}

/// Whether the device can be asked all that a negotiation asks: about the
/// most preferred cipher first, and about another only once it has refused
/// every cipher preferred to it.
pub open spec fn can_negotiate<P, A: Fn(&P, CipherChoice) -> bool>(probe: &P, accepts: A) -> bool {
    forall|rank: int|
        0 <= rank < cipher_preference().len() && #[trigger] refused_before(probe, accepts, rank)
            ==> call_requires(accepts, (probe, cipher_preference()[rank]))
}

/// Whether `outcome` is what a negotiation may end with when the device
/// answers as `accepts` does on the probing session `probe`: a cipher is
/// chosen only if the device accepted it and refused every cipher preferred
/// to it, and the negotiation fails only if the device refused them all.
pub open spec fn negotiated<P, A: Fn(&P, CipherChoice) -> bool>(
    probe: &P,
    accepts: A,
    outcome: Result<CipherChoice, BuildError>,
) -> bool {
    match outcome {
        Ok(cipher) => exists|rank: int|
            {
                &&& 0 <= rank < cipher_preference().len()
                &&& #[trigger] cipher_preference()[rank] == cipher
                &&& call_ensures(accepts, (probe, cipher), true)
                &&& refused_before(probe, accepts, rank)
            },
        Err(e) => {
            &&& e == BuildError::CiphersNotSupported
            &&& refused_before(probe, accepts, cipher_preference().len() as int)
        },
    }
}

/// Picks the cipher of the session.
///
/// The device is asked about each preferred cipher in turn, AES-256 in CFB
/// mode before AES-128 in CFB mode, and the first one it accepts is returned.
/// Ciphers after that one are not asked about: the device need not be able
/// to answer for them. When the device accepts none, the negotiation fails
/// with a capability error.
pub fn negotiate_cipher<P, A: Fn(&P, CipherChoice) -> bool>(probe: &P, accepts: A) -> (r: Result<
    CipherChoice,
    BuildError,
>)
    requires
        can_negotiate(probe, accepts),
    ensures
        negotiated(probe, accepts, r),
{
    let ciphers = [CipherChoice::Aes256Cfb, CipherChoice::Aes128Cfb];
    assert(ciphers@ =~= cipher_preference());
    let mut rank: usize = 0;
    while rank < 2
        invariant
            rank <= 2,
            ciphers@ == cipher_preference(),
            can_negotiate(probe, accepts),
            refused_before(probe, accepts, rank as int),
        decreases 2 - rank,
    {
        let cipher = ciphers[rank];
        if accepts(probe, cipher) {
            assert(cipher_preference()[rank as int] == cipher);
            return Ok(cipher);
        }
        rank = rank + 1;
    }
    Err(BuildError::CiphersNotSupported)
}

} // verus!
