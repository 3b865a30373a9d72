//! The keyed-hash primitive behind the code generator: HMAC with a
//! 512-bit digest, reached through one trusted wrapper.

use vstd::prelude::*;
use hmac::{Hmac, KeyInit, Mac};
use sha2::Sha512;

verus! {

/// The HMAC-SHA-512 tag of `msg` under `key`. The tag is a pure function
/// of the key and the message alone, so it is named rather than spelled
/// out; the wrapper below ties it to the outside computation.
pub uninterp spec fn hmac_sha512(key: Seq<u8>, msg: Seq<u8>) -> Seq<u8>;

/// Relies on `hmac::Hmac<sha2::Sha512>`: key setup (`KeyInit::new_from_slice`,
/// which accepts a key of any length and never fails for HMAC), `Mac::update`,
/// and `Mac::finalize`. The tag depends on the key and message bytes alone,
/// and a 512-bit digest makes it 64 bytes long.
#[verifier::external_body]
pub(crate) fn hmac_sha512_bytes(key: &[u8], msg: &[u8]) -> (r: Vec<u8>)
    ensures
        r@ == hmac_sha512(key@, msg@),
        r@.len() == 64,
{
    let mut m = <Hmac<Sha512> as KeyInit>::new_from_slice(key)
        .expect("HMAC accepts keys of any length");
    m.update(msg);
    m.finalize().into_bytes().to_vec()
}

} // verus!
