//! Authentication by HMAC-SHA256 challenge and response, and the keys of a
//! session.
//!
//! A client sends a nonce and the HMAC of it under the shared token; the token
//! itself never crosses the wire. Both sides then derive the key of the session
//! from the token and the nonce, and, where both sent an ephemeral public key,
//! from the shared secret of the two key pairs as well.

use hmac::Mac;
use rand::RngCore;
use sha2::Digest;
use vstd::prelude::*;
use vstd::utf8::*;

verus! {

/// HMAC-SHA256 of a message under a key.
pub uninterp spec fn hmac_sha256(key: Seq<u8>, msg: Seq<u8>) -> Seq<u8>;

/// The SHA-256 digest of a message.
pub uninterp spec fn sha256(msg: Seq<u8>) -> Seq<u8>;

/// X25519: the u-coordinate of a point multiplied by a scalar.
pub uninterp spec fn x25519_product(scalar: Seq<u8>, point: Seq<u8>) -> Seq<u8>;

/// `Hmac<Sha256>` of the `hmac` crate: `new_from_slice` takes a key of any
/// length, `update` the message and `finalize` gives the 32 bytes of the tag.
#[verifier::external_body]
fn hmac_tag(key: &[u8], msg: &[u8]) -> (out: [u8; 32])
    ensures
        out@ == hmac_sha256(key@, msg@),
{
    let mut mac = hmac::Hmac::<sha2::Sha256>::new_from_slice(key).expect("any key length");
    mac.update(msg);
    mac.finalize().into_bytes().into()
}

/// `Mac::verify_slice` on an `Hmac<Sha256>`: in constant time, whether the
/// given bytes are the tag of the message.
#[verifier::external_body]
fn hmac_verify(key: &[u8], msg: &[u8], tag: &[u8]) -> (ok: bool)
    ensures
        ok == (tag@ == hmac_sha256(key@, msg@)),
{
    let mut mac = hmac::Hmac::<sha2::Sha256>::new_from_slice(key).expect("any key length");
    mac.update(msg);
    mac.verify_slice(tag).is_ok()
}

/// `Sha256::digest` of the `sha2` crate: the 32 bytes of the digest.
#[verifier::external_body]
pub(crate) fn sha256_digest(msg: &[u8]) -> (out: [u8; 32])
    ensures
        out@ == sha256(msg@),
{
    sha2::Sha256::digest(msg).into()
}

/// The u-coordinate of the base point of X25519: nine.
pub open spec fn base_point() -> Seq<u8> {
    Seq::new(
        32,
        |i: int|
            if i == 0 {
                9u8
            } else {
                0u8
            },
    )
}

/// `x25519_dalek::x25519`: scalar multiplication on the Montgomery curve, with
/// the scalar clamped. Multiples of the base point have the property that key
/// agreement rests on: it does not matter which scalar is applied first.
#[verifier::external_body]
fn x25519(scalar: &[u8; 32], point: &[u8; 32]) -> (out: [u8; 32])
    ensures
        out@ == x25519_product(scalar@, point@),
        point@ == base_point() ==> forall|other: Seq<u8>|
            other.len() == 32 ==> #[trigger] x25519_product(other, out@) == x25519_product(
                scalar@,
                x25519_product(other, base_point()),
            ),
{
    x25519_dalek::x25519(*scalar, *point)
}

/// `OsRng::fill_bytes` of the `rand` crate: 32 bytes from the operating system.
/// Nothing is known of them.
#[verifier::external_body]
fn os_random() -> (out: [u8; 32]) {
    let mut out = [0u8; 32];
    rand::rngs::OsRng.fill_bytes(&mut out);
    out
}

/// `ThreadRng::fill_bytes` of the `rand` crate: as many bytes as asked for.
/// Nothing else is known of them.
#[verifier::external_body]
pub(crate) fn random_bytes(n: usize) -> (out: Vec<u8>)
    requires
        n <= isize::MAX,
    ensures
        out@.len() == n,
{
    let mut out = vec![0u8; n];
    rand::thread_rng().fill_bytes(&mut out);
    out
}

/// The message behind a session key that rests on the token alone.
pub open spec fn session_seed(nonce: Seq<u8>) -> Seq<u8> {
    encode_utf8("ohmcp-session"@) + nonce
}

/// The message behind a session key with forward secrecy.
pub open spec fn fs_seed(nonce: Seq<u8>, shared: Seq<u8>) -> Seq<u8> {
    encode_utf8("ohmcp-fs"@) + nonce + shared
}

/// The response to a challenge: the HMAC of the nonce under the token.
pub fn hmac_response(token: &[u8], nonce: &[u8]) -> (out: [u8; 32])
    ensures
        out@ == hmac_sha256(token@, nonce@),
{
    hmac_tag(token, nonce)
}

/// Whether a response answers the challenge, found out in constant time.
pub fn verify_response(token: &[u8], nonce: &[u8], response: &[u8]) -> (ok: bool)
    ensures
        ok == (response@ == hmac_sha256(token@, nonce@)),
{
    hmac_verify(token, nonce, response)
}

/// The key of a session that rests on the token and the nonce.
pub fn derive_session_key(token: &[u8], nonce: &[u8]) -> (out: [u8; 32])
    ensures
        out@ == hmac_sha256(token@, session_seed(nonce@)),
{
    let mut seed: Vec<u8> = vstd::slice::slice_to_vec("ohmcp-session".as_bytes());
    seed.extend_from_slice(nonce);
    assert(seed@ =~= session_seed(nonce@));
    hmac_tag(token, seed.as_slice())
}

/// An X25519 key pair that lives for one handshake and gives the session
/// forward secrecy.
pub struct EphemeralKeyPair {
    secret: [u8; 32],
    public: [u8; 32],
}

impl EphemeralKeyPair {
    /// The private scalar.
    pub closed spec fn secret(self) -> Seq<u8> {
        self.secret@
    }

    /// The public point.
    pub closed spec fn public(self) -> Seq<u8> {
        self.public@
    }

    /// The public point is the base point multiplied by the private scalar,
    /// and any other scalar applied to it gives the secret that the other
    /// side shares with this one.
    pub open spec fn wf(self) -> bool {
        &&& self.secret().len() == 32
        &&& self.public().len() == 32
        &&& self.public() == x25519_product(self.secret(), base_point())
        &&& forall|other: Seq<u8>|
            other.len() == 32 ==> #[trigger] x25519_product(other, self.public())
                == x25519_product(self.secret(), x25519_product(other, base_point()))
    }

    /// The session key of this pair and the public point of the other side.
    pub open spec fn session_key(self, peer: Seq<u8>, token: Seq<u8>, nonce: Seq<u8>) -> Seq<u8> {
        hmac_sha256(token, fs_seed(nonce, x25519_product(self.secret(), peer)))
    }

    /// The key pair of a given private scalar.
    pub fn from_secret(secret: [u8; 32]) -> (out: EphemeralKeyPair)
        ensures
            out.wf(),
            out.secret() == secret@,
    {
        let mut base: [u8; 32] = [0u8;32];
        base[0] = 9;
        assert(base@ =~= base_point());
        let public: [u8; 32] = x25519(&secret, &base);
        EphemeralKeyPair { secret, public }
    }

    /// A fresh key pair. That no two pairs are the same is left to chance.
    pub fn generate() -> (out: EphemeralKeyPair)
        ensures
            out.wf(),
    {
        EphemeralKeyPair::from_secret(os_random())
    }

    /// The public key, which goes over the wire in the clear.
    pub fn public_bytes(&self) -> (out: [u8; 32])
        ensures
            out@ == self.public(),
    {
        self.public
    }

    /// Uses up the pair for the session key that it shares with the other
    /// side's public key.
    pub fn derive_fs_session_key(self, peer_public: &[u8; 32], token: &[u8], nonce: &[u8]) -> (out:
        [u8; 32])
        ensures
            out@ == self.session_key(peer_public@, token@, nonce@),
    {
        let shared: [u8; 32] = x25519(&self.secret, peer_public);
        let mut seed: Vec<u8> = vstd::slice::slice_to_vec("ohmcp-fs".as_bytes());
        seed.extend_from_slice(nonce);
        seed.extend_from_slice(&shared);
        assert(seed@ =~= fs_seed(nonce@, shared@));
        hmac_tag(token, seed.as_slice())
    }
}

/// Two sides that exchange their public keys end with the same session key.
pub proof fn both_sides_derive_one_key(
    a: EphemeralKeyPair,
    b: EphemeralKeyPair,
    token: Seq<u8>,
    nonce: Seq<u8>,
)
    requires
        a.wf(),
        b.wf(),
    ensures
        a.session_key(b.public(), token, nonce) == b.session_key(a.public(), token, nonce),
{
    assert(x25519_product(a.secret(), b.public()) == x25519_product(
        b.secret(),
        x25519_product(a.secret(), base_point()),
    ));
}

/// The base point of X25519 is nine.
pub proof fn base_point_is_nine(i: int)
    requires
        0 < i < 32,
    ensures
        base_point().len() == 32,
        base_point()[0] == 9,
        base_point()[i] == 0,
{
}

/// A challenge is answered with the HMAC of the whole nonce under the whole token, and
/// nothing but that is an answer.
pub proof fn responses_are_hmacs(
    token: &[u8],
    nonce: &[u8],
    given: &[u8],
    response: [u8; 32],
    ok: bool,
)
    requires
        call_ensures(hmac_response, (token, nonce), response),
        call_ensures(verify_response, (token, nonce, given), ok),
    ensures
        response@ == hmac_sha256(token@, nonce@),
        ok <==> given@ == response@,
{
}

/// The two kinds of session keys are HMACs under the token of messages that begin
/// differently and hold the whole nonce; with forward secrecy, the secret that the two
/// key pairs share comes behind it.
pub proof fn session_keys_rest_on_token_and_nonce(
    pair: EphemeralKeyPair,
    peer: [u8; 32],
    token: &[u8],
    nonce: &[u8],
    plain: [u8; 32],
    fs: [u8; 32],
)
    requires
        call_ensures(derive_session_key, (token, nonce), plain),
        call_ensures(EphemeralKeyPair::derive_fs_session_key, (pair, &peer, token, nonce), fs),
    ensures
        plain@ == hmac_sha256(token@, encode_utf8("ohmcp-session"@) + nonce@),
        fs@ == hmac_sha256(
            token@,
            encode_utf8("ohmcp-fs"@) + nonce@ + x25519_product(pair.secret(), peer@),
        ),
{
}

/// The public key of a pair is the base point multiplied by its private scalar.
pub proof fn public_keys_belong_to_their_secrets(
    secret: [u8; 32],
    pair: EphemeralKeyPair,
    public: [u8; 32],
)
    requires
        call_ensures(EphemeralKeyPair::from_secret, (secret,), pair),
        call_ensures(EphemeralKeyPair::public_bytes, (&pair,), public),
    ensures
        pair.secret() == secret@,
        public@ == x25519_product(secret@, base_point()),
{
}

} // verus!
