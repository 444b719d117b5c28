//! Sealing of payloads with ChaCha20-Poly1305.
//!
//! A sealed message is its nonce of 12 bytes, then the ciphertext with its tag.
//! The associated data is not sent; with other associated data the message does
//! not open.

use bytes::Bytes;
use chacha20poly1305::aead::Aead;
use chacha20poly1305::KeyInit;
use vstd::prelude::*;
use crate::auth;
use crate::buffer;
use crate::codec;
use crate::error::{SecurityError, SecurityFault};

verus! {

/// ChaCha20-Poly1305: the ciphertext and tag of a message.
pub uninterp spec fn aead_sealed(key: Seq<u8>, nonce: Seq<u8>, aad: Seq<u8>, msg: Seq<u8>) -> Seq<u8>;

/// ChaCha20-Poly1305: the message of a ciphertext and tag, if the tag is right.
pub uninterp spec fn aead_opened(key: Seq<u8>, nonce: Seq<u8>, aad: Seq<u8>, sealed: Seq<u8>) -> Option<Seq<u8>>;

/// The longest message that one nonce can seal: its stream has 2^32 - 1 blocks of
/// 64 bytes, and the first of them makes the key of the tag.
pub const MAX_MESSAGE_LEN: u64 = 274_877_906_816;

/// Whether a message of `n` bytes is short enough to be sealed; the result has to
/// fit memory as well.
pub open spec fn sealable(n: nat) -> bool {
    n <= MAX_MESSAGE_LEN && n + 28 <= isize::MAX
}

/// `Aead::encrypt` of `ChaCha20Poly1305`: the ciphertext with its tag of 16
/// bytes, which opens to the message under the same key, nonce and associated
/// data.
#[verifier::external_body]
fn aead_seal(key: &[u8; 32], nonce: &[u8; 12], aad: &[u8], msg: &[u8]) -> (out: Vec<u8>)
    requires
        sealable(msg@.len()),
    ensures
        out@ == aead_sealed(key@, nonce@, aad@, msg@),
        out@.len() == msg@.len() + 16,
        aead_opened(key@, nonce@, aad@, out@) == Some(msg@),
{
    let cipher = chacha20poly1305::ChaCha20Poly1305::new(key.into());
    let payload = chacha20poly1305::aead::Payload { msg, aad };
    cipher.encrypt(nonce.into(), payload).expect("the message is short enough")
}

/// `Aead::decrypt` of `ChaCha20Poly1305`: the message, which is 16 bytes shorter,
/// if the tag is right. It panics on a longer one whose tag is right. Nothing is
/// said of bytes, keys or associated data that were changed: that they do not open
/// rests on how hard a tag is to forge, and does not hold of every byte string.
#[verifier::external_body]
fn aead_open(key: &[u8; 32], nonce: &[u8; 12], aad: &[u8], sealed: &[u8]) -> (out: Option<Vec<u8>>)
    requires
        sealed@.len() <= MAX_MESSAGE_LEN + 16,
    ensures
        match out {
            Some(v) => aead_opened(key@, nonce@, aad@, sealed@) == Some(v@) && v@.len() + 16
                == sealed@.len(),
            None => aead_opened(key@, nonce@, aad@, sealed@) is None,
        },
{
    let cipher = chacha20poly1305::ChaCha20Poly1305::new(key.into());
    let payload = chacha20poly1305::aead::Payload { msg: sealed, aad };
    cipher.decrypt(nonce.into(), payload).ok()
}

/// The nonce of message number `counter` of a session.
pub open spec fn nonce_of(prefix: Seq<u8>, counter: u64) -> Seq<u8> {
    prefix + codec::le_bytes(counter as nat, 8)
}

/// A sealed message as it is sent.
pub open spec fn sealed_message(
    key: Seq<u8>,
    nonce: Seq<u8>,
    aad: Seq<u8>,
    msg: Seq<u8>,
) -> Seq<u8> {
    nonce + aead_sealed(key, nonce, aad, msg)
}

/// The message in what was received, if it opens.
pub open spec fn opened_message(key: Seq<u8>, data: Seq<u8>, aad: Seq<u8>) -> Option<Seq<u8>> {
    if data.len() < 28 || data.len() > MAX_MESSAGE_LEN + 28 {
        None
    } else {
        aead_opened(key, data.take(12), aad, data.skip(12))
    }
}

/// The counter of the message after message number `n`.
pub open spec fn next_counter(n: u64) -> u64 {
    if n == u64::MAX {
        0
    } else {
        (n + 1) as u64
    }
}

/// The cipher of one direction of a session. Its nonces are a random prefix of
/// 4 bytes and a counter of 8, so no two messages share one and no message
/// needs fresh randomness.
pub struct SessionCipher {
    key: [u8; 32],
    nonce_prefix: Vec<u8>,
    nonce_counter: u64,
}

impl SessionCipher {
    pub closed spec fn key(self) -> Seq<u8> {
        self.key@
    }

    pub closed spec fn prefix(self) -> Seq<u8> {
        self.nonce_prefix@
    }

    pub closed spec fn counter(self) -> u64 {
        self.nonce_counter
    }

    pub open spec fn wf(self) -> bool {
        self.prefix().len() == 4 && self.key().len() == 32
    }

    /// The next message as this cipher would seal it.
    pub open spec fn seals(self, aad: Seq<u8>, msg: Seq<u8>) -> Seq<u8> {
        sealed_message(self.key(), nonce_of(self.prefix(), self.counter()), aad, msg)
    }

    /// The same cipher after one message.
    pub open spec fn advanced(self, next: SessionCipher) -> bool {
        &&& next.wf()
        &&& next.key() == self.key()
        &&& next.prefix() == self.prefix()
        &&& next.counter() == next_counter(self.counter())
    }

    /// A cipher with a random prefix for its nonces.
    pub fn new(key: &[u8; 32]) -> (out: SessionCipher)
        ensures
            out.wf(),
            out.key() == key@,
            out.counter() == 0,
    {
        SessionCipher { key: *key, nonce_prefix: auth::random_bytes(4), nonce_counter: 0 }
    }

    /// Seals a message. What comes out opens to the message under the same key
    /// and associated data.
    pub fn encrypt(&mut self, plaintext: &[u8], aad: &[u8]) -> (out: Bytes)
        requires
            old(self).wf(),
            sealable(plaintext@.len()),
        ensures
            old(self).advanced(*final(self)),
            buffer::bytes_of(out) == old(self).seals(aad@, plaintext@),
            buffer::bytes_of(out).len() == plaintext@.len() + 28,
            opened_message(old(self).key(), buffer::bytes_of(out), aad@) == Some(plaintext@),
    {
        let mut nonce: [u8; 12] = [0u8;12];
        let mut counter: Vec<u8> = Vec::new();
        codec::push_le(&mut counter, self.nonce_counter, 8);
        assert(counter@ =~= codec::le_bytes(self.nonce_counter as nat, 8));
        proof {
            codec::lemma_le_bytes_len(self.nonce_counter as nat, 8);
        }
        let mut i: usize = 0;
        while i < 12
            invariant
                i <= 12,
                self.nonce_prefix@.len() == 4,
                counter@.len() == 8,
                forall|k: int| 0 <= k < i ==> nonce@[k] == (self.nonce_prefix@ + counter@)[k],
            decreases 12 - i,
        {
            nonce[i] =
            if i < 4 {
                self.nonce_prefix[i]
            } else {
                counter[i - 4]
            };
            i = i + 1;
        }
        assert(nonce@ =~= nonce_of(self.prefix(), self.counter()));
        self.nonce_counter =
        if self.nonce_counter == u64::MAX {
            0
        } else {
            self.nonce_counter + 1
        };
        let sealed: Vec<u8> = aead_seal(&self.key, &nonce, aad, plaintext);
        let mut out: Vec<u8> = Vec::new();
        out.extend_from_slice(&nonce);
        out.extend_from_slice(sealed.as_slice());
        proof {
            assert(out@ =~= nonce@ + sealed@);
            assert(out@.take(12) =~= nonce@);
            assert(out@.skip(12) =~= sealed@);
        }
        buffer::bytes_from_vec(out)
    }

    /// Opens a message.
    pub fn decrypt(&self, data: &[u8], aad: &[u8]) -> (out: Result<Bytes, SecurityError>)
        ensures
            match out {
                Ok(b) => opened_message(self.key(), data@, aad@) == Some(buffer::bytes_of(b))
                    && buffer::bytes_of(b).len() + 28 == data@.len(),
                Err(e) => opened_message(self.key(), data@, aad@) is None && e@
                    == SecurityFault::DecryptFailed,
            },
    {
        if data.len() < 28 || data.len() as u64 > MAX_MESSAGE_LEN + 28 {
            return Err(SecurityError::DecryptFailed);
        }
        let mut nonce: [u8; 12] = [0u8;12];
        let mut i: usize = 0;
        while i < 12
            invariant
                i <= 12,
                data@.len() >= 28,
                forall|k: int| 0 <= k < i ==> nonce@[k] == data@[k],
            decreases 12 - i,
        {
            nonce[i] = data[i];
            i = i + 1;
        }
        assert(nonce@ =~= data@.take(12));
        let sealed: &[u8] = vstd::slice::slice_subrange(data, 12, data.len());
        assert(sealed@ =~= data@.skip(12));
        match aead_open(&self.key, &nonce, aad, sealed) {
            Some(v) => Ok(buffer::bytes_from_vec(v)),
            None => Err(SecurityError::DecryptFailed),
        }
    }
}

/// Seals one message under a key of its own use.
pub fn encrypt(key: &[u8; 32], plaintext: &[u8], aad: &[u8]) -> (out: Bytes)
    requires
        sealable(plaintext@.len()),
    ensures
        exists|prefix: Seq<u8>|
            prefix.len() == 4 && buffer::bytes_of(out) == sealed_message(
                key@,
                #[trigger] nonce_of(prefix, 0),
                aad@,
                plaintext@,
            ),
        opened_message(key@, buffer::bytes_of(out), aad@) == Some(plaintext@),
{
    let mut cipher: SessionCipher = SessionCipher::new(key);
    let ghost prefix = cipher.prefix();
    let out: Bytes = cipher.encrypt(plaintext, aad);
    assert(buffer::bytes_of(out) == sealed_message(key@, nonce_of(prefix, 0), aad@, plaintext@));
    out
}

/// Opens one message.
pub fn decrypt(key: &[u8; 32], data: &[u8], aad: &[u8]) -> (out: Result<Bytes, SecurityError>)
    ensures
        match out {
            Ok(b) => opened_message(key@, data@, aad@) == Some(buffer::bytes_of(b))
                && buffer::bytes_of(b).len() + 28 == data@.len(),
            Err(e) => opened_message(key@, data@, aad@) is None && e@
                == SecurityFault::DecryptFailed,
        },
{
    SessionCipher::new(key).decrypt(data, aad)
}

/// Two messages of one session share a nonce only if they share a number.
pub proof fn nonces_are_distinct(prefix: Seq<u8>, a: u64, b: u64)
    requires
        nonce_of(prefix, a) == nonce_of(prefix, b),
    ensures
        a == b,
{
    let x = codec::le_bytes(a as nat, 8);
    let y = codec::le_bytes(b as nat, 8);
    codec::lemma_byte_spans();
    codec::le_bytes_then_value(a as nat, 8);
    codec::le_bytes_then_value(b as nat, 8);
    assert(nonce_of(prefix, a).skip(prefix.len() as int) =~= x);
    assert(nonce_of(prefix, b).skip(prefix.len() as int) =~= y);
}

/// A sealed message is its nonce of 12 bytes, then the ciphertext of the whole message
/// under the key, the nonce and the associated data. The nonce is the prefix of the
/// session and the number of the message in 8 bytes.
pub proof fn sealed_messages_are_nonce_and_ciphertext(
    c: SessionCipher,
    aad: Seq<u8>,
    msg: Seq<u8>,
)
    requires
        c.wf(),
    ensures
        ({
            let nonce = c.prefix() + codec::le_bytes(c.counter() as nat, 8);
            &&& nonce.len() == 12
            &&& c.seals(aad, msg) == nonce + aead_sealed(c.key(), nonce, aad, msg)
        }),
{
    codec::lemma_le_bytes_len(c.counter() as nat, 8);
}

/// What is received is opened under the nonce in its first 12 bytes, with the associated
/// data as it is; what is too short to hold a nonce and a tag is not opened at all.
pub proof fn messages_open_under_their_nonce(key: Seq<u8>, data: Seq<u8>, aad: Seq<u8>)
    ensures
        data.len() < 12 + 16 ==> opened_message(key, data, aad) is None,
        12 + 16 <= data.len() <= 274_877_906_816 + 28 ==> opened_message(key, data, aad)
            == aead_opened(key, data.subrange(0, 12), aad, data.skip(12)),
{
    if data.len() >= 12 {
        assert(data.subrange(0, 12) =~= data.take(12));
    }
}

/// The next message of a session has the next number, so that two messages that follow
/// each other have different nonces, under the same key and prefix.
pub proof fn nonces_change_with_each_message(c: SessionCipher, next: SessionCipher)
    requires
        c.wf(),
        c.advanced(next),
    ensures
        c.counter() < u64::MAX ==> next.counter() == c.counter() + 1,
        next.counter() != c.counter(),
        next.prefix() + codec::le_bytes(next.counter() as nat, 8) != c.prefix() + codec::le_bytes(
            c.counter() as nat,
            8,
        ),
        next.key() == c.key(),
{
    if nonce_of(next.prefix(), next.counter()) == nonce_of(c.prefix(), c.counter()) {
        nonces_are_distinct(c.prefix(), next.counter(), c.counter());
    }
}

/// A sealed message opens under the same key and associated data to the whole message. It
/// begins with its nonce, the prefix of the session and the number of the message, and the
/// next one gets the next number.
pub proof fn sealed_messages_open(
    c: &mut SessionCipher,
    msg: &[u8],
    aad: &[u8],
    out: Bytes,
    d: SessionCipher,
    back: Result<Bytes, SecurityError>,
    data: &[u8],
)
    requires
        c.wf(),
        call_ensures(SessionCipher::encrypt, (c, msg, aad), out),
        d.key() == c.key(),
        data@ == buffer::bytes_of(out),
        call_ensures(SessionCipher::decrypt, (&d, data, aad), back),
    ensures
        back matches Ok(b) && buffer::bytes_of(b) == msg@,
        data@.len() == msg@.len() + 28,
        data@.take(12) == old(c).prefix() + codec::le_bytes(old(c).counter() as nat, 8),
        old(c).counter() < u64::MAX ==> final(c).counter() == old(c).counter() + 1,
        final(c).key() == old(c).key() && final(c).prefix() == old(c).prefix(),
{
    codec::lemma_le_bytes_len(old(c).counter() as nat, 8);
    assert(data@.take(12) =~= old(c).prefix() + codec::le_bytes(old(c).counter() as nat, 8));
}

/// What is too short to be a sealed message, and what does not open, are refused in the
/// same way.
pub proof fn what_does_not_open_is_refused(
    c: SessionCipher,
    data: &[u8],
    aad: &[u8],
    out: Result<Bytes, SecurityError>,
)
    requires
        call_ensures(SessionCipher::decrypt, (&c, data, aad), out),
    ensures
        data@.len() < 28 ==> out is Err,
        out matches Err(e) ==> e@ == SecurityFault::DecryptFailed,
        28 <= data@.len() <= 274_877_906_816 ==> match aead_opened(
            c.key(),
            data@.take(12),
            aad@,
            data@.skip(12),
        ) {
            Some(m) => out matches Ok(b) && buffer::bytes_of(b) == m,
            None => out is Err,
        },
{
}

/// One message that is sealed under a key opens under it, with the same associated data.
pub proof fn single_messages_open(
    key: [u8; 32],
    msg: &[u8],
    aad: &[u8],
    out: Bytes,
    data: &[u8],
    back: Result<Bytes, SecurityError>,
)
    requires
        call_ensures(encrypt, (&key, msg, aad), out),
        data@ == buffer::bytes_of(out),
        call_ensures(decrypt, (&key, data, aad), back),
    ensures
        back matches Ok(b) && buffer::bytes_of(b) == msg@,
{
}

} // verus!
