//! Sealing the fleet's shared state: a random nonce in front, authenticated ciphertext behind.
use crate::chain::joined;
use crate::text::decimal_text;
use chacha20poly1305::aead::{Aead, KeyInit};
use chacha20poly1305::{ChaCha20Poly1305, XChaCha20Poly1305};
use rand::RngCore;
use vstd::prelude::*;

verus! {

/// What XChaCha20-Poly1305 encryption gives: the ciphertext with its tag, or the error text.
pub uninterp spec fn xchacha_sealed(key: Seq<u8>, nonce: Seq<u8>, plaintext: Seq<u8>) -> Result<Seq<u8>, Seq<char>>;

/// What XChaCha20-Poly1305 decryption gives: the plaintext, or the error text.
pub uninterp spec fn xchacha_opened(key: Seq<u8>, nonce: Seq<u8>, ciphertext: Seq<u8>) -> Result<Seq<u8>, Seq<char>>;

/// What ChaCha20-Poly1305 decryption gives: the plaintext, or the error text.
pub uninterp spec fn chacha_opened(key: Seq<u8>, nonce: Seq<u8>, ciphertext: Seq<u8>) -> Result<Seq<u8>, Seq<char>>;

/// `rand::RngCore::fill_bytes` on the thread's generator. Nothing is promised of the bytes.
#[verifier::external_body]
fn random_nonce() -> (r: [u8; 24])
{
    let mut nonce = [0u8; 24];
    rand::thread_rng().fill_bytes(&mut nonce);
    nonce
}

/// The longest text that the cipher takes: as many blocks of 64 bytes as its counter of 32 bits has
/// left once the tag's key is drawn.
pub const LONGEST_TEXT: u64 = 0x3F_FFFF_FF80;

/// `XChaCha20Poly1305::encrypt` without associated data: it encrypts every text that its counter
/// reaches over. The ciphertext is sixteen bytes longer than the plaintext, and decrypting it under
/// the same key and nonce gives the plaintext back.
#[verifier::external_body]
fn xchacha_encrypt(key: &[u8; 32], nonce: &[u8; 24], plaintext: &[u8]) -> (r: Result<Vec<u8>, String>)
    requires
        plaintext@.len() <= LONGEST_TEXT,
    ensures
        r is Ok,
        crate::envelope::bytes_or_text(r) == xchacha_sealed(key@, nonce@, plaintext@),
        r matches Ok(ct) ==> ct@.len() == plaintext@.len() + 16,
        r matches Ok(ct) ==> (xchacha_opened(key@, nonce@, ct@) matches Ok(back) && back == plaintext@),
{
    XChaCha20Poly1305::new(key.into()).encrypt(&(*nonce).into(), plaintext).map_err(|e| format!("{e}"))
}

/// `XChaCha20Poly1305::decrypt` without associated data, of a text that the counter reaches over.
#[verifier::external_body]
fn xchacha_decrypt(key: &[u8; 32], nonce: &[u8; 24], ciphertext: &[u8]) -> (r: Result<Vec<u8>, String>)
    requires
        ciphertext@.len() <= LONGEST_TEXT + 16,
    ensures
        crate::envelope::bytes_or_text(r) == xchacha_opened(key@, nonce@, ciphertext@),
{
    XChaCha20Poly1305::new(key.into()).decrypt(&(*nonce).into(), ciphertext).map_err(|e| format!("{e}"))
}

/// `ChaCha20Poly1305::decrypt` without associated data, of a text that the counter reaches over.
#[verifier::external_body]
fn chacha_decrypt(key: &[u8; 32], nonce: &[u8; 12], ciphertext: &[u8]) -> (r: Result<Vec<u8>, String>)
    requires
        ciphertext@.len() <= LONGEST_TEXT + 16,
    ensures
        crate::envelope::bytes_or_text(r) == chacha_opened(key@, nonce@, ciphertext@),
{
    ChaCha20Poly1305::new(key.into()).decrypt(&(*nonce).into(), ciphertext).map_err(|e| format!("{e}"))
}

/// The sealer of the fleet's shared state.
pub struct RdSealer;

/// What sealing with a given nonce gives: the nonce and the ciphertext, or the error text.
pub open spec fn sealed_with(key: Seq<u8>, nonce: Seq<u8>, plaintext: Seq<u8>) -> Result<Seq<u8>, Seq<char>> {
    if plaintext.len() > LONGEST_TEXT {
        Err("fgtw seal: aead::Error"@)
    } else {
        match xchacha_sealed(key, nonce, plaintext) {
            Ok(ct) => Ok(nonce + ct),
            Err(e) => Err("fgtw seal: "@ + e),
        }
    }
}

/// The bytes open in the current form: a 24-byte nonce, then the ciphertext with its tag.
pub open spec fn opens_now(sealed: Seq<u8>, key: Seq<u8>) -> bool {
    40 <= sealed.len() <= LONGEST_TEXT + 40 && xchacha_opened(key, sealed.take(24), sealed.skip(24)) is Ok
}

/// What opening gives: the current form where the bytes are in it, else the older form with its
/// 12-byte nonce; or the error text.
pub open spec fn opened(sealed: Seq<u8>, key: Seq<u8>) -> Result<Seq<u8>, Seq<char>> {
    if opens_now(sealed, key) {
        xchacha_opened(key, sealed.take(24), sealed.skip(24))
    } else if sealed.len() < 28 {
        Err("fgtw open: blob too short ("@ + crate::text::decimal(sealed.len()) + " bytes)"@)
    } else if sealed.len() > LONGEST_TEXT + 28 {
        Err("fgtw open: aead::Error"@)
    } else {
        match chacha_opened(key, sealed.take(12), sealed.skip(12)) {
            Ok(plaintext) => Ok(plaintext),
            Err(e) => Err("fgtw open: "@ + e),
        }
    }
}

impl RdSealer {
    /// Seal with a given nonce.
    pub fn seal_with(&self, plaintext: &[u8], key: &[u8; 32], nonce: &[u8; 24]) -> (r: Result<Vec<u8>, String>)
        ensures
            crate::envelope::bytes_or_text(r) == sealed_with(key@, nonce@, plaintext@),
            r is Ok <==> plaintext@.len() <= LONGEST_TEXT,
            r matches Ok(sealed) ==> sealed@.len() == 24 + plaintext@.len() + 16,
            r matches Ok(sealed) ==> (opened(sealed@, key@) matches Ok(back) && back == plaintext@),
    {
        if plaintext.len() as u64 > LONGEST_TEXT {
            return Err("fgtw seal: aead::Error".to_owned());
        }
        match xchacha_encrypt(key, nonce, plaintext) {
            Ok(ct) => {
                let mut out: Vec<u8> = Vec::new();
                out.extend_from_slice(nonce);
                out.extend_from_slice(ct.as_slice());
                assert(out@ == nonce@ + ct@);
                assert(out@.take(24) == nonce@);
                assert(out@.skip(24) == ct@);
                Ok(out)
            },
            Err(e) => Err(joined("fgtw seal: ", e.as_str())),
        }
    }

    /// Seal under a fresh nonce.
    pub fn seal(&self, plaintext: &[u8], key: &[u8; 32]) -> (r: Result<Vec<u8>, String>)
        ensures
            exists|nonce: [u8; 24]|
                crate::envelope::bytes_or_text(r) == #[trigger] sealed_with(key@, nonce@, plaintext@),
            r is Ok <==> plaintext@.len() <= LONGEST_TEXT,
            r matches Ok(sealed) ==> sealed@.len() == 24 + plaintext@.len() + 16,
            r matches Ok(sealed) ==> (opened(sealed@, key@) matches Ok(back) && back == plaintext@),
    {
        let nonce = random_nonce();
        self.seal_with(plaintext, key, &nonce)
    }

    /// Open sealed bytes of the current or the older form.
    pub fn open(&self, sealed: &[u8], key: &[u8; 32]) -> (r: Result<Vec<u8>, String>)
        ensures
            crate::envelope::bytes_or_text(r) == opened(sealed@, key@),
    {
        let len: usize = sealed.len();
        if len >= 40 && len as u64 <= LONGEST_TEXT + 40 {
            let mut nonce: [u8; 24] = [0u8; 24];
            let mut i: usize = 0;
            while i < 24
                invariant
                    i <= 24,
                    sealed@.len() >= 40,
                    forall|j: int| 0 <= j < i ==> nonce@[j] == sealed@[j],
                decreases 24 - i,
            {
                nonce[i] = sealed[i];
                i = i + 1;
            }
            assert(nonce@ == sealed@.take(24));
            let ct = vstd::slice::slice_subrange(sealed, 24, len);
            assert(ct@ == sealed@.skip(24));
            if let Ok(plaintext) = xchacha_decrypt(key, &nonce, ct) {
                return Ok(plaintext);
            }
        }
        if len < 28 {
            let mut text = joined("fgtw open: blob too short (", decimal_text(len as u64).as_str());
            text.append(" bytes)");
            return Err(text);
        }
        if len as u64 > LONGEST_TEXT + 28 {
            return Err("fgtw open: aead::Error".to_owned());
        }
        let mut nonce: [u8; 12] = [0u8; 12];
        let mut i: usize = 0;
        while i < 12
            invariant
                i <= 12,
                sealed@.len() >= 28,
                forall|j: int| 0 <= j < i ==> nonce@[j] == sealed@[j],
            decreases 12 - i,
        {
            nonce[i] = sealed[i];
            i = i + 1;
        }
        assert(nonce@ == sealed@.take(12));
        let ct = vstd::slice::slice_subrange(sealed, 12, len);
        assert(ct@ == sealed@.skip(12));
        match chacha_decrypt(key, &nonce, ct) {
            Ok(plaintext) => Ok(plaintext),
            Err(e) => Err(joined("fgtw open: ", e.as_str())),
        }
    }
}

/// What the cipher gives back of what it sealed, the sealer gives back: the nonce in front is found
/// again, and the current form is tried first.
pub proof fn law_sealed_bytes_open(key: Seq<u8>, nonce: Seq<u8>, plaintext: Seq<u8>, ct: Seq<u8>)
    requires
        nonce.len() == 24,
        plaintext.len() <= LONGEST_TEXT,
        ct.len() == plaintext.len() + 16,
        xchacha_sealed(key, nonce, plaintext) == Ok::<Seq<u8>, Seq<char>>(ct),
        xchacha_opened(key, nonce, ct) == Ok::<Seq<u8>, Seq<char>>(plaintext),
    ensures
        sealed_with(key, nonce, plaintext) == Ok::<Seq<u8>, Seq<char>>(nonce + ct),
        opened(nonce + ct, key) == Ok::<Seq<u8>, Seq<char>>(plaintext),
{
    assert((nonce + ct).take(24) == nonce);
    assert((nonce + ct).skip(24) == ct);
}

/// Bytes of the older form, a 12-byte nonce and what the older cipher opens, open to its text,
/// unless they happen to open in the current form.
pub proof fn law_older_form_opens(key: Seq<u8>, nonce: Seq<u8>, plaintext: Seq<u8>, ct: Seq<u8>)
    requires
        nonce.len() == 12,
        16 <= ct.len() <= LONGEST_TEXT + 16,
        chacha_opened(key, nonce, ct) == Ok::<Seq<u8>, Seq<char>>(plaintext),
        !opens_now(nonce + ct, key),
    ensures
        opened(nonce + ct, key) == Ok::<Seq<u8>, Seq<char>>(plaintext),
{
    assert((nonce + ct).take(12) == nonce);
    assert((nonce + ct).skip(12) == ct);
}

/// Bytes that neither cipher opens are refused.
pub proof fn law_neither_form_is_refused(sealed: Seq<u8>, key: Seq<u8>)
    requires
        !opens_now(sealed, key),
        chacha_opened(key, sealed.take(12), sealed.skip(12)) is Err,
    ensures
        opened(sealed, key) is Err,
{
}

/// Bytes that are too short to hold a nonce and a tag never open.
pub proof fn law_short_blob_is_refused(sealed: Seq<u8>, key: Seq<u8>)
    requires
        sealed.len() < 28,
    ensures
        opened(sealed, key) is Err,
{
}

// ── sealing and opening, in numbers ──

/// What is sealed is the nonce and behind it what the cipher makes of the text, for every text that its
/// counter reaches over, and an error for a longer one.
pub proof fn law_sealing(key: Seq<u8>, nonce: Seq<u8>, plaintext: Seq<u8>)
    ensures
        plaintext.len() > 274877906816 ==> sealed_with(key, nonce, plaintext) == Err::<Seq<u8>, Seq<char>>(
            "fgtw seal: aead::Error"@,
        ),
        plaintext.len() <= 274877906816 ==> match xchacha_sealed(key, nonce, plaintext) {
            Ok(ct) => sealed_with(key, nonce, plaintext) == Ok::<Seq<u8>, Seq<char>>(nonce + ct),
            Err(e) => sealed_with(key, nonce, plaintext) == Err::<Seq<u8>, Seq<char>>("fgtw seal: "@ + e),
        },
{
}

/// Sealed bytes are opened with their first 24 bytes as the nonce, where they are forty or more and the
/// cipher opens the rest; else with their first twelve by the older cipher, where they are 28 or more; and
/// not at all where neither opens them.
pub proof fn law_opening(sealed: Seq<u8>, key: Seq<u8>)
    requires
        sealed.len() <= 274877906844,
    ensures
        ({
            let current = xchacha_opened(key, sealed.take(24), sealed.skip(24));
            let older = chacha_opened(key, sealed.take(12), sealed.skip(12));
            &&& sealed.len() >= 40 && current is Ok ==> opened(sealed, key) == current
            &&& (sealed.len() < 40 || current is Err) && sealed.len() >= 28 && older is Ok ==> opened(sealed, key) == older
            &&& (sealed.len() < 40 || current is Err) && sealed.len() >= 28 && older is Err ==> opened(sealed, key) == Err::<
                Seq<u8>,
                Seq<char>,
            >("fgtw open: "@ + older->Err_0)
            &&& sealed.len() < 28 ==> opened(sealed, key) == Err::<Seq<u8>, Seq<char>>(
                "fgtw open: blob too short ("@ + crate::text::decimal(sealed.len()) + " bytes)"@,
            )
        }),
{
}

/// The longest bytes that are opened in the current form, and what is longer still.
pub proof fn law_opening_long_bytes(sealed: Seq<u8>, key: Seq<u8>)
    requires
        sealed.len() > 274877906844,
    ensures
        ({
            let current = xchacha_opened(key, sealed.take(24), sealed.skip(24));
            &&& sealed.len() <= 274877906856 && current is Ok ==> opened(sealed, key) == current
            &&& sealed.len() > 274877906856 || current is Err ==> opened(sealed, key) == Err::<Seq<u8>, Seq<char>>(
                "fgtw open: aead::Error"@,
            )
        }),
{
}

} // verus!
