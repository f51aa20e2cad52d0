//! At-rest protection of provider secrets: ChaCha20-Poly1305 keyed from the
//! machine identity, stored as standard base64 of `nonce ‖ ciphertext`.
//!
//! The primitives (base64, SHA-256, ChaCha20-Poly1305, the OS random source)
//! are called through the trusted wrappers below; the framing, the key
//! derivation and every decision around them are verified here.

use vstd::prelude::*;
use vstd::utf8::{decode_utf8, encode_utf8, valid_utf8};
use crate::text::{
    concat,
    opt_view,
    starts_with,
    trim,
    trim_str,
};
use base64::Engine as _;
use chacha20poly1305::aead::{Aead, KeyInit};
use sha2::Digest as _;

verus! {

// ---------------------------------------------------------------------------
// names for the primitives' results
// ---------------------------------------------------------------------------

/// The base64 digit for a 6-bit value: `A-Z a-z 0-9`, then `+ /` in the
/// standard alphabet or `- _` in the URL-safe one (RFC 4648).
pub open spec fn b64_digit(v: int, url_safe: bool) -> char {
    if v < 26 {
        ('A' as int + v) as char
    } else if v < 52 {
        ('a' as int + (v - 26)) as char
    } else if v < 62 {
        ('0' as int + (v - 52)) as char
    } else if v == 62 {
        if url_safe { '-' } else { '+' }
    } else {
        if url_safe { '_' } else { '/' }
    }
}

/// Base64 digits of `bytes`, three bytes to four digits, a final group of one
/// or two bytes giving two or three digits, without padding.
pub open spec fn b64_digits(bytes: Seq<u8>, url_safe: bool) -> Seq<char>
    decreases bytes.len(),
{
    if bytes.len() == 0 {
        Seq::empty()
    } else if bytes.len() == 1 {
        seq![b64_digit((bytes[0] as int) / 4, url_safe), b64_digit(((bytes[0] as int) % 4) * 16, url_safe)]
    } else if bytes.len() == 2 {
        seq![
            b64_digit((bytes[0] as int) / 4, url_safe),
            b64_digit(((bytes[0] as int) % 4) * 16 + (bytes[1] as int) / 16, url_safe),
            b64_digit(((bytes[1] as int) % 16) * 4, url_safe),
        ]
    } else {
        seq![
            b64_digit((bytes[0] as int) / 4, url_safe),
            b64_digit(((bytes[0] as int) % 4) * 16 + (bytes[1] as int) / 16, url_safe),
            b64_digit(((bytes[1] as int) % 16) * 4 + (bytes[2] as int) / 64, url_safe),
            b64_digit((bytes[2] as int) % 64, url_safe),
        ] + b64_digits(bytes.skip(3), url_safe)
    }
}

/// What `base64::engine::general_purpose::STANDARD.encode` returns: standard
/// alphabet, padded with `=` to a multiple of four characters.
pub open spec fn b64_std(bytes: Seq<u8>) -> Seq<char> {
    b64_digits(bytes, false) + if bytes.len() % 3 == 1 {
        "=="@
    } else if bytes.len() % 3 == 2 {
        "="@
    } else {
        Seq::empty()
    }
}

/// What `STANDARD.decode` returns: the bytes, or the text of the decode error.
pub uninterp spec fn b64_std_decoded(text: Seq<char>) -> Result<Seq<u8>, Seq<char>>;

/// What `base64::engine::general_purpose::URL_SAFE_NO_PAD.encode` returns:
/// URL-safe alphabet, no padding.
pub open spec fn b64_url(bytes: Seq<u8>) -> Seq<char> {
    b64_digits(bytes, true)
}

/// What `sha2::Sha256::digest` returns.
pub uninterp spec fn sha256(bytes: Seq<u8>) -> Seq<u8>;

/// What `ChaCha20Poly1305::encrypt` returns (ciphertext followed by the tag).
pub uninterp spec fn chacha_seal(key: Seq<u8>, nonce: Seq<u8>, plain: Seq<u8>) -> Seq<u8>;

/// What `ChaCha20Poly1305::decrypt` returns (`None` when authentication fails).
pub uninterp spec fn chacha_open(key: Seq<u8>, nonce: Seq<u8>, sealed: Seq<u8>) -> Option<Seq<u8>>;

/// Length of padded base64 output for `n` input bytes.
pub open spec fn padded_len(n: nat) -> nat {
    (n / 3) * 4 + if n % 3 > 0 {
        4nat
    } else {
        0nat
    }
}

/// Length of unpadded base64 output for `n` input bytes.
pub open spec fn unpadded_len(n: nat) -> nat {
    (n / 3) * 4 + if n % 3 == 1 {
        2nat
    } else if n % 3 == 2 {
        3nat
    } else {
        0nat
    }
}

/// A character of the URL-safe base64 alphabet: `A-Z a-z 0-9 - _`.
pub open spec fn url_safe_char(c: char) -> bool {
    ('A' <= c && c <= 'Z') || ('a' <= c && c <= 'z') || ('0' <= c && c <= '9') || c == '-' || c
        == '_'
}

/// Text made only of URL-safe base64 characters.
pub open spec fn url_safe_text(s: Seq<char>) -> bool {
    forall|i: int| 0 <= i < s.len() ==> url_safe_char(#[trigger] s[i])
}

/// Base64 digits of `n` bytes number [`unpadded_len`]`(n)` and all come
/// from the chosen alphabet.
pub proof fn lemma_b64_digits(bytes: Seq<u8>, url_safe: bool)
    ensures
        b64_digits(bytes, url_safe).len() == unpadded_len(bytes.len()),
        url_safe ==> url_safe_text(b64_digits(bytes, url_safe)),
    decreases bytes.len(),
{
    let d = b64_digits(bytes, url_safe);
    if bytes.len() >= 3 {
        let rest = bytes.skip(3);
        lemma_b64_digits(rest, url_safe);
        assert(unpadded_len(bytes.len()) == unpadded_len(rest.len()) + 4) by {
            assert(bytes.len() == rest.len() + 3);
        }
    }
    if url_safe {
        assert forall|i: int| 0 <= i < d.len() implies url_safe_char(#[trigger] d[i]) by {
            if bytes.len() >= 3 && i >= 4 {
                assert(d[i] == b64_digits(bytes.skip(3), url_safe)[i - 4]);
            }
        }
    }
}

/// The padded standard encoding has [`padded_len`] characters.
pub proof fn lemma_b64_std_len(bytes: Seq<u8>)
    ensures
        b64_std(bytes).len() == padded_len(bytes.len()),
{
    lemma_b64_digits(bytes, false);
    reveal_strlit("==");
    reveal_strlit("=");
}

/// Whether the ChaCha20 block counter can cover a message of `n` bytes.
pub open spec fn sealable(n: nat) -> bool {
    n / 64 < u32::MAX as nat
}

/// The view of a decoding result.
pub open spec fn bytes_result_view(r: Result<Vec<u8>, String>) -> Result<Seq<u8>, Seq<char>> {
    match r {
        Ok(v) => Ok(v@),
        Err(e) => Err(e@),
    }
}

/// Decoding `text` gave `r`, and `text` is the encoding of no bytes other
/// than what came out.
pub open spec fn decodes_back(text: Seq<char>, r: Result<Vec<u8>, String>) -> bool {
    forall|x: Seq<u8>| text == b64_std(x) ==> (r matches Ok(v) && v@ == x)
}

/// Opening `sealed` gave `r`, and whatever message sealed to `sealed` under
/// this key and nonce is what came out.
pub open spec fn opens_back(key: Seq<u8>, nonce: Seq<u8>, sealed: Seq<u8>, r: Option<Vec<u8>>) -> bool {
    forall|p: Seq<u8>|
        sealed == chacha_seal(key, nonce, p) && sealable(p.len()) ==> (r matches Some(q) && q@ == p)
}

// ---------------------------------------------------------------------------
// trusted wrappers
// ---------------------------------------------------------------------------

/// `STANDARD.encode` (padded standard alphabet). Trusted: the result is
/// [`b64_std`] of the input (RFC 4648 base64, as the crate documents); the
/// call panics only when the padded length overflows `usize`, which
/// `requires` excludes.
#[verifier::external_body]
pub(crate) fn b64_std_encode(bytes: &[u8]) -> (r: String)
    requires
        padded_len(bytes@.len()) <= usize::MAX,
    ensures
        r@ == b64_std(bytes@),
{
    base64::engine::general_purpose::STANDARD.encode(bytes)
}

/// `STANDARD.decode`. Trusted: the result is [`b64_std_decoded`] of the
/// text (error carried as its display text), and decoding the encoding of
/// some bytes gives those bytes back.
#[verifier::external_body]
pub(crate) fn b64_std_decode(text: &str) -> (r: Result<Vec<u8>, String>)
    ensures
        bytes_result_view(r) == b64_std_decoded(text@),
        decodes_back(text@, r),
{
    base64::engine::general_purpose::STANDARD.decode(text).map_err(|e| e.to_string())
}

/// `URL_SAFE_NO_PAD.encode`. Trusted: the result is [`b64_url`] of the input
/// (RFC 4648 URL-safe base64 without padding, as the crate documents); the
/// call panics only when the length overflows `usize`, which `requires`
/// excludes.
#[verifier::external_body]
pub(crate) fn b64_url_encode(bytes: &[u8]) -> (r: String)
    requires
        unpadded_len(bytes@.len()) <= usize::MAX,
    ensures
        r@ == b64_url(bytes@),
{
    base64::engine::general_purpose::URL_SAFE_NO_PAD.encode(bytes)
}

/// `sha2::Sha256::digest`. Trusted: the result is [`sha256`] of the input and
/// is 32 bytes long.
#[verifier::external_body]
pub(crate) fn sha256_digest(bytes: &[u8]) -> (r: Vec<u8>)
    ensures
        r@ == sha256(bytes@),
        r@.len() == 32,
{
    sha2::Sha256::digest(bytes).to_vec()
}

/// `ChaCha20Poly1305::encrypt` with no associated data. Trusted: it fails
/// exactly when the message exceeds the block counter; otherwise the result is
/// [`chacha_seal`] of key, nonce and message, 16 bytes (the tag) longer.
#[verifier::external_body]
pub(crate) fn chacha_encrypt(key: &[u8], nonce: &[u8], plain: &[u8]) -> (r: Option<Vec<u8>>)
    requires
        key@.len() == 32,
        nonce@.len() == 12,
        plain@.len() + 16 <= usize::MAX,
    ensures
        r matches Some(c) ==> c@ == chacha_seal(key@, nonce@, plain@) && c@.len() == plain@.len()
            + 16,
        r is Some <==> sealable(plain@.len()),
{
    let cipher = chacha20poly1305::ChaCha20Poly1305::new(chacha20poly1305::Key::from_slice(key));
    cipher.encrypt(chacha20poly1305::Nonce::from_slice(nonce), plain).ok()
}

/// `ChaCha20Poly1305::decrypt` with no associated data. Trusted: the result
/// is [`chacha_open`] of key, nonce and sealed bytes, and opening what
/// encryption produced under the same key and nonce gives the message back.
#[verifier::external_body]
pub(crate) fn chacha_decrypt(key: &[u8], nonce: &[u8], sealed: &[u8]) -> (r: Option<Vec<u8>>)
    requires
        key@.len() == 32,
        nonce@.len() == 12,
    ensures
        r matches Some(p) ==> chacha_open(key@, nonce@, sealed@) == Some(p@),
        r is None ==> chacha_open(key@, nonce@, sealed@) is None,
        opens_back(key@, nonce@, sealed@, r),
{
    let cipher = chacha20poly1305::ChaCha20Poly1305::new(chacha20poly1305::Key::from_slice(key));
    cipher.decrypt(chacha20poly1305::Nonce::from_slice(nonce), sealed).ok()
}

/// `getrandom::getrandom` into a fresh buffer of `n` bytes. Trusted: on
/// success the buffer has `n` bytes; their values are chance and unstated. A
/// failure is returned as the error's display text.
#[verifier::external_body]
pub(crate) fn random_bytes(n: usize) -> (r: Result<Vec<u8>, String>)
    ensures
        r matches Ok(v) ==> v@.len() == n,
{
    let mut v = vec![0u8; n];
    getrandom::getrandom(&mut v).map(|_| v).map_err(|e| e.to_string())
}

/// `String::from_utf8`. Trusted: it succeeds exactly on valid UTF-8, and the
/// string holds the decoded characters.
#[verifier::external_body]
pub(crate) fn utf8_string(bytes: Vec<u8>) -> (r: Option<String>)
    ensures
        r is Some <==> valid_utf8(bytes@),
        r matches Some(s) ==> s@ == decode_utf8(bytes@),
{
    String::from_utf8(bytes).ok()
}

// ---------------------------------------------------------------------------
// machine key
// ---------------------------------------------------------------------------

/// What the host offers to derive the machine key from: the contents of the
/// first readable machine-id file, and the `HOSTNAME` variable.
pub struct MachineId {
    pub file: Option<String>,
    pub hostname: Option<String>,
}

/// The identity text: the trimmed machine-id file, else `HOSTNAME` as is.
pub open spec fn machine_id_text(m: MachineId) -> Option<Seq<char>> {
    match m.file {
        Some(t) => Some(trim(t@)),
        None => opt_view(m.hostname),
    }
}

/// The 32-byte key for an identity: SHA-256 over a fixed label and the id.
pub open spec fn key_for(id: Seq<char>) -> Seq<u8> {
    sha256(encode_utf8("puppetterm-ai-key-v1"@) + encode_utf8(id))
}

/// The error when no identity is available.
pub open spec fn no_machine_id() -> Seq<char> {
    "cannot derive machine key (no machine-id)"@
}

/// Derive the 32-byte machine key.
pub fn machine_key(m: &MachineId) -> (r: Result<Vec<u8>, String>)
    ensures
        match machine_id_text(*m) {
            Some(id) => r matches Ok(k) && k@ == key_for(id) && k@.len() == 32,
            None => r matches Err(e) && e@ == no_machine_id(),
        },
{
    let id: String = match &m.file {
        Some(t) => trim_str(t.as_str()),
        None => match &m.hostname {
            Some(h) => h.clone(),
            None => {
                return Err("cannot derive machine key (no machine-id)".to_owned());
            },
        },
    };
    let label = "puppetterm-ai-key-v1".as_bytes();
    let idb = id.as_str().as_bytes();
    let mut data: Vec<u8> = Vec::new();
    let mut i: usize = 0;
    while i < label.len()
        invariant
            i <= label@.len(),
            data@ == label@.take(i as int),
        decreases label@.len() - i,
    {
        data.push(label[i]);
        assert(label@.take(i as int + 1) == label@.take(i as int).push(label@[i as int]));
        i = i + 1;
    }
    assert(label@.take(label@.len() as int) == label@);
    let mut j: usize = 0;
    while j < idb.len()
        invariant
            j <= idb@.len(),
            data@ == label@ + idb@.take(j as int),
        decreases idb@.len() - j,
    {
        data.push(idb[j]);
        assert(idb@.take(j as int + 1) == idb@.take(j as int).push(idb@[j as int]));
        j = j + 1;
    }
    assert(idb@.take(idb@.len() as int) == idb@);
    Ok(sha256_digest(data.as_slice()))
}

// ---------------------------------------------------------------------------
// encryption at rest
// ---------------------------------------------------------------------------

/// The stored form of `plain` under `key` with nonce `nonce`.
pub open spec fn sealed_text(key: Seq<u8>, nonce: Seq<u8>, plain: Seq<char>) -> Seq<char> {
    b64_std(nonce + chacha_seal(key, nonce, encode_utf8(plain)))
}

/// `plain` is small enough to be sealed (always true of real strings).
pub open spec fn storable(plain: Seq<char>) -> bool {
    sealable(encode_utf8(plain).len()) && encode_utf8(plain).len() <= usize::MAX / 2
}

/// Seal `plain` under `key` with the given nonce: standard base64 of the
/// nonce followed by the ChaCha20-Poly1305 ciphertext and tag, so the text
/// decodes to 12 + n + 16 bytes for an n-byte secret.
pub fn seal_with_nonce(key: &[u8], nonce: &[u8], plain: &str) -> (r: Result<String, String>)
    requires
        key@.len() == 32,
        nonce@.len() == 12,
    ensures
        storable(plain@) ==> (r matches Ok(enc) && enc@ == sealed_text(key@, nonce@, plain@)
            && enc@.len() == padded_len(28 + encode_utf8(plain@).len())),
        !storable(plain@) ==> (r matches Err(e) && e@ == "encryption failed"@),
        // the stored value is longer than the secret, so never the secret itself
        r matches Ok(enc) ==> enc@.len() > plain@.len(),
{
    let bytes = plain.as_bytes();
    if bytes.len() > usize::MAX / 2 {
        return Err("encryption failed".to_owned());
    }
    let ct = match chacha_encrypt(key, nonce, bytes) {
        Some(c) => c,
        None => {
            return Err("encryption failed".to_owned());
        },
    };
    let mut out: Vec<u8> = Vec::new();
    let mut i: usize = 0;
    while i < 12
        invariant
            i <= 12,
            nonce@.len() == 12,
            out@ == nonce@.take(i as int),
        decreases 12 - i,
    {
        out.push(nonce[i]);
        assert(nonce@.take(i as int + 1) == nonce@.take(i as int).push(nonce@[i as int]));
        i = i + 1;
    }
    assert(nonce@.take(12) == nonce@);
    let mut j: usize = 0;
    while j < ct.len()
        invariant
            j <= ct@.len(),
            out@ == nonce@ + ct@.take(j as int),
        decreases ct@.len() - j,
    {
        out.push(ct[j]);
        assert(ct@.take(j as int + 1) == ct@.take(j as int).push(ct@[j as int]));
        j = j + 1;
    }
    assert(ct@.take(ct@.len() as int) == ct@);
    assert(padded_len(out@.len()) <= usize::MAX) by (nonlinear_arith)
        requires
            out@.len() == 12 + bytes@.len() + 16,
            bytes@.len() <= usize::MAX / 2,
    ;
    let enc = b64_std_encode(out.as_slice());
    proof {
        lemma_b64_std_len(out@);
        lemma_utf8_len(plain@);
        let x = out@.len();
        assert(padded_len(x) >= x) by (nonlinear_arith);
    }
    Ok(enc)
}

/// Encrypt a secret for storage under the machine key, with a fresh 12-byte
/// nonce from the OS random source (see [`seal_with_nonce`] for the form).
pub fn encrypt_key(m: &MachineId, plain: &str) -> (r: Result<String, String>)
    ensures
        machine_id_text(*m) is None ==> (r matches Err(e) && e@ == no_machine_id()),
        r matches Ok(enc) ==> (machine_id_text(*m) matches Some(id) && storable(plain@) && exists|
            n: Seq<u8>,
        | n.len() == 12 && enc@ == sealed_text(key_for(id), n, plain@)),
        r matches Ok(enc) ==> enc@.len() == padded_len(28 + encode_utf8(plain@).len()),
        r matches Err(e) ==> (machine_id_text(*m) is None && e@ == no_machine_id()) || (
        starts_with(e@, "rng: "@)) || (e@ == "encryption failed"@
            && !storable(plain@)),
        // the stored value is longer than the secret, so never the secret itself
        r matches Ok(enc) ==> enc@.len() > plain@.len(),
{
    let key = machine_key(m)?;
    let nonce = match random_bytes(12) {
        Ok(n) => n,
        Err(e) => {
            let msg = concat("rng: ", e.as_str());
            assert(msg@.subrange(0, "rng: "@.len() as int) == "rng: "@);
            return Err(msg);
        },
    };
    let r = seal_with_nonce(key.as_slice(), nonce.as_slice(), plain);
    proof {
        if r is Ok {
            assert(storable(plain@));
            assert(nonce@.len() == 12);
        }
    }
    r
}

/// UTF-8 takes at least one byte per character.
proof fn lemma_utf8_len(s: Seq<char>)
    ensures
        encode_utf8(s).len() >= s.len(),
    decreases s.len(),
{
    if s.len() > 0 {
        lemma_utf8_len(s.drop_first());
    }
}

/// The result of decrypting a stored secret.
pub open spec fn opened_text(m: MachineId, enc: Seq<char>) -> Result<Seq<char>, Seq<char>> {
    match b64_std_decoded(enc) {
        Err(e) => Err("bad encoded key: "@ + e),
        Ok(d) => if d.len() < 12 {
            Err("key too short"@)
        } else {
            match machine_id_text(m) {
                None => Err(no_machine_id()),
                Some(id) => match chacha_open(key_for(id), d.subrange(0, 12), d.subrange(12, d.len() as int)) {
                    None => Err("cannot decrypt api key"@),
                    Some(p) => if valid_utf8(p) {
                        Ok(decode_utf8(p))
                    } else {
                        Err("key is not utf8"@)
                    },
                },
            }
        },
    }
}

/// The view of a string result.
pub open spec fn result_view(r: Result<String, String>) -> Result<Seq<char>, Seq<char>> {
    match r {
        Ok(s) => Ok(s@),
        Err(e) => Err(e@),
    }
}

fn sub_bytes(v: &Vec<u8>, lo: usize, hi: usize) -> (r: Vec<u8>)
    requires
        lo <= hi <= v@.len(),
    ensures
        r@ == v@.subrange(lo as int, hi as int),
{
    let mut r: Vec<u8> = Vec::new();
    let mut i = lo;
    while i < hi
        invariant
            lo <= i <= hi <= v@.len(),
            r@ == v@.subrange(lo as int, i as int),
        decreases hi - i,
    {
        r.push(v[i]);
        assert(v@.subrange(lo as int, i as int + 1) == v@.subrange(lo as int, i as int).push(
            v@[i as int],
        ));
        i = i + 1;
    }
    r
}

/// Decrypt a stored secret. Decrypting what [`encrypt_key`] stored for
/// `plain` on the same machine gives `plain` back.
pub fn decrypt_key(m: &MachineId, enc: &str) -> (r: Result<String, String>)
    ensures
        result_view(r) == opened_text(*m, enc@),
        forall|n: Seq<u8>, plain: Seq<char>|
            #![trigger sealed_text(key_for(machine_id_text(*m)->0), n, plain)]
            machine_id_text(*m) is Some && n.len() == 12 && storable(plain) && enc@ == sealed_text(
                key_for(machine_id_text(*m)->0),
                n,
                plain,
            ) ==> (r matches Ok(s) && s@ == plain),
{
    let data = match b64_std_decode(enc) {
        Ok(d) => d,
        Err(e) => {
            let msg = concat("bad encoded key: ", e.as_str());
            return Err(msg);
        },
    };
    if data.len() < 12 {
        proof {
            assert forall|n: Seq<u8>, plain: Seq<char>|
                machine_id_text(*m) is Some && n.len() == 12 && storable(plain) && enc@
                    == sealed_text(key_for(machine_id_text(*m)->0), n, plain) implies false by {
                let x = n + chacha_seal(key_for(machine_id_text(*m)->0), n, encode_utf8(plain));
                assert(data@ == x);
            }
        }
        return Err("key too short".to_owned());
    }
    let nonce = sub_bytes(&data, 0, 12);
    let ct = sub_bytes(&data, 12, data.len());
    let key = machine_key(m)?;
    let pt = match chacha_decrypt(key.as_slice(), nonce.as_slice(), ct.as_slice()) {
        Some(p) => p,
        None => {
            proof {
                assert forall|n: Seq<u8>, plain: Seq<char>|
                    machine_id_text(*m) is Some && n.len() == 12 && storable(plain) && enc@
                        == sealed_text(key_for(machine_id_text(*m)->0), n, plain) implies false by {
                    let s = chacha_seal(key_for(machine_id_text(*m)->0), n, encode_utf8(plain));
                    assert(data@ == n + s);
                    assert(nonce@ =~= n);
                    assert(ct@ =~= s);
                }
            }
            return Err("cannot decrypt api key".to_owned());
        },
    };
    let ghost ptv = pt@;
    match utf8_string(pt) {
        Some(s) => {
            proof {
                assert forall|n: Seq<u8>, plain: Seq<char>|
                    #![trigger sealed_text(key_for(machine_id_text(*m)->0), n, plain)]
                    machine_id_text(*m) is Some && n.len() == 12 && storable(plain) && enc@
                        == sealed_text(key_for(machine_id_text(*m)->0), n, plain) implies s@
                    == plain by {
                    let b = encode_utf8(plain);
                    let sl = chacha_seal(key_for(machine_id_text(*m)->0), n, b);
                    assert(data@ == n + sl);
                    assert(nonce@ =~= n);
                    assert(ct@ =~= sl);
                    assert(ptv == b);
                    vstd::utf8::encode_utf8_decode_utf8(plain);
                }
            }
            Ok(s)
        },
        None => {
            proof {
                assert forall|n: Seq<u8>, plain: Seq<char>|
                    machine_id_text(*m) is Some && n.len() == 12 && storable(plain) && enc@
                        == sealed_text(key_for(machine_id_text(*m)->0), n, plain) implies false by {
                    let b = encode_utf8(plain);
                    let sl = chacha_seal(key_for(machine_id_text(*m)->0), n, b);
                    assert(data@ == n + sl);
                    assert(nonce@ =~= n);
                    assert(ct@ =~= sl);
                    assert(ptv == b);
                    vstd::utf8::encode_utf8_valid_utf8(plain);
                }
            }
            Err("key is not utf8".to_owned())
        },
    }
}

} // verus!
