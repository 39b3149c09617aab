use vstd::prelude::*;
use vstd::string::{StringExecFns, StringSliceAdditionalSpecFns};
use crate::text::{hex_text, hex_char, append_hex};

verus! {

/// Longest text, in characters, that this library hands to HMAC-SHA256:
/// 2^58 characters are at most 2^60 bytes, which together with HMAC's
/// 64-byte key block stays inside SHA-256's input limit of 2^64 - 1 bits.
pub const MAX_SIGNED_TEXT: u64 = 0x0400_0000_0000_0000;

/// The HMAC-SHA256 tag of a message (second argument) under a key (first).
pub uninterp spec fn hmac_sha256(key: Seq<u8>, msg: Seq<u8>) -> Seq<u8>;

/// Relies on ring::hmac::Key::new and ring::hmac::sign with HMAC_SHA256:
/// the tag depends on the key and message bytes alone and is SHA-256's
/// output length, 32 bytes. ring panics only past SHA-256's input limit,
/// which the length bounds keep out.
#[verifier::external_body]
fn hmac_sha256_tag(key: &str, msg: &str) -> (r: Vec<u8>)
    requires
        key@.len() < MAX_SIGNED_TEXT,
        msg@.len() < MAX_SIGNED_TEXT,
    ensures
        r@ == hmac_sha256(key.spec_bytes(), msg.spec_bytes()),
        r@.len() == 32,
{
    let k = ring::hmac::Key::new(ring::hmac::HMAC_SHA256, key.as_bytes());
    ring::hmac::sign(&k, msg.as_bytes()).as_ref().to_vec()
}

/// The signature of a request text under a secret: the lower-case hex of
/// the HMAC-SHA256 tag of the text's UTF-8 bytes, keyed by the secret's.
pub open spec fn signature_of(text: Seq<u8>, secret: Seq<u8>) -> Seq<char> {
    hex_text(hmac_sha256(secret, text))
}

/// Signs `text` with `secret` via HMAC-SHA256, as 64 lower-case hex digits.
pub fn sign_private_request_params(text: &str, secret: &str) -> (r: String)
    requires
        text@.len() < MAX_SIGNED_TEXT,
        secret@.len() < MAX_SIGNED_TEXT,
    ensures
        r@ == signature_of(text.spec_bytes(), secret.spec_bytes()),
        r@.len() == 64,
        forall|i: int| 0 <= i < r@.len() ==> is_lower_hex(#[trigger] r@[i]),
{
    let tag = hmac_sha256_tag(secret, text);
    let mut out = String::new();
    append_hex(&mut out, tag.as_slice());
    proof {
        lemma_hex_text_len(tag@);
        assert(out@ =~= hex_text(tag@));
    }
    out
}

pub open spec fn is_lower_hex(c: char) -> bool {
    ('0' <= c <= '9') || ('a' <= c <= 'f')
}

/// Hex text has two characters per byte, each a lower-case hex digit.
pub proof fn lemma_hex_text_len(b: Seq<u8>)
    ensures
        hex_text(b).len() == 2 * b.len(),
        forall|i: int| 0 <= i < hex_text(b).len() ==> is_lower_hex(#[trigger] hex_text(b)[i]),
    decreases b.len(),
{
    if b.len() > 0 {
        lemma_hex_text_len(b.drop_last());
        let h = hex_text(b);
        let p = hex_text(b.drop_last());
        assert forall|i: int| 0 <= i < h.len() implies is_lower_hex(#[trigger] h[i]) by {
            if i < p.len() {
                assert(h[i] == p[i]);
            }
        }
    }
}

proof fn lemma_hex_char_injective(x: nat, y: nat)
    requires
        x < 16,
        y < 16,
        hex_char(x) == hex_char(y),
    ensures
        x == y,
{
}

/// Different byte strings never share a hex text.
pub proof fn lemma_hex_text_injective(a: Seq<u8>, b: Seq<u8>)
    requires
        hex_text(a) == hex_text(b),
    ensures
        a == b,
    decreases a.len(),
{
    lemma_hex_text_len(a);
    lemma_hex_text_len(b);
    if a.len() > 0 {
        let ha = hex_text(a);
        let hb = hex_text(b);
        let n = ha.len();
        let pa = hex_text(a.drop_last());
        let pb = hex_text(b.drop_last());
        assert(ha[n - 2] == hex_char((a.last() / 16) as nat));
        assert(hb[n - 2] == hex_char((b.last() / 16) as nat));
        assert(ha[n - 1] == hex_char((a.last() % 16) as nat));
        assert(hb[n - 1] == hex_char((b.last() % 16) as nat));
        lemma_hex_char_injective((a.last() / 16) as nat, (b.last() / 16) as nat);
        lemma_hex_char_injective((a.last() % 16) as nat, (b.last() % 16) as nat);
        assert(a.last() == b.last());
        assert(pa =~= ha.take(n - 2));
        assert(pb =~= hb.take(n - 2));
        lemma_hex_text_injective(a.drop_last(), b.drop_last());
        assert(a =~= a.drop_last().push(a.last()));
        assert(b =~= b.drop_last().push(b.last()));
    } else {
        assert(a =~= b);
    }
}

/// Signing is a function of its inputs: equal texts and secrets give equal
/// signatures. Equal signatures come only from equal HMAC tags, and every
/// signature is lower-case hex, two digits per tag byte.
pub proof fn lemma_signature_deterministic(
    text1: Seq<u8>,
    secret1: Seq<u8>,
    text2: Seq<u8>,
    secret2: Seq<u8>,
)
    ensures
        (text1 == text2 && secret1 == secret2) ==> signature_of(text1, secret1) == signature_of(
            text2,
            secret2,
        ),
        signature_of(text1, secret1) == signature_of(text2, secret2) ==> hmac_sha256(secret1, text1)
            == hmac_sha256(secret2, text2),
        signature_of(text1, secret1).len() == 2 * hmac_sha256(secret1, text1).len(),
        forall|i: int|
            0 <= i < signature_of(text1, secret1).len() ==> is_lower_hex(
                #[trigger] signature_of(text1, secret1)[i],
            ),
{
    lemma_hex_text_len(hmac_sha256(secret1, text1));
    if signature_of(text1, secret1) == signature_of(text2, secret2) {
        lemma_hex_text_injective(hmac_sha256(secret1, text1), hmac_sha256(secret2, text2));
    }
}

} // verus!
