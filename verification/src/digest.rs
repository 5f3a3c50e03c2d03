//! Digests of payloads.

use crate::json::{Json, JsonModel};
use crate::json_text::{
    canonical, canonical_text, canonical_text_is_all_that_is_written, written_text,
};
use crate::text::{
    hex_encode, hex_text, hex_text_is_hex, hex_text_reads_back, hex_text_tells_bytes_apart, is_hex_digit,
};
use sha2::Digest;
use vstd::prelude::*;
use vstd::utf8::encode_utf8;

verus! {

/// The SHA-256 digest of bytes, as `sha2::Sha256::digest` computes it.
pub uninterp spec fn sha256(data: Seq<u8>) -> Seq<u8>;

/// `sha2::Sha256::digest` computes the SHA-256 digest of the bytes it is
/// given: 32 bytes that depend on nothing else.
#[verifier::external_body]
fn sha256_digest(data: &[u8]) -> (digest: Vec<u8>)
    ensures
        digest@ == sha256(data@),
        digest@.len() == 32,
{
    sha2::Sha256::digest(data).to_vec()
}

/// The digest of a payload: the name of the algorithm, and the digest of the
/// payload's canonical text in hexadecimal.
pub open spec fn payload_digest(payload: JsonModel) -> Seq<char> {
    "sha256:"@ + hex_text(sha256(encode_utf8(canonical_text(payload))))
}

/// Digests a payload as it is.
pub fn digest_payload(payload: &Json) -> (digest: String)
    ensures
        digest@ == payload_digest(payload@),
        written_text(payload@) matches Some(written) ==> digest@ == "sha256:"@ + hex_text(
            sha256(encode_utf8(written)),
        ),
        digest@.len() == 71,
{
    let text = canonical(payload);
    let hash = sha256_digest(text.as_str().as_bytes());
    let mut digest: String = "sha256:".to_owned();
    digest.append(hex_encode(hash.as_slice()).as_str());
    proof {
        reveal_strlit("sha256:");
    }
    digest
}

/// A digest names the algorithm, and has nothing but hexadecimal digits after
/// that.
pub proof fn payload_digest_is_hex(payload: JsonModel)
    ensures
        payload_digest(payload).take(7) == "sha256:"@,
        forall|i: int|
            7 <= i < payload_digest(payload).len() ==> is_hex_digit(
                #[trigger] payload_digest(payload)[i],
            ),
{
    reveal_strlit("sha256:");
    let hash = sha256(encode_utf8(canonical_text(payload)));
    hex_text_is_hex(hash);
    assert forall|i: int| 7 <= i < payload_digest(payload).len() implies is_hex_digit(
        #[trigger] payload_digest(payload)[i],
    ) by {
        assert(payload_digest(payload)[i] == hex_text(hash)[i - 7]);
    }
}

/// Two payloads have the same digest exactly if the SHA-256 digests of their
/// canonical texts are the same: nothing is lost in writing them down.
pub proof fn payload_digest_keeps_the_hash(a: JsonModel, b: JsonModel)
    ensures
        payload_digest(a) == payload_digest(b) <==> sha256(encode_utf8(canonical_text(a)))
            == sha256(encode_utf8(canonical_text(b))),
{
    let hash_a = sha256(encode_utf8(canonical_text(a)));
    let hash_b = sha256(encode_utf8(canonical_text(b)));
    if payload_digest(a) == payload_digest(b) {
        let skip = "sha256:"@.len() as int;
        assert(payload_digest(a).skip(skip) =~= hex_text(hash_a));
        assert(payload_digest(b).skip(skip) =~= hex_text(hash_b));
        hex_text_tells_bytes_apart(hash_a, hash_b);
    }
}

/// The digest of a payload covers the whole text that `serde_json` writes for
/// it: after the name of the algorithm come two hexadecimal digits for each
/// byte of the SHA-256 digest of that text in UTF-8, and nothing else.
pub proof fn digest_covers_the_written_text(payload: JsonModel, written: Seq<char>)
    requires
        written_text(payload) == Some(written),
    ensures
        payload_digest(payload).len() == 7 + 2 * sha256(encode_utf8(written)).len(),
        payload_digest(payload).take(7) == seq!['s', 'h', 'a', '2', '5', '6', ':'],
        forall|i: int|
            0 <= i < sha256(encode_utf8(written)).len() ==> {
                let high = payload_digest(payload)[7 + 2 * i] as int;
                let low = payload_digest(payload)[8 + 2 * i] as int;
                &&& is_hex_digit(payload_digest(payload)[7 + 2 * i])
                &&& is_hex_digit(payload_digest(payload)[8 + 2 * i])
                &&& (#[trigger] sha256(encode_utf8(written))[i]) == 16 * (if high <= '9' as int {
                    high - '0' as int
                } else {
                    high - 'a' as int + 10
                }) + (if low <= '9' as int {
                    low - '0' as int
                } else {
                    low - 'a' as int + 10
                })
            },
{
    reveal_strlit("sha256:");
    canonical_text_is_all_that_is_written(payload, written);
    let hash = sha256(encode_utf8(written));
    let digest = payload_digest(payload);
    hex_text_is_hex(hash);
    assert(digest.take(7) =~= seq!['s', 'h', 'a', '2', '5', '6', ':']);
    assert forall|i: int| 0 <= i < hash.len() implies {
        let high = digest[7 + 2 * i] as int;
        let low = digest[8 + 2 * i] as int;
        &&& is_hex_digit(digest[7 + 2 * i])
        &&& is_hex_digit(digest[8 + 2 * i])
        &&& (#[trigger] hash[i]) == 16 * (if high <= '9' as int {
            high - '0' as int
        } else {
            high - 'a' as int + 10
        }) + (if low <= '9' as int {
            low - '0' as int
        } else {
            low - 'a' as int + 10
        })
    } by {
        hex_text_reads_back(hash, i);
        assert(digest[7 + 2 * i] == hex_text(hash)[2 * i]);
        assert(digest[8 + 2 * i] == hex_text(hash)[2 * i + 1]);
    }
}

/// Payloads whose written texts differ anywhere are digested over different
/// bytes. Their digests are the same only if SHA-256 gives the same for both.
pub proof fn different_texts_are_digested_apart(
    a: JsonModel,
    b: JsonModel,
    written_a: Seq<char>,
    written_b: Seq<char>,
)
    requires
        written_text(a) == Some(written_a),
        written_text(b) == Some(written_b),
        written_a != written_b,
    ensures
        encode_utf8(written_a) != encode_utf8(written_b),
        payload_digest(a) == payload_digest(b) <==> sha256(encode_utf8(written_a)) == sha256(
            encode_utf8(written_b),
        ),
{
    vstd::utf8::encode_utf8_decode_utf8(written_a);
    vstd::utf8::encode_utf8_decode_utf8(written_b);
    canonical_text_is_all_that_is_written(a, written_a);
    canonical_text_is_all_that_is_written(b, written_b);
    payload_digest_keeps_the_hash(a, b);
}

} // verus!
