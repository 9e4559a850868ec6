//! The 16-way partition of metadata records: a record with primary key
//! `pk` lives in `{Schema}_{postfix}.json`, where the postfix is the upper
//! four bits of the first byte of SHA-1(pk), as one hexadecimal digit.
use vstd::prelude::*;

verus! {

/// The name of the SHA-1 digest of a byte string.
pub uninterp spec fn sha1_digest(data: Seq<u8>) -> Seq<u8>;

/// `sha1::Sha1::digest` (the `Digest` trait's one-shot hash). Its result is
/// named `sha1_digest` of the input bytes; the claim beyond the name is the
/// output size of SHA-1, twenty bytes (`OutputSize = U20` in the crate).
#[verifier::external_body]
fn sha1(data: &[u8]) -> (r: Vec<u8>)
    ensures
        r@ == sha1_digest(data@),
        r@.len() == 20,
{
    <sha1::Sha1 as sha1::Digest>::digest(data).to_vec()
}

/// The upper-case hexadecimal digit of a value below sixteen.
pub open spec fn hex_upper(v: int) -> char {
    if v < 10 {
        (v + 48) as char
    } else {
        (v - 10 + 65) as char
    }
}

/// The postfix that a digest gives: the upper nibble of its first byte, as
/// one upper-case hexadecimal digit (`format!("{:X}", digest[0] >> 4)`).
pub open spec fn postfix_of_digest(d: Seq<u8>) -> Seq<char> {
    seq![hex_upper((d[0] / 16) as int)]
}

/// The partition postfix of a primary key.
pub open spec fn partition_postfix(pk: Seq<char>) -> Seq<char> {
    postfix_of_digest(sha1_digest(vstd::utf8::encode_utf8(pk)))
}

/// A character among `0`-`9` and `A`-`F`.
pub open spec fn is_upper_hex_digit(c: char) -> bool {
    (48 <= (c as u32) && (c as u32) <= 57) || (65 <= (c as u32) && (c as u32) <= 70)
}

/// The postfix of a digest (see `postfix_of_digest`).
pub fn partition_postfix_from_digest(digest: &[u8]) -> (r: String)
    requires
        digest@.len() >= 1,
    ensures
        r@ == postfix_of_digest(digest@),
{
    let v: u8 = digest[0] / 16;
    let c: char = if v < 10 {
        (v + 48) as char
    } else {
        (v - 10 + 65) as char
    };
    let chars = vec![c];
    let r = crate::text::string_of(chars.as_slice());
    assert(r@ =~= postfix_of_digest(digest@));
    r
}

/// The 16-way partition postfix of a primary key: SHA-1 of its UTF-8
/// bytes, upper four bits of the first byte, as `"0"` to `"F"`.
pub fn compute_partition_postfix(pk: &str) -> (r: String)
    ensures
        r@ == partition_postfix(pk@),
        r@.len() == 1,
        hex_digit_value(r@[0]) == sha1_digest(vstd::utf8::encode_utf8(pk@))[0] / 16,
{
    proof {
        lemma_postfix_is_hash_of_own_bytes(pk@);
    }
    let digest = sha1(pk.as_bytes());
    partition_postfix_from_digest(digest.as_slice())
}

/// Every primary key falls in one of sixteen buckets: its postfix is a
/// single character among `0`-`9` and `A`-`F`.
pub proof fn lemma_partition_postfix_is_hex_digit(pk: Seq<char>)
    ensures
        partition_postfix(pk).len() == 1,
        is_upper_hex_digit(partition_postfix(pk)[0]),
{
    let d = sha1_digest(vstd::utf8::encode_utf8(pk));
    let v = d[0] / 16;
    assert(0 <= v < 16);
}

/// The postfix depends on the key alone: equal keys land in the same
/// bucket, whenever and wherever it is computed.
pub proof fn lemma_partition_postfix_deterministic(a: Seq<char>, b: Seq<char>)
    requires
        a == b,
    ensures
        partition_postfix(a) == partition_postfix(b),
{
}

/// The value of a hexadecimal digit `0`-`9` or `A`-`F`.
pub open spec fn hex_digit_value(c: char) -> int {
    if (c as u32) <= 57 {
        (c as u32) - 48
    } else {
        (c as u32) - 55
    }
}

/// The postfix is taken from the SHA-1 digest of the key's own UTF-8
/// bytes, with no normalisation: its one digit is the upper four bits of
/// the digest's first byte.
pub proof fn lemma_postfix_is_hash_of_own_bytes(pk: Seq<char>)
    ensures
        partition_postfix(pk).len() == 1,
        hex_digit_value(partition_postfix(pk)[0]) == sha1_digest(vstd::utf8::encode_utf8(pk))[0]
            / 16,
{
    let d = sha1_digest(vstd::utf8::encode_utf8(pk));
    let v = d[0] / 16;
    assert(0 <= v < 16);
    let c = partition_postfix(pk)[0];
    assert(c == hex_upper(v as int));
}

/// Two keys share a bucket exactly when the SHA-1 digests of their own
/// bytes agree in the upper four bits of the first byte; so keys that
/// differ only in case are hashed apart.
pub proof fn lemma_same_bucket_iff_same_digest_nibble(a: Seq<char>, b: Seq<char>)
    ensures
        partition_postfix(a) == partition_postfix(b) <==> sha1_digest(
            vstd::utf8::encode_utf8(a),
        )[0] / 16 == sha1_digest(vstd::utf8::encode_utf8(b))[0] / 16,
{
    lemma_postfix_is_hash_of_own_bytes(a);
    lemma_postfix_is_hash_of_own_bytes(b);
    if partition_postfix(a)[0] == partition_postfix(b)[0] {
        assert(partition_postfix(a) =~= partition_postfix(b));
    }
}

} // verus!
