use vstd::prelude::*;
use vstd::utf8::{encode_utf8, encode_utf8_decode_utf8};

use crate::models::InferenceLog;

verus! {

/// The Keccak-256 digest of a byte string.
pub uninterp spec fn keccak256_digest(data: Seq<u8>) -> Seq<u8>;

/// Relies on `sha3::Keccak256` (through `sha3::Digest::digest`): the 32-byte
/// Keccak-256 digest of `data`, which depends on `data` alone.
#[verifier::external_body]
fn keccak256(data: &[u8]) -> (r: [u8; 32])
    ensures
        r@ == keccak256_digest(data@),
{
    let h = <sha3::Keccak256 as sha3::Digest>::digest(data);
    let mut out = [0u8; 32];
    out.copy_from_slice(&h);
    out
}

/// The bytes hashed for a record: the UTF-8 wallet address immediately
/// followed by the UTF-8 log id, with no separator.
pub open spec fn log_preimage(wallet: Seq<char>, log_id: Seq<char>) -> Seq<u8> {
    encode_utf8(wallet) + encode_utf8(log_id)
}

/// The on-chain identity of a record.
pub open spec fn log_digest(wallet: Seq<char>, log_id: Seq<char>) -> Seq<u8> {
    keccak256_digest(log_preimage(wallet, log_id))
}

/// The content hash of a record: Keccak-256 over its wallet address followed
/// by its log id.
pub fn hash_log(log: &InferenceLog) -> (h: [u8; 32])
    ensures
        h@ == log_digest(log.wallet_address@, log.log_id@),
{
    let mut data: Vec<u8> = Vec::new();
    let w = log.wallet_address.as_str().as_bytes();
    let id = log.log_id.as_str().as_bytes();
    let mut i: usize = 0;
    while i < w.len()
        invariant
            i <= w@.len(),
            data@ == w@.take(i as int),
        decreases w@.len() - i,
    {
        data.push(w[i]);
        i = i + 1;
        assert(data@ =~= w@.take(i as int));
    }
    let mut j: usize = 0;
    while j < id.len()
        invariant
            j <= id@.len(),
            data@ == w@ + id@.take(j as int),
        decreases id@.len() - j,
    {
        data.push(id[j]);
        j = j + 1;
        assert(data@ =~= w@ + id@.take(j as int));
    }
    assert(w@.take(w@.len() as int) =~= w@);
    assert(id@.take(id@.len() as int) =~= id@);
    keccak256(data.as_slice())
}

/// Hashing is a function of the two fields alone, in their order: equal
/// inputs give equal digests.
pub proof fn lemma_hash_deterministic(w1: Seq<char>, id1: Seq<char>, w2: Seq<char>, id2: Seq<char>)
    requires
        w1 == w2,
        id1 == id2,
    ensures
        log_digest(w1, id1) == log_digest(w2, id2),
{
}

/// Records that differ in either field hash different byte strings, as long
/// as their wallet texts have UTF-8 encodings of one length (as all addresses
/// written in one form do). Without that condition the concatenation can
/// collide: ("ab", "c") and ("a", "bc") hash the same bytes.
pub proof fn lemma_preimage_separates_fields(w1: Seq<char>, id1: Seq<char>, w2: Seq<char>, id2: Seq<char>)
    requires
        encode_utf8(w1).len() == encode_utf8(w2).len(),
        w1 != w2 || id1 != id2,
    ensures
        log_preimage(w1, id1) != log_preimage(w2, id2),
{
    if log_preimage(w1, id1) == log_preimage(w2, id2) {
        let p = log_preimage(w1, id1);
        let n = encode_utf8(w1).len() as int;
        assert(p.take(n) =~= encode_utf8(w1));
        assert(log_preimage(w2, id2).take(n) =~= encode_utf8(w2));
        assert(p.skip(n) =~= encode_utf8(id1));
        assert(log_preimage(w2, id2).skip(n) =~= encode_utf8(id2));
        encode_utf8_decode_utf8(w1);
        encode_utf8_decode_utf8(w2);
        encode_utf8_decode_utf8(id1);
        encode_utf8_decode_utf8(id2);
    }
}

/// Changing one field while keeping the other changes the hashed bytes,
/// whatever the lengths.
pub proof fn lemma_preimage_one_field_changed(w1: Seq<char>, id1: Seq<char>, w2: Seq<char>, id2: Seq<char>)
    requires
        (w1 == w2 && id1 != id2) || (w1 != w2 && id1 == id2),
    ensures
        log_preimage(w1, id1) != log_preimage(w2, id2),
{
    if log_preimage(w1, id1) == log_preimage(w2, id2) {
        let p = log_preimage(w1, id1);
        let q = log_preimage(w2, id2);
        if w1 == w2 {
            let n = encode_utf8(w1).len() as int;
            assert(p.skip(n) =~= encode_utf8(id1));
            assert(q.skip(n) =~= encode_utf8(id2));
            encode_utf8_decode_utf8(id1);
            encode_utf8_decode_utf8(id2);
        } else {
            assert(p.len() == encode_utf8(w1).len() + encode_utf8(id1).len());
            assert(q.len() == encode_utf8(w2).len() + encode_utf8(id2).len());
            lemma_preimage_separates_fields(w1, id1, w2, id2);
        }
    }
}

} // verus!
