use crate::ids::{lemma_pow16_32, lemma_pow16_positive, pow16};
use crate::text::{lowercase, lowercased, trim, trimmed};
use vstd::prelude::*;
use vstd::utf8::encode_utf8;

verus! {

/// The MD5 digest of a run of bytes.
pub uninterp spec fn md5_of(data: Seq<u8>) -> Seq<u8>;

/// `md5::compute`: the sixteen bytes of the digest. The digest is named, not
/// described.
#[verifier::external_body]
fn md5_digest(data: &[u8]) -> (digest: [u8; 16])
    ensures
        digest@ == md5_of(data@),
{
    md5::compute(data).0
}

/// The number that bytes write, the first byte counting most.
pub open spec fn be_number(bytes: Seq<u8>) -> nat
    decreases bytes.len(),
{
    if bytes.len() == 0 {
        0
    } else {
        be_number(bytes.drop_last()) * 256 + bytes.last() as nat
    }
}

/// Bytes write a number below 256 to the power of their count.
pub proof fn lemma_be_number_bound(bytes: Seq<u8>)
    ensures
        be_number(bytes) < pow16(2 * bytes.len()),
    decreases bytes.len(),
{
    if bytes.len() == 0 {
        assert(pow16(0) == 1);
    } else {
        lemma_be_number_bound(bytes.drop_last());
        let k = bytes.drop_last().len();
        assert(pow16(2 * k + 2) == 16 * pow16(2 * k + 1));
        assert(pow16(2 * k + 1) == 16 * pow16(2 * k));
    }
}

/// Sixteen to a power grows with the power.
pub proof fn lemma_pow16_monotone(a: nat, b: nat)
    requires
        a <= b,
    ensures
        pow16(a) <= pow16(b),
    decreases b,
{
    if a < b {
        lemma_pow16_monotone(a, (b - 1) as nat);
        lemma_pow16_positive((b - 1) as nat);
    }
}

/// The number that sixteen bytes write, the first byte counting most.
pub fn be_value(bytes: &[u8; 16]) -> (value: u128)
    ensures
        value as nat == be_number(bytes@),
{
    let mut value: u128 = 0;
    let mut i: usize = 0;
    assert(bytes@.take(0) =~= Seq::<u8>::empty());
    while i < 16
        invariant
            i <= 16,
            bytes@.len() == 16,
            value as nat == be_number(bytes@.take(i as int)),
        decreases 16 - i,
    {
        proof {
            let read = bytes@.take(i as int);
            let next = bytes@.take(i + 1);
            assert(next.drop_last() =~= read);
            assert(next.last() == bytes@[i as int]);
            lemma_be_number_bound(next);
            lemma_pow16_monotone(2 * next.len(), 32);
            lemma_pow16_32();
        }
        value = value * 256 + bytes[i] as u128;
        i += 1;
    }
    assert(bytes@.take(16) =~= bytes@);
    value
}

/// The key under which a profile is kept: the MD5 digest of the e-mail address,
/// in lower case and without white space around it, read as one number.
pub open spec fn email_hash_of(address: Seq<char>) -> nat {
    be_number(md5_of(encode_utf8(trimmed(lowercased(address)))))
}

/// The key under which the profile of an e-mail address is kept.
pub fn email_hash(address: &str) -> (hash: u128)
    ensures
        hash as nat == email_hash_of(address@),
{
    let lower = lowercase(address);
    let inner = trim(lower.as_str());
    let digest = md5_digest(inner.as_bytes());
    be_value(&digest)
}

} // verus!
