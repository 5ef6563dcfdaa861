//! SHA-256, through `sha2`, and the byte layouts that are hashed.
use crate::text::{hex_bytes, hex_of_bytes, is_lower_hex, law_hex_bytes_apart, lemma_hex_bytes};
use sha2::Digest;
use vstd::prelude::*;

verus! {

/// The SHA-256 digest of a byte text.
pub uninterp spec fn sha256_of(bytes: Seq<u8>) -> Seq<u8>;

/// Hashes bytes with `sha2::Sha256::digest`: thirty-two bytes, a function of
/// the bytes hashed.
#[verifier::external_body]
pub(crate) fn sha256(bytes: &Vec<u8>) -> (digest: Vec<u8>)
    ensures
        digest@ == sha256_of(bytes@),
        digest@.len() == 32,
{
    sha2::Sha256::digest(bytes).to_vec()
}

/// The SHA-256 digest of a byte text, in hexadecimal digits.
pub open spec fn sha256_hex_of(bytes: Seq<u8>) -> Seq<char> {
    hex_bytes(sha256_of(bytes))
}

/// Whether two byte texts have different digests unless they are the same.
pub open spec fn told_apart(bytes: Seq<u8>, others: Seq<u8>) -> bool {
    sha256_of(bytes) == sha256_of(others) ==> bytes == others
}

/// Whether a text is a digest of thirty-two bytes in lower-case hexadecimal
/// digits.
pub open spec fn is_digest_text(text: Seq<char>) -> bool {
    text.len() == 64 && forall|i: int| 0 <= i < text.len() ==> is_lower_hex(#[trigger] text[i])
}

/// Hashes bytes and writes the digest in hexadecimal digits.
pub fn sha256_hex(bytes: &Vec<u8>) -> (text: String)
    ensures
        text@ == sha256_hex_of(bytes@),
        is_digest_text(text@),
{
    let digest = sha256(bytes);
    proof {
        lemma_hex_bytes(digest@);
    }
    hex_of_bytes(&digest)
}

/// Texts of digests are the same exactly where the hashed bytes are, if the
/// digests tell the bytes apart.
pub proof fn law_digest_text_tells_apart(bytes: Seq<u8>, others: Seq<u8>)
    requires
        told_apart(bytes, others),
    ensures
        sha256_hex_of(bytes) == sha256_hex_of(others) <==> bytes == others,
{
    if sha256_hex_of(bytes) == sha256_hex_of(others) {
        law_hex_bytes_apart(sha256_of(bytes), sha256_of(others));
    }
}

/// The number that bytes write, the most significant first.
pub open spec fn be_number(bytes: Seq<u8>) -> nat
    decreases bytes.len(),
{
    if bytes.len() == 0 {
        0
    } else {
        be_number(bytes.drop_last()) * 256 + bytes.last() as nat
    }
}

/// The last `width` bytes of a number, the most significant first.
pub open spec fn be_bytes(value: nat, width: nat) -> Seq<u8>
    decreases width,
{
    if width == 0 {
        Seq::empty()
    } else {
        be_bytes(value / 256, (width - 1) as nat).push((value % 256) as u8)
    }
}

/// A byte text behind its length in eight bytes.
pub open spec fn framed(value: Seq<u8>) -> Seq<u8> {
    be_bytes(value.len(), 8) + value
}

/// Byte texts, each behind its length, one after the other.
pub open spec fn frames(values: Seq<Seq<u8>>) -> Seq<u8>
    decreases values.len(),
{
    if values.len() == 0 {
        Seq::empty()
    } else {
        frames(values.drop_last()) + framed(values.last())
    }
}

fn push_be(bytes: &mut Vec<u8>, value: u64, width: u32)
    ensures
        final(bytes)@ == old(bytes)@ + be_bytes(value as nat, width as nat),
    decreases width,
{
    if width > 0 {
        push_be(bytes, value / 256, width - 1);
        bytes.push((value % 256) as u8);
    }
    assert(bytes@ =~= old(bytes)@ + be_bytes(value as nat, width as nat));
}

/// Appends a byte text behind its length.
pub fn push_framed(bytes: &mut Vec<u8>, value: &[u8])
    ensures
        final(bytes)@ == old(bytes)@ + framed(value@),
{
    push_be(bytes, value.len() as u64, 8);
    let ghost start = bytes@;
    let mut i: usize = 0;
    while i < value.len()
        invariant
            i <= value.len(),
            bytes@ =~= start + value@.take(i as int),
        decreases value.len() - i,
    {
        bytes.push(value[i]);
        i = i + 1;
    }
    assert(bytes@ =~= old(bytes)@ + framed(value@));
}

proof fn lemma_be_number_bound(bytes: Seq<u8>)
    ensures
        bytes.len() <= 1 ==> be_number(bytes) < 0x100,
        bytes.len() <= 16 ==> be_number(bytes) < 0x1_0000_0000_0000_0000_0000_0000_0000_0000,
        bytes.len() < 16 ==> be_number(bytes) * 256 + 255
            < 0x1_0000_0000_0000_0000_0000_0000_0000_0000,
{
    lemma_be_number_pow(bytes);
    assert(bytes.len() <= 16 ==> two_fifty_six(bytes.len()) <= two_fifty_six(16)) by {
        if bytes.len() <= 16 {
            lemma_powers_grow(bytes.len(), 16);
        }
    }
    assert(bytes.len() < 16 ==> two_fifty_six(bytes.len() + 1) <= two_fifty_six(16)) by {
        if bytes.len() < 16 {
            lemma_powers_grow(bytes.len() + 1, 16);
        }
    }
    assert(two_fifty_six(16) == 0x1_0000_0000_0000_0000_0000_0000_0000_0000) by {
        reveal_with_fuel(two_fifty_six, 17);
    }
    assert(two_fifty_six(1) == 256) by {
        reveal_with_fuel(two_fifty_six, 2);
    }
    if bytes.len() <= 1 {
        lemma_powers_grow(bytes.len(), 1);
    }
}

spec fn two_fifty_six(width: nat) -> nat
    decreases width,
{
    if width == 0 {
        1
    } else {
        256 * two_fifty_six((width - 1) as nat)
    }
}

proof fn lemma_powers_grow(a: nat, b: nat)
    requires
        a <= b,
    ensures
        two_fifty_six(a) <= two_fifty_six(b),
    decreases b,
{
    if a < b {
        lemma_powers_grow(a, (b - 1) as nat);
    }
}

proof fn lemma_be_number_pow(bytes: Seq<u8>)
    ensures
        be_number(bytes) < two_fifty_six(bytes.len()),
    decreases bytes.len(),
{
    if bytes.len() > 0 {
        lemma_be_number_pow(bytes.drop_last());
    }
}

/// Reads the first sixteen bytes as a number, the most significant first.
pub fn leading_number(bytes: &Vec<u8>) -> (value: u128)
    requires
        bytes.len() >= 16,
    ensures
        value == be_number(bytes@.take(16)),
{
    let mut value: u128 = 0;
    let mut i: usize = 0;
    while i < 16
        invariant
            i <= 16,
            bytes.len() >= 16,
            value == be_number(bytes@.take(i as int)),
        decreases 16 - i,
    {
        proof {
            assert(bytes@.take(i as int + 1).drop_last() =~= bytes@.take(i as int));
            lemma_be_number_bound(bytes@.take(i as int));
        }
        value = value * 256 + bytes[i] as u128;
        i = i + 1;
    }
    value
}

} // verus!
