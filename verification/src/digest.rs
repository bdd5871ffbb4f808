//! Content hashes.

use vstd::prelude::*;

verus! {

/// The BLAKE3 hash of `data`.
pub uninterp spec fn blake3_of(data: Seq<u8>) -> Seq<u8>;

/// Calls `blake3::hash`, which gives 32 bytes that depend on the data alone.
#[verifier::external_body]
pub(crate) fn blake3_hash(data: &[u8]) -> (hash: Vec<u8>)
    ensures
        hash@ == blake3_of(data@),
        hash@.len() == 32,
{
    blake3::hash(data).as_bytes().to_vec()
}

/// The lowercase hexadecimal digit for `d`.
pub open spec fn hex_digit(d: nat) -> char {
    seq!['0', '1', '2', '3', '4', '5', '6', '7', '8', '9', 'a', 'b', 'c', 'd', 'e', 'f'][d as int]
}

/// Bytes in lowercase hexadecimal, two digits each, the high one first.
pub open spec fn hex(bytes: Seq<u8>) -> Seq<char> {
    Seq::new(
        2 * bytes.len(),
        |i: int|
            if i % 2 == 0 {
                hex_digit((bytes[i / 2] / 16) as nat)
            } else {
                hex_digit((bytes[i / 2] % 16) as nat)
            },
    )
}

/// Calls `blake3::Hash::to_hex` on the hash with the given bytes, which writes
/// them in lowercase hexadecimal.
#[verifier::external_body]
pub(crate) fn blake3_hex(hash: [u8; 32]) -> (text: String)
    ensures
        text@ == hex(hash@),
{
    blake3::Hash::from_bytes(hash).to_hex().to_string()
}

/// The BLAKE3 hash of `data`.
pub fn content_hash(data: &Vec<u8>) -> (hash: Vec<u8>)
    ensures
        hash@ == blake3_of(data@),
        hash@.len() == 32,
{
    blake3_hash(data.as_slice())
}

/// The BLAKE3 hash of `data`, in hexadecimal.
pub fn content_hash_text(data: &Vec<u8>) -> (text: String)
    ensures
        text@ == hex(blake3_of(data@)),
        text@.len() == 64,
{
    let hash: Vec<u8> = blake3_hash(data.as_slice());
    let mut bytes: [u8; 32] = [0;32];
    let mut i: usize = 0;
    while i < 32
        invariant
            i <= 32,
            hash@.len() == 32,
            bytes@.len() == 32,
            forall|k: int| 0 <= k < i ==> bytes@[k] == hash@[k],
        decreases 32 - i,
    {
        bytes[i] = hash[i];
        i = i + 1;
    }
    assert(bytes@ =~= hash@);
    blake3_hex(bytes)
}

proof fn lemma_hex_digit_injective(a: nat, b: nat)
    requires
        a < 16,
        b < 16,
        hex_digit(a) == hex_digit(b),
    ensures
        a == b,
{
}

/// Different bytes are written differently.
pub proof fn law_hex_injective(a: Seq<u8>, b: Seq<u8>)
    requires
        hex(a) == hex(b),
    ensures
        a == b,
{
    assert(hex(a).len() == 2 * a.len());
    assert(hex(b).len() == 2 * b.len());
    assert forall|i: int| 0 <= i < a.len() implies a[i] == b[i] by {
        assert(hex(a)[2 * i] == hex_digit((a[i] / 16) as nat));
        assert(hex(b)[2 * i] == hex_digit((b[i] / 16) as nat));
        assert(hex(a)[2 * i + 1] == hex_digit((a[i] % 16) as nat));
        assert(hex(b)[2 * i + 1] == hex_digit((b[i] % 16) as nat));
        lemma_hex_digit_injective((a[i] / 16) as nat, (b[i] / 16) as nat);
        lemma_hex_digit_injective((a[i] % 16) as nat, (b[i] % 16) as nat);
    }
    assert(a =~= b);
}

/// The value of a lowercase hexadecimal digit.
pub open spec fn hex_value(c: char) -> int {
    if c <= '9' {
        c as int - '0' as int
    } else {
        10 + (c as int - 'a' as int)
    }
}

/// Bytes in hexadecimal have two lowercase digits for each byte, the high one
/// first.
pub proof fn law_hex_stands_for_the_bytes(bytes: Seq<u8>)
    ensures
        hex(bytes).len() == 2 * bytes.len(),
        forall|i: int|
            0 <= i < hex(bytes).len() ==> '0' <= (#[trigger] hex(bytes)[i]) <= '9' || 'a' <= hex(
                bytes,
            )[i] <= 'f',
        forall|i: int|
            0 <= i < bytes.len() ==> #[trigger] bytes[i] == 16 * hex_value(hex(bytes)[2 * i])
                + hex_value(hex(bytes)[2 * i + 1]),
{
    assert forall|i: int| 0 <= i < bytes.len() implies #[trigger] bytes[i] == 16 * hex_value(
        hex(bytes)[2 * i],
    ) + hex_value(hex(bytes)[2 * i + 1]) by {
        assert(hex(bytes)[2 * i] == hex_digit((bytes[i] / 16) as nat));
        assert(hex(bytes)[2 * i + 1] == hex_digit((bytes[i] % 16) as nat));
    }
}

} // verus!
