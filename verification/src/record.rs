//! The records of the variant cache: the index of a variant's parent in eight
//! little-endian bytes, then the variant itself.

use vstd::prelude::*;
use vstd::slice::slice_subrange;

verus! {

/// The number of bytes that hold the index.
pub const INDEX_BYTES: usize = 8;

/// The number that little-endian bytes stand for.
pub open spec fn little_endian(bytes: Seq<u8>) -> nat
    decreases bytes.len(),
{
    if bytes.len() == 0 {
        0
    } else {
        bytes[0] as nat + 256 * little_endian(bytes.skip(1))
    }
}

/// `n` in `width` little-endian bytes.
pub open spec fn to_little_endian(n: nat, width: nat) -> Seq<u8>
    decreases width,
{
    if width == 0 {
        Seq::empty()
    } else {
        seq![(n % 256) as u8] + to_little_endian(n / 256, (width - 1) as nat)
    }
}

/// The record of `wasm`, made out of the variant with the given index.
pub open spec fn record(index: nat, wasm: Seq<u8>) -> Seq<u8> {
    to_little_endian(index, 8) + wasm
}

/// The index in a record.
pub open spec fn record_index(bytes: Seq<u8>) -> nat {
    little_endian(bytes.take(8))
}

/// The variant in a record.
pub open spec fn record_wasm(bytes: Seq<u8>) -> Seq<u8> {
    bytes.skip(8)
}

/// Whether bytes are a record: they hold an index, and it fits in a `usize`.
pub open spec fn is_record(bytes: Seq<u8>) -> bool {
    bytes.len() >= 8 && record_index(bytes) <= usize::MAX
}

/// 256 to the power of `width`.
pub open spec fn byte_values(width: nat) -> nat
    decreases width,
{
    if width == 0 {
        1
    } else {
        256 * byte_values((width - 1) as nat)
    }
}

proof fn lemma_to_little_endian_len(n: nat, width: nat)
    ensures
        to_little_endian(n, width).len() == width,
    decreases width,
{
    if width > 0 {
        lemma_to_little_endian_len(n / 256, (width - 1) as nat);
    }
}

proof fn lemma_little_endian_bound(bytes: Seq<u8>)
    ensures
        little_endian(bytes) < byte_values(bytes.len()),
    decreases bytes.len(),
{
    if bytes.len() > 0 {
        lemma_little_endian_bound(bytes.skip(1));
    }
}

proof fn lemma_little_endian_of_encoded(n: nat, width: nat)
    requires
        n < byte_values(width),
    ensures
        little_endian(to_little_endian(n, width)) == n,
    decreases width,
{
    if width > 0 {
        let rest = to_little_endian(n / 256, (width - 1) as nat);
        let all = to_little_endian(n, width);
        assert(all[0] == (n % 256) as u8);
        assert(all.skip(1) =~= rest);
        assert(n / 256 < byte_values((width - 1) as nat));
        lemma_little_endian_of_encoded(n / 256, (width - 1) as nat);
        assert(n == n % 256 + 256 * (n / 256));
    }
}

proof fn lemma_encoded_of_little_endian(bytes: Seq<u8>)
    ensures
        to_little_endian(little_endian(bytes), bytes.len()) == bytes,
    decreases bytes.len(),
{
    if bytes.len() > 0 {
        let rest = bytes.skip(1);
        lemma_encoded_of_little_endian(rest);
        let n = little_endian(bytes);
        assert(n % 256 == bytes[0] as nat);
        assert(n / 256 == little_endian(rest));
        assert(seq![bytes[0]] + rest =~= bytes);
    } else {
        assert(bytes =~= Seq::empty());
    }
}

proof fn lemma_eight_bytes()
    ensures
        byte_values(8) == 0x1_0000_0000_0000_0000,
{
    reveal_with_fuel(byte_values, 9);
}

/// What is read from a record is what was written into it.
pub proof fn law_record_read_back(index: usize, wasm: Seq<u8>)
    ensures
        is_record(record(index as nat, wasm)),
        record_index(record(index as nat, wasm)) == index,
        record_wasm(record(index as nat, wasm)) == wasm,
{
    lemma_eight_bytes();
    lemma_to_little_endian_len(index as nat, 8);
    lemma_little_endian_of_encoded(index as nat, 8);
    let bytes = record(index as nat, wasm);
    assert(bytes.take(8) =~= to_little_endian(index as nat, 8));
    assert(bytes.skip(8) =~= wasm);
}

/// Writing what was read from a record gives the record again.
pub proof fn law_record_written_back(bytes: Seq<u8>)
    requires
        bytes.len() >= 8,
    ensures
        record(record_index(bytes), record_wasm(bytes)) == bytes,
{
    lemma_encoded_of_little_endian(bytes.take(8));
    assert(bytes.take(8) + bytes.skip(8) =~= bytes);
}

/// `n` in eight little-endian bytes.
pub fn le_bytes(n: usize) -> (bytes: Vec<u8>)
    ensures
        bytes@ == to_little_endian(n as nat, 8),
{
    let mut bytes: Vec<u8> = Vec::new();
    let mut rest: usize = n;
    let mut i: usize = 0;
    while i < INDEX_BYTES
        invariant
            i <= INDEX_BYTES,
            to_little_endian(n as nat, 8) == bytes@ + to_little_endian(
                rest as nat,
                (INDEX_BYTES - i) as nat,
            ),
        decreases INDEX_BYTES - i,
    {
        let ghost before = bytes@;
        let low: u8 = (rest % 256) as u8;
        bytes.push(low);
        proof {
            let width = (INDEX_BYTES - i) as nat;
            let tail = to_little_endian((rest / 256) as nat, (width - 1) as nat);
            assert(to_little_endian(rest as nat, width) == seq![low] + tail);
            assert(before + (seq![low] + tail) =~= before.push(low) + tail);
        }
        rest = rest / 256;
        i = i + 1;
    }
    assert(bytes@ + to_little_endian(rest as nat, 0) =~= bytes@);
    bytes
}

/// Writes a record.
pub fn encode_record(index: usize, wasm: &Vec<u8>) -> (bytes: Vec<u8>)
    ensures
        bytes@ == record(index as nat, wasm@),
{
    let mut bytes: Vec<u8> = le_bytes(index);
    bytes.extend_from_slice(wasm.as_slice());
    assert(bytes@ =~= to_little_endian(index as nat, 8) + wasm@);
    bytes
}

/// Reads a record: the variant and the index. Bytes that are no record give
/// nothing.
pub fn decode_record(bytes: &[u8]) -> (parts: Option<(Vec<u8>, usize)>)
    ensures
        parts is Some <==> is_record(bytes@),
        parts matches Some((wasm, index)) ==> wasm@ == record_wasm(bytes@) && index
            == record_index(bytes@),
{
    if bytes.len() < INDEX_BYTES {
        return None;
    }
    let mut value: u64 = 0;
    let mut i: usize = INDEX_BYTES;
    proof {
        lemma_eight_bytes();
        assert(bytes@.subrange(8, 8) =~= Seq::empty());
    }
    while i > 0
        invariant
            i <= INDEX_BYTES <= bytes@.len(),
            value == little_endian(bytes@.subrange(i as int, 8)),
        decreases i,
    {
        let ghost tail = bytes@.subrange(i as int, 8);
        let ghost longer = bytes@.subrange(i - 1, 8);
        proof {
            lemma_eight_bytes();
            assert(longer.skip(1) =~= tail);
            assert(longer[0] == bytes@[i - 1]);
            lemma_little_endian_bound(longer);
            lemma_byte_values_up_to_eight((9 - i) as nat);
        }
        i = i - 1;
        value = bytes[i] as u64 + 256 * value;
    }
    assert(bytes@.subrange(0, 8) =~= bytes@.take(8));
    if value > usize::MAX as u64 {
        return None;
    }
    let wasm: Vec<u8> = vstd::slice::slice_to_vec(slice_subrange(bytes, INDEX_BYTES, bytes.len()));
    assert(wasm@ =~= bytes@.skip(8));
    Some((wasm, value as usize))
}

proof fn lemma_byte_values_up_to_eight(width: nat)
    requires
        width <= 8,
    ensures
        byte_values(width) <= byte_values(8),
    decreases 8 - width,
{
    if width < 8 {
        lemma_byte_values_up_to_eight(width + 1);
    }
}

/// The bytes of a record, one by one: the index with its low byte first, then
/// the variant, and nothing else.
pub proof fn law_record_bytes(index: usize, wasm: Seq<u8>)
    ensures
        record(index as nat, wasm).len() == 8 + wasm.len(),
        record(index as nat, wasm)[0] == index as int % 256,
        record(index as nat, wasm)[1] == index as int / 0x100 % 256,
        record(index as nat, wasm)[2] == index as int / 0x1_0000 % 256,
        record(index as nat, wasm)[3] == index as int / 0x100_0000 % 256,
        record(index as nat, wasm)[4] == index as int / 0x1_0000_0000 % 256,
        record(index as nat, wasm)[5] == index as int / 0x100_0000_0000 % 256,
        record(index as nat, wasm)[6] == index as int / 0x1_0000_0000_0000 % 256,
        record(index as nat, wasm)[7] == index as int / 0x100_0000_0000_0000 % 256,
        forall|i: int| 0 <= i < wasm.len() ==> record(index as nat, wasm)[8 + i] == #[trigger] wasm[i],
{
    lemma_to_little_endian_len(index as nat, 8);
    law_low_bytes(index as nat);
}

/// A number in eight bytes, one by one, the low one first.
pub proof fn law_low_bytes(n: nat)
    ensures
        to_little_endian(n, 8).len() == 8,
        to_little_endian(n, 8)[0] == n as int % 256,
        to_little_endian(n, 8)[1] == n as int / 0x100 % 256,
        to_little_endian(n, 8)[2] == n as int / 0x1_0000 % 256,
        to_little_endian(n, 8)[3] == n as int / 0x100_0000 % 256,
        to_little_endian(n, 8)[4] == n as int / 0x1_0000_0000 % 256,
        to_little_endian(n, 8)[5] == n as int / 0x100_0000_0000 % 256,
        to_little_endian(n, 8)[6] == n as int / 0x1_0000_0000_0000 % 256,
        to_little_endian(n, 8)[7] == n as int / 0x100_0000_0000_0000 % 256,
{
    reveal_with_fuel(to_little_endian, 9);
}

/// What is read from a record: the index out of the first eight bytes, the low
/// one first, and the variant out of all the others.
pub proof fn law_record_reading(bytes: Seq<u8>)
    requires
        bytes.len() >= 8,
    ensures
        record_index(bytes) == bytes[0] + 0x100 * bytes[1] + 0x1_0000 * bytes[2] + 0x100_0000
            * bytes[3] + 0x1_0000_0000 * bytes[4] + 0x100_0000_0000 * bytes[5] + 0x1_0000_0000_0000
            * bytes[6] + 0x100_0000_0000_0000 * bytes[7],
        record_wasm(bytes).len() == bytes.len() - 8,
        forall|i: int| 8 <= i < bytes.len() ==> record_wasm(bytes)[i - 8] == #[trigger] bytes[i],
        is_record(bytes) <==> record_index(bytes) <= usize::MAX,
{
    reveal_with_fuel(little_endian, 9);
    let head = bytes.take(8);
    assert(head.skip(1).skip(1) =~= head.skip(2));
    assert(head.skip(2).skip(1) =~= head.skip(3));
    assert(head.skip(3).skip(1) =~= head.skip(4));
    assert(head.skip(4).skip(1) =~= head.skip(5));
    assert(head.skip(5).skip(1) =~= head.skip(6));
    assert(head.skip(6).skip(1) =~= head.skip(7));
    assert(head.skip(7).skip(1) =~= Seq::empty());
    assert(little_endian(head.skip(7)) == bytes[7]);
    assert(little_endian(head.skip(6)) == bytes[6] + 256 * little_endian(head.skip(7)));
    assert(little_endian(head.skip(5)) == bytes[5] + 256 * little_endian(head.skip(6)));
    assert(little_endian(head.skip(4)) == bytes[4] + 256 * little_endian(head.skip(5)));
    assert(little_endian(head.skip(3)) == bytes[3] + 256 * little_endian(head.skip(4)));
    assert(little_endian(head.skip(2)) == bytes[2] + 256 * little_endian(head.skip(3)));
    assert(little_endian(head.skip(1)) == bytes[1] + 256 * little_endian(head.skip(2)));
    assert(little_endian(head) == bytes[0] + 256 * little_endian(head.skip(1)));
}

/// Bytes that are too short are no record.
pub proof fn law_short_bytes_are_no_record(bytes: Seq<u8>)
    requires
        bytes.len() < 8,
    ensures
        !is_record(bytes),
{
}

} // verus!
