//! Shader modules as they are read from disk.

use vstd::prelude::*;

verus! {

/// The first word of every SPIR-V module.
pub const SPIRV_MAGIC: u32 = 0x0723_0203;

/// The word at position `i`, its least significant byte first.
pub open spec fn word_le(data: Seq<u8>, i: int) -> u32 {
    (data[4 * i] + 0x100 * data[4 * i + 1] + 0x1_0000 * data[4 * i + 2] + 0x100_0000 * data[4 * i
        + 3]) as u32
}

/// The word at position `i`, its most significant byte first.
pub open spec fn word_be(data: Seq<u8>, i: int) -> u32 {
    (data[4 * i + 3] + 0x100 * data[4 * i + 2] + 0x1_0000 * data[4 * i + 1] + 0x100_0000 * data[4
        * i]) as u32
}

/// Whether `data` holds whole words, at least one, and begins with the magic number in one of
/// the two byte orders.
pub open spec fn is_spirv_module(data: Seq<u8>) -> bool {
    &&& data.len() > 0
    &&& data.len() % 4 == 0
    &&& word_le(data, 0) == SPIRV_MAGIC || word_be(data, 0) == SPIRV_MAGIC
}

/// The words of the module `data`, read in the byte order that its magic number shows.
pub open spec fn spirv_words(data: Seq<u8>) -> Seq<u32> {
    Seq::new(
        data.len() / 4,
        |i: int|
            if word_le(data, 0) == SPIRV_MAGIC {
                word_le(data, i)
            } else {
                word_be(data, i)
            },
    )
}

/// Calls `wgpu::util::make_spirv_raw`, which reads the bytes as words of the machine's byte
/// order, and swaps the bytes of every word where the first one is the magic number in the other
/// order. It panics on bytes that are no module: `requires` leaves those out.
#[verifier::external_body]
pub(crate) fn make_spirv(data: &[u8]) -> (words: Vec<u32>)
    requires
        is_spirv_module(data@),
    ensures
        words@ == spirv_words(data@),
{
    wgpu::util::make_spirv_raw(data).into_owned()
}

/// Whether `data` can be loaded as a shader module.
pub fn is_spirv(data: &[u8]) -> (valid: bool)
    ensures
        valid == is_spirv_module(data@),
{
    if data.len() == 0 || data.len() % 4 != 0 {
        return false;
    }
    let (a, b, c, d) = (data[0] as u32, data[1] as u32, data[2] as u32, data[3] as u32);
    let little: u32 = a + 0x100 * b + 0x1_0000 * c + 0x100_0000 * d;
    let big: u32 = d + 0x100 * c + 0x1_0000 * b + 0x100_0000 * a;
    little == SPIRV_MAGIC || big == SPIRV_MAGIC
}

/// A module and the same module with the bytes of every word reversed hold the same words.
pub proof fn law_spirv_byte_order(data: Seq<u8>, swapped: Seq<u8>)
    requires
        is_spirv_module(data),
        swapped.len() == data.len(),
        forall|i: int, j: int|
            0 <= i < data.len() / 4 && 0 <= j < 4 ==> swapped[4 * i + j] == #[trigger] data[4 * i
                + (3 - j)],
    ensures
        is_spirv_module(swapped),
        spirv_words(swapped) == spirv_words(data),
{
    assert forall|i: int| 0 <= i < data.len() / 4 implies word_le(swapped, i) == word_be(data, i)
        && word_be(swapped, i) == word_le(data, i) by {
        assert(swapped[4 * i + 0] == data[4 * i + (3 - 0)]);
        assert(swapped[4 * i + 1] == data[4 * i + (3 - 1)]);
        assert(swapped[4 * i + 2] == data[4 * i + (3 - 2)]);
        assert(swapped[4 * i + 3] == data[4 * i + (3 - 3)]);
    }
    assert(spirv_words(swapped) =~= spirv_words(data));
}

/// Bytes are a module where they are whole words and the first four are the magic number, forwards
/// or backwards.
pub proof fn law_module_begins_with_magic(data: Seq<u8>)
    ensures
        is_spirv_module(data) <==> data.len() >= 4 && data.len() % 4 == 0 && (data.take(4) == seq![
            0x03u8,
            0x02u8,
            0x23u8,
            0x07u8,
        ] || data.take(4) == seq![0x07u8, 0x23u8, 0x02u8, 0x03u8]),
{
    if data.len() >= 4 {
        let (a, b, c, d) = (data[0], data[1], data[2], data[3]);
        assert(data.take(4) =~= seq![a, b, c, d]);
        let forwards = seq![0x03u8, 0x02u8, 0x23u8, 0x07u8];
        let backwards = seq![0x07u8, 0x23u8, 0x02u8, 0x03u8];
        if data.take(4) == forwards {
            assert(forwards[0] == a && forwards[1] == b && forwards[2] == c && forwards[3] == d);
        }
        if data.take(4) == backwards {
            assert(backwards[0] == a && backwards[1] == b && backwards[2] == c && backwards[3]
                == d);
        }
    }
}

/// The words of a module hold all of its bytes, four to a word: the least significant one first
/// where the module begins with the last byte of the magic number, else the most significant one.
pub proof fn law_words_hold_the_bytes(data: Seq<u8>)
    requires
        is_spirv_module(data),
    ensures
        spirv_words(data).len() * 4 == data.len(),
        spirv_words(data)[0] == 0x0723_0203,
        forall|i: int|
            0 <= i < spirv_words(data).len() ==> {
                let word = #[trigger] spirv_words(data)[i] as int;
                if data[0] == 0x03 {
                    &&& word % 0x100 == data[4 * i]
                    &&& word / 0x100 % 0x100 == data[4 * i + 1]
                    &&& word / 0x1_0000 % 0x100 == data[4 * i + 2]
                    &&& word / 0x100_0000 == data[4 * i + 3]
                } else {
                    &&& word % 0x100 == data[4 * i + 3]
                    &&& word / 0x100 % 0x100 == data[4 * i + 2]
                    &&& word / 0x1_0000 % 0x100 == data[4 * i + 1]
                    &&& word / 0x100_0000 == data[4 * i]
                }
            },
{
    law_module_begins_with_magic(data);
    assert(data.take(4)[0] == data[0]);
}

} // verus!
