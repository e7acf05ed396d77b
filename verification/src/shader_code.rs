use vstd::prelude::*;

verus! {

/// The first byte of a little-endian SPIR-V module (its magic number's lowest byte).
pub const SPIRV_LITTLE_ENDIAN_LEAD: u8 = 0x03;

/// The first byte of a big-endian SPIR-V module (its magic number's highest byte).
pub const SPIRV_BIG_ENDIAN_LEAD: u8 = 0x07;

pub open spec fn le_word(bytes: Seq<u8>, i: int) -> u32 {
    (bytes[4 * i] + 256 * bytes[4 * i + 1] + 65536 * bytes[4 * i + 2] + 16777216 * bytes[4 * i + 3]) as u32
}

pub open spec fn be_word(bytes: Seq<u8>, i: int) -> u32 {
    (16777216 * bytes[4 * i] + 65536 * bytes[4 * i + 1] + 256 * bytes[4 * i + 2] + bytes[4 * i + 3]) as u32
}

/// The module can be read: it has a first byte naming one of the two byte orders.
pub open spec fn shader_code_readable(bytes: Seq<u8>) -> bool {
    bytes.len() > 0 && (bytes[0] == SPIRV_LITTLE_ENDIAN_LEAD || bytes[0] == SPIRV_BIG_ENDIAN_LEAD)
}

/// Whether `shader_code_words` can read the module.
pub fn shader_code_readable_bytes(bytes: &Vec<u8>) -> (readable: bool)
    ensures
        readable == shader_code_readable(bytes@),
{
    bytes.len() > 0 && (bytes[0] == SPIRV_LITTLE_ENDIAN_LEAD || bytes[0] == SPIRV_BIG_ENDIAN_LEAD)
}

fn word_at(bytes: &Vec<u8>, i: usize, little_endian: bool) -> (word: u32)
    requires
        4 * i + 3 < bytes.len(),
    ensures
        word == if little_endian { le_word(bytes@, i as int) } else { be_word(bytes@, i as int) },
{
    let b0 = bytes[4 * i] as u32;
    let b1 = bytes[4 * i + 1] as u32;
    let b2 = bytes[4 * i + 2] as u32;
    let b3 = bytes[4 * i + 3] as u32;
    if little_endian {
        b0 + 256 * b1 + 65536 * b2 + 16777216 * b3
    } else {
        16777216 * b0 + 65536 * b1 + 256 * b2 + b3
    }
}

/// The 32-bit words of a SPIR-V module in the byte order its first byte
/// names; trailing bytes that do not fill a word are left out.
pub fn shader_code_words(bytes: &Vec<u8>) -> (words: Vec<u32>)
    requires
        shader_code_readable(bytes@),
    ensures
        words.len() == bytes.len() / 4,
        forall|i: int|
            0 <= i < words.len() ==> #[trigger] words@[i] == if bytes@[0] == SPIRV_LITTLE_ENDIAN_LEAD {
                le_word(bytes@, i)
            } else {
                be_word(bytes@, i)
            },
{
    let little_endian = bytes[0] == SPIRV_LITTLE_ENDIAN_LEAD;
    let count = bytes.len() / 4;
    let mut words: Vec<u32> = Vec::new();
    let mut i: usize = 0;
    while i < count
        invariant
            i <= count,
            count == bytes.len() / 4,
            little_endian == (bytes@[0] == SPIRV_LITTLE_ENDIAN_LEAD),
            words.len() == i,
            forall|k: int|
                0 <= k < i ==> #[trigger] words@[k] == if little_endian {
                    le_word(bytes@, k)
                } else {
                    be_word(bytes@, k)
                },
        decreases count - i,
    {
        words.push(word_at(bytes, i, little_endian));
        i = i + 1;
    }
    words
}

} // verus!
