use vstd::prelude::*;
use vstd::endian::{endianness, Endian};
use x11rb::protocol::xproto::GetPropertyReply;

verus! {

/// The fields of an X11 `GetProperty` reply, as the server sent them.
pub struct PropertyReply {
    pub format: u8,
    pub sequence: u16,
    pub length: u32,
    pub type_: u32,
    pub bytes_after: u32,
    pub value_len: u32,
    pub value: Vec<u8>,
}

/// The 32-bit word at word index `i` of `bytes`, read in big- or little-endian order.
pub open spec fn word_at(bytes: Seq<u8>, i: int, big_endian: bool) -> int {
    let b0 = bytes[4 * i] as int;
    let b1 = bytes[4 * i + 1] as int;
    let b2 = bytes[4 * i + 2] as int;
    let b3 = bytes[4 * i + 3] as int;
    if big_endian {
        b0 * 0x100_0000 + b1 * 0x1_0000 + b2 * 0x100 + b3
    } else {
        b3 * 0x100_0000 + b2 * 0x1_0000 + b1 * 0x100 + b0
    }
}

/// Each of `words` is the 32-bit word at its index in `bytes`, read in the given byte order.
pub open spec fn words_read_in(bytes: Seq<u8>, words: Seq<u32>, big_endian: bool) -> bool {
    forall|i: int| 0 <= i < words.len() ==> #[trigger] words[i] == word_at(bytes, i, big_endian)
}

/// `words` are all the whole 32-bit words of `bytes`, in order, each read in the byte order of
/// the machine the code runs on.
pub open spec fn packed_words(bytes: Seq<u8>, words: Seq<u32>) -> bool {
    &&& words.len() == bytes.len() / 4
    &&& words_read_in(bytes, words, endianness() == Endian::Big)
}

/// x11rb's `GetPropertyReply::value32`: when the reply's format is 32, its value read as 32-bit
/// words (a trailing partial word is dropped), and nothing otherwise. x11rb reads each word in the
/// byte order of the machine it runs on (`from_ne_bytes`), which the contract names with vstd's
/// `endianness()`; which order that is, the contract leaves open.
#[verifier::external_body]
fn reply_words32(reply: PropertyReply) -> (words: Option<Vec<u32>>)
    ensures
        words is Some <==> reply.format == 32,
        words matches Some(w) ==> packed_words(reply.value@, w@),
{
    let reply = GetPropertyReply {
        format: reply.format,
        sequence: reply.sequence,
        length: reply.length,
        type_: reply.type_,
        bytes_after: reply.bytes_after,
        value_len: reply.value_len,
        value: reply.value,
    };
    reply.value32().map(|words| words.collect())
}

/// The reply's raw bytes: what a transfer of a clipboard format collects.
pub fn property_bytes(reply: PropertyReply) -> (bytes: Vec<u8>)
    ensures
        bytes@ == reply.value@,
{
    reply.value
}

/// The reply's value as a list of atoms: its 32-bit words when its format is 32, and no atom
/// otherwise. This is what a transfer of the `TARGETS` list collects.
pub fn property_atoms(reply: PropertyReply) -> (atoms: Vec<u32>)
    ensures
        reply.format == 32 ==> packed_words(reply.value@, atoms@),
        reply.format != 32 ==> atoms@ == Seq::<u32>::empty(),
{
    match reply_words32(reply) {
        Some(words) => words,
        None => Vec::new(),
    }
}

} // verus!
