//! Bus-transfer frame logic: the pure byte-level part of the SMBus
//! primitives the generated accessors call.  Building command frames and
//! checking length-prefixed block responses is verified here; performing the
//! transactions is the bus implementation's affair.
use vstd::prelude::*;

verus! {

/// Largest payload of a block transfer.  Exceeding it is a programming
/// error, never a recoverable protocol error.
pub const SMBUS_MAX_BLOCK_SIZE: usize = 32;

/// Low byte of a word in little-endian order.
pub open spec fn word_lo(w: u16) -> u8 {
    (w & 0xff) as u8
}

/// High byte of a word in little-endian order.
pub open spec fn word_hi(w: u16) -> u8 {
    (w >> 8) as u8
}

/// The word two little-endian bytes denote.
pub open spec fn word_le(lo: u8, hi: u8) -> int {
    lo as int + 256 * (hi as int)
}

/// Splitting a word into little-endian bytes and reassembling them yields
/// the word back.
pub proof fn lemma_word_le_round_trip(w: u16)
    ensures
        word_le(word_lo(w), word_hi(w)) == w as int,
{
    assert(((w & 0xff) as u8) as int + 256 * (((w >> 8) as u8) as int) == w as int)
        by (bit_vector);
}

/// Frame of a send-byte transaction: the single data byte.
pub fn send_byte_frame(byte: u8) -> (r: Vec<u8>)
    ensures
        r@ == seq![byte],
{
    let mut out: Vec<u8> = Vec::new();
    out.push(byte);
    proof {
        assert(out@ =~= seq![byte]);
    }
    out
}

/// Frame of a write-byte transaction: the command code, then the data byte.
pub fn write_byte_frame(command: u8, byte: u8) -> (r: Vec<u8>)
    ensures
        r@ == seq![command, byte],
{
    let mut out: Vec<u8> = Vec::new();
    out.push(command);
    out.push(byte);
    proof {
        assert(out@ =~= seq![command, byte]);
    }
    out
}

/// Frame of a write-word or process-call request: the command code, then the
/// word in little-endian order.
pub fn write_word_frame(command: u8, word: u16) -> (r: Vec<u8>)
    ensures
        r@ == seq![command, word_lo(word), word_hi(word)],
{
    let lo = (word & 0xff) as u8;
    let hi = (word >> 8) as u8;
    let mut out: Vec<u8> = Vec::new();
    out.push(command);
    out.push(lo);
    out.push(hi);
    proof {
        assert(out@ =~= seq![command, word_lo(word), word_hi(word)]);
    }
    out
}

/// The word a two-byte little-endian response denotes.
pub fn word_from_le(lo: u8, hi: u8) -> (r: u16)
    ensures
        r as int == word_le(lo, hi),
{
    let r = (lo as u16) | ((hi as u16) << 8);
    proof {
        assert(((lo as u16) | ((hi as u16) << 8)) as int == lo as int + 256 * (hi as int))
            by (bit_vector);
    }
    r
}

/// Header of the first phase of a block write or block process call: the
/// command code, then the payload length.
pub fn block_write_header(command: u8, block: &[u8]) -> (r: Vec<u8>)
    requires
        block@.len() <= SMBUS_MAX_BLOCK_SIZE,
    ensures
        r@ == seq![command, block@.len() as u8],
{
    let len = block.len();
    let mut out: Vec<u8> = Vec::new();
    out.push(command);
    out.push(len as u8);
    proof {
        assert(out@ =~= seq![command, block@.len() as u8]);
    }
    out
}

/// The payload length a block response's first byte declares, capped at the
/// block bound.
pub open spec fn block_declared_len(b: Seq<u8>) -> int {
    if b[0] <= 32 {
        b[0] as int
    } else {
        32
    }
}

/// Payload of a length-prefixed block response: the first byte declares the
/// length, capped at the block bound; the remainder is the payload and must
/// match the declared length exactly.  A response of any other shape is
/// refused.
pub fn parse_block_response(buf: &[u8]) -> (r: Option<Vec<u8>>)
    ensures
        match r {
            Some(p) => buf@.len() >= 1 && buf@.len() - 1 == block_declared_len(buf@) && p@
                == buf@.subrange(1, buf@.len() as int),
            None => buf@.len() == 0 || buf@.len() - 1 != block_declared_len(buf@),
        },
{
    if buf.len() == 0 {
        return None;
    }
    let first = buf[0];
    let declared: usize = if first <= 32 {
        first as usize
    } else {
        32
    };
    if buf.len() - 1 != declared {
        return None;
    }
    let mut out: Vec<u8> = Vec::new();
    let mut i: usize = 1;
    while i < buf.len()
        invariant
            1 <= i <= buf@.len(),
            out@ == buf@.subrange(1, i as int),
        decreases buf@.len() - i,
    {
        out.push(buf[i]);
        proof {
            assert(out@ =~= buf@.subrange(1, i as int + 1));
        }
        i = i + 1;
    }
    Some(out)
}

} // verus!
