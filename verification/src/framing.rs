//! Constant-size framing: every message that leaves for another contract is
//! padded with spaces to a whole number of blocks, so that its length tells
//! little about what it holds.

use vstd::prelude::*;

verus! {

/// Block size to which messages are padded.
pub const BLOCK_SIZE: usize = 256;

/// The byte that pads a message: a space.
pub const PAD_BYTE: u8 = 0x20;

/// The number of bytes that fill a message of `len` bytes up to a whole
/// number of blocks of `block_size` bytes.
pub open spec fn padding_for(len: int, block_size: int) -> int {
    if len % block_size == 0 {
        0
    } else {
        block_size - len % block_size
    }
}

/// The message followed by the spaces that fill its last block.
pub open spec fn padded(message: Seq<u8>, block_size: int) -> Seq<u8> {
    message + Seq::new(padding_for(message.len() as int, block_size) as nat, |i: int| PAD_BYTE)
}

/// A message of `len` bytes can be padded: the padded message stays within
/// the size that a vector may have.
pub open spec fn can_pad(len: int) -> bool {
    len + BLOCK_SIZE <= usize::MAX / 2
}

/// Calls `secret_toolkit::utils::space_pad`, which appends spaces to the
/// message until its length is a multiple of `block_size`, and nothing when
/// it is one already. The contract states that; it leaves out a block size
/// of zero, for which the function divides by zero, and lengths for which
/// the padded message would exceed the size that a vector may have.
#[verifier::external_body]
fn space_pad(message: &mut Vec<u8>, block_size: usize)
    requires
        block_size > 0,
        old(message)@.len() + block_size <= usize::MAX / 2,
    ensures
        final(message)@ == padded(old(message)@, block_size as int),
{
    secret_toolkit::utils::space_pad(message, block_size);
}

/// Pads a message to a whole number of blocks of `BLOCK_SIZE` bytes.
/// `None` for a message too long to pad.
pub fn pad_message(message: Vec<u8>) -> (r: Option<Vec<u8>>)
    ensures
        match r {
            Some(p) => can_pad(message@.len() as int) && p@ == padded(
                message@,
                BLOCK_SIZE as int,
            ),
            None => !can_pad(message@.len() as int),
        },
{
    if message.len() > usize::MAX / 2 - BLOCK_SIZE {
        return None;
    }
    let mut framed = message;
    space_pad(&mut framed, BLOCK_SIZE);
    Some(framed)
}

/// A padded message fills whole blocks, begins with the message itself,
/// holds nothing but spaces after it, and is less than one block longer.
pub proof fn lemma_padded_fills_blocks(message: Seq<u8>, block_size: int)
    requires
        block_size > 0,
    ensures
        padded(message, block_size).len() as int % block_size == 0,
        message.len() <= padded(message, block_size).len() < message.len() + block_size,
        padded(message, block_size).subrange(0, message.len() as int) == message,
        forall|i: int|
            message.len() <= i < padded(message, block_size).len() ==> padded(
                message,
                block_size,
            )[i] == PAD_BYTE,
        message.len() as int % block_size == 0 ==> padded(message, block_size) == message,
{
    let len = message.len() as int;
    let p = padded(message, block_size);
    assert(p.subrange(0, len) =~= message);
    if len % block_size == 0 {
        assert(p =~= message);
    } else {
        let r = len % block_size;
        assert(0 < r < block_size) by (nonlinear_arith)
            requires
                r == len % block_size,
                r != 0,
                block_size > 0,
                len >= 0,
        ;
        assert((len + (block_size - r)) % block_size == 0) by (nonlinear_arith)
            requires
                r == len % block_size,
                block_size > 0,
                len >= 0,
        ;
    }
}

} // verus!
