//! Opcodes of the leaf templates.

use vstd::prelude::*;

verus! {

pub const OP_IF: u8 = 0x63;
pub const OP_NOTIF: u8 = 0x64;
pub const OP_ELSE: u8 = 0x67;
pub const OP_ENDIF: u8 = 0x68;
pub const OP_VERIFY: u8 = 0x69;
pub const OP_TOALTSTACK: u8 = 0x6b;
pub const OP_FROMALTSTACK: u8 = 0x6c;
pub const OP_IFDUP: u8 = 0x73;
pub const OP_SWAP: u8 = 0x7c;
pub const OP_SIZE: u8 = 0x82;
pub const OP_EQUAL: u8 = 0x87;
pub const OP_EQUALVERIFY: u8 = 0x88;
pub const OP_ADD: u8 = 0x93;
pub const OP_NUMEQUAL: u8 = 0x9c;
pub const OP_RIPEMD160: u8 = 0xa6;
pub const OP_SHA256: u8 = 0xa8;
pub const OP_HASH160: u8 = 0xa9;
pub const OP_HASH256: u8 = 0xaa;
pub const OP_CHECKSIG: u8 = 0xac;
pub const OP_CHECKSIGVERIFY: u8 = 0xad;
pub const OP_CLTV: u8 = 0xb1;
pub const OP_CSV: u8 = 0xb2;
pub const OP_CHECKSIGADD: u8 = 0xba;

/// Decodes `OP_1` to `OP_16`, the small number pushes of multisig counts.
pub fn small_pushnum(op: u8) -> (n: Option<u8>)
    ensures
        n == if 0x51 <= op <= 0x60 { Some((op - 0x50) as u8) } else { None::<u8> },
{
    if op >= 0x51 && op <= 0x60 {
        Some(op - 0x50)
    } else {
        None
    }
}

} // verus!
