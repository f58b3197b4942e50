//! What a leaf template looks like: fragments with the values they hold, one slot per
//! instruction.

use vstd::prelude::*;

use crate::tapscript::common::{
    OP_ADD, OP_CHECKSIG, OP_CHECKSIGVERIFY, OP_CLTV, OP_CSV, OP_EQUAL, OP_EQUALVERIFY,
    OP_FROMALTSTACK, OP_SIZE, OP_SWAP, OP_TOALTSTACK,
};
use crate::tapscript::hash::TapscriptHashKind;
use crate::tapscript::older_after::{after_in_range, older_in_range, DualTimeoutLock};
use crate::tapscript::script::{token_number, Token, XOnlyKey};

verus! {

/// What one instruction of a leaf has to be.
pub enum Slot {
    /// This opcode.
    Op(u8),
    /// A push of this key.
    Key(XOnlyKey),
    /// A push of these bytes.
    Bytes(Seq<u8>),
    /// A push of this digest, which has the length of the hash.
    Digest(TapscriptHashKind, Seq<u8>),
    /// The argument of `older`.
    Older(u32),
    /// The argument of `after`.
    After(u32),
}

/// Whether an instruction is what a slot asks for.
pub open spec fn fits(token: Token, slot: Slot) -> bool {
    match slot {
        Slot::Op(op) => token == Token::Op(op),
        Slot::Key(key) => token == Token::Push(key.bytes@, true),
        Slot::Bytes(bytes) => token matches Token::Push(b, _) && b == bytes,
        Slot::Digest(kind, digest) => {
            &&& token matches Token::Push(b, _) && b == digest
            &&& digest.len() == kind.digest_len()
        },
        Slot::Older(n) => token_number(token) == Some(n as int) && older_in_range(n as int),
        Slot::After(n) => token_number(token) == Some(n as int) && after_in_range(n as int),
    }
}

/// A key is pushed as its own 32 bytes, and only where they are an x-only key. A digest is pushed as
/// its own bytes, 20 of a 160 bit hash and 32 of a 256 bit one. An instruction is the argument of
/// one timeout at most, and what `older` takes `after` takes too.
pub proof fn lemma_fits(
    token: Token,
    key: XOnlyKey,
    kind: TapscriptHashKind,
    digest: Seq<u8>,
    n: u32,
    m: u32,
)
    ensures
        fits(token, Slot::Key(key)) <==> token == Token::Push(key.bytes@, true),
        fits(token, Slot::Digest(kind, digest)) ==> (token matches Token::Push(bytes, _) && bytes
            == digest),
        fits(token, Slot::Digest(kind, digest)) ==> digest.len() == match kind {
            TapscriptHashKind::Sha256 | TapscriptHashKind::Hash256 => 32nat,
            TapscriptHashKind::Ripemd160 | TapscriptHashKind::Hash160 => 20nat,
        },
        fits(token, Slot::Older(n)) && fits(token, Slot::Older(m)) ==> n == m,
        fits(token, Slot::After(n)) && fits(token, Slot::After(m)) ==> n == m,
        fits(token, Slot::Older(n)) ==> fits(token, Slot::After(n)),
        fits(token, Slot::After(n)) && n < 0x1_0000 ==> fits(token, Slot::Older(n)),
        fits(token, Slot::After(n)) ==> 1 <= n <= 0x7fff_ffff,
        1 <= n <= 16 ==> fits(Token::Op((0x50 + n) as u8), Slot::Older(n)),
{
}

/// The instructions from `pos` on begin with `slots`.
pub open spec fn spells_at(tokens: Seq<Token>, pos: int, slots: Seq<Slot>) -> bool {
    &&& pos + slots.len() <= tokens.len()
    &&& forall|i: int| 0 <= i < slots.len() ==> fits(tokens[pos + i], #[trigger] slots[i])
}

/// The instructions from `pos` to the end are `slots`.
pub open spec fn ends_with(tokens: Seq<Token>, pos: int, slots: Seq<Slot>) -> bool {
    spells_at(tokens, pos, slots) && pos + slots.len() == tokens.len()
}

/// The script is `fragments` one after the other and nothing else.
pub open spec fn spells(tokens: Seq<Token>, fragments: Seq<Seq<Slot>>) -> bool {
    ends_with(tokens, 0, fragments.flatten())
}

/// One opcode.
pub open spec fn code(op: u8) -> Seq<Slot> {
    seq![Slot::Op(op)]
}

/// A push of a key.
pub open spec fn push_key(key: XOnlyKey) -> Seq<Slot> {
    seq![Slot::Key(key)]
}

/// A push of no bytes.
pub open spec fn push_empty() -> Seq<Slot> {
    seq![Slot::Bytes(Seq::empty())]
}

/// `<key> op` for each of the keys.
pub open spec fn keys_with(op: u8, keys: Seq<XOnlyKey>) -> Seq<Slot> {
    Seq::new(
        2 * keys.len(),
        |i: int| if i % 2 == 0 { Slot::Key(keys[i / 2]) } else { Slot::Op(op) },
    )
}

/// `<key> OP_CHECKSIGVERIFY` for each of the keys.
pub open spec fn verify_keys(keys: Seq<XOnlyKey>) -> Seq<Slot> {
    keys_with(OP_CHECKSIGVERIFY, keys)
}

/// `<key> OP_CHECKSIGVERIFY` for each of the keys but the last, `<key> OP_CHECKSIG` for that one.
pub open spec fn check_keys(keys: Seq<XOnlyKey>) -> Seq<Slot> {
    verify_keys(keys.drop_last()) + seq![Slot::Key(keys.last()), Slot::Op(OP_CHECKSIG)]
}

/// `OP_SIZE <32> OP_EQUALVERIFY <hash op> <digest> end`.
pub open spec fn preimage(kind: TapscriptHashKind, digest: Seq<u8>, end: u8) -> Seq<Slot> {
    seq![
        Slot::Op(OP_SIZE),
        Slot::Bytes(seq![32u8]),
        Slot::Op(OP_EQUALVERIFY),
        Slot::Op(kind.opcode()),
        Slot::Digest(kind, digest),
        Slot::Op(end),
    ]
}

/// `<n> OP_CSV`.
pub open spec fn older(n: u32) -> Seq<Slot> {
    seq![Slot::Older(n), Slot::Op(OP_CSV)]
}

/// `<n> OP_CLTV`.
pub open spec fn after(n: u32) -> Seq<Slot> {
    seq![Slot::After(n), Slot::Op(OP_CLTV)]
}

/// Either timeout.
pub open spec fn timeout(lock: DualTimeoutLock) -> Seq<Slot> {
    match lock {
        DualTimeoutLock::Older(n) => older(n),
        DualTimeoutLock::After(n) => after(n),
    }
}

/// `OP_1` to `OP_16`.
pub open spec fn count(k: u8) -> Seq<Slot> {
    seq![Slot::Op((0x50 + k) as u8)]
}

/// What an arm of a threshold checks.
pub enum ArmCheck {
    Key(XOnlyKey),
    Preimage(TapscriptHashKind, Seq<u8>),
}

/// An arm of a threshold behind the first key. It keeps the running count out of the way with
/// `OP_SWAP` or on the alternate stack.
pub struct Arm {
    pub swap: bool,
    pub check: ArmCheck,
}

/// The check of an arm, which leaves 0 or 1.
pub open spec fn arm_check_slots(check: ArmCheck) -> Seq<Slot> {
    match check {
        ArmCheck::Key(key) => seq![Slot::Key(key), Slot::Op(OP_CHECKSIG)],
        ArmCheck::Preimage(kind, digest) => preimage(kind, digest, OP_EQUAL),
    }
}

/// `OP_SWAP <check> OP_ADD` or `OP_TOALTSTACK <check> OP_FROMALTSTACK OP_ADD`.
pub open spec fn arm_slots(arm: Arm) -> Seq<Slot> {
    if arm.swap {
        code(OP_SWAP) + arm_check_slots(arm.check) + code(OP_ADD)
    } else {
        code(OP_TOALTSTACK) + arm_check_slots(arm.check) + seq![
            Slot::Op(OP_FROMALTSTACK),
            Slot::Op(OP_ADD),
        ]
    }
}

/// Arms one after the other.
pub open spec fn arms_slots(arms: Seq<Arm>) -> Seq<Slot>
    decreases arms.len(),
{
    if arms.len() == 0 {
        Seq::empty()
    } else {
        arms_slots(arms.drop_last()) + arm_slots(arms.last())
    }
}

} // verus!
