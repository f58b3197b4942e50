//! Which template a leaf is: no leaf is two of them.

use vstd::prelude::*;

use crate::tapscript::common::{
    OP_ADD, OP_CHECKSIG, OP_CHECKSIGADD, OP_CHECKSIGVERIFY, OP_CLTV, OP_CSV, OP_ELSE, OP_ENDIF,
    OP_EQUAL, OP_EQUALVERIFY, OP_FROMALTSTACK, OP_HASH160, OP_HASH256, OP_IF, OP_IFDUP, OP_NOTIF,
    OP_RIPEMD160, OP_SHA256, OP_SIZE, OP_SWAP, OP_TOALTSTACK, OP_VERIFY,
};
use crate::tapscript::hash::TapscriptHashKind;
use crate::tapscript::layout::{
    arm_check_slots, arm_slots, arms_slots, code, ends_with, fits, keys_with, preimage, spells,
    spells_at, verify_keys, Arm, ArmCheck, Slot,
};
use crate::tapscript::matching::{
    fragments, lemma_first_part, lemma_spells_concat, part_slots, suit, suits, Part, Seen,
};
use crate::tapscript::older_after::DualTimeoutLock;
use crate::tapscript::script::{Token, XOnlyKey};

verus! {

/// The templates.
pub enum Template {
    /// `and_v(v:pk.., pk)`.
    AndVChecksigverify,
    /// `and_v(v:pk.., and_v(v:hash, and_v(v:hash, older|after)))`.
    AndVPkDualHashLock,
    /// `and_v(v:pk.., and_v(v:hash, hash))`.
    AndVPkDualHash,
    /// `and_v(v:hash, and_v(v:hash, pk..))`, keys last.
    AndVDualHashPk,
    /// `and_v(v:hash, and_v(v:pk.., hash))`, keys between the hashes.
    AndVHashPkHash,
    /// `and_v(v:hash, and_v(v:hash, and_v(v:pk.., older|after)))`.
    AndVDualHashPkLock,
    /// `and_v(v:pk.., older(n))` with at least two keys.
    AndVMultiPkOlder,
    /// `and_v(v:pk.., after(n))` with at least two keys.
    AndVMultiPkAfter,
    /// `and_v(v:pk.., hash)` with at least two keys.
    AndVMultiPkHash,
    /// `and_v(v:older(n), pk..)` with at least two keys.
    AndVOlderMultiPk,
    /// `and_v(v:after(n), pk..)` with at least two keys.
    AndVAfterMultiPk,
    /// `and_v(v:hash, pk..)` with at least two keys.
    AndVHashMultiPk,
    /// `and_v(v:pk.., and_v(v:older(n), pk..))`.
    AndVMultiPkOlderMultiPk,
    /// `and_v(v:pk.., and_v(v:after(n), pk..))`.
    AndVMultiPkAfterMultiPk,
    /// `and_v(v:pk.., and_v(v:hash, pk..))`.
    AndVMultiPkHashMultiPk,
    /// `and_v(or_c(pk, v:pk), older(n))`.
    AndVOrCOlder,
    /// `and_v(or_c(pk, v:pk), after(n))`.
    AndVOrCAfter,
    /// `and_v(or_c(pk, v:pk), hash)`.
    AndVOrCHash,
    /// `and_v(or_i(v:pk, v:pk), older(n))`.
    AndVOrIOlder,
    /// `and_v(or_i(v:pk, v:pk), after(n))`.
    AndVOrIAfter,
    /// `and_v(or_i(v:pk, v:pk), hash)`.
    AndVOrIHash,
    /// `and_v(or_c(pk, or_c(pk, v:pk)), older(n))`.
    AndVOrCMultiOlder,
    /// `and_v(or_c(pk, or_c(pk, v:pk)), after(n))`.
    AndVOrCMultiAfter,
    /// `and_v(or_c(pk, or_c(pk, v:pk)), hash)`.
    AndVOrCMultiHash,
    /// `and_v(or_i(v:pk, or_i(v:pk, v:pk)), older(n))`.
    AndVOrIMultiOlder,
    /// `and_v(or_i(v:pk, or_i(v:pk, v:pk)), after(n))`.
    AndVOrIMultiAfter,
    /// `and_v(or_i(v:pk, or_i(v:pk, v:pk)), hash)`.
    AndVOrIMultiHash,
    /// `and_v(v:pk.., and_v(v:hash, older|after))`.
    AndVPkHashLock,
    /// `and_v(v:hash, and_v(v:pk.., older|after))`.
    AndVHashPkLock,
    /// `and_v(v:older|after, and_v(v:pk.., hash))`.
    AndVLockPkHash,
    /// `and_v(v:pk.., and_v(v:older|after, hash))`.
    AndVPkLockHash,
    /// `and_v(v:hash, and_v(v:older|after, pk..))`.
    AndVHashLockPk,
    /// `and_v(v:older|after, and_v(v:hash, pk..))`.
    AndVLockHashPk,
    /// `or_d(pk(a), pk(b))`.
    OrDChecksig,
    /// `and_n(pk(a), pk(b))`.
    AndNChecksig,
    /// `andor(pk(a), pk(b), pk(c))`.
    AndorChecksig,
    /// A hash preimage alone.
    HashPreimage,
    /// `and_v(v:pk(a), hash)`.
    AndVPkHash,
    /// `and_v(v:hash, pk(a))`.
    AndVHashPk,
    /// `and_v(v:pk(a), older(n))`.
    AndVPkOlder,
    /// `and_v(v:older(n), pk(a))`.
    AndVOlderPk,
    /// `older(n)` alone.
    OlderAlone,
    /// `and_v(v:pk(a), after(n))`.
    AndVPkAfter,
    /// `and_v(v:after(n), pk(a))`.
    AndVAfterPk,
    /// `after(n)` alone.
    AfterAlone,
    /// `or_c(pk(a), pk(b))`.
    OrCChecksig,
    /// `or_i(pk(a), pk(b))`.
    OrIChecksig,
    /// `or_i(and_v(v:pk.., pk), older(n))`.
    OrIAndVPkOlder,
    /// `or_i(and_v(v:pk.., pk), after(n))`.
    OrIAndVPkAfter,
    /// `or_i(and_v(v:pk.., pk), hash)`.
    OrIAndVPkHash,
    /// `or_i(and_v(v:pk.., pk), and_v(v:pk.., older(n)))`.
    OrIPkAndVPkOlder,
    /// `or_i(and_v(v:pk.., pk), and_v(v:pk.., after(n)))`.
    OrIPkAndVPkAfter,
    /// `or_i(and_v(v:pk.., pk), and_v(v:pk.., hash))`.
    OrIPkAndVPkHash,
    /// `or_i(and_v(v:pk.., hash), and_v(v:pk.., older(n)))`.
    OrIHashAndVPkOlder,
    /// `or_i(and_v(v:pk.., hash), and_v(v:pk.., after(n)))`.
    OrIHashAndVPkAfter,
    /// `or_i(and_v(v:pk.., older(n)), and_v(v:pk.., hash))`.
    OrIOlderAndVPkHash,
    /// `or_i(and_v(v:pk.., after(n)), and_v(v:pk.., hash))`.
    OrIAfterAndVPkHash,
    /// `or_i(and_v(v:pk.., hash), and_v(v:pk.., hash))`.
    OrIHashAndVPkHash,
    /// `or_i(and_v(v:pk.., older|after), and_v(v:pk.., older|after))`.
    OrILockAndVPkLock,
    /// `multi_a(k, key, ..)`.
    ChecksigaddMulti,
    /// `thresh(k, pk, s:pk, ..)`.
    ThreshChecksig,
    /// `thresh(k, pk, a:pk, ..)`.
    ThreshAPkChecksig,
    /// `thresh(k, pk, s:pk, a:pk, ..)`.
    ThreshMixedSaChecksig,
    /// `thresh(k, pk, s:pk, s:hash, ..)`.
    ThreshSHash,
    /// `thresh(k, pk, a:pk, a:hash, ..)`.
    ThreshAHash,
    /// `thresh(k, pk, s:pk, a:hash, ..)`.
    ThreshMixedSaHash,
}

/// The opcodes of a script in order, without those that hash or push a number. Of
/// `OP_CHECKSIGVERIFY` one is left where several keys follow each other, and none where the last
/// of these keys has `OP_CHECKSIG`.
pub enum Outline {
    End,
    Op(u8, Box<Outline>),
}

/// An opcode and what follows.
pub open spec fn on(op: u8, rest: Outline) -> Outline {
    Outline::Op(op, Box::new(rest))
}

/// Whether an opcode hashes or pushes a number.
pub open spec fn left_out(op: u8) -> bool {
    0x51 <= op <= 0x60 || op == OP_RIPEMD160 || op == OP_SHA256 || op == OP_HASH160 || op
        == OP_HASH256
}

/// The outline with an opcode before it.
pub open spec fn with_op(op: u8, rest: Outline) -> Outline {
    if left_out(op) {
        rest
    } else if op == OP_CHECKSIGVERIFY && (rest matches Outline::Op(next, _) && (next
        == OP_CHECKSIGVERIFY || next == OP_CHECKSIG)) {
        rest
    } else {
        on(op, rest)
    }
}

/// The outline of the instructions from `pos` on.
pub open spec fn outline_from(tokens: Seq<Token>, pos: int) -> Outline
    decreases tokens.len() - pos,
{
    if pos >= tokens.len() {
        Outline::End
    } else {
        match tokens[pos] {
            Token::Op(op) => with_op(op, outline_from(tokens, pos + 1)),
            _ => outline_from(tokens, pos + 1),
        }
    }
}

/// The number of `OP_CHECKSIGVERIFY` from `pos` on.
pub open spec fn verifies_from(tokens: Seq<Token>, pos: int) -> nat
    decreases tokens.len() - pos,
{
    if pos >= tokens.len() {
        0
    } else if tokens[pos] == Token::Op(OP_CHECKSIGVERIFY) {
        1 + verifies_from(tokens, pos + 1)
    } else {
        verifies_from(tokens, pos + 1)
    }
}

/// Whether an opcode is in an outline.
pub open spec fn has_op(outline: Outline, op: u8) -> bool
    decreases outline,
{
    match outline {
        Outline::End => false,
        Outline::Op(first, rest) => first == op || has_op(*rest, op),
    }
}

/// The template with this outline and this number of `OP_CHECKSIGVERIFY`.
pub open spec fn named(outline: Outline, verifies: nat) -> Template {
    if outline == on(OP_CHECKSIG, Outline::End) {
        Template::AndVChecksigverify
    } else if outline == on(OP_CHECKSIGVERIFY, on(OP_SIZE, on(OP_EQUALVERIFY, on(OP_EQUALVERIFY, on(OP_SIZE, on(OP_EQUALVERIFY, on(OP_EQUALVERIFY, on(OP_CSV, Outline::End)))))))) {
        Template::AndVPkDualHashLock
    } else if outline == on(OP_CHECKSIGVERIFY, on(OP_SIZE, on(OP_EQUALVERIFY, on(OP_EQUALVERIFY, on(OP_SIZE, on(OP_EQUALVERIFY, on(OP_EQUALVERIFY, on(OP_CLTV, Outline::End)))))))) {
        Template::AndVPkDualHashLock
    } else if outline == on(OP_CHECKSIGVERIFY, on(OP_SIZE, on(OP_EQUALVERIFY, on(OP_EQUALVERIFY, on(OP_SIZE, on(OP_EQUALVERIFY, on(OP_EQUAL, Outline::End))))))) {
        Template::AndVPkDualHash
    } else if outline == on(OP_SIZE, on(OP_EQUALVERIFY, on(OP_EQUALVERIFY, on(OP_SIZE, on(OP_EQUALVERIFY, on(OP_EQUALVERIFY, on(OP_CHECKSIG, Outline::End))))))) {
        Template::AndVDualHashPk
    } else if outline == on(OP_SIZE, on(OP_EQUALVERIFY, on(OP_EQUALVERIFY, on(OP_CHECKSIGVERIFY, on(OP_SIZE, on(OP_EQUALVERIFY, on(OP_EQUAL, Outline::End))))))) {
        Template::AndVHashPkHash
    } else if outline == on(OP_SIZE, on(OP_EQUALVERIFY, on(OP_EQUALVERIFY, on(OP_SIZE, on(OP_EQUALVERIFY, on(OP_EQUALVERIFY, on(OP_CHECKSIGVERIFY, on(OP_CSV, Outline::End)))))))) {
        Template::AndVDualHashPkLock
    } else if outline == on(OP_SIZE, on(OP_EQUALVERIFY, on(OP_EQUALVERIFY, on(OP_SIZE, on(OP_EQUALVERIFY, on(OP_EQUALVERIFY, on(OP_CHECKSIGVERIFY, on(OP_CLTV, Outline::End)))))))) {
        Template::AndVDualHashPkLock
    } else if outline == on(OP_CHECKSIGVERIFY, on(OP_CSV, Outline::End)) {
        if verifies >= 2 {
            Template::AndVMultiPkOlder
        } else {
            Template::AndVPkOlder
        }
    } else if outline == on(OP_CHECKSIGVERIFY, on(OP_CLTV, Outline::End)) {
        if verifies >= 2 {
            Template::AndVMultiPkAfter
        } else {
            Template::AndVPkAfter
        }
    } else if outline == on(OP_CHECKSIGVERIFY, on(OP_SIZE, on(OP_EQUALVERIFY, on(OP_EQUAL, Outline::End)))) {
        if verifies >= 2 {
            Template::AndVMultiPkHash
        } else {
            Template::AndVPkHash
        }
    } else if outline == on(OP_CSV, on(OP_VERIFY, on(OP_CHECKSIG, Outline::End))) {
        if verifies >= 1 {
            Template::AndVOlderMultiPk
        } else {
            Template::AndVOlderPk
        }
    } else if outline == on(OP_CLTV, on(OP_VERIFY, on(OP_CHECKSIG, Outline::End))) {
        if verifies >= 1 {
            Template::AndVAfterMultiPk
        } else {
            Template::AndVAfterPk
        }
    } else if outline == on(OP_SIZE, on(OP_EQUALVERIFY, on(OP_EQUALVERIFY, on(OP_CHECKSIG, Outline::End)))) {
        if verifies >= 1 {
            Template::AndVHashMultiPk
        } else {
            Template::AndVHashPk
        }
    } else if outline == on(OP_CHECKSIGVERIFY, on(OP_CSV, on(OP_VERIFY, on(OP_CHECKSIG, Outline::End)))) {
        Template::AndVMultiPkOlderMultiPk
    } else if outline == on(OP_CHECKSIGVERIFY, on(OP_CLTV, on(OP_VERIFY, on(OP_CHECKSIG, Outline::End)))) {
        Template::AndVMultiPkAfterMultiPk
    } else if outline == on(OP_CHECKSIGVERIFY, on(OP_SIZE, on(OP_EQUALVERIFY, on(OP_EQUALVERIFY, on(OP_CHECKSIG, Outline::End))))) {
        Template::AndVMultiPkHashMultiPk
    } else if outline == on(OP_CHECKSIG, on(OP_NOTIF, on(OP_CHECKSIGVERIFY, on(OP_ENDIF, on(OP_CSV, Outline::End))))) {
        Template::AndVOrCOlder
    } else if outline == on(OP_CHECKSIG, on(OP_NOTIF, on(OP_CHECKSIGVERIFY, on(OP_ENDIF, on(OP_CLTV, Outline::End))))) {
        Template::AndVOrCAfter
    } else if outline == on(OP_CHECKSIG, on(OP_NOTIF, on(OP_CHECKSIGVERIFY, on(OP_ENDIF, on(OP_SIZE, on(OP_EQUALVERIFY, on(OP_EQUAL, Outline::End))))))) {
        Template::AndVOrCHash
    } else if outline == on(OP_IF, on(OP_CHECKSIGVERIFY, on(OP_ELSE, on(OP_CHECKSIGVERIFY, on(OP_ENDIF, on(OP_CSV, Outline::End)))))) {
        Template::AndVOrIOlder
    } else if outline == on(OP_IF, on(OP_CHECKSIGVERIFY, on(OP_ELSE, on(OP_CHECKSIGVERIFY, on(OP_ENDIF, on(OP_CLTV, Outline::End)))))) {
        Template::AndVOrIAfter
    } else if outline == on(OP_IF, on(OP_CHECKSIGVERIFY, on(OP_ELSE, on(OP_CHECKSIGVERIFY, on(OP_ENDIF, on(OP_SIZE, on(OP_EQUALVERIFY, on(OP_EQUAL, Outline::End)))))))) {
        Template::AndVOrIHash
    } else if outline == on(OP_CHECKSIG, on(OP_NOTIF, on(OP_CHECKSIG, on(OP_NOTIF, on(OP_CHECKSIGVERIFY, on(OP_ENDIF, on(OP_ENDIF, on(OP_CSV, Outline::End)))))))) {
        Template::AndVOrCMultiOlder
    } else if outline == on(OP_CHECKSIG, on(OP_NOTIF, on(OP_CHECKSIG, on(OP_NOTIF, on(OP_CHECKSIGVERIFY, on(OP_ENDIF, on(OP_ENDIF, on(OP_CLTV, Outline::End)))))))) {
        Template::AndVOrCMultiAfter
    } else if outline == on(OP_CHECKSIG, on(OP_NOTIF, on(OP_CHECKSIG, on(OP_NOTIF, on(OP_CHECKSIGVERIFY, on(OP_ENDIF, on(OP_ENDIF, on(OP_SIZE, on(OP_EQUALVERIFY, on(OP_EQUAL, Outline::End)))))))))) {
        Template::AndVOrCMultiHash
    } else if outline == on(OP_IF, on(OP_CHECKSIGVERIFY, on(OP_ELSE, on(OP_IF, on(OP_CHECKSIGVERIFY, on(OP_ELSE, on(OP_CHECKSIGVERIFY, on(OP_ENDIF, on(OP_ENDIF, on(OP_CSV, Outline::End)))))))))) {
        Template::AndVOrIMultiOlder
    } else if outline == on(OP_IF, on(OP_CHECKSIGVERIFY, on(OP_ELSE, on(OP_IF, on(OP_CHECKSIGVERIFY, on(OP_ELSE, on(OP_CHECKSIGVERIFY, on(OP_ENDIF, on(OP_ENDIF, on(OP_CLTV, Outline::End)))))))))) {
        Template::AndVOrIMultiAfter
    } else if outline == on(OP_IF, on(OP_CHECKSIGVERIFY, on(OP_ELSE, on(OP_IF, on(OP_CHECKSIGVERIFY, on(OP_ELSE, on(OP_CHECKSIGVERIFY, on(OP_ENDIF, on(OP_ENDIF, on(OP_SIZE, on(OP_EQUALVERIFY, on(OP_EQUAL, Outline::End)))))))))))) {
        Template::AndVOrIMultiHash
    } else if outline == on(OP_CHECKSIGVERIFY, on(OP_SIZE, on(OP_EQUALVERIFY, on(OP_EQUALVERIFY, on(OP_CSV, Outline::End))))) {
        Template::AndVPkHashLock
    } else if outline == on(OP_CHECKSIGVERIFY, on(OP_SIZE, on(OP_EQUALVERIFY, on(OP_EQUALVERIFY, on(OP_CLTV, Outline::End))))) {
        Template::AndVPkHashLock
    } else if outline == on(OP_SIZE, on(OP_EQUALVERIFY, on(OP_EQUALVERIFY, on(OP_CHECKSIGVERIFY, on(OP_CSV, Outline::End))))) {
        Template::AndVHashPkLock
    } else if outline == on(OP_SIZE, on(OP_EQUALVERIFY, on(OP_EQUALVERIFY, on(OP_CHECKSIGVERIFY, on(OP_CLTV, Outline::End))))) {
        Template::AndVHashPkLock
    } else if outline == on(OP_CSV, on(OP_VERIFY, on(OP_CHECKSIGVERIFY, on(OP_SIZE, on(OP_EQUALVERIFY, on(OP_EQUAL, Outline::End)))))) {
        Template::AndVLockPkHash
    } else if outline == on(OP_CLTV, on(OP_VERIFY, on(OP_CHECKSIGVERIFY, on(OP_SIZE, on(OP_EQUALVERIFY, on(OP_EQUAL, Outline::End)))))) {
        Template::AndVLockPkHash
    } else if outline == on(OP_CHECKSIGVERIFY, on(OP_CSV, on(OP_VERIFY, on(OP_SIZE, on(OP_EQUALVERIFY, on(OP_EQUAL, Outline::End)))))) {
        Template::AndVPkLockHash
    } else if outline == on(OP_CHECKSIGVERIFY, on(OP_CLTV, on(OP_VERIFY, on(OP_SIZE, on(OP_EQUALVERIFY, on(OP_EQUAL, Outline::End)))))) {
        Template::AndVPkLockHash
    } else if outline == on(OP_SIZE, on(OP_EQUALVERIFY, on(OP_EQUALVERIFY, on(OP_CSV, on(OP_VERIFY, on(OP_CHECKSIG, Outline::End)))))) {
        Template::AndVHashLockPk
    } else if outline == on(OP_SIZE, on(OP_EQUALVERIFY, on(OP_EQUALVERIFY, on(OP_CLTV, on(OP_VERIFY, on(OP_CHECKSIG, Outline::End)))))) {
        Template::AndVHashLockPk
    } else if outline == on(OP_CSV, on(OP_VERIFY, on(OP_SIZE, on(OP_EQUALVERIFY, on(OP_EQUALVERIFY, on(OP_CHECKSIG, Outline::End)))))) {
        Template::AndVLockHashPk
    } else if outline == on(OP_CLTV, on(OP_VERIFY, on(OP_SIZE, on(OP_EQUALVERIFY, on(OP_EQUALVERIFY, on(OP_CHECKSIG, Outline::End)))))) {
        Template::AndVLockHashPk
    } else if outline == on(OP_CHECKSIG, on(OP_IFDUP, on(OP_NOTIF, on(OP_CHECKSIG, on(OP_ENDIF, Outline::End))))) {
        Template::OrDChecksig
    } else if outline == on(OP_CHECKSIG, on(OP_NOTIF, on(OP_ELSE, on(OP_CHECKSIG, on(OP_ENDIF, Outline::End))))) {
        Template::AndNChecksig
    } else if outline == on(OP_CHECKSIG, on(OP_NOTIF, on(OP_CHECKSIG, on(OP_ELSE, on(OP_CHECKSIG, on(OP_ENDIF, Outline::End)))))) {
        Template::AndorChecksig
    } else if outline == on(OP_SIZE, on(OP_EQUALVERIFY, on(OP_EQUAL, Outline::End))) {
        Template::HashPreimage
    } else if outline == on(OP_CSV, Outline::End) {
        Template::OlderAlone
    } else if outline == on(OP_CLTV, Outline::End) {
        Template::AfterAlone
    } else if outline == on(OP_CHECKSIG, on(OP_NOTIF, on(OP_CHECKSIG, on(OP_ENDIF, Outline::End)))) {
        Template::OrCChecksig
    } else if outline == on(OP_IF, on(OP_CHECKSIG, on(OP_ELSE, on(OP_CHECKSIG, on(OP_ENDIF, Outline::End))))) {
        Template::OrIChecksig
    } else if outline == on(OP_IF, on(OP_CHECKSIG, on(OP_ELSE, on(OP_CSV, on(OP_ENDIF, Outline::End))))) {
        Template::OrIAndVPkOlder
    } else if outline == on(OP_IF, on(OP_CHECKSIG, on(OP_ELSE, on(OP_CLTV, on(OP_ENDIF, Outline::End))))) {
        Template::OrIAndVPkAfter
    } else if outline == on(OP_IF, on(OP_CHECKSIG, on(OP_ELSE, on(OP_SIZE, on(OP_EQUALVERIFY, on(OP_EQUAL, on(OP_ENDIF, Outline::End))))))) {
        Template::OrIAndVPkHash
    } else if outline == on(OP_IF, on(OP_CHECKSIG, on(OP_ELSE, on(OP_CHECKSIGVERIFY, on(OP_CSV, on(OP_ENDIF, Outline::End)))))) {
        Template::OrIPkAndVPkOlder
    } else if outline == on(OP_IF, on(OP_CHECKSIG, on(OP_ELSE, on(OP_CHECKSIGVERIFY, on(OP_CLTV, on(OP_ENDIF, Outline::End)))))) {
        Template::OrIPkAndVPkAfter
    } else if outline == on(OP_IF, on(OP_CHECKSIG, on(OP_ELSE, on(OP_CHECKSIGVERIFY, on(OP_SIZE, on(OP_EQUALVERIFY, on(OP_EQUAL, on(OP_ENDIF, Outline::End)))))))) {
        Template::OrIPkAndVPkHash
    } else if outline == on(OP_IF, on(OP_CHECKSIGVERIFY, on(OP_SIZE, on(OP_EQUALVERIFY, on(OP_EQUAL, on(OP_ELSE, on(OP_CHECKSIGVERIFY, on(OP_CSV, on(OP_ENDIF, Outline::End))))))))) {
        Template::OrIHashAndVPkOlder
    } else if outline == on(OP_IF, on(OP_CHECKSIGVERIFY, on(OP_SIZE, on(OP_EQUALVERIFY, on(OP_EQUAL, on(OP_ELSE, on(OP_CHECKSIGVERIFY, on(OP_CLTV, on(OP_ENDIF, Outline::End))))))))) {
        Template::OrIHashAndVPkAfter
    } else if outline == on(OP_IF, on(OP_CHECKSIGVERIFY, on(OP_CSV, on(OP_ELSE, on(OP_CHECKSIGVERIFY, on(OP_SIZE, on(OP_EQUALVERIFY, on(OP_EQUAL, on(OP_ENDIF, Outline::End))))))))) {
        Template::OrIOlderAndVPkHash
    } else if outline == on(OP_IF, on(OP_CHECKSIGVERIFY, on(OP_CLTV, on(OP_ELSE, on(OP_CHECKSIGVERIFY, on(OP_SIZE, on(OP_EQUALVERIFY, on(OP_EQUAL, on(OP_ENDIF, Outline::End))))))))) {
        Template::OrIAfterAndVPkHash
    } else if outline == on(OP_IF, on(OP_CHECKSIGVERIFY, on(OP_SIZE, on(OP_EQUALVERIFY, on(OP_EQUAL, on(OP_ELSE, on(OP_CHECKSIGVERIFY, on(OP_SIZE, on(OP_EQUALVERIFY, on(OP_EQUAL, on(OP_ENDIF, Outline::End))))))))))) {
        Template::OrIHashAndVPkHash
    } else if outline == on(OP_IF, on(OP_CHECKSIGVERIFY, on(OP_CSV, on(OP_ELSE, on(OP_CHECKSIGVERIFY, on(OP_CSV, on(OP_ENDIF, Outline::End))))))) {
        Template::OrILockAndVPkLock
    } else if outline == on(OP_IF, on(OP_CHECKSIGVERIFY, on(OP_CSV, on(OP_ELSE, on(OP_CHECKSIGVERIFY, on(OP_CLTV, on(OP_ENDIF, Outline::End))))))) {
        Template::OrILockAndVPkLock
    } else if outline == on(OP_IF, on(OP_CHECKSIGVERIFY, on(OP_CLTV, on(OP_ELSE, on(OP_CHECKSIGVERIFY, on(OP_CSV, on(OP_ENDIF, Outline::End))))))) {
        Template::OrILockAndVPkLock
    } else if outline == on(OP_IF, on(OP_CHECKSIGVERIFY, on(OP_CLTV, on(OP_ELSE, on(OP_CHECKSIGVERIFY, on(OP_CLTV, on(OP_ENDIF, Outline::End))))))) {
        Template::OrILockAndVPkLock
    } else if outline matches Outline::Op(a, rest) && a == OP_CHECKSIG && (*rest matches Outline::Op(
        b,
        _,
    ) && b == OP_CHECKSIGADD) {
        Template::ChecksigaddMulti
    } else if has_op(outline, OP_SIZE) {
        if !has_op(outline, OP_TOALTSTACK) {
            Template::ThreshSHash
        } else if !has_op(outline, OP_SWAP) {
            Template::ThreshAHash
        } else {
            Template::ThreshMixedSaHash
        }
    } else {
        if !has_op(outline, OP_TOALTSTACK) {
            Template::ThreshChecksig
        } else if !has_op(outline, OP_SWAP) {
            Template::ThreshAPkChecksig
        } else {
            Template::ThreshMixedSaChecksig
        }
    }
}

/// The template that a script can be: a script is that one or none.
pub open spec fn template_of(tokens: Seq<Token>) -> Template {
    named(outline_from(tokens, 0), verifies_from(tokens, 0))
}

/// The outline of a run of arms with what follows.
pub open spec fn arms_outline(arms: Seq<Arm>, rest: Outline) -> Outline
    decreases arms.len(),
{
    if arms.len() == 0 {
        rest
    } else {
        arms_outline(arms.drop_last(), arm_outline(arms.last(), rest))
    }
}

/// The outline of an arm with what follows.
pub open spec fn arm_outline(arm: Arm, rest: Outline) -> Outline {
    if arm.swap {
        on(OP_SWAP, check_outline(arm.check, on(OP_ADD, rest)))
    } else {
        on(OP_TOALTSTACK, check_outline(arm.check, on(OP_FROMALTSTACK, on(OP_ADD, rest))))
    }
}

/// The outline of the check of an arm with what follows.
pub open spec fn check_outline(check: ArmCheck, rest: Outline) -> Outline {
    match check {
        ArmCheck::Key(_) => on(OP_CHECKSIG, rest),
        ArmCheck::Preimage(_, _) => on(OP_SIZE, on(OP_EQUALVERIFY, on(OP_EQUAL, rest))),
    }
}

/// The outline of rounds of `<key> OP_CHECKSIGADD` with what follows.
pub open spec fn adds_outline(n: nat, rest: Outline) -> Outline
    decreases n,
{
    if n == 0 {
        rest
    } else {
        on(OP_CHECKSIGADD, adds_outline((n - 1) as nat, rest))
    }
}

/// The outline of a part with what follows.
pub open spec fn part_outline(part: Part, seen: Seen, rest: Outline) -> Outline {
    match (part, seen) {
        (Part::Op(op), _) => with_op(op, rest),
        (Part::VerifyKeys(_), Seen::Keys(keys)) => if keys.len() == 0 {
            rest
        } else {
            with_op(OP_CHECKSIGVERIFY, rest)
        },
        (Part::CheckKeys(_), _) => on(OP_CHECKSIG, rest),
        (Part::AddKeys(_), Seen::Keys(keys)) => adds_outline(keys.len(), rest),
        (Part::Preimage(end), _) => on(OP_SIZE, on(OP_EQUALVERIFY, with_op(end, rest))),
        (Part::Older | Part::After | Part::Timeout, Seen::Lock(DualTimeoutLock::Older(_))) => on(
            OP_CSV,
            rest,
        ),
        (Part::Older | Part::After | Part::Timeout, Seen::Lock(DualTimeoutLock::After(_))) => on(
            OP_CLTV,
            rest,
        ),
        (Part::Arms, Seen::Arms(arms)) => arms_outline(arms, rest),
        _ => rest,
    }
}

/// The number of `OP_CHECKSIGVERIFY` in a part.
pub open spec fn part_verifies(part: Part, seen: Seen) -> nat {
    match (part, seen) {
        (Part::Op(op), _) => if op == OP_CHECKSIGVERIFY {
            1
        } else {
            0
        },
        (Part::VerifyKeys(_), Seen::Keys(keys)) => keys.len(),
        (Part::CheckKeys(_), Seen::Keys(keys)) => (keys.len() - 1) as nat,
        (Part::Preimage(end), _) => if end == OP_CHECKSIGVERIFY {
            1
        } else {
            0
        },
        _ => 0,
    }
}

/// The outline of the parts from index `i` on.
pub open spec fn parts_outline(parts: Seq<Part>, seen: Seq<Seen>, i: int) -> Outline
    decreases parts.len() - i,
{
    if i >= parts.len() {
        Outline::End
    } else {
        part_outline(parts[i], seen[i], parts_outline(parts, seen, i + 1))
    }
}

/// The number of `OP_CHECKSIGVERIFY` in the parts from index `i` on.
pub open spec fn parts_verifies(parts: Seq<Part>, seen: Seq<Seen>, i: int) -> nat
    decreases parts.len() - i,
{
    if i >= parts.len() {
        0
    } else {
        part_verifies(parts[i], seen[i]) + parts_verifies(parts, seen, i + 1)
    }
}

/// A run of `<key> op`.
proof fn lemma_run(tokens: Seq<Token>, pos: int, op: u8, keys: Seq<XOnlyKey>)
    requires
        0 <= pos,
        op == OP_CHECKSIGVERIFY || op == OP_CHECKSIGADD,
        spells_at(tokens, pos, keys_with(op, keys)),
    ensures
        ({
            let rest = outline_from(tokens, pos + 2 * keys.len());
            outline_from(tokens, pos) == if op == OP_CHECKSIGADD {
                adds_outline(keys.len(), rest)
            } else if keys.len() == 0 {
                rest
            } else {
                with_op(op, rest)
            }
        }),
        verifies_from(tokens, pos) == verifies_from(tokens, pos + 2 * keys.len()) + if op
            == OP_CHECKSIGVERIFY {
            keys.len()
        } else {
            0
        },
    decreases keys.len(),
{
    if keys.len() > 0 {
        let slots = keys_with(op, keys);
        let others = keys.skip(1);
        assert(fits(tokens[pos + 0], slots[0]));
        assert(fits(tokens[pos + 1], slots[1]));
        assert forall|i: int| 0 <= i < keys_with(op, others).len() implies fits(
            tokens[pos + 2 + i],
            #[trigger] keys_with(op, others)[i],
        ) by {
            assert(fits(tokens[pos + (i + 2)], slots[i + 2]));
            assert((i + 2) / 2 == i / 2 + 1 && (i + 2) % 2 == i % 2);
        }
        lemma_run(tokens, pos + 2, op, others);
        reveal_with_fuel(outline_from, 3);
        reveal_with_fuel(verifies_from, 3);
    }
}

/// The check of an arm, or a preimage check in general.
proof fn lemma_preimage(tokens: Seq<Token>, pos: int, slots: Seq<Slot>, end: u8)
    requires
        0 <= pos,
        exists|kind: TapscriptHashKind, digest: Seq<u8>|
            slots == #[trigger] preimage(kind, digest, end),
        spells_at(tokens, pos, slots),
    ensures
        outline_from(tokens, pos) == on(
            OP_SIZE,
            on(OP_EQUALVERIFY, with_op(end, outline_from(tokens, pos + 6))),
        ),
        verifies_from(tokens, pos) == verifies_from(tokens, pos + 6) + if end
            == OP_CHECKSIGVERIFY {
            1nat
        } else {
            0
        },
{
    let (kind, digest) = choose|kind: TapscriptHashKind, digest: Seq<u8>|
        slots == #[trigger] preimage(kind, digest, end);
    assert(fits(tokens[pos + 0], slots[0]));
    assert(fits(tokens[pos + 1], slots[1]));
    assert(fits(tokens[pos + 2], slots[2]));
    assert(fits(tokens[pos + 3], slots[3]));
    assert(fits(tokens[pos + 4], slots[4]));
    assert(fits(tokens[pos + 5], slots[5]));
    assert(left_out(kind.opcode()));
    reveal_with_fuel(outline_from, 7);
    reveal_with_fuel(verifies_from, 7);
}

/// One arm.
proof fn lemma_arm_outline(tokens: Seq<Token>, pos: int, arm: Arm)
    requires
        0 <= pos,
        spells_at(tokens, pos, arm_slots(arm)),
    ensures
        outline_from(tokens, pos) == arm_outline(
            arm,
            outline_from(tokens, pos + arm_slots(arm).len()),
        ),
        verifies_from(tokens, pos) == verifies_from(tokens, pos + arm_slots(arm).len()),
{
    let check = arm_check_slots(arm.check);
    let first = code(if arm.swap { OP_SWAP } else { OP_TOALTSTACK });
    let tail = if arm.swap {
        code(OP_ADD)
    } else {
        seq![Slot::Op(OP_FROMALTSTACK), Slot::Op(OP_ADD)]
    };
    lemma_spells_concat(tokens, pos, first + check, tail);
    lemma_spells_concat(tokens, pos, first, check);
    assert(fits(tokens[pos + 0], first[0]));
    let after_check = pos + 1 + check.len();
    assert(fits(tokens[after_check + 0], tail[0]));
    if !arm.swap {
        assert(fits(tokens[after_check + 1], tail[1]));
    }
    assert(outline_from(tokens, after_check) == if arm.swap {
        on(OP_ADD, outline_from(tokens, after_check + 1))
    } else {
        on(OP_FROMALTSTACK, on(OP_ADD, outline_from(tokens, after_check + 2)))
    } && verifies_from(tokens, after_check) == verifies_from(
        tokens,
        after_check + tail.len(),
    )) by {
        reveal_with_fuel(outline_from, 3);
        reveal_with_fuel(verifies_from, 3);
    }
    match arm.check {
        ArmCheck::Key(key) => {
            assert(fits(tokens[pos + 1 + 0], check[0]));
            assert(fits(tokens[pos + 1 + 1], check[1]));
            assert(outline_from(tokens, pos + 1) == on(
                OP_CHECKSIG,
                outline_from(tokens, after_check),
            ) && verifies_from(tokens, pos + 1) == verifies_from(tokens, after_check)) by {
                reveal_with_fuel(outline_from, 3);
                reveal_with_fuel(verifies_from, 3);
            }
        },
        ArmCheck::Preimage(kind, digest) => {
            lemma_preimage(tokens, pos + 1, check, OP_EQUAL);
        },
    }
}

/// A run of arms.
proof fn lemma_arms_outline(tokens: Seq<Token>, pos: int, arms: Seq<Arm>)
    requires
        0 <= pos,
        spells_at(tokens, pos, arms_slots(arms)),
    ensures
        outline_from(tokens, pos) == arms_outline(
            arms,
            outline_from(tokens, pos + arms_slots(arms).len()),
        ),
        verifies_from(tokens, pos) == verifies_from(tokens, pos + arms_slots(arms).len()),
    decreases arms.len(),
{
    if arms.len() > 0 {
        let front = arms.drop_last();
        lemma_spells_concat(tokens, pos, arms_slots(front), arm_slots(arms.last()));
        lemma_arms_outline(tokens, pos, front);
        lemma_arm_outline(tokens, pos + arms_slots(front).len(), arms.last());
    }
}

/// One part.
proof fn lemma_part_outline(tokens: Seq<Token>, pos: int, part: Part, seen: Seen)
    requires
        0 <= pos,
        suits(part, seen),
        spells_at(tokens, pos, part_slots(part, seen)),
    ensures
        outline_from(tokens, pos) == part_outline(
            part,
            seen,
            outline_from(tokens, pos + part_slots(part, seen).len()),
        ),
        verifies_from(tokens, pos) == part_verifies(part, seen) + verifies_from(
            tokens,
            pos + part_slots(part, seen).len(),
        ),
{
    let slots = part_slots(part, seen);
    match part {
        Part::Op(_) | Part::Key | Part::EmptyPush | Part::Count => {
            assert(fits(tokens[pos + 0], slots[0]));
        },
        Part::VerifyKeys(_) => {
            lemma_run(tokens, pos, OP_CHECKSIGVERIFY, seen->Keys_0);
        },
        Part::AddKeys(_) => {
            lemma_run(tokens, pos, OP_CHECKSIGADD, seen->Keys_0);
        },
        Part::CheckKeys(_) => {
            let keys = seen->Keys_0;
            let front = keys.drop_last();
            let tail = seq![Slot::Key(keys.last()), Slot::Op(OP_CHECKSIG)];
            lemma_spells_concat(tokens, pos, verify_keys(front), tail);
            lemma_run(tokens, pos, OP_CHECKSIGVERIFY, front);
            let last = pos + 2 * front.len();
            assert(fits(tokens[last + 0], tail[0]));
            assert(fits(tokens[last + 1], tail[1]));
            reveal_with_fuel(outline_from, 3);
            reveal_with_fuel(verifies_from, 3);
        },
        Part::Preimage(end) => {
            lemma_preimage(tokens, pos, slots, end);
        },
        Part::Older | Part::After | Part::Timeout => {
            assert(fits(tokens[pos + 0], slots[0]));
            assert(fits(tokens[pos + 1], slots[1]));
            reveal_with_fuel(outline_from, 3);
            reveal_with_fuel(verifies_from, 3);
        },
        Part::Arms => {
            lemma_arms_outline(tokens, pos, seen->Arms_0);
        },
    }
}

/// The parts from index `i` on.
proof fn lemma_parts_outline(
    tokens: Seq<Token>,
    pos: int,
    parts: Seq<Part>,
    seen: Seq<Seen>,
    i: int,
)
    requires
        0 <= pos,
        0 <= i <= parts.len(),
        suit(parts, seen),
        ends_with(tokens, pos, fragments(parts.skip(i), seen.skip(i)).flatten()),
    ensures
        outline_from(tokens, pos) == parts_outline(parts, seen, i),
        verifies_from(tokens, pos) == parts_verifies(parts, seen, i),
    decreases parts.len() - i,
{
    let mine = parts.skip(i);
    let held = seen.skip(i);
    if i == parts.len() {
        assert(fragments(mine, held) =~= Seq::empty());
    } else {
        assert forall|j: int| 0 <= j < mine.len() implies suits(#[trigger] mine[j], held[j]) by {
            assert(suits(parts[i + j], seen[i + j]));
        }
        lemma_first_part(tokens, pos, mine, held);
        assert(mine.skip(1) =~= parts.skip(i + 1));
        assert(held.skip(1) =~= seen.skip(i + 1));
        assert(suits(mine[0], held[0]));
        lemma_part_outline(tokens, pos, mine[0], held[0]);
        lemma_parts_outline(
            tokens,
            pos + part_slots(mine[0], held[0]).len(),
            parts,
            seen,
            i + 1,
        );
    }
}

/// What the parts of a script say of its template.
pub proof fn lemma_template_of(tokens: Seq<Token>, parts: Seq<Part>, seen: Seq<Seen>)
    requires
        suit(parts, seen),
        spells(tokens, fragments(parts, seen)),
    ensures
        template_of(tokens) == named(
            parts_outline(parts, seen, 0),
            parts_verifies(parts, seen, 0),
        ),
{
    assert(parts.skip(0) =~= parts);
    assert(seen.skip(0) =~= seen);
    lemma_parts_outline(tokens, 0, parts, seen, 0);
}

/// However a script is read as a template, it is the same template.
pub proof fn lemma_one_template(
    tokens: Seq<Token>,
    parts: Seq<Part>,
    seen: Seq<Seen>,
    other_parts: Seq<Part>,
    other_seen: Seq<Seen>,
)
    requires
        suit(parts, seen),
        spells(tokens, fragments(parts, seen)),
        suit(other_parts, other_seen),
        spells(tokens, fragments(other_parts, other_seen)),
    ensures
        named(parts_outline(parts, seen, 0), parts_verifies(parts, seen, 0)) == named(
            parts_outline(other_parts, other_seen, 0),
            parts_verifies(other_parts, other_seen, 0),
        ),
{
    lemma_template_of(tokens, parts, seen);
    lemma_template_of(tokens, other_parts, other_seen);
}

} // verus!
