//! Matching of a leaf script against a template.
//!
//! A template is a list of parts. Matching reads them from left to right; every part that repeats
//! takes as much as it can, which loses nothing because no part that follows it can start with
//! another round of it.

use vstd::pervasive::unreached;
use vstd::prelude::*;

use crate::tapscript::common::{
    small_pushnum, OP_ADD, OP_CHECKSIG, OP_CHECKSIGADD, OP_CHECKSIGVERIFY, OP_CLTV, OP_CSV,
    OP_EQUAL, OP_EQUALVERIFY, OP_FROMALTSTACK, OP_SIZE, OP_SWAP, OP_TOALTSTACK,
};
use crate::tapscript::hash::TapscriptHashKind;
use crate::tapscript::layout::{
    arm_check_slots, arm_slots, arms_slots, check_keys, code, count, ends_with, fits,
    keys_with, preimage, push_empty, push_key, spells, spells_at, timeout, verify_keys, Arm,
    ArmCheck, Slot,
};
use crate::tapscript::older_after::{parse_cltv_after_n, parse_csv_older_n, DualTimeoutLock};
use crate::tapscript::script::{tokens_of, LeafScript, ScriptItem, Token, XOnlyKey};

verus! {

/// Two keys that one instruction pushes are one.
proof fn lemma_same_key(token: Token, a: XOnlyKey, b: XOnlyKey)
    requires
        fits(token, Slot::Key(a)),
        fits(token, Slot::Key(b)),
    ensures
        a == b,
{
    assert(a.bytes@ == b.bytes@);
    assert(a.bytes =~= b.bytes);
}

/// Slots that follow each other are spelled where each of them is.
pub proof fn lemma_spells_concat(tokens: Seq<Token>, pos: int, a: Seq<Slot>, b: Seq<Slot>)
    ensures
        spells_at(tokens, pos, a + b) <==> spells_at(tokens, pos, a) && spells_at(
            tokens,
            pos + a.len(),
            b,
        ),
{
    if spells_at(tokens, pos, a + b) {
        assert forall|i: int| 0 <= i < a.len() implies fits(tokens[pos + i], #[trigger] a[i]) by {
            assert((a + b)[i] == a[i]);
        }
        assert forall|i: int| 0 <= i < b.len() implies fits(
            tokens[pos + a.len() + i],
            #[trigger] b[i],
        ) by {
            assert((a + b)[a.len() + i] == b[i]);
        }
    }
}

/// Copies the bytes of a key.
fn key_from(bytes: &Vec<u8>) -> (key: XOnlyKey)
    requires
        bytes@.len() == 32,
    ensures
        key.bytes@ == bytes@,
{
    let mut copy: [u8; 32] = [0u8; 32];
    let mut i: usize = 0;
    while i < 32
        invariant
            i <= 32,
            bytes@.len() == 32,
            forall|j: int| 0 <= j < i ==> copy@[j] == bytes@[j],
        decreases 32 - i,
    {
        copy[i] = bytes[i];
        i += 1;
    }
    XOnlyKey { bytes: copy }
}

/// The key that is pushed at `pos`.
fn key_at(items: &Vec<ScriptItem>, pos: usize) -> (key: Option<XOnlyKey>)
    ensures
        key matches Some(k) ==> pos < items@.len() && fits(
            tokens_of(items@)[pos as int],
            Slot::Key(k),
        ),
        key is None ==> forall|k: XOnlyKey|
            pos < items@.len() ==> !#[trigger] fits(tokens_of(items@)[pos as int], Slot::Key(k)),
{
    if pos < items.len() {
        match &items[pos] {
            ScriptItem::Push { bytes, xonly } => if *xonly && bytes.len() == 32 {
                Some(key_from(bytes))
            } else {
                None
            },
            _ => None,
        }
    } else {
        None
    }
}

/// Whether the instruction at `pos` is the opcode `op`.
fn op_at(items: &Vec<ScriptItem>, pos: usize, op: u8) -> (found: bool)
    ensures
        found == (pos < items@.len() && tokens_of(items@)[pos as int] == Token::Op(op)),
{
    if pos < items.len() {
        match &items[pos] {
            ScriptItem::Op(o) => *o == op,
            _ => false,
        }
    } else {
        false
    }
}

/// The hash and the digest of the preimage check at `pos` that ends with the opcode `end`.
fn preimage_at(items: &Vec<ScriptItem>, pos: usize, end: u8) -> (found: Option<
    (TapscriptHashKind, Vec<u8>),
>)
    requires
        pos <= items@.len(),
    ensures
        found matches Some((kind, digest)) ==> spells_at(
            tokens_of(items@),
            pos as int,
            preimage(kind, digest@, end),
        ),
        forall|kind: TapscriptHashKind, digest: Seq<u8>|
            spells_at(tokens_of(items@), pos as int, #[trigger] preimage(kind, digest, end)) ==> (
            found matches Some((k, d)) && k == kind && d@ == digest),
{
    let ghost tokens = tokens_of(items@);
    proof {
        assert forall|kind: TapscriptHashKind, digest: Seq<u8>|
            spells_at(tokens, pos as int, #[trigger] preimage(kind, digest, end)) implies {
            &&& pos + 6 <= tokens.len()
            &&& tokens[pos as int] == Token::Op(OP_SIZE)
            &&& fits(tokens[pos + 1], Slot::Bytes(seq![32u8]))
            &&& tokens[pos + 2] == Token::Op(OP_EQUALVERIFY)
            &&& tokens[pos + 3] == Token::Op(kind.opcode())
            &&& fits(tokens[pos + 4], Slot::Digest(kind, digest))
            &&& tokens[pos + 5] == Token::Op(end)
        } by {
            let slots = preimage(kind, digest, end);
            assert(fits(tokens[pos + 0], slots[0]));
            assert(fits(tokens[pos + 1], slots[1]));
            assert(fits(tokens[pos + 2], slots[2]));
            assert(fits(tokens[pos + 3], slots[3]));
            assert(fits(tokens[pos + 4], slots[4]));
            assert(fits(tokens[pos + 5], slots[5]));
        }
    }
    if items.len() - pos < 6 || !op_at(items, pos, OP_SIZE) || !op_at(
        items,
        pos + 2,
        OP_EQUALVERIFY,
    ) || !op_at(items, pos + 5, end) {
        return None;
    }
    match &items[pos + 1] {
        ScriptItem::Push { bytes, .. } => if bytes.len() != 1 || bytes[0] != 32 {
            return None;
        } else {
            assert(bytes@ =~= seq![32u8]);
        },
        _ => return None,
    }
    let kind = match &items[pos + 3] {
        ScriptItem::Op(op) => match TapscriptHashKind::from_hash_op(*op) {
            Some(kind) => kind,
            None => return None,
        },
        _ => return None,
    };
    match &items[pos + 4] {
        ScriptItem::Push { bytes, .. } => if bytes.len() == kind.expected_digest_len() {
            Some((kind, bytes.clone()))
        } else {
            None
        },
        _ => None,
    }
}

/// The longest run of `<key> op` at `pos`.
fn keys_at(items: &Vec<ScriptItem>, pos: usize, op: u8) -> (keys: Vec<XOnlyKey>)
    requires
        pos <= items@.len(),
    ensures
        spells_at(tokens_of(items@), pos as int, keys_with(op, keys@)),
        !key_round(tokens_of(items@), pos + 2 * keys@.len(), op),
{
    let ghost tokens = tokens_of(items@);
    let mut keys: Vec<XOnlyKey> = Vec::new();
    let mut p: usize = pos;
    loop
        invariant
            tokens == tokens_of(items@),
            p == pos + 2 * keys@.len(),
            p <= items@.len(),
            spells_at(tokens, pos as int, keys_with(op, keys@)),
        ensures
            !key_round(tokens, pos + 2 * keys@.len(), op),
        decreases items@.len() - p,
    {
        if items.len() - p < 2 || !op_at(items, p + 1, op) {
            break;
        }
        match key_at(items, p) {
            None => {
                break;
            },
            Some(key) => {
                proof {
                    let before = keys_with(op, keys@);
                    let now = keys_with(op, keys@.push(key));
                    assert forall|i: int| 0 <= i < now.len() implies fits(
                        tokens[pos + i],
                        #[trigger] now[i],
                    ) by {
                        if i < before.len() {
                            assert(now[i] == before[i]);
                        }
                    }
                }
                keys.push(key);
                p = p + 2;
            },
        }
    }
    keys
}

/// A push of a key followed by `op` stands at `pos`.
pub open spec fn key_round(tokens: Seq<Token>, pos: int, op: u8) -> bool {
    &&& pos + 1 < tokens.len()
    &&& exists|key: XOnlyKey| #[trigger] fits(tokens[pos], Slot::Key(key))
    &&& tokens[pos + 1] == Token::Op(op)
}

/// What runs of keys at one place have in common.
proof fn lemma_key_runs(
    tokens: Seq<Token>,
    pos: int,
    op: u8,
    longest: Seq<XOnlyKey>,
    keys: Seq<XOnlyKey>,
)
    requires
        spells_at(tokens, pos, keys_with(op, longest)),
        !key_round(tokens, pos + 2 * longest.len(), op),
        spells_at(tokens, pos, keys_with(op, keys)),
    ensures
        keys.len() <= longest.len(),
        keys =~= longest.take(keys.len() as int),
        keys.len() < longest.len() ==> key_round(tokens, pos + 2 * keys.len(), op),
{
    if keys.len() > longest.len() {
        let n = longest.len() as int;
        assert(fits(tokens[pos + 2 * n], keys_with(op, keys)[2 * n]));
        assert(fits(tokens[pos + (2 * n + 1)], keys_with(op, keys)[2 * n + 1]));
    }
    assert forall|i: int| 0 <= i < keys.len() implies keys[i] == longest[i] by {
        assert(fits(tokens[pos + 2 * i], keys_with(op, keys)[2 * i]));
        assert(fits(tokens[pos + 2 * i], keys_with(op, longest)[2 * i]));
        lemma_same_key(tokens[pos + 2 * i], keys[i], longest[i]);
    }
    if keys.len() < longest.len() {
        let n = keys.len() as int;
        assert(fits(tokens[pos + 2 * n], keys_with(op, longest)[2 * n]));
        assert(fits(tokens[pos + (2 * n + 1)], keys_with(op, longest)[2 * n + 1]));
    }
}

/// What an arm of a threshold checks.
#[derive(PartialEq, Eq, Debug)]
pub enum ThreshCheck {
    Key(XOnlyKey),
    Preimage(TapscriptHashKind, Vec<u8>),
}

/// An arm of a threshold behind the first key.
#[derive(PartialEq, Eq, Debug)]
pub struct ThreshArm {
    pub swap: bool,
    pub check: ThreshCheck,
}

impl View for ThreshArm {
    type V = Arm;

    open spec fn view(&self) -> Arm {
        Arm {
            swap: self.swap,
            check: match self.check {
                ThreshCheck::Key(key) => ArmCheck::Key(key),
                ThreshCheck::Preimage(kind, digest) => ArmCheck::Preimage(kind, digest@),
            },
        }
    }
}

/// The models of arms.
pub open spec fn arms_of(arms: Seq<ThreshArm>) -> Seq<Arm> {
    arms.map_values(|arm: ThreshArm| arm@)
}

/// The parts of an arm that is spelled at `pos`.
proof fn lemma_arm(tokens: Seq<Token>, pos: int, arm: Arm)
    requires
        0 <= pos,
    ensures
        ({
            let check = arm_check_slots(arm.check);
            let tail = pos + 1 + check.len();
            spells_at(tokens, pos, arm_slots(arm)) <==> {
                &&& pos < tokens.len()
                &&& tokens[pos] == Token::Op(if arm.swap { OP_SWAP } else { OP_TOALTSTACK })
                &&& spells_at(tokens, pos + 1, check)
                &&& if arm.swap {
                    tail < tokens.len() && tokens[tail] == Token::Op(OP_ADD)
                } else {
                    &&& tail + 1 < tokens.len()
                    &&& tokens[tail] == Token::Op(OP_FROMALTSTACK)
                    &&& tokens[tail + 1] == Token::Op(OP_ADD)
                }
            }
        }),
{
    let check = arm_check_slots(arm.check);
    let first = code(if arm.swap { OP_SWAP } else { OP_TOALTSTACK });
    let tail = if arm.swap {
        code(OP_ADD)
    } else {
        seq![Slot::Op(OP_FROMALTSTACK), Slot::Op(OP_ADD)]
    };
    let at = pos + 1 + check.len();
    lemma_spells_concat(tokens, pos, first + check, tail);
    lemma_spells_concat(tokens, pos, first, check);
    if spells_at(tokens, pos, first) {
        assert(fits(tokens[pos + 0], first[0]));
    }
    if spells_at(tokens, at, tail) {
        assert(fits(tokens[at + 0], tail[0]));
        if !arm.swap {
            assert(fits(tokens[at + 1], tail[1]));
        }
    }
}

/// The arm that is spelled at `pos`, and where it ends.
fn arm_at(items: &Vec<ScriptItem>, pos: usize) -> (found: Option<(ThreshArm, usize)>)
    requires
        pos <= items@.len(),
    ensures
        found matches Some((arm, end)) ==> {
            &&& spells_at(tokens_of(items@), pos as int, arm_slots(arm@))
            &&& end == pos + arm_slots(arm@).len()
            &&& end <= items@.len()
        },
        forall|arm: Arm|
            spells_at(tokens_of(items@), pos as int, #[trigger] arm_slots(arm)) ==> (
            found matches Some((a, _)) && a@ == arm),
{
    let ghost tokens = tokens_of(items@);
    proof {
        assert forall|arm: Arm|
            spells_at(tokens, pos as int, #[trigger] arm_slots(arm)) implies {
            &&& pos + 4 <= tokens.len()
            &&& tokens[pos as int] == Token::Op(if arm.swap { OP_SWAP } else { OP_TOALTSTACK })
            &&& spells_at(tokens, pos + 1, arm_check_slots(arm.check))
            &&& match arm.check {
                ArmCheck::Key(key) => {
                    &&& fits(tokens[pos + 1], Slot::Key(key))
                    &&& tokens[pos + 2] == Token::Op(OP_CHECKSIG)
                    &&& if arm.swap {
                        tokens[pos + 3] == Token::Op(OP_ADD)
                    } else {
                        &&& pos + 5 <= tokens.len()
                        &&& tokens[pos + 3] == Token::Op(OP_FROMALTSTACK)
                        &&& tokens[pos + 4] == Token::Op(OP_ADD)
                    }
                },
                ArmCheck::Preimage(kind, digest) => {
                    &&& tokens[pos + 1] == Token::Op(OP_SIZE)
                    &&& spells_at(tokens, pos + 1, preimage(kind, digest, OP_EQUAL))
                    &&& pos + 8 <= tokens.len()
                    &&& if arm.swap {
                        tokens[pos + 7] == Token::Op(OP_ADD)
                    } else {
                        &&& pos + 9 <= tokens.len()
                        &&& tokens[pos + 7] == Token::Op(OP_FROMALTSTACK)
                        &&& tokens[pos + 8] == Token::Op(OP_ADD)
                    }
                },
            }
        } by {
            lemma_arm(tokens, pos as int, arm);
            let check = arm_check_slots(arm.check);
            assert(fits(tokens[pos + 1 + 0], check[0]));
            assert(fits(tokens[pos + 1 + 1], check[1]));
        }
    }
    if items.len() - pos < 4 {
        return None;
    }
    let swap = if op_at(items, pos, OP_SWAP) {
        true
    } else if op_at(items, pos, OP_TOALTSTACK) {
        false
    } else {
        return None;
    };
    let check;
    let tail: usize;
    match key_at(items, pos + 1) {
        Some(key) => {
            if !op_at(items, pos + 2, OP_CHECKSIG) {
                return None;
            }
            proof {
                assert forall|k: XOnlyKey| #[trigger] fits(tokens[pos + 1], Slot::Key(k)) implies k
                    == key by {
                    lemma_same_key(tokens[pos + 1], k, key);
                }
                assert(spells_at(tokens, pos + 1, arm_check_slots(ArmCheck::Key(key))));
            }
            check = ThreshCheck::Key(key);
            tail = pos + 3;
        },
        None => {
            match preimage_at(items, pos + 1, OP_EQUAL) {
                Some((kind, digest)) => {
                    check = ThreshCheck::Preimage(kind, digest);
                    tail = pos + 7;
                },
                None => {
                    return None;
                },
            }
        },
    }
    let arm = ThreshArm { swap, check };
    proof {
        lemma_arm(tokens, pos as int, arm@);
    }
    if swap {
        if op_at(items, tail, OP_ADD) {
            Some((arm, tail + 1))
        } else {
            None
        }
    } else {
        if tail < items.len() && op_at(items, tail, OP_FROMALTSTACK) && op_at(
            items,
            tail + 1,
            OP_ADD,
        ) {
            Some((arm, tail + 2))
        } else {
            None
        }
    }
}

/// The longest run of arms at `pos`, and where it ends.
fn arms_at(items: &Vec<ScriptItem>, pos: usize) -> (found: (Vec<ThreshArm>, usize))
    requires
        pos <= items@.len(),
    ensures
        spells_at(tokens_of(items@), pos as int, arms_slots(arms_of(found.0@))),
        found.1 == pos + arms_slots(arms_of(found.0@)).len(),
        found.1 <= items@.len(),
        forall|arm: Arm|
            !spells_at(tokens_of(items@), found.1 as int, #[trigger] arm_slots(arm)),
{
    let ghost tokens = tokens_of(items@);
    let mut arms: Vec<ThreshArm> = Vec::new();
    let mut p: usize = pos;
    loop
        invariant
            tokens == tokens_of(items@),
            p <= items@.len(),
            p == pos + arms_slots(arms_of(arms@)).len(),
            spells_at(tokens, pos as int, arms_slots(arms_of(arms@))),
        ensures
            forall|arm: Arm| !spells_at(tokens, p as int, #[trigger] arm_slots(arm)),
        decreases items@.len() - p,
    {
        match arm_at(items, p) {
            None => {
                break;
            },
            Some((arm, end)) => {
                proof {
                    let now = arms_of(arms@.push(arm));
                    assert(now.drop_last() =~= arms_of(arms@));
                    lemma_spells_concat(
                        tokens,
                        pos as int,
                        arms_slots(arms_of(arms@)),
                        arm_slots(arm@),
                    );
                }
                arms.push(arm);
                p = end;
            },
        }
    }
    (arms, p)
}

/// Two arms that are spelled at one place are one.
proof fn lemma_same_arm(tokens: Seq<Token>, pos: int, a: Arm, b: Arm)
    requires
        0 <= pos,
        spells_at(tokens, pos, arm_slots(a)),
        spells_at(tokens, pos, arm_slots(b)),
    ensures
        a == b,
{
    lemma_arm(tokens, pos, a);
    lemma_arm(tokens, pos, b);
    let ca = arm_check_slots(a.check);
    let cb = arm_check_slots(b.check);
    assert(fits(tokens[pos + 1 + 0], ca[0]));
    assert(fits(tokens[pos + 1 + 0], cb[0]));
    match (a.check, b.check) {
        (ArmCheck::Key(x), ArmCheck::Key(y)) => {
            lemma_same_key(tokens[pos + 1], x, y);
        },
        (ArmCheck::Preimage(k, d), ArmCheck::Preimage(l, e)) => {
            assert(fits(tokens[pos + 1 + 3], ca[3]));
            assert(fits(tokens[pos + 1 + 3], cb[3]));
            assert(fits(tokens[pos + 1 + 4], ca[4]));
            assert(fits(tokens[pos + 1 + 4], cb[4]));
        },
        _ => {},
    }
}

/// What runs of arms at one place have in common.
proof fn lemma_arm_runs(tokens: Seq<Token>, pos: int, longest: Seq<Arm>, arms: Seq<Arm>)
    requires
        0 <= pos,
        spells_at(tokens, pos, arms_slots(longest)),
        forall|arm: Arm|
            !spells_at(tokens, pos + arms_slots(longest).len(), #[trigger] arm_slots(arm)),
        spells_at(tokens, pos, arms_slots(arms)),
    ensures
        arms.len() <= longest.len(),
        arms =~= longest.take(arms.len() as int),
        arms.len() < longest.len() ==> {
            let next = pos + arms_slots(arms).len();
            next < tokens.len() && (tokens[next] == Token::Op(OP_SWAP) || tokens[next] == Token::Op(
                OP_TOALTSTACK,
            ))
        },
    decreases arms.len(),
{
    if arms.len() > 0 {
        let shorter = arms.drop_last();
        lemma_spells_concat(tokens, pos, arms_slots(shorter), arm_slots(arms.last()));
        lemma_arm_runs(tokens, pos, longest, shorter);
        let n = shorter.len() as int;
        if n == longest.len() {
            assert(shorter =~= longest);
            assert(false);
        }
        lemma_arm_prefix(tokens, pos, longest, n);
        assert(longest.take(n) =~= shorter);
        lemma_same_arm(tokens, pos + arms_slots(shorter).len(), arms.last(), longest[n]);
        assert(arms =~= longest.take(n + 1));
    }
    if arms.len() < longest.len() {
        let n = arms.len() as int;
        lemma_arm_prefix(tokens, pos, longest, n);
        assert(longest.take(n) =~= arms);
        lemma_arm(tokens, pos + arms_slots(arms).len(), longest[n]);
    }
}

/// Where an arm of a run stands.
proof fn lemma_arm_prefix(tokens: Seq<Token>, pos: int, arms: Seq<Arm>, n: int)
    requires
        spells_at(tokens, pos, arms_slots(arms)),
        0 <= n < arms.len(),
    ensures
        spells_at(tokens, pos + arms_slots(arms.take(n)).len(), arm_slots(arms[n])),
    decreases arms.len(),
{
    let shorter = arms.drop_last();
    lemma_spells_concat(tokens, pos, arms_slots(shorter), arm_slots(arms.last()));
    if n + 1 == arms.len() {
        assert(arms.take(n) =~= shorter);
    } else {
        lemma_arm_prefix(tokens, pos, shorter, n);
        assert(shorter.take(n) =~= arms.take(n));
    }
}

/// A part of a template.
pub enum Part {
    /// One opcode.
    Op(u8),
    /// A push of a key.
    Key,
    /// At least so many rounds of `<key> OP_CHECKSIGVERIFY`.
    VerifyKeys(usize),
    /// At least so many keys, the last with `OP_CHECKSIG`, the others with `OP_CHECKSIGVERIFY`.
    CheckKeys(usize),
    /// At least so many rounds of `<key> OP_CHECKSIGADD`.
    AddKeys(usize),
    /// A preimage check with its last opcode.
    Preimage(u8),
    /// `<n> OP_CSV`.
    Older,
    /// `<n> OP_CLTV`.
    After,
    /// `<n> OP_CSV` or `<n> OP_CLTV`.
    Timeout,
    /// A push of no bytes.
    EmptyPush,
    /// `OP_1` to `OP_16`.
    Count,
    /// Arms of a threshold.
    Arms,
}

/// What was found for a part.
pub enum Found {
    Nothing,
    Key(XOnlyKey),
    Keys(Vec<XOnlyKey>),
    Preimage(TapscriptHashKind, Vec<u8>),
    Lock(DualTimeoutLock),
    Count(u8),
    Arms(Vec<ThreshArm>),
}

/// Model of [`Found`].
pub enum Seen {
    Nothing,
    Key(XOnlyKey),
    Keys(Seq<XOnlyKey>),
    Preimage(TapscriptHashKind, Seq<u8>),
    Lock(DualTimeoutLock),
    Count(u8),
    Arms(Seq<Arm>),
}

impl View for Found {
    type V = Seen;

    open spec fn view(&self) -> Seen {
        match self {
            Found::Nothing => Seen::Nothing,
            Found::Key(key) => Seen::Key(*key),
            Found::Keys(keys) => Seen::Keys(keys@),
            Found::Preimage(kind, digest) => Seen::Preimage(*kind, digest@),
            Found::Lock(lock) => Seen::Lock(*lock),
            Found::Count(k) => Seen::Count(*k),
            Found::Arms(arms) => Seen::Arms(arms_of(arms@)),
        }
    }
}

/// The models of what was found.
pub open spec fn seen_of(found: Seq<Found>) -> Seq<Seen> {
    found.map_values(|f: Found| f@)
}

/// Whether a value belongs to a part.
pub open spec fn suits(part: Part, seen: Seen) -> bool {
    match part {
        Part::Op(_) | Part::EmptyPush => seen is Nothing,
        Part::Key => seen is Key,
        Part::VerifyKeys(least) | Part::AddKeys(least) => seen matches Seen::Keys(keys)
            && keys.len() >= least,
        Part::CheckKeys(least) => seen matches Seen::Keys(keys) && keys.len() >= least
            && keys.len() >= 1,
        Part::Preimage(_) => seen is Preimage,
        Part::Older => seen matches Seen::Lock(lock) && lock is Older,
        Part::After => seen matches Seen::Lock(lock) && lock is After,
        Part::Timeout => seen is Lock,
        Part::Count => seen matches Seen::Count(k) && 1 <= k <= 16,
        Part::Arms => seen is Arms,
    }
}

/// The slots of a part that holds a value.
pub open spec fn part_slots(part: Part, seen: Seen) -> Seq<Slot> {
    match (part, seen) {
        (Part::Op(op), _) => code(op),
        (Part::EmptyPush, _) => push_empty(),
        (Part::Key, Seen::Key(key)) => push_key(key),
        (Part::VerifyKeys(_), Seen::Keys(keys)) => verify_keys(keys),
        (Part::CheckKeys(_), Seen::Keys(keys)) => check_keys(keys),
        (Part::AddKeys(_), Seen::Keys(keys)) => keys_with(OP_CHECKSIGADD, keys),
        (Part::Preimage(end), Seen::Preimage(kind, digest)) => preimage(kind, digest, end),
        (Part::Older | Part::After | Part::Timeout, Seen::Lock(lock)) => timeout(lock),
        (Part::Count, Seen::Count(k)) => count(k),
        (Part::Arms, Seen::Arms(arms)) => arms_slots(arms),
        _ => Seq::empty(),
    }
}

/// Another round of a part that repeats stands at `pos`.
spec fn goes_on(tokens: Seq<Token>, pos: int, part: Part) -> bool {
    match part {
        Part::VerifyKeys(_) => key_round(tokens, pos, OP_CHECKSIGVERIFY),
        Part::AddKeys(_) => key_round(tokens, pos, OP_CHECKSIGADD),
        Part::Arms => pos < tokens.len() && (tokens[pos] == Token::Op(OP_SWAP) || tokens[pos]
            == Token::Op(OP_TOALTSTACK)),
        _ => false,
    }
}

/// Whether a part may stand behind one that repeats.
pub open spec fn may_follow(part: Part, next: Part) -> bool {
    match part {
        Part::VerifyKeys(_) => next is Op || next is Preimage || next is Older || next is After
            || next is Timeout,
        Part::AddKeys(_) | Part::Arms => next is Count,
        _ => true,
    }
}

/// No part that repeats is followed by one that could start with another round of it.
pub open spec fn clear_cut(parts: Seq<Part>) -> bool {
    forall|i: int|
        0 <= i < parts.len() ==> match #[trigger] parts[i] {
            Part::VerifyKeys(_) | Part::AddKeys(_) | Part::Arms => i + 1 < parts.len()
                && may_follow(parts[i], parts[i + 1]),
            _ => true,
        }
}

/// A part that may follow does not stand where another round does.
proof fn lemma_no_round(tokens: Seq<Token>, pos: int, part: Part, next: Part, seen: Seen)
    requires
        goes_on(tokens, pos, part),
        may_follow(part, next),
        suits(next, seen),
    ensures
        !spells_at(tokens, pos, part_slots(next, seen)),
{
    if spells_at(tokens, pos, part_slots(next, seen)) {
        let slots = part_slots(next, seen);
        assert(slots.len() > 0);
        assert(fits(tokens[pos + 0], slots[0]));
        if !(part is Arms) {
            let key = choose|key: XOnlyKey| #[trigger] fits(tokens[pos], Slot::Key(key));
            assert(key.bytes@.len() == 32);
        }
    }
}

/// Reads one part at `pos`.
fn part_at(items: &Vec<ScriptItem>, pos: usize, part: &Part) -> (found: Option<(Found, usize)>)
    requires
        pos <= items@.len(),
    ensures
        found matches Some((f, end)) ==> {
            &&& suits(*part, f@)
            &&& spells_at(tokens_of(items@), pos as int, part_slots(*part, f@))
            &&& end == pos + part_slots(*part, f@).len()
            &&& end <= items@.len()
        },
        forall|seen: Seen|
            suits(*part, seen) && spells_at(
                tokens_of(items@),
                pos as int,
                #[trigger] part_slots(*part, seen),
            ) ==> (found matches Some((f, _)) && (f@ == seen || goes_on(
                tokens_of(items@),
                pos + part_slots(*part, seen).len(),
                *part,
            ))),
{
    let ghost tokens = tokens_of(items@);
    let total: usize = items.len();
    match part {
        Part::Op(op) => {
            proof {
                assert forall|seen: Seen|
                    spells_at(tokens, pos as int, #[trigger] part_slots(*part, seen)) implies pos
                    < tokens.len() && tokens[pos as int] == Token::Op(*op) by {
                    assert(fits(tokens[pos + 0], part_slots(*part, seen)[0]));
                }
            }
            if op_at(items, pos, *op) {
                Some((Found::Nothing, pos + 1))
            } else {
                None
            }
        },
        Part::Key => {
            let key = key_at(items, pos);
            proof {
                assert forall|seen: Seen|
                    suits(*part, seen) && spells_at(
                        tokens,
                        pos as int,
                        #[trigger] part_slots(*part, seen),
                    ) implies (key matches Some(k) && seen == Seen::Key(k)) by {
                    assert(fits(tokens[pos + 0], part_slots(*part, seen)[0]));
                    if let Some(k) = key {
                        lemma_same_key(tokens[pos as int], k, seen->Key_0);
                    }
                }
            }
            match key {
                Some(key) => Some((Found::Key(key), pos + 1)),
                None => None,
            }
        },
        Part::VerifyKeys(least) => {
            let keys = keys_at(items, pos, OP_CHECKSIGVERIFY);
            proof {
                assert forall|seen: Seen|
                    suits(*part, seen) && spells_at(
                        tokens,
                        pos as int,
                        #[trigger] part_slots(*part, seen),
                    ) implies keys@.len() >= *least && (seen == Seen::Keys(keys@) || goes_on(
                    tokens,
                    pos + part_slots(*part, seen).len(),
                    *part,
                )) by {
                    lemma_key_runs(tokens, pos as int, OP_CHECKSIGVERIFY, keys@, seen->Keys_0);
                    if seen->Keys_0.len() == keys@.len() {
                        assert(seen->Keys_0 =~= keys@);
                    }
                }
            }
            if keys.len() >= *least {
                let end = pos + 2 * keys.len();
                Some((Found::Keys(keys), end))
            } else {
                None
            }
        },
        Part::AddKeys(least) => {
            let keys = keys_at(items, pos, OP_CHECKSIGADD);
            proof {
                assert forall|seen: Seen|
                    suits(*part, seen) && spells_at(
                        tokens,
                        pos as int,
                        #[trigger] part_slots(*part, seen),
                    ) implies keys@.len() >= *least && (seen == Seen::Keys(keys@) || goes_on(
                    tokens,
                    pos + part_slots(*part, seen).len(),
                    *part,
                )) by {
                    lemma_key_runs(tokens, pos as int, OP_CHECKSIGADD, keys@, seen->Keys_0);
                    if seen->Keys_0.len() == keys@.len() {
                        assert(seen->Keys_0 =~= keys@);
                    }
                }
            }
            if keys.len() >= *least {
                let end = pos + 2 * keys.len();
                Some((Found::Keys(keys), end))
            } else {
                None
            }
        },
        Part::CheckKeys(least) => {
            let mut keys = keys_at(items, pos, OP_CHECKSIGVERIFY);
            let ghost longest = keys@;
            let at = pos + 2 * keys.len();
            let key = key_at(items, at);
            proof {
                assert forall|seen: Seen|
                    suits(*part, seen) && spells_at(
                        tokens,
                        pos as int,
                        #[trigger] part_slots(*part, seen),
                    ) implies {
                    &&& at + 2 <= tokens.len()
                    &&& key matches Some(k) && seen == Seen::Keys(longest.push(k))
                    &&& tokens[at + 1] == Token::Op(OP_CHECKSIG)
                } by {
                    let all = seen->Keys_0;
                    let front = all.drop_last();
                    let tail = seq![Slot::Key(all.last()), Slot::Op(OP_CHECKSIG)];
                    lemma_spells_concat(tokens, pos as int, verify_keys(front), tail);
                    let p = pos + 2 * front.len();
                    assert(fits(tokens[p + 0], tail[0]));
                    assert(fits(tokens[p + 1], tail[1]));
                    lemma_key_runs(tokens, pos as int, OP_CHECKSIGVERIFY, longest, front);
                    assert(front.len() == longest.len());
                    assert(front =~= longest);
                    if let Some(k) = key {
                        lemma_same_key(tokens[p], k, all.last());
                        assert(all =~= longest.push(k));
                    }
                }
            }
            if total - at < 2 || !op_at(items, at + 1, OP_CHECKSIG) {
                return None;
            }
            match key {
                Some(key) => {
                    keys.push(key);
                    proof {
                        assert(keys@.drop_last() =~= longest);
                        lemma_spells_concat(
                            tokens,
                            pos as int,
                            verify_keys(longest),
                            seq![Slot::Key(key), Slot::Op(OP_CHECKSIG)],
                        );
                    }
                    if keys.len() >= *least {
                        Some((Found::Keys(keys), at + 2))
                    } else {
                        None
                    }
                },
                None => None,
            }
        },
        Part::Preimage(end) => {
            match preimage_at(items, pos, *end) {
                Some((kind, digest)) => Some((Found::Preimage(kind, digest), pos + 6)),
                None => None,
            }
        },
        Part::Older => lock_at(items, pos, part),
        Part::After => lock_at(items, pos, part),
        Part::Timeout => lock_at(items, pos, part),
        Part::EmptyPush => {
            proof {
                assert forall|seen: Seen|
                    spells_at(tokens, pos as int, #[trigger] part_slots(*part, seen)) implies pos
                    < tokens.len() && fits(
                    tokens[pos as int],
                    Slot::Bytes(Seq::empty()),
                ) by {
                    assert(fits(tokens[pos + 0], part_slots(*part, seen)[0]));
                }
            }
            if pos < total {
                match &items[pos] {
                    ScriptItem::Push { bytes, .. } => if bytes.len() == 0 {
                        assert(bytes@ =~= Seq::empty());
                        Some((Found::Nothing, pos + 1))
                    } else {
                        None
                    },
                    _ => None,
                }
            } else {
                None
            }
        },
        Part::Count => {
            proof {
                assert forall|seen: Seen|
                    suits(*part, seen) && spells_at(
                        tokens,
                        pos as int,
                        #[trigger] part_slots(*part, seen),
                    ) implies pos < tokens.len() && tokens[pos as int] == Token::Op(
                    (0x50 + seen->Count_0) as u8,
                ) by {
                    assert(fits(tokens[pos + 0], part_slots(*part, seen)[0]));
                }
            }
            if pos < total {
                match &items[pos] {
                    ScriptItem::Op(op) => match small_pushnum(*op) {
                        Some(k) => Some((Found::Count(k), pos + 1)),
                        None => None,
                    },
                    _ => None,
                }
            } else {
                None
            }
        },
        Part::Arms => {
            let (arms, end) = arms_at(items, pos);
            proof {
                assert forall|seen: Seen|
                    suits(*part, seen) && spells_at(
                        tokens,
                        pos as int,
                        #[trigger] part_slots(*part, seen),
                    ) implies seen == Seen::Arms(arms_of(arms@)) || goes_on(
                    tokens,
                    pos + part_slots(*part, seen).len(),
                    *part,
                ) by {
                    lemma_arm_runs(tokens, pos as int, arms_of(arms@), seen->Arms_0);
                    if seen->Arms_0.len() == arms@.len() {
                        assert(seen->Arms_0 =~= arms_of(arms@));
                    }
                }
            }
            Some((Found::Arms(arms), end))
        },
    }
}

/// Reads a timeout of the kind that `part` asks for.
fn lock_at(items: &Vec<ScriptItem>, pos: usize, part: &Part) -> (found: Option<(Found, usize)>)
    requires
        pos <= items@.len(),
        *part is Older || *part is After || *part is Timeout,
    ensures
        found matches Some((f, end)) ==> {
            &&& suits(*part, f@)
            &&& spells_at(tokens_of(items@), pos as int, part_slots(*part, f@))
            &&& end == pos + part_slots(*part, f@).len()
            &&& end <= items@.len()
        },
        forall|seen: Seen|
            suits(*part, seen) && spells_at(
                tokens_of(items@),
                pos as int,
                #[trigger] part_slots(*part, seen),
            ) ==> (found matches Some((f, _)) && f@ == seen),
{
    let ghost tokens = tokens_of(items@);
    proof {
        assert forall|seen: Seen|
            suits(*part, seen) && spells_at(
                tokens,
                pos as int,
                #[trigger] part_slots(*part, seen),
            ) implies {
            &&& pos + 2 <= tokens.len()
            &&& match seen->Lock_0 {
                DualTimeoutLock::Older(n) => tokens[pos + 1] == Token::Op(OP_CSV) && fits(
                    tokens[pos as int],
                    Slot::Older(n),
                ),
                DualTimeoutLock::After(n) => tokens[pos + 1] == Token::Op(OP_CLTV) && fits(
                    tokens[pos as int],
                    Slot::After(n),
                ),
            }
        } by {
            assert(fits(tokens[pos + 0], part_slots(*part, seen)[0]));
            assert(fits(tokens[pos + 1], part_slots(*part, seen)[1]));
        }
    }
    if items.len() - pos < 2 {
        return None;
    }
    let older_wanted = match part {
        Part::After => false,
        _ => true,
    };
    let after_wanted = match part {
        Part::Older => false,
        _ => true,
    };
    if older_wanted && op_at(items, pos + 1, OP_CSV) {
        match parse_csv_older_n(&items[pos]) {
            Some(n) => Some((Found::Lock(DualTimeoutLock::Older(n)), pos + 2)),
            None => None,
        }
    } else if after_wanted && op_at(items, pos + 1, OP_CLTV) {
        match parse_cltv_after_n(&items[pos]) {
            Some(n) => Some((Found::Lock(DualTimeoutLock::After(n)), pos + 2)),
            None => None,
        }
    } else {
        None
    }
}

/// The fragments of a template that holds values.
pub open spec fn fragments(parts: Seq<Part>, seen: Seq<Seen>) -> Seq<Seq<Slot>> {
    Seq::new(parts.len(), |i: int| part_slots(parts[i], seen[i]))
}

/// Whether values belong to the parts of a template.
pub open spec fn suit(parts: Seq<Part>, seen: Seq<Seen>) -> bool {
    &&& parts.len() == seen.len()
    &&& forall|i: int| 0 <= i < parts.len() ==> suits(#[trigger] parts[i], seen[i])
}

/// The first part of a template and the others.
pub proof fn lemma_first_part(tokens: Seq<Token>, pos: int, parts: Seq<Part>, seen: Seq<Seen>)
    requires
        suit(parts, seen),
        parts.len() > 0,
    ensures
        suit(parts.skip(1), seen.skip(1)),
        ends_with(tokens, pos, fragments(parts, seen).flatten()) <==> {
            let first = part_slots(parts[0], seen[0]);
            &&& spells_at(tokens, pos, first)
            &&& ends_with(
                tokens,
                pos + first.len(),
                fragments(parts.skip(1), seen.skip(1)).flatten(),
            )
        },
{
    let first = part_slots(parts[0], seen[0]);
    let rest = fragments(parts.skip(1), seen.skip(1));
    assert(fragments(parts, seen).drop_first() =~= rest);
    assert(fragments(parts, seen).first() == first);
    lemma_spells_concat(tokens, pos, first, rest.flatten());
    assert forall|i: int| 0 <= i < parts.skip(1).len() implies suits(
        #[trigger] parts.skip(1)[i],
        seen.skip(1)[i],
    ) by {
        assert(suits(parts[i + 1], seen[i + 1]));
    }
}

/// Matches the parts from index `from` on against the instructions from `pos` on.
fn match_from(items: &Vec<ScriptItem>, pos: usize, parts: &[Part], from: usize) -> (found: Option<
    Vec<Found>,
>)
    requires
        pos <= items@.len(),
        from <= parts@.len(),
        clear_cut(parts@),
    ensures
        found matches Some(f) ==> {
            &&& suit(parts@.skip(from as int), seen_of(f@))
            &&& ends_with(
                tokens_of(items@),
                pos as int,
                fragments(parts@.skip(from as int), seen_of(f@)).flatten(),
            )
        },
        forall|seen: Seq<Seen>|
            suit(parts@.skip(from as int), seen) && ends_with(
                tokens_of(items@),
                pos as int,
                #[trigger] fragments(parts@.skip(from as int), seen).flatten(),
            ) ==> (found matches Some(f) && seen_of(f@) == seen),
    decreases parts@.len() - from,
{
    let ghost tokens = tokens_of(items@);
    let ghost mine = parts@.skip(from as int);
    if from == parts.len() {
        let found: Vec<Found> = Vec::new();
        proof {
            assert(fragments(mine, seen_of(found@)) =~= Seq::empty());
            assert forall|seen: Seq<Seen>|
                suit(mine, seen) && ends_with(
                    tokens,
                    pos as int,
                    #[trigger] fragments(mine, seen).flatten(),
                ) implies pos == tokens.len() && seen == seen_of(found@) by {
                assert(fragments(mine, seen) =~= Seq::empty());
                assert(seen =~= seen_of(found@));
            }
        }
        if pos == items.len() {
            Some(found)
        } else {
            None
        }
    } else {
        let first = part_at(items, pos, &parts[from]);
        assert(mine.skip(1) =~= parts@.skip(from + 1));
        proof {
            assert forall|seen: Seq<Seen>|
                suit(mine, seen) && ends_with(
                    tokens,
                    pos as int,
                    #[trigger] fragments(mine, seen).flatten(),
                ) implies {
                &&& first matches Some((f, end)) && f@ == seen[0]
                &&& suit(parts@.skip(from + 1), seen.skip(1))
                &&& ends_with(
                    tokens,
                    (first->0).1 as int,
                    fragments(parts@.skip(from + 1), seen.skip(1)).flatten(),
                )
            } by {
                lemma_first_part(tokens, pos as int, mine, seen);
                assert(suits(mine[0], seen[0]));
                let after_first = pos + part_slots(mine[0], seen[0]).len();
                if goes_on(tokens, after_first, mine[0]) {
                    assert(clear_cut(parts@));
                    assert(parts@[from as int] == mine[0]);
                    assert(from + 1 < parts@.len());
                    assert(mine.skip(1)[0] == parts@[from + 1]);
                    assert(suits(mine.skip(1)[0], seen.skip(1)[0]));
                    lemma_first_part(tokens, after_first, mine.skip(1), seen.skip(1));
                    lemma_no_round(
                        tokens,
                        after_first,
                        mine[0],
                        mine.skip(1)[0],
                        seen.skip(1)[0],
                    );
                }
            }
        }
        match first {
            None => None,
            Some((head, end)) => {
                match match_from(items, end, parts, from + 1) {
                    None => None,
                    Some(mut rest) => {
                        let ghost tail = rest@;
                        let ghost head_seen = head@;
                        rest.insert(0, head);
                        proof {
                            let all = seen_of(rest@);
                            assert(all.skip(1) =~= seen_of(tail));
                            assert(all[0] == head_seen);
                            assert forall|i: int| 0 <= i < mine.len() implies suits(
                                #[trigger] mine[i],
                                all[i],
                            ) by {
                                if i > 0 {
                                    assert(suits(mine.skip(1)[i - 1], all.skip(1)[i - 1]));
                                }
                            }
                            lemma_first_part(tokens, pos as int, mine, all);
                            assert forall|seen: Seq<Seen>|
                                suit(mine, seen) && ends_with(
                                    tokens,
                                    pos as int,
                                    #[trigger] fragments(mine, seen).flatten(),
                                ) implies all == seen by {
                                assert(seen.skip(1) == seen_of(tail));
                                assert(all =~= seen) by {
                                    assert forall|i: int| 0 <= i < seen.len() implies all[i]
                                        == seen[i] by {
                                        if i > 0 {
                                            assert(all.skip(1)[i - 1] == seen.skip(1)[i - 1]);
                                        }
                                    }
                                }
                            }
                        }
                        Some(rest)
                    },
                }
            },
        }
    }
}

impl LeafScript {
    /// Matches the script against a template: what the parts hold, which nothing else does.
    pub fn match_parts(&self, parts: &[Part]) -> (found: Option<Vec<Found>>)
        requires
            clear_cut(parts@),
        ensures
            found matches Some(f) ==> suit(parts@, seen_of(f@)) && spells(
                self@,
                fragments(parts@, seen_of(f@)),
            ),
            forall|seen: Seq<Seen>|
                suit(parts@, seen) && spells(self@, #[trigger] fragments(parts@, seen)) ==> (
                found matches Some(f) && seen_of(f@) == seen),
    {
        assert(parts@.skip(0) =~= parts@);
        match_from(&self.items, 0, parts, 0)
    }
}

/// Takes one of the values found and leaves nothing in its place.
fn take(found: &mut Vec<Found>, i: usize) -> (value: Found)
    requires
        i < old(found)@.len(),
    ensures
        final(found)@ == old(found)@.update(i as int, Found::Nothing),
        value == old(found)@[i as int],
{
    found.push(Found::Nothing);
    let value = found.swap_remove(i);
    assert(found@ =~= old(found)@.update(i as int, Found::Nothing));
    value
}

/// Takes a key from the values found.
pub fn take_key(found: &mut Vec<Found>, i: usize) -> (key: XOnlyKey)
    requires
        i < old(found)@.len(),
        old(found)@[i as int]@ is Key,
    ensures
        final(found)@ == old(found)@.update(i as int, Found::Nothing),
        old(found)@[i as int]@ == Seen::Key(key),
{
    match take(found, i) {
        Found::Key(key) => key,
        _ => unreached(),
    }
}

/// Takes a list of keys from the values found.
pub fn take_keys(found: &mut Vec<Found>, i: usize) -> (keys: Vec<XOnlyKey>)
    requires
        i < old(found)@.len(),
        old(found)@[i as int]@ is Keys,
    ensures
        final(found)@ == old(found)@.update(i as int, Found::Nothing),
        old(found)@[i as int]@ == Seen::Keys(keys@),
{
    match take(found, i) {
        Found::Keys(keys) => keys,
        _ => unreached(),
    }
}

/// Takes a hash with its digest from the values found.
pub fn take_preimage(found: &mut Vec<Found>, i: usize) -> (hash: (TapscriptHashKind, Vec<u8>))
    requires
        i < old(found)@.len(),
        old(found)@[i as int]@ is Preimage,
    ensures
        final(found)@ == old(found)@.update(i as int, Found::Nothing),
        old(found)@[i as int]@ == Seen::Preimage(hash.0, hash.1@),
{
    match take(found, i) {
        Found::Preimage(kind, digest) => (kind, digest),
        _ => unreached(),
    }
}

/// Takes a timeout from the values found.
pub fn take_lock(found: &mut Vec<Found>, i: usize) -> (lock: DualTimeoutLock)
    requires
        i < old(found)@.len(),
        old(found)@[i as int]@ is Lock,
    ensures
        final(found)@ == old(found)@.update(i as int, Found::Nothing),
        old(found)@[i as int]@ == Seen::Lock(lock),
{
    match take(found, i) {
        Found::Lock(lock) => lock,
        _ => unreached(),
    }
}

/// Takes the argument of a relative timeout from the values found.
pub fn take_older(found: &mut Vec<Found>, i: usize) -> (n: u32)
    requires
        i < old(found)@.len(),
        old(found)@[i as int]@ matches Seen::Lock(lock) && lock is Older,
    ensures
        final(found)@ == old(found)@.update(i as int, Found::Nothing),
        old(found)@[i as int]@ == Seen::Lock(DualTimeoutLock::Older(n)),
{
    match take_lock(found, i) {
        DualTimeoutLock::Older(n) => n,
        DualTimeoutLock::After(_) => unreached(),
    }
}

/// Takes the argument of an absolute timeout from the values found.
pub fn take_after(found: &mut Vec<Found>, i: usize) -> (n: u32)
    requires
        i < old(found)@.len(),
        old(found)@[i as int]@ matches Seen::Lock(lock) && lock is After,
    ensures
        final(found)@ == old(found)@.update(i as int, Found::Nothing),
        old(found)@[i as int]@ == Seen::Lock(DualTimeoutLock::After(n)),
{
    match take_lock(found, i) {
        DualTimeoutLock::After(n) => n,
        DualTimeoutLock::Older(_) => unreached(),
    }
}

/// Takes a count from the values found.
pub fn take_count(found: &mut Vec<Found>, i: usize) -> (k: u8)
    requires
        i < old(found)@.len(),
        old(found)@[i as int]@ is Count,
    ensures
        final(found)@ == old(found)@.update(i as int, Found::Nothing),
        old(found)@[i as int]@ == Seen::Count(k),
{
    match take(found, i) {
        Found::Count(k) => k,
        _ => unreached(),
    }
}

/// Takes arms of a threshold from the values found.
pub fn take_arms(found: &mut Vec<Found>, i: usize) -> (arms: Vec<ThreshArm>)
    requires
        i < old(found)@.len(),
        old(found)@[i as int]@ is Arms,
    ensures
        final(found)@ == old(found)@.update(i as int, Found::Nothing),
        old(found)@[i as int]@ == Seen::Arms(arms_of(arms@)),
{
    match take(found, i) {
        Found::Arms(arms) => arms,
        _ => unreached(),
    }
}

} // verus!
