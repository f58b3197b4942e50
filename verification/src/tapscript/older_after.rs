//! Relative (`older`) and absolute (`after`) timeouts.

use vstd::prelude::*;

use crate::tapscript::common::{OP_CHECKSIG, OP_CHECKSIGVERIFY, OP_VERIFY};
use crate::tapscript::kind::{
    lemma_template_of, parts_outline, parts_verifies, template_of, Template,
};
use crate::tapscript::layout::{after, code, older, push_key, spells, Slot};
use crate::tapscript::matching::{
    fragments, seen_of, take_after, take_key, take_older, Part, Seen,
};
use crate::tapscript::script::{item_number, token_number, LeafScript, ScriptItem, XOnlyKey};

verus! {

/// Timeout of a spending path.
#[derive(Clone, Copy, PartialEq, Eq, Structural, Debug)]
pub enum DualTimeoutLock {
    /// BIP-112 relative lock time (`older(n)`).
    Older(u32),
    /// BIP-65 absolute lock time (`after(n)`).
    After(u32),
}

/// The arguments that `older` takes: the disable flag is clear and the low 16 bits, which hold
/// the number of blocks or of intervals, are not all zero.
pub open spec fn older_in_range(n: int) -> bool {
    0 < n < 0x8000_0000 && n % 0x1_0000 != 0
}

/// The arguments that `after` takes.
pub open spec fn after_in_range(n: int) -> bool {
    0 < n < 0x8000_0000
}

/// The argument of `older(n)` in a script: `OP_1` to `OP_16` or a minimal number push, in the
/// range of [`older_in_range`].
pub fn parse_csv_older_n(item: &ScriptItem) -> (n: Option<u32>)
    ensures
        n matches Some(v) ==> token_number(item@) == Some(v as int) && older_in_range(v as int),
        n is None ==> !(token_number(item@) matches Some(v) && older_in_range(v)),
{
    match item_number(item) {
        Some(n) => if 0 < n && n < 0x8000_0000 && n % 0x1_0000 != 0 {
            Some(n as u32)
        } else {
            None
        },
        None => None,
    }
}

/// The argument of `after(n)` in a script: `OP_1` to `OP_16` or a minimal number push, in the
/// range of [`after_in_range`].
pub fn parse_cltv_after_n(item: &ScriptItem) -> (n: Option<u32>)
    ensures
        n matches Some(v) ==> token_number(item@) == Some(v as int) && after_in_range(v as int),
        n is None ==> !(token_number(item@) matches Some(v) && after_in_range(v)),
{
    match item_number(item) {
        Some(n) => if 0 < n && n < 0x8000_0000 {
            Some(n as u32)
        } else {
            None
        },
        None => None,
    }
}

/// Whether a sequence number that encodes a relative lock time of its own implies the one that
/// `required` encodes: the disable flag (bit 31) is clear in both, the unit (bit 22) is the same,
/// and the low 16 bits are at least as large.
pub open spec fn sequence_implies(required: u32, sequence: u32) -> bool {
    &&& required < 0x8000_0000
    &&& sequence < 0x8000_0000
    &&& (required / 0x40_0000) % 2 == (sequence / 0x40_0000) % 2
    &&& required % 0x1_0000 <= sequence % 0x1_0000
}

/// Calls `bitcoin::Sequence::to_relative_lock_time` on `required` and
/// `bitcoin::relative::LockTime::is_implied_by_sequence` on what it returns; no lock time is
/// implied by nothing.
#[verifier::external_body]
fn relative_lock_implied(required: u32, sequence: u32) -> (implied: bool)
    ensures
        implied == sequence_implies(required, sequence),
{
    match bitcoin::Sequence::from_consensus(required).to_relative_lock_time() {
        Some(lock) => lock.is_implied_by_sequence(bitcoin::Sequence::from_consensus(sequence)),
        None => false,
    }
}

/// Whether `older(older_n)` passes BIP-112 in a transaction of this version whose input has this
/// sequence number. Versions below 2 have no relative lock times.
pub fn sequence_satisfies_csv_older(tx_version: i32, sequence: u32, older_n: u32) -> (ok: bool)
    ensures
        ok == (tx_version >= 2 && sequence_implies(older_n, sequence)),
{
    if tx_version < 2 {
        return false;
    }
    relative_lock_implied(older_n, sequence)
}

/// Lock times below this are block heights, the others are seconds.
pub const LOCK_TIME_THRESHOLD: u32 = 500_000_000;

/// Whether an absolute lock time implies another: the same unit, and at least as late.
pub open spec fn lock_time_implies(required: u32, lock_time: u32) -> bool {
    &&& (required < LOCK_TIME_THRESHOLD) == (lock_time < LOCK_TIME_THRESHOLD)
    &&& required <= lock_time
}

/// Calls `bitcoin::absolute::LockTime::is_implied_by`: whether the lock time `lock_time` implies
/// `required`, which takes the same unit and a value that is at least as large.
#[verifier::external_body]
fn absolute_lock_implied(required: u32, lock_time: u32) -> (implied: bool)
    ensures
        implied == lock_time_implies(required, lock_time),
{
    let lock = bitcoin::absolute::LockTime::from_consensus(required);
    lock.is_implied_by(bitcoin::absolute::LockTime::from_consensus(lock_time))
}

/// Whether `after(after_n)` passes BIP-65 in a transaction with this lock time whose input has
/// this sequence number. The final sequence number switches the lock time off.
pub fn locktime_satisfies_cltv_after(lock_time: u32, sequence: u32, after_n: u32) -> (ok: bool)
    ensures
        ok == (sequence != u32::MAX && lock_time_implies(after_n, lock_time)),
{
    if sequence == u32::MAX {
        return false;
    }
    absolute_lock_implied(after_n, lock_time)
}

impl DualTimeoutLock {
    /// Whether the transaction fields let the timeout pass.
    pub open spec fn passes(self, tx_version: i32, sequence: u32, lock_time: u32) -> bool {
        match self {
            DualTimeoutLock::Older(n) => tx_version >= 2 && sequence_implies(n, sequence),
            DualTimeoutLock::After(n) => sequence != u32::MAX && lock_time_implies(n, lock_time),
        }
    }
}

/// Whether the transaction fields let the timeout pass.
pub fn dual_timeout_lock_satisfied(
    lock: DualTimeoutLock,
    tx_version: i32,
    sequence: u32,
    lock_time: u32,
) -> (ok: bool)
    ensures
        ok == lock.passes(tx_version, sequence, lock_time),
{
    match lock {
        DualTimeoutLock::Older(n) => sequence_satisfies_csv_older(tx_version, sequence, n),
        DualTimeoutLock::After(n) => locktime_satisfies_cltv_after(lock_time, sequence, n),
    }
}

/// The arguments of `older` are the numbers that ask for something: the sequence number `n` itself
/// lets `older(n)` pass, and one with the same unit and no wait at all does not. Those of `after`
/// are the positive numbers that a push of four bytes holds.
pub proof fn lemma_arguments_of_locks(n: u32)
    ensures
        older_in_range(n as int) <==> sequence_implies(n, n) && !sequence_implies(
            n,
            (n - n % 0x1_0000) as u32,
        ),
        after_in_range(n as int) <==> n <= 0x7fff_ffff && !lock_time_implies(n, 0),
{
}

/// A relative timeout is met by its own argument and by every longer wait in the same unit, by no
/// shorter one, by nothing in the other unit and by no sequence number with the top bit; and by
/// nothing in a transaction of version 1. The lock time plays no part.
pub proof fn lemma_relative_timeout(
    n: u32,
    tx_version: i32,
    sequence: u32,
    lock_time: u32,
    other_time: u32,
)
    requires
        older_in_range(n as int),
    ensures
        tx_version >= 2 ==> DualTimeoutLock::Older(n).passes(tx_version, n, lock_time),
        tx_version < 2 ==> !DualTimeoutLock::Older(n).passes(tx_version, sequence, lock_time),
        sequence >= 0x8000_0000 ==> !DualTimeoutLock::Older(n).passes(
            tx_version,
            sequence,
            lock_time,
        ),
        tx_version >= 2 && n < 0x1_0000 && sequence < 0x1_0000 ==> (DualTimeoutLock::Older(
            n,
        ).passes(tx_version, sequence, lock_time) <==> sequence >= n),
        n < 0x40_0000 && 0x40_0000 <= sequence < 0x80_0000 ==> !DualTimeoutLock::Older(n).passes(
            tx_version,
            sequence,
            lock_time,
        ),
        tx_version >= 2 && n < 0x1_0000 && sequence < 0x1_0000 ==> (DualTimeoutLock::Older(
            (n + 0x40_0000) as u32,
        ).passes(tx_version, (sequence + 0x40_0000) as u32, lock_time) <==> sequence >= n),
        DualTimeoutLock::Older(n).passes(tx_version, sequence, lock_time)
            == DualTimeoutLock::Older(n).passes(tx_version, sequence, other_time),
{
}

/// An absolute timeout is met by its own argument and by every later time in the same unit, by no
/// earlier one and by nothing in the other unit: below 500,000,000 times are block heights. The
/// final sequence number meets none, and otherwise neither it nor the version plays a part.
pub proof fn lemma_absolute_timeout(
    n: u32,
    tx_version: i32,
    sequence: u32,
    lock_time: u32,
    other_version: i32,
    other_sequence: u32,
)
    ensures
        !DualTimeoutLock::After(n).passes(tx_version, 0xffff_ffff, lock_time),
        sequence < 0xffff_ffff ==> DualTimeoutLock::After(n).passes(tx_version, sequence, n),
        lock_time < n ==> !DualTimeoutLock::After(n).passes(tx_version, sequence, lock_time),
        sequence < 0xffff_ffff && n <= lock_time && (lock_time < 500_000_000 || n >= 500_000_000)
            ==> DualTimeoutLock::After(n).passes(tx_version, sequence, lock_time),
        n < 500_000_000 <= lock_time ==> !DualTimeoutLock::After(n).passes(
            tx_version,
            sequence,
            lock_time,
        ),
        sequence < 0xffff_ffff && other_sequence < 0xffff_ffff ==> DualTimeoutLock::After(n).passes(
            tx_version,
            sequence,
            lock_time,
        ) == DualTimeoutLock::After(n).passes(other_version, other_sequence, lock_time),
{
}

/// `and_v(v:pk(a), older(n))`.
///
/// ```text
/// <a> OP_CHECKSIGVERIFY <n> OP_CSV
/// ```
pub open spec fn and_v_pk_older(a: XOnlyKey, n: u32) -> Seq<Seq<Slot>> {
    seq![
        push_key(a),
        code(OP_CHECKSIGVERIFY),
        older(n),
    ]
}

/// The parts of a script that is [`and_v_pk_older`], `None` for every other script.
pub fn bare_tapscript_and_v_pk_older_template(script: &LeafScript) -> (r: Option<(XOnlyKey, u32)>)
    ensures
        r matches Some((a, n)) ==> spells(
            script@,
            and_v_pk_older(a, n),
        ),
        forall|a: XOnlyKey, n: u32|
            spells(script@, #[trigger] and_v_pk_older(a, n)) ==> (
            r matches Some((v1, v2)) && v1 == a && v2 == n),
        r is Some ==> template_of(script@) == Template::AndVPkOlder,
{
    let parts = [
        Part::Key,
        Part::Op(OP_CHECKSIGVERIFY),
        Part::Older,
    ];
    let found = script.match_parts(&parts);
    proof {
        assert forall|a: XOnlyKey, n: u32|
            spells(script@, #[trigger] and_v_pk_older(a, n)) implies (
            found matches Some(f) && seen_of(f@) == seq![Seen::Key(a), Seen::Nothing, Seen::Lock(DualTimeoutLock::Older(n))]) by {
            let seen = seq![Seen::Key(a), Seen::Nothing, Seen::Lock(DualTimeoutLock::Older(n))];
            assert(fragments(parts@, seen) =~= and_v_pk_older(a, n));
        }
    }
    match found {
        None => None,
        Some(mut found) => {
            let ghost seen = seen_of(found@);
            proof {
                lemma_template_of(script@, parts@, seen);
                reveal_with_fuel(parts_outline, 4);
                reveal_with_fuel(parts_verifies, 4);
            }
            let a = take_key(&mut found, 0);
            let n = take_older(&mut found, 2);
            assert(fragments(parts@, seen) =~= and_v_pk_older(a, n));
            Some((a, n))
        },
    }
}

/// `and_v(v:older(n), pk(a))`.
///
/// ```text
/// <n> OP_CSV OP_VERIFY <a> OP_CHECKSIG
/// ```
pub open spec fn and_v_older_pk(n: u32, a: XOnlyKey) -> Seq<Seq<Slot>> {
    seq![
        older(n),
        code(OP_VERIFY),
        push_key(a),
        code(OP_CHECKSIG),
    ]
}

/// The parts of a script that is [`and_v_older_pk`], `None` for every other script.
pub fn bare_tapscript_and_v_older_pk_template(script: &LeafScript) -> (r: Option<(u32, XOnlyKey)>)
    ensures
        r matches Some((n, a)) ==> spells(
            script@,
            and_v_older_pk(n, a),
        ),
        forall|n: u32, a: XOnlyKey|
            spells(script@, #[trigger] and_v_older_pk(n, a)) ==> (
            r matches Some((v1, v2)) && v1 == n && v2 == a),
        r is Some ==> template_of(script@) == Template::AndVOlderPk,
{
    let parts = [
        Part::Older,
        Part::Op(OP_VERIFY),
        Part::Key,
        Part::Op(OP_CHECKSIG),
    ];
    let found = script.match_parts(&parts);
    proof {
        assert forall|n: u32, a: XOnlyKey|
            spells(script@, #[trigger] and_v_older_pk(n, a)) implies (
            found matches Some(f) && seen_of(f@) == seq![Seen::Lock(DualTimeoutLock::Older(n)), Seen::Nothing, Seen::Key(a), Seen::Nothing]) by {
            let seen = seq![Seen::Lock(DualTimeoutLock::Older(n)), Seen::Nothing, Seen::Key(a), Seen::Nothing];
            assert(fragments(parts@, seen) =~= and_v_older_pk(n, a));
        }
    }
    match found {
        None => None,
        Some(mut found) => {
            let ghost seen = seen_of(found@);
            proof {
                lemma_template_of(script@, parts@, seen);
                reveal_with_fuel(parts_outline, 5);
                reveal_with_fuel(parts_verifies, 5);
            }
            let n = take_older(&mut found, 0);
            let a = take_key(&mut found, 2);
            assert(fragments(parts@, seen) =~= and_v_older_pk(n, a));
            Some((n, a))
        },
    }
}

/// `older(n)` alone.
///
/// ```text
/// <n> OP_CSV
/// ```
pub open spec fn older_alone(n: u32) -> Seq<Seq<Slot>> {
    seq![
        older(n),
    ]
}

/// The parts of a script that is [`older_alone`], `None` for every other script.
pub fn bare_tapscript_older_template(script: &LeafScript) -> (r: Option<u32>)
    ensures
        r matches Some(n) ==> spells(
            script@,
            older_alone(n),
        ),
        forall|n: u32|
            spells(script@, #[trigger] older_alone(n)) ==> (
            r matches Some(v1) && v1 == n),
        r is Some ==> template_of(script@) == Template::OlderAlone,
{
    let parts = [
        Part::Older,
    ];
    let found = script.match_parts(&parts);
    proof {
        assert forall|n: u32|
            spells(script@, #[trigger] older_alone(n)) implies (
            found matches Some(f) && seen_of(f@) == seq![Seen::Lock(DualTimeoutLock::Older(n))]) by {
            let seen = seq![Seen::Lock(DualTimeoutLock::Older(n))];
            assert(fragments(parts@, seen) =~= older_alone(n));
        }
    }
    match found {
        None => None,
        Some(mut found) => {
            let ghost seen = seen_of(found@);
            proof {
                lemma_template_of(script@, parts@, seen);
                reveal_with_fuel(parts_outline, 2);
                reveal_with_fuel(parts_verifies, 2);
            }
            let n = take_older(&mut found, 0);
            assert(fragments(parts@, seen) =~= older_alone(n));
            Some(n)
        },
    }
}

/// `and_v(v:pk(a), after(n))`.
///
/// ```text
/// <a> OP_CHECKSIGVERIFY <n> OP_CLTV
/// ```
pub open spec fn and_v_pk_after(a: XOnlyKey, n: u32) -> Seq<Seq<Slot>> {
    seq![
        push_key(a),
        code(OP_CHECKSIGVERIFY),
        after(n),
    ]
}

/// The parts of a script that is [`and_v_pk_after`], `None` for every other script.
pub fn bare_tapscript_and_v_pk_after_template(script: &LeafScript) -> (r: Option<(XOnlyKey, u32)>)
    ensures
        r matches Some((a, n)) ==> spells(
            script@,
            and_v_pk_after(a, n),
        ),
        forall|a: XOnlyKey, n: u32|
            spells(script@, #[trigger] and_v_pk_after(a, n)) ==> (
            r matches Some((v1, v2)) && v1 == a && v2 == n),
        r is Some ==> template_of(script@) == Template::AndVPkAfter,
{
    let parts = [
        Part::Key,
        Part::Op(OP_CHECKSIGVERIFY),
        Part::After,
    ];
    let found = script.match_parts(&parts);
    proof {
        assert forall|a: XOnlyKey, n: u32|
            spells(script@, #[trigger] and_v_pk_after(a, n)) implies (
            found matches Some(f) && seen_of(f@) == seq![Seen::Key(a), Seen::Nothing, Seen::Lock(DualTimeoutLock::After(n))]) by {
            let seen = seq![Seen::Key(a), Seen::Nothing, Seen::Lock(DualTimeoutLock::After(n))];
            assert(fragments(parts@, seen) =~= and_v_pk_after(a, n));
        }
    }
    match found {
        None => None,
        Some(mut found) => {
            let ghost seen = seen_of(found@);
            proof {
                lemma_template_of(script@, parts@, seen);
                reveal_with_fuel(parts_outline, 4);
                reveal_with_fuel(parts_verifies, 4);
            }
            let a = take_key(&mut found, 0);
            let n = take_after(&mut found, 2);
            assert(fragments(parts@, seen) =~= and_v_pk_after(a, n));
            Some((a, n))
        },
    }
}

/// `and_v(v:after(n), pk(a))`.
///
/// ```text
/// <n> OP_CLTV OP_VERIFY <a> OP_CHECKSIG
/// ```
pub open spec fn and_v_after_pk(n: u32, a: XOnlyKey) -> Seq<Seq<Slot>> {
    seq![
        after(n),
        code(OP_VERIFY),
        push_key(a),
        code(OP_CHECKSIG),
    ]
}

/// The parts of a script that is [`and_v_after_pk`], `None` for every other script.
pub fn bare_tapscript_and_v_after_pk_template(script: &LeafScript) -> (r: Option<(u32, XOnlyKey)>)
    ensures
        r matches Some((n, a)) ==> spells(
            script@,
            and_v_after_pk(n, a),
        ),
        forall|n: u32, a: XOnlyKey|
            spells(script@, #[trigger] and_v_after_pk(n, a)) ==> (
            r matches Some((v1, v2)) && v1 == n && v2 == a),
        r is Some ==> template_of(script@) == Template::AndVAfterPk,
{
    let parts = [
        Part::After,
        Part::Op(OP_VERIFY),
        Part::Key,
        Part::Op(OP_CHECKSIG),
    ];
    let found = script.match_parts(&parts);
    proof {
        assert forall|n: u32, a: XOnlyKey|
            spells(script@, #[trigger] and_v_after_pk(n, a)) implies (
            found matches Some(f) && seen_of(f@) == seq![Seen::Lock(DualTimeoutLock::After(n)), Seen::Nothing, Seen::Key(a), Seen::Nothing]) by {
            let seen = seq![Seen::Lock(DualTimeoutLock::After(n)), Seen::Nothing, Seen::Key(a), Seen::Nothing];
            assert(fragments(parts@, seen) =~= and_v_after_pk(n, a));
        }
    }
    match found {
        None => None,
        Some(mut found) => {
            let ghost seen = seen_of(found@);
            proof {
                lemma_template_of(script@, parts@, seen);
                reveal_with_fuel(parts_outline, 5);
                reveal_with_fuel(parts_verifies, 5);
            }
            let n = take_after(&mut found, 0);
            let a = take_key(&mut found, 2);
            assert(fragments(parts@, seen) =~= and_v_after_pk(n, a));
            Some((n, a))
        },
    }
}

/// `after(n)` alone.
///
/// ```text
/// <n> OP_CLTV
/// ```
pub open spec fn after_alone(n: u32) -> Seq<Seq<Slot>> {
    seq![
        after(n),
    ]
}

/// The parts of a script that is [`after_alone`], `None` for every other script.
pub fn bare_tapscript_after_template(script: &LeafScript) -> (r: Option<u32>)
    ensures
        r matches Some(n) ==> spells(
            script@,
            after_alone(n),
        ),
        forall|n: u32|
            spells(script@, #[trigger] after_alone(n)) ==> (
            r matches Some(v1) && v1 == n),
        r is Some ==> template_of(script@) == Template::AfterAlone,
{
    let parts = [
        Part::After,
    ];
    let found = script.match_parts(&parts);
    proof {
        assert forall|n: u32|
            spells(script@, #[trigger] after_alone(n)) implies (
            found matches Some(f) && seen_of(f@) == seq![Seen::Lock(DualTimeoutLock::After(n))]) by {
            let seen = seq![Seen::Lock(DualTimeoutLock::After(n))];
            assert(fragments(parts@, seen) =~= after_alone(n));
        }
    }
    match found {
        None => None,
        Some(mut found) => {
            let ghost seen = seen_of(found@);
            proof {
                lemma_template_of(script@, parts@, seen);
                reveal_with_fuel(parts_outline, 2);
                reveal_with_fuel(parts_verifies, 2);
            }
            let n = take_after(&mut found, 0);
            assert(fragments(parts@, seen) =~= after_alone(n));
            Some(n)
        },
    }
}

} // verus!
