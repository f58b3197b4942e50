//! `and_v` leaves with keys, a hash and a timeout.

use vstd::prelude::*;

use crate::tapscript::common::{OP_EQUAL, OP_EQUALVERIFY, OP_VERIFY};
use crate::tapscript::hash::TapscriptHashKind;
use crate::tapscript::kind::{
    lemma_template_of, parts_outline, parts_verifies, template_of, Template,
};
use crate::tapscript::layout::{check_keys, code, preimage, spells, timeout, verify_keys, Slot};
use crate::tapscript::matching::{fragments, seen_of, take_keys, take_lock, take_preimage, Part, Seen};
use crate::tapscript::older_after::DualTimeoutLock;
use crate::tapscript::script::{LeafScript, XOnlyKey};

verus! {

/// Keys, hash with its digest, timeout.
pub type PkHashLockParts = (Vec<XOnlyKey>, TapscriptHashKind, Vec<u8>, DualTimeoutLock);

/// `and_v(v:pk.., and_v(v:hash, older|after))`.
///
/// ```text
/// (<key> OP_CHECKSIGVERIFY){1,} OP_SIZE <32> OP_EQUALVERIFY <kind> <digest> OP_EQUALVERIFY
/// (<n> OP_CSV | <n> OP_CLTV)
/// ```
pub open spec fn and_v_pk_hash_lock(keys: Seq<XOnlyKey>, kind: TapscriptHashKind, digest: Seq<u8>, lock: DualTimeoutLock) -> Seq<Seq<Slot>> {
    seq![
        verify_keys(keys),
        preimage(kind, digest, OP_EQUALVERIFY),
        timeout(lock),
    ]
}

/// The parts of a script that is [`and_v_pk_hash_lock`], `None` for every other script.
pub fn bare_tapscript_and_v_pk_hash_lock_template(script: &LeafScript) -> (r: Option<PkHashLockParts>)
    ensures
        r matches Some((keys, kind, digest, lock)) ==> keys@.len() >= 1 && spells(
            script@,
            and_v_pk_hash_lock(keys@, kind, digest@, lock),
        ),
        forall|keys: Seq<XOnlyKey>, kind: TapscriptHashKind, digest: Seq<u8>, lock: DualTimeoutLock|
            keys.len() >= 1 && spells(script@, #[trigger] and_v_pk_hash_lock(keys, kind, digest, lock)) ==> (
            r matches Some((v1, v2, v3, v4)) && v1@ == keys && v2 == kind && v3@ == digest && v4 == lock),
        r is Some ==> template_of(script@) == Template::AndVPkHashLock,
{
    let parts = [
        Part::VerifyKeys(1),
        Part::Preimage(OP_EQUALVERIFY),
        Part::Timeout,
    ];
    let found = script.match_parts(&parts);
    proof {
        assert forall|keys: Seq<XOnlyKey>, kind: TapscriptHashKind, digest: Seq<u8>, lock: DualTimeoutLock|
            keys.len() >= 1 && spells(script@, #[trigger] and_v_pk_hash_lock(keys, kind, digest, lock)) implies (
            found matches Some(f) && seen_of(f@) == seq![Seen::Keys(keys), Seen::Preimage(kind, digest), Seen::Lock(lock)]) by {
            let seen = seq![Seen::Keys(keys), Seen::Preimage(kind, digest), Seen::Lock(lock)];
            assert(fragments(parts@, seen) =~= and_v_pk_hash_lock(keys, kind, digest, lock));
        }
    }
    match found {
        None => None,
        Some(mut found) => {
            let ghost seen = seen_of(found@);
            proof {
                lemma_template_of(script@, parts@, seen);
                reveal_with_fuel(parts_outline, 4);
                reveal_with_fuel(parts_verifies, 4);
            }
            let keys = take_keys(&mut found, 0);
            let (kind, digest) = take_preimage(&mut found, 1);
            let lock = take_lock(&mut found, 2);
            assert(fragments(parts@, seen) =~= and_v_pk_hash_lock(keys@, kind, digest@, lock));
            Some((keys, kind, digest, lock))
        },
    }
}

/// `and_v(v:hash, and_v(v:pk.., older|after))`.
///
/// ```text
/// OP_SIZE <32> OP_EQUALVERIFY <kind> <digest> OP_EQUALVERIFY (<key> OP_CHECKSIGVERIFY){1,}
/// (<n> OP_CSV | <n> OP_CLTV)
/// ```
pub open spec fn and_v_hash_pk_lock(keys: Seq<XOnlyKey>, kind: TapscriptHashKind, digest: Seq<u8>, lock: DualTimeoutLock) -> Seq<Seq<Slot>> {
    seq![
        preimage(kind, digest, OP_EQUALVERIFY),
        verify_keys(keys),
        timeout(lock),
    ]
}

/// The parts of a script that is [`and_v_hash_pk_lock`], `None` for every other script.
pub fn bare_tapscript_and_v_hash_pk_lock_template(script: &LeafScript) -> (r: Option<PkHashLockParts>)
    ensures
        r matches Some((keys, kind, digest, lock)) ==> keys@.len() >= 1 && spells(
            script@,
            and_v_hash_pk_lock(keys@, kind, digest@, lock),
        ),
        forall|keys: Seq<XOnlyKey>, kind: TapscriptHashKind, digest: Seq<u8>, lock: DualTimeoutLock|
            keys.len() >= 1 && spells(script@, #[trigger] and_v_hash_pk_lock(keys, kind, digest, lock)) ==> (
            r matches Some((v1, v2, v3, v4)) && v1@ == keys && v2 == kind && v3@ == digest && v4 == lock),
        r is Some ==> template_of(script@) == Template::AndVHashPkLock,
{
    let parts = [
        Part::Preimage(OP_EQUALVERIFY),
        Part::VerifyKeys(1),
        Part::Timeout,
    ];
    let found = script.match_parts(&parts);
    proof {
        assert forall|keys: Seq<XOnlyKey>, kind: TapscriptHashKind, digest: Seq<u8>, lock: DualTimeoutLock|
            keys.len() >= 1 && spells(script@, #[trigger] and_v_hash_pk_lock(keys, kind, digest, lock)) implies (
            found matches Some(f) && seen_of(f@) == seq![Seen::Preimage(kind, digest), Seen::Keys(keys), Seen::Lock(lock)]) by {
            let seen = seq![Seen::Preimage(kind, digest), Seen::Keys(keys), Seen::Lock(lock)];
            assert(fragments(parts@, seen) =~= and_v_hash_pk_lock(keys, kind, digest, lock));
        }
    }
    match found {
        None => None,
        Some(mut found) => {
            let ghost seen = seen_of(found@);
            proof {
                lemma_template_of(script@, parts@, seen);
                reveal_with_fuel(parts_outline, 4);
                reveal_with_fuel(parts_verifies, 4);
            }
            let (kind, digest) = take_preimage(&mut found, 0);
            let keys = take_keys(&mut found, 1);
            let lock = take_lock(&mut found, 2);
            assert(fragments(parts@, seen) =~= and_v_hash_pk_lock(keys@, kind, digest@, lock));
            Some((keys, kind, digest, lock))
        },
    }
}

/// `and_v(v:older|after, and_v(v:pk.., hash))`.
///
/// ```text
/// (<n> OP_CSV | <n> OP_CLTV) OP_VERIFY (<key> OP_CHECKSIGVERIFY){1,}
/// OP_SIZE <32> OP_EQUALVERIFY <kind> <digest> OP_EQUAL
/// ```
pub open spec fn and_v_lock_pk_hash(keys: Seq<XOnlyKey>, kind: TapscriptHashKind, digest: Seq<u8>, lock: DualTimeoutLock) -> Seq<Seq<Slot>> {
    seq![
        timeout(lock),
        code(OP_VERIFY),
        verify_keys(keys),
        preimage(kind, digest, OP_EQUAL),
    ]
}

/// The parts of a script that is [`and_v_lock_pk_hash`], `None` for every other script.
pub fn bare_tapscript_and_v_lock_pk_hash_template(script: &LeafScript) -> (r: Option<PkHashLockParts>)
    ensures
        r matches Some((keys, kind, digest, lock)) ==> keys@.len() >= 1 && spells(
            script@,
            and_v_lock_pk_hash(keys@, kind, digest@, lock),
        ),
        forall|keys: Seq<XOnlyKey>, kind: TapscriptHashKind, digest: Seq<u8>, lock: DualTimeoutLock|
            keys.len() >= 1 && spells(script@, #[trigger] and_v_lock_pk_hash(keys, kind, digest, lock)) ==> (
            r matches Some((v1, v2, v3, v4)) && v1@ == keys && v2 == kind && v3@ == digest && v4 == lock),
        r is Some ==> template_of(script@) == Template::AndVLockPkHash,
{
    let parts = [
        Part::Timeout,
        Part::Op(OP_VERIFY),
        Part::VerifyKeys(1),
        Part::Preimage(OP_EQUAL),
    ];
    let found = script.match_parts(&parts);
    proof {
        assert forall|keys: Seq<XOnlyKey>, kind: TapscriptHashKind, digest: Seq<u8>, lock: DualTimeoutLock|
            keys.len() >= 1 && spells(script@, #[trigger] and_v_lock_pk_hash(keys, kind, digest, lock)) implies (
            found matches Some(f) && seen_of(f@) == seq![Seen::Lock(lock), Seen::Nothing, Seen::Keys(keys), Seen::Preimage(kind, digest)]) by {
            let seen = seq![Seen::Lock(lock), Seen::Nothing, Seen::Keys(keys), Seen::Preimage(kind, digest)];
            assert(fragments(parts@, seen) =~= and_v_lock_pk_hash(keys, kind, digest, lock));
        }
    }
    match found {
        None => None,
        Some(mut found) => {
            let ghost seen = seen_of(found@);
            proof {
                lemma_template_of(script@, parts@, seen);
                reveal_with_fuel(parts_outline, 5);
                reveal_with_fuel(parts_verifies, 5);
            }
            let lock = take_lock(&mut found, 0);
            let keys = take_keys(&mut found, 2);
            let (kind, digest) = take_preimage(&mut found, 3);
            assert(fragments(parts@, seen) =~= and_v_lock_pk_hash(keys@, kind, digest@, lock));
            Some((keys, kind, digest, lock))
        },
    }
}

/// `and_v(v:pk.., and_v(v:older|after, hash))`.
///
/// ```text
/// (<key> OP_CHECKSIGVERIFY){1,} (<n> OP_CSV | <n> OP_CLTV) OP_VERIFY
/// OP_SIZE <32> OP_EQUALVERIFY <kind> <digest> OP_EQUAL
/// ```
pub open spec fn and_v_pk_lock_hash(keys: Seq<XOnlyKey>, kind: TapscriptHashKind, digest: Seq<u8>, lock: DualTimeoutLock) -> Seq<Seq<Slot>> {
    seq![
        verify_keys(keys),
        timeout(lock),
        code(OP_VERIFY),
        preimage(kind, digest, OP_EQUAL),
    ]
}

/// The parts of a script that is [`and_v_pk_lock_hash`], `None` for every other script.
pub fn bare_tapscript_and_v_pk_lock_hash_template(script: &LeafScript) -> (r: Option<PkHashLockParts>)
    ensures
        r matches Some((keys, kind, digest, lock)) ==> keys@.len() >= 1 && spells(
            script@,
            and_v_pk_lock_hash(keys@, kind, digest@, lock),
        ),
        forall|keys: Seq<XOnlyKey>, kind: TapscriptHashKind, digest: Seq<u8>, lock: DualTimeoutLock|
            keys.len() >= 1 && spells(script@, #[trigger] and_v_pk_lock_hash(keys, kind, digest, lock)) ==> (
            r matches Some((v1, v2, v3, v4)) && v1@ == keys && v2 == kind && v3@ == digest && v4 == lock),
        r is Some ==> template_of(script@) == Template::AndVPkLockHash,
{
    let parts = [
        Part::VerifyKeys(1),
        Part::Timeout,
        Part::Op(OP_VERIFY),
        Part::Preimage(OP_EQUAL),
    ];
    let found = script.match_parts(&parts);
    proof {
        assert forall|keys: Seq<XOnlyKey>, kind: TapscriptHashKind, digest: Seq<u8>, lock: DualTimeoutLock|
            keys.len() >= 1 && spells(script@, #[trigger] and_v_pk_lock_hash(keys, kind, digest, lock)) implies (
            found matches Some(f) && seen_of(f@) == seq![Seen::Keys(keys), Seen::Lock(lock), Seen::Nothing, Seen::Preimage(kind, digest)]) by {
            let seen = seq![Seen::Keys(keys), Seen::Lock(lock), Seen::Nothing, Seen::Preimage(kind, digest)];
            assert(fragments(parts@, seen) =~= and_v_pk_lock_hash(keys, kind, digest, lock));
        }
    }
    match found {
        None => None,
        Some(mut found) => {
            let ghost seen = seen_of(found@);
            proof {
                lemma_template_of(script@, parts@, seen);
                reveal_with_fuel(parts_outline, 5);
                reveal_with_fuel(parts_verifies, 5);
            }
            let keys = take_keys(&mut found, 0);
            let lock = take_lock(&mut found, 1);
            let (kind, digest) = take_preimage(&mut found, 3);
            assert(fragments(parts@, seen) =~= and_v_pk_lock_hash(keys@, kind, digest@, lock));
            Some((keys, kind, digest, lock))
        },
    }
}

/// `and_v(v:hash, and_v(v:older|after, pk..))`.
///
/// ```text
/// OP_SIZE <32> OP_EQUALVERIFY <kind> <digest> OP_EQUALVERIFY (<n> OP_CSV | <n> OP_CLTV)
/// OP_VERIFY (<key> OP_CHECKSIGVERIFY){0,} <key> OP_CHECKSIG
/// ```
pub open spec fn and_v_hash_lock_pk(keys: Seq<XOnlyKey>, kind: TapscriptHashKind, digest: Seq<u8>, lock: DualTimeoutLock) -> Seq<Seq<Slot>> {
    seq![
        preimage(kind, digest, OP_EQUALVERIFY),
        timeout(lock),
        code(OP_VERIFY),
        check_keys(keys),
    ]
}

/// The parts of a script that is [`and_v_hash_lock_pk`], `None` for every other script.
pub fn bare_tapscript_and_v_hash_lock_pk_template(script: &LeafScript) -> (r: Option<PkHashLockParts>)
    ensures
        r matches Some((keys, kind, digest, lock)) ==> keys@.len() >= 1 && spells(
            script@,
            and_v_hash_lock_pk(keys@, kind, digest@, lock),
        ),
        forall|keys: Seq<XOnlyKey>, kind: TapscriptHashKind, digest: Seq<u8>, lock: DualTimeoutLock|
            keys.len() >= 1 && spells(script@, #[trigger] and_v_hash_lock_pk(keys, kind, digest, lock)) ==> (
            r matches Some((v1, v2, v3, v4)) && v1@ == keys && v2 == kind && v3@ == digest && v4 == lock),
        r is Some ==> template_of(script@) == Template::AndVHashLockPk,
{
    let parts = [
        Part::Preimage(OP_EQUALVERIFY),
        Part::Timeout,
        Part::Op(OP_VERIFY),
        Part::CheckKeys(1),
    ];
    let found = script.match_parts(&parts);
    proof {
        assert forall|keys: Seq<XOnlyKey>, kind: TapscriptHashKind, digest: Seq<u8>, lock: DualTimeoutLock|
            keys.len() >= 1 && spells(script@, #[trigger] and_v_hash_lock_pk(keys, kind, digest, lock)) implies (
            found matches Some(f) && seen_of(f@) == seq![Seen::Preimage(kind, digest), Seen::Lock(lock), Seen::Nothing, Seen::Keys(keys)]) by {
            let seen = seq![Seen::Preimage(kind, digest), Seen::Lock(lock), Seen::Nothing, Seen::Keys(keys)];
            assert(fragments(parts@, seen) =~= and_v_hash_lock_pk(keys, kind, digest, lock));
        }
    }
    match found {
        None => None,
        Some(mut found) => {
            let ghost seen = seen_of(found@);
            proof {
                lemma_template_of(script@, parts@, seen);
                reveal_with_fuel(parts_outline, 5);
                reveal_with_fuel(parts_verifies, 5);
            }
            let (kind, digest) = take_preimage(&mut found, 0);
            let lock = take_lock(&mut found, 1);
            let keys = take_keys(&mut found, 3);
            assert(fragments(parts@, seen) =~= and_v_hash_lock_pk(keys@, kind, digest@, lock));
            Some((keys, kind, digest, lock))
        },
    }
}

/// `and_v(v:older|after, and_v(v:hash, pk..))`.
///
/// ```text
/// (<n> OP_CSV | <n> OP_CLTV) OP_VERIFY
/// OP_SIZE <32> OP_EQUALVERIFY <kind> <digest> OP_EQUALVERIFY
/// (<key> OP_CHECKSIGVERIFY){0,} <key> OP_CHECKSIG
/// ```
pub open spec fn and_v_lock_hash_pk(keys: Seq<XOnlyKey>, kind: TapscriptHashKind, digest: Seq<u8>, lock: DualTimeoutLock) -> Seq<Seq<Slot>> {
    seq![
        timeout(lock),
        code(OP_VERIFY),
        preimage(kind, digest, OP_EQUALVERIFY),
        check_keys(keys),
    ]
}

/// The parts of a script that is [`and_v_lock_hash_pk`], `None` for every other script.
pub fn bare_tapscript_and_v_lock_hash_pk_template(script: &LeafScript) -> (r: Option<PkHashLockParts>)
    ensures
        r matches Some((keys, kind, digest, lock)) ==> keys@.len() >= 1 && spells(
            script@,
            and_v_lock_hash_pk(keys@, kind, digest@, lock),
        ),
        forall|keys: Seq<XOnlyKey>, kind: TapscriptHashKind, digest: Seq<u8>, lock: DualTimeoutLock|
            keys.len() >= 1 && spells(script@, #[trigger] and_v_lock_hash_pk(keys, kind, digest, lock)) ==> (
            r matches Some((v1, v2, v3, v4)) && v1@ == keys && v2 == kind && v3@ == digest && v4 == lock),
        r is Some ==> template_of(script@) == Template::AndVLockHashPk,
{
    let parts = [
        Part::Timeout,
        Part::Op(OP_VERIFY),
        Part::Preimage(OP_EQUALVERIFY),
        Part::CheckKeys(1),
    ];
    let found = script.match_parts(&parts);
    proof {
        assert forall|keys: Seq<XOnlyKey>, kind: TapscriptHashKind, digest: Seq<u8>, lock: DualTimeoutLock|
            keys.len() >= 1 && spells(script@, #[trigger] and_v_lock_hash_pk(keys, kind, digest, lock)) implies (
            found matches Some(f) && seen_of(f@) == seq![Seen::Lock(lock), Seen::Nothing, Seen::Preimage(kind, digest), Seen::Keys(keys)]) by {
            let seen = seq![Seen::Lock(lock), Seen::Nothing, Seen::Preimage(kind, digest), Seen::Keys(keys)];
            assert(fragments(parts@, seen) =~= and_v_lock_hash_pk(keys, kind, digest, lock));
        }
    }
    match found {
        None => None,
        Some(mut found) => {
            let ghost seen = seen_of(found@);
            proof {
                lemma_template_of(script@, parts@, seen);
                reveal_with_fuel(parts_outline, 5);
                reveal_with_fuel(parts_verifies, 5);
            }
            let lock = take_lock(&mut found, 0);
            let (kind, digest) = take_preimage(&mut found, 2);
            let keys = take_keys(&mut found, 3);
            assert(fragments(parts@, seen) =~= and_v_lock_hash_pk(keys@, kind, digest@, lock));
            Some((keys, kind, digest, lock))
        },
    }
}

} // verus!
