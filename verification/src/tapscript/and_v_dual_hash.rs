//! `and_v` leaves with two hash preimages.

use vstd::prelude::*;

use crate::tapscript::common::{OP_EQUAL, OP_EQUALVERIFY};
use crate::tapscript::hash::TapscriptHashKind;
use crate::tapscript::kind::{
    lemma_template_of, parts_outline, parts_verifies, template_of, Template,
};
use crate::tapscript::layout::{check_keys, preimage, spells, timeout, verify_keys, Slot};
use crate::tapscript::matching::{fragments, seen_of, take_keys, take_lock, take_preimage, Part, Seen};
use crate::tapscript::older_after::DualTimeoutLock;
use crate::tapscript::script::{LeafScript, XOnlyKey};

verus! {

/// Keys, first hash with its digest, second hash with its digest, timeout.
pub type PkDualHashLockParts = (
    Vec<XOnlyKey>,
    TapscriptHashKind,
    Vec<u8>,
    TapscriptHashKind,
    Vec<u8>,
    DualTimeoutLock,
);

/// Keys, first hash with its digest, second hash with its digest.
pub type PkDualHashParts = (
    Vec<XOnlyKey>,
    TapscriptHashKind,
    Vec<u8>,
    TapscriptHashKind,
    Vec<u8>,
);

/// `and_v(v:pk.., and_v(v:hash, and_v(v:hash, older|after)))`.
///
/// ```text
/// (<key> OP_CHECKSIGVERIFY){1,}
/// OP_SIZE <32> OP_EQUALVERIFY <kind1> <digest1> OP_EQUALVERIFY
/// OP_SIZE <32> OP_EQUALVERIFY <kind2> <digest2> OP_EQUALVERIFY (<n> OP_CSV | <n> OP_CLTV)
/// ```
pub open spec fn and_v_pk_dual_hash_lock(keys: Seq<XOnlyKey>, kind1: TapscriptHashKind, digest1: Seq<u8>, kind2: TapscriptHashKind, digest2: Seq<u8>, lock: DualTimeoutLock) -> Seq<Seq<Slot>> {
    seq![
        verify_keys(keys),
        preimage(kind1, digest1, OP_EQUALVERIFY),
        preimage(kind2, digest2, OP_EQUALVERIFY),
        timeout(lock),
    ]
}

/// The parts of a script that is [`and_v_pk_dual_hash_lock`], `None` for every other script.
pub fn bare_tapscript_and_v_pk_dual_hash_lock_template(script: &LeafScript) -> (r: Option<PkDualHashLockParts>)
    ensures
        r matches Some((keys, kind1, digest1, kind2, digest2, lock)) ==> keys@.len() >= 1 && spells(
            script@,
            and_v_pk_dual_hash_lock(keys@, kind1, digest1@, kind2, digest2@, lock),
        ),
        forall|keys: Seq<XOnlyKey>, kind1: TapscriptHashKind, digest1: Seq<u8>, kind2: TapscriptHashKind, digest2: Seq<u8>, lock: DualTimeoutLock|
            keys.len() >= 1 && spells(script@, #[trigger] and_v_pk_dual_hash_lock(keys, kind1, digest1, kind2, digest2, lock)) ==> (
            r matches Some((v1, v2, v3, v4, v5, v6)) && v1@ == keys && v2 == kind1 && v3@ == digest1 && v4 == kind2 && v5@ == digest2 && v6 == lock),
        r is Some ==> template_of(script@) == Template::AndVPkDualHashLock,
{
    let parts = [
        Part::VerifyKeys(1),
        Part::Preimage(OP_EQUALVERIFY),
        Part::Preimage(OP_EQUALVERIFY),
        Part::Timeout,
    ];
    let found = script.match_parts(&parts);
    proof {
        assert forall|keys: Seq<XOnlyKey>, kind1: TapscriptHashKind, digest1: Seq<u8>, kind2: TapscriptHashKind, digest2: Seq<u8>, lock: DualTimeoutLock|
            keys.len() >= 1 && spells(script@, #[trigger] and_v_pk_dual_hash_lock(keys, kind1, digest1, kind2, digest2, lock)) implies (
            found matches Some(f) && seen_of(f@) == seq![Seen::Keys(keys), Seen::Preimage(kind1, digest1), Seen::Preimage(kind2, digest2), Seen::Lock(lock)]) by {
            let seen = seq![Seen::Keys(keys), Seen::Preimage(kind1, digest1), Seen::Preimage(kind2, digest2), Seen::Lock(lock)];
            assert(fragments(parts@, seen) =~= and_v_pk_dual_hash_lock(keys, kind1, digest1, kind2, digest2, lock));
        }
    }
    match found {
        None => None,
        Some(mut found) => {
            let ghost seen = seen_of(found@);
            proof {
                lemma_template_of(script@, parts@, seen);
                reveal_with_fuel(parts_outline, 5);
                reveal_with_fuel(parts_verifies, 5);
            }
            let keys = take_keys(&mut found, 0);
            let (kind1, digest1) = take_preimage(&mut found, 1);
            let (kind2, digest2) = take_preimage(&mut found, 2);
            let lock = take_lock(&mut found, 3);
            assert(fragments(parts@, seen) =~= and_v_pk_dual_hash_lock(keys@, kind1, digest1@, kind2, digest2@, lock));
            Some((keys, kind1, digest1, kind2, digest2, lock))
        },
    }
}

/// `and_v(v:pk.., and_v(v:hash, hash))`.
///
/// ```text
/// (<key> OP_CHECKSIGVERIFY){1,}
/// OP_SIZE <32> OP_EQUALVERIFY <kind1> <digest1> OP_EQUALVERIFY
/// OP_SIZE <32> OP_EQUALVERIFY <kind2> <digest2> OP_EQUAL
/// ```
pub open spec fn and_v_pk_dual_hash(keys: Seq<XOnlyKey>, kind1: TapscriptHashKind, digest1: Seq<u8>, kind2: TapscriptHashKind, digest2: Seq<u8>) -> Seq<Seq<Slot>> {
    seq![
        verify_keys(keys),
        preimage(kind1, digest1, OP_EQUALVERIFY),
        preimage(kind2, digest2, OP_EQUAL),
    ]
}

/// The parts of a script that is [`and_v_pk_dual_hash`], `None` for every other script.
pub fn bare_tapscript_and_v_pk_dual_hash_template(script: &LeafScript) -> (r: Option<PkDualHashParts>)
    ensures
        r matches Some((keys, kind1, digest1, kind2, digest2)) ==> keys@.len() >= 1 && spells(
            script@,
            and_v_pk_dual_hash(keys@, kind1, digest1@, kind2, digest2@),
        ),
        forall|keys: Seq<XOnlyKey>, kind1: TapscriptHashKind, digest1: Seq<u8>, kind2: TapscriptHashKind, digest2: Seq<u8>|
            keys.len() >= 1 && spells(script@, #[trigger] and_v_pk_dual_hash(keys, kind1, digest1, kind2, digest2)) ==> (
            r matches Some((v1, v2, v3, v4, v5)) && v1@ == keys && v2 == kind1 && v3@ == digest1 && v4 == kind2 && v5@ == digest2),
        r is Some ==> template_of(script@) == Template::AndVPkDualHash,
{
    let parts = [
        Part::VerifyKeys(1),
        Part::Preimage(OP_EQUALVERIFY),
        Part::Preimage(OP_EQUAL),
    ];
    let found = script.match_parts(&parts);
    proof {
        assert forall|keys: Seq<XOnlyKey>, kind1: TapscriptHashKind, digest1: Seq<u8>, kind2: TapscriptHashKind, digest2: Seq<u8>|
            keys.len() >= 1 && spells(script@, #[trigger] and_v_pk_dual_hash(keys, kind1, digest1, kind2, digest2)) implies (
            found matches Some(f) && seen_of(f@) == seq![Seen::Keys(keys), Seen::Preimage(kind1, digest1), Seen::Preimage(kind2, digest2)]) by {
            let seen = seq![Seen::Keys(keys), Seen::Preimage(kind1, digest1), Seen::Preimage(kind2, digest2)];
            assert(fragments(parts@, seen) =~= and_v_pk_dual_hash(keys, kind1, digest1, kind2, digest2));
        }
    }
    match found {
        None => None,
        Some(mut found) => {
            let ghost seen = seen_of(found@);
            proof {
                lemma_template_of(script@, parts@, seen);
                reveal_with_fuel(parts_outline, 4);
                reveal_with_fuel(parts_verifies, 4);
            }
            let keys = take_keys(&mut found, 0);
            let (kind1, digest1) = take_preimage(&mut found, 1);
            let (kind2, digest2) = take_preimage(&mut found, 2);
            assert(fragments(parts@, seen) =~= and_v_pk_dual_hash(keys@, kind1, digest1@, kind2, digest2@));
            Some((keys, kind1, digest1, kind2, digest2))
        },
    }
}

/// `and_v(v:hash, and_v(v:hash, pk..))`, keys last.
///
/// ```text
/// OP_SIZE <32> OP_EQUALVERIFY <kind1> <digest1> OP_EQUALVERIFY
/// OP_SIZE <32> OP_EQUALVERIFY <kind2> <digest2> OP_EQUALVERIFY
/// (<key> OP_CHECKSIGVERIFY){0,} <key> OP_CHECKSIG
/// ```
pub open spec fn and_v_dual_hash_pk(keys: Seq<XOnlyKey>, kind1: TapscriptHashKind, digest1: Seq<u8>, kind2: TapscriptHashKind, digest2: Seq<u8>) -> Seq<Seq<Slot>> {
    seq![
        preimage(kind1, digest1, OP_EQUALVERIFY),
        preimage(kind2, digest2, OP_EQUALVERIFY),
        check_keys(keys),
    ]
}

/// The parts of a script that is [`and_v_dual_hash_pk`], `None` for every other script.
pub fn bare_tapscript_and_v_dual_hash_pk_template(script: &LeafScript) -> (r: Option<PkDualHashParts>)
    ensures
        r matches Some((keys, kind1, digest1, kind2, digest2)) ==> keys@.len() >= 1 && spells(
            script@,
            and_v_dual_hash_pk(keys@, kind1, digest1@, kind2, digest2@),
        ),
        forall|keys: Seq<XOnlyKey>, kind1: TapscriptHashKind, digest1: Seq<u8>, kind2: TapscriptHashKind, digest2: Seq<u8>|
            keys.len() >= 1 && spells(script@, #[trigger] and_v_dual_hash_pk(keys, kind1, digest1, kind2, digest2)) ==> (
            r matches Some((v1, v2, v3, v4, v5)) && v1@ == keys && v2 == kind1 && v3@ == digest1 && v4 == kind2 && v5@ == digest2),
        r is Some ==> template_of(script@) == Template::AndVDualHashPk,
{
    let parts = [
        Part::Preimage(OP_EQUALVERIFY),
        Part::Preimage(OP_EQUALVERIFY),
        Part::CheckKeys(1),
    ];
    let found = script.match_parts(&parts);
    proof {
        assert forall|keys: Seq<XOnlyKey>, kind1: TapscriptHashKind, digest1: Seq<u8>, kind2: TapscriptHashKind, digest2: Seq<u8>|
            keys.len() >= 1 && spells(script@, #[trigger] and_v_dual_hash_pk(keys, kind1, digest1, kind2, digest2)) implies (
            found matches Some(f) && seen_of(f@) == seq![Seen::Preimage(kind1, digest1), Seen::Preimage(kind2, digest2), Seen::Keys(keys)]) by {
            let seen = seq![Seen::Preimage(kind1, digest1), Seen::Preimage(kind2, digest2), Seen::Keys(keys)];
            assert(fragments(parts@, seen) =~= and_v_dual_hash_pk(keys, kind1, digest1, kind2, digest2));
        }
    }
    match found {
        None => None,
        Some(mut found) => {
            let ghost seen = seen_of(found@);
            proof {
                lemma_template_of(script@, parts@, seen);
                reveal_with_fuel(parts_outline, 4);
                reveal_with_fuel(parts_verifies, 4);
            }
            let (kind1, digest1) = take_preimage(&mut found, 0);
            let (kind2, digest2) = take_preimage(&mut found, 1);
            let keys = take_keys(&mut found, 2);
            assert(fragments(parts@, seen) =~= and_v_dual_hash_pk(keys@, kind1, digest1@, kind2, digest2@));
            Some((keys, kind1, digest1, kind2, digest2))
        },
    }
}

/// `and_v(v:hash, and_v(v:pk.., hash))`, keys between the hashes.
///
/// ```text
/// OP_SIZE <32> OP_EQUALVERIFY <kind1> <digest1> OP_EQUALVERIFY
/// (<key> OP_CHECKSIGVERIFY){1,} OP_SIZE <32> OP_EQUALVERIFY <kind2> <digest2> OP_EQUAL
/// ```
pub open spec fn and_v_hash_pk_hash(keys: Seq<XOnlyKey>, kind1: TapscriptHashKind, digest1: Seq<u8>, kind2: TapscriptHashKind, digest2: Seq<u8>) -> Seq<Seq<Slot>> {
    seq![
        preimage(kind1, digest1, OP_EQUALVERIFY),
        verify_keys(keys),
        preimage(kind2, digest2, OP_EQUAL),
    ]
}

/// The parts of a script that is [`and_v_hash_pk_hash`], `None` for every other script.
pub fn bare_tapscript_and_v_hash_pk_hash_template(script: &LeafScript) -> (r: Option<PkDualHashParts>)
    ensures
        r matches Some((keys, kind1, digest1, kind2, digest2)) ==> keys@.len() >= 1 && spells(
            script@,
            and_v_hash_pk_hash(keys@, kind1, digest1@, kind2, digest2@),
        ),
        forall|keys: Seq<XOnlyKey>, kind1: TapscriptHashKind, digest1: Seq<u8>, kind2: TapscriptHashKind, digest2: Seq<u8>|
            keys.len() >= 1 && spells(script@, #[trigger] and_v_hash_pk_hash(keys, kind1, digest1, kind2, digest2)) ==> (
            r matches Some((v1, v2, v3, v4, v5)) && v1@ == keys && v2 == kind1 && v3@ == digest1 && v4 == kind2 && v5@ == digest2),
        r is Some ==> template_of(script@) == Template::AndVHashPkHash,
{
    let parts = [
        Part::Preimage(OP_EQUALVERIFY),
        Part::VerifyKeys(1),
        Part::Preimage(OP_EQUAL),
    ];
    let found = script.match_parts(&parts);
    proof {
        assert forall|keys: Seq<XOnlyKey>, kind1: TapscriptHashKind, digest1: Seq<u8>, kind2: TapscriptHashKind, digest2: Seq<u8>|
            keys.len() >= 1 && spells(script@, #[trigger] and_v_hash_pk_hash(keys, kind1, digest1, kind2, digest2)) implies (
            found matches Some(f) && seen_of(f@) == seq![Seen::Preimage(kind1, digest1), Seen::Keys(keys), Seen::Preimage(kind2, digest2)]) by {
            let seen = seq![Seen::Preimage(kind1, digest1), Seen::Keys(keys), Seen::Preimage(kind2, digest2)];
            assert(fragments(parts@, seen) =~= and_v_hash_pk_hash(keys, kind1, digest1, kind2, digest2));
        }
    }
    match found {
        None => None,
        Some(mut found) => {
            let ghost seen = seen_of(found@);
            proof {
                lemma_template_of(script@, parts@, seen);
                reveal_with_fuel(parts_outline, 4);
                reveal_with_fuel(parts_verifies, 4);
            }
            let (kind1, digest1) = take_preimage(&mut found, 0);
            let keys = take_keys(&mut found, 1);
            let (kind2, digest2) = take_preimage(&mut found, 2);
            assert(fragments(parts@, seen) =~= and_v_hash_pk_hash(keys@, kind1, digest1@, kind2, digest2@));
            Some((keys, kind1, digest1, kind2, digest2))
        },
    }
}

/// `and_v(v:hash, and_v(v:hash, and_v(v:pk.., older|after)))`.
///
/// ```text
/// OP_SIZE <32> OP_EQUALVERIFY <kind1> <digest1> OP_EQUALVERIFY
/// OP_SIZE <32> OP_EQUALVERIFY <kind2> <digest2> OP_EQUALVERIFY
/// (<key> OP_CHECKSIGVERIFY){1,} (<n> OP_CSV | <n> OP_CLTV)
/// ```
pub open spec fn and_v_dual_hash_pk_lock(keys: Seq<XOnlyKey>, kind1: TapscriptHashKind, digest1: Seq<u8>, kind2: TapscriptHashKind, digest2: Seq<u8>, lock: DualTimeoutLock) -> Seq<Seq<Slot>> {
    seq![
        preimage(kind1, digest1, OP_EQUALVERIFY),
        preimage(kind2, digest2, OP_EQUALVERIFY),
        verify_keys(keys),
        timeout(lock),
    ]
}

/// The parts of a script that is [`and_v_dual_hash_pk_lock`], `None` for every other script.
pub fn bare_tapscript_and_v_dual_hash_pk_lock_template(script: &LeafScript) -> (r: Option<PkDualHashLockParts>)
    ensures
        r matches Some((keys, kind1, digest1, kind2, digest2, lock)) ==> keys@.len() >= 1 && spells(
            script@,
            and_v_dual_hash_pk_lock(keys@, kind1, digest1@, kind2, digest2@, lock),
        ),
        forall|keys: Seq<XOnlyKey>, kind1: TapscriptHashKind, digest1: Seq<u8>, kind2: TapscriptHashKind, digest2: Seq<u8>, lock: DualTimeoutLock|
            keys.len() >= 1 && spells(script@, #[trigger] and_v_dual_hash_pk_lock(keys, kind1, digest1, kind2, digest2, lock)) ==> (
            r matches Some((v1, v2, v3, v4, v5, v6)) && v1@ == keys && v2 == kind1 && v3@ == digest1 && v4 == kind2 && v5@ == digest2 && v6 == lock),
        r is Some ==> template_of(script@) == Template::AndVDualHashPkLock,
{
    let parts = [
        Part::Preimage(OP_EQUALVERIFY),
        Part::Preimage(OP_EQUALVERIFY),
        Part::VerifyKeys(1),
        Part::Timeout,
    ];
    let found = script.match_parts(&parts);
    proof {
        assert forall|keys: Seq<XOnlyKey>, kind1: TapscriptHashKind, digest1: Seq<u8>, kind2: TapscriptHashKind, digest2: Seq<u8>, lock: DualTimeoutLock|
            keys.len() >= 1 && spells(script@, #[trigger] and_v_dual_hash_pk_lock(keys, kind1, digest1, kind2, digest2, lock)) implies (
            found matches Some(f) && seen_of(f@) == seq![Seen::Preimage(kind1, digest1), Seen::Preimage(kind2, digest2), Seen::Keys(keys), Seen::Lock(lock)]) by {
            let seen = seq![Seen::Preimage(kind1, digest1), Seen::Preimage(kind2, digest2), Seen::Keys(keys), Seen::Lock(lock)];
            assert(fragments(parts@, seen) =~= and_v_dual_hash_pk_lock(keys, kind1, digest1, kind2, digest2, lock));
        }
    }
    match found {
        None => None,
        Some(mut found) => {
            let ghost seen = seen_of(found@);
            proof {
                lemma_template_of(script@, parts@, seen);
                reveal_with_fuel(parts_outline, 5);
                reveal_with_fuel(parts_verifies, 5);
            }
            let (kind1, digest1) = take_preimage(&mut found, 0);
            let (kind2, digest2) = take_preimage(&mut found, 1);
            let keys = take_keys(&mut found, 2);
            let lock = take_lock(&mut found, 3);
            assert(fragments(parts@, seen) =~= and_v_dual_hash_pk_lock(keys@, kind1, digest1@, kind2, digest2@, lock));
            Some((keys, kind1, digest1, kind2, digest2, lock))
        },
    }
}

} // verus!
