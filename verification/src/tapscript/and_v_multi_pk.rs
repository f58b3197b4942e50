//! `and_v` leaves with several keys and a timeout or a hash.

use vstd::prelude::*;

use crate::tapscript::common::{OP_EQUAL, OP_EQUALVERIFY, OP_VERIFY};
use crate::tapscript::hash::TapscriptHashKind;
use crate::tapscript::kind::{
    lemma_template_of, parts_outline, parts_verifies, template_of, Template,
};
use crate::tapscript::layout::{after, check_keys, code, older, preimage, spells, verify_keys, Slot};
use crate::tapscript::matching::{fragments, seen_of, take_after, take_keys, take_older, take_preimage, Part, Seen};
use crate::tapscript::older_after::DualTimeoutLock;
use crate::tapscript::script::{LeafScript, XOnlyKey};

verus! {

/// Keys before the hash, hash with its digest, keys behind it.
pub type SandwichMultiPkHashParts = (Vec<XOnlyKey>, TapscriptHashKind, Vec<u8>, Vec<XOnlyKey>);

/// `and_v(v:pk.., older(n))` with at least two keys.
///
/// ```text
/// (<key> OP_CHECKSIGVERIFY){2,} <n> OP_CSV
/// ```
pub open spec fn and_v_multi_pk_older(keys: Seq<XOnlyKey>, n: u32) -> Seq<Seq<Slot>> {
    seq![
        verify_keys(keys),
        older(n),
    ]
}

/// The parts of a script that is [`and_v_multi_pk_older`], `None` for every other script.
pub fn bare_tapscript_and_v_multi_pk_older_template(script: &LeafScript) -> (r: Option<(Vec<XOnlyKey>, u32)>)
    ensures
        r matches Some((keys, n)) ==> keys@.len() >= 2 && spells(
            script@,
            and_v_multi_pk_older(keys@, n),
        ),
        forall|keys: Seq<XOnlyKey>, n: u32|
            keys.len() >= 2 && spells(script@, #[trigger] and_v_multi_pk_older(keys, n)) ==> (
            r matches Some((v1, v2)) && v1@ == keys && v2 == n),
        r is Some ==> template_of(script@) == Template::AndVMultiPkOlder,
{
    let parts = [
        Part::VerifyKeys(2),
        Part::Older,
    ];
    let found = script.match_parts(&parts);
    proof {
        assert forall|keys: Seq<XOnlyKey>, n: u32|
            keys.len() >= 2 && spells(script@, #[trigger] and_v_multi_pk_older(keys, n)) implies (
            found matches Some(f) && seen_of(f@) == seq![Seen::Keys(keys), Seen::Lock(DualTimeoutLock::Older(n))]) by {
            let seen = seq![Seen::Keys(keys), Seen::Lock(DualTimeoutLock::Older(n))];
            assert(fragments(parts@, seen) =~= and_v_multi_pk_older(keys, n));
        }
    }
    match found {
        None => None,
        Some(mut found) => {
            let ghost seen = seen_of(found@);
            proof {
                lemma_template_of(script@, parts@, seen);
                reveal_with_fuel(parts_outline, 3);
                reveal_with_fuel(parts_verifies, 3);
            }
            let keys = take_keys(&mut found, 0);
            let n = take_older(&mut found, 1);
            assert(fragments(parts@, seen) =~= and_v_multi_pk_older(keys@, n));
            Some((keys, n))
        },
    }
}

/// `and_v(v:pk.., after(n))` with at least two keys.
///
/// ```text
/// (<key> OP_CHECKSIGVERIFY){2,} <n> OP_CLTV
/// ```
pub open spec fn and_v_multi_pk_after(keys: Seq<XOnlyKey>, n: u32) -> Seq<Seq<Slot>> {
    seq![
        verify_keys(keys),
        after(n),
    ]
}

/// The parts of a script that is [`and_v_multi_pk_after`], `None` for every other script.
pub fn bare_tapscript_and_v_multi_pk_after_template(script: &LeafScript) -> (r: Option<(Vec<XOnlyKey>, u32)>)
    ensures
        r matches Some((keys, n)) ==> keys@.len() >= 2 && spells(
            script@,
            and_v_multi_pk_after(keys@, n),
        ),
        forall|keys: Seq<XOnlyKey>, n: u32|
            keys.len() >= 2 && spells(script@, #[trigger] and_v_multi_pk_after(keys, n)) ==> (
            r matches Some((v1, v2)) && v1@ == keys && v2 == n),
        r is Some ==> template_of(script@) == Template::AndVMultiPkAfter,
{
    let parts = [
        Part::VerifyKeys(2),
        Part::After,
    ];
    let found = script.match_parts(&parts);
    proof {
        assert forall|keys: Seq<XOnlyKey>, n: u32|
            keys.len() >= 2 && spells(script@, #[trigger] and_v_multi_pk_after(keys, n)) implies (
            found matches Some(f) && seen_of(f@) == seq![Seen::Keys(keys), Seen::Lock(DualTimeoutLock::After(n))]) by {
            let seen = seq![Seen::Keys(keys), Seen::Lock(DualTimeoutLock::After(n))];
            assert(fragments(parts@, seen) =~= and_v_multi_pk_after(keys, n));
        }
    }
    match found {
        None => None,
        Some(mut found) => {
            let ghost seen = seen_of(found@);
            proof {
                lemma_template_of(script@, parts@, seen);
                reveal_with_fuel(parts_outline, 3);
                reveal_with_fuel(parts_verifies, 3);
            }
            let keys = take_keys(&mut found, 0);
            let n = take_after(&mut found, 1);
            assert(fragments(parts@, seen) =~= and_v_multi_pk_after(keys@, n));
            Some((keys, n))
        },
    }
}

/// `and_v(v:pk.., hash)` with at least two keys.
///
/// ```text
/// (<key> OP_CHECKSIGVERIFY){2,} OP_SIZE <32> OP_EQUALVERIFY <kind> <digest> OP_EQUAL
/// ```
pub open spec fn and_v_multi_pk_hash(keys: Seq<XOnlyKey>, kind: TapscriptHashKind, digest: Seq<u8>) -> Seq<Seq<Slot>> {
    seq![
        verify_keys(keys),
        preimage(kind, digest, OP_EQUAL),
    ]
}

/// The parts of a script that is [`and_v_multi_pk_hash`], `None` for every other script.
pub fn bare_tapscript_and_v_multi_pk_hash_template(script: &LeafScript) -> (r: Option<(Vec<XOnlyKey>, TapscriptHashKind, Vec<u8>)>)
    ensures
        r matches Some((keys, kind, digest)) ==> keys@.len() >= 2 && spells(
            script@,
            and_v_multi_pk_hash(keys@, kind, digest@),
        ),
        forall|keys: Seq<XOnlyKey>, kind: TapscriptHashKind, digest: Seq<u8>|
            keys.len() >= 2 && spells(script@, #[trigger] and_v_multi_pk_hash(keys, kind, digest)) ==> (
            r matches Some((v1, v2, v3)) && v1@ == keys && v2 == kind && v3@ == digest),
        r is Some ==> template_of(script@) == Template::AndVMultiPkHash,
{
    let parts = [
        Part::VerifyKeys(2),
        Part::Preimage(OP_EQUAL),
    ];
    let found = script.match_parts(&parts);
    proof {
        assert forall|keys: Seq<XOnlyKey>, kind: TapscriptHashKind, digest: Seq<u8>|
            keys.len() >= 2 && spells(script@, #[trigger] and_v_multi_pk_hash(keys, kind, digest)) implies (
            found matches Some(f) && seen_of(f@) == seq![Seen::Keys(keys), Seen::Preimage(kind, digest)]) by {
            let seen = seq![Seen::Keys(keys), Seen::Preimage(kind, digest)];
            assert(fragments(parts@, seen) =~= and_v_multi_pk_hash(keys, kind, digest));
        }
    }
    match found {
        None => None,
        Some(mut found) => {
            let ghost seen = seen_of(found@);
            proof {
                lemma_template_of(script@, parts@, seen);
                reveal_with_fuel(parts_outline, 3);
                reveal_with_fuel(parts_verifies, 3);
            }
            let keys = take_keys(&mut found, 0);
            let (kind, digest) = take_preimage(&mut found, 1);
            assert(fragments(parts@, seen) =~= and_v_multi_pk_hash(keys@, kind, digest@));
            Some((keys, kind, digest))
        },
    }
}

/// `and_v(v:older(n), pk..)` with at least two keys.
///
/// ```text
/// <n> OP_CSV OP_VERIFY (<key> OP_CHECKSIGVERIFY){1,} <key> OP_CHECKSIG
/// ```
pub open spec fn and_v_older_multi_pk(n: u32, keys: Seq<XOnlyKey>) -> Seq<Seq<Slot>> {
    seq![
        older(n),
        code(OP_VERIFY),
        check_keys(keys),
    ]
}

/// The parts of a script that is [`and_v_older_multi_pk`], `None` for every other script.
pub fn bare_tapscript_and_v_older_multi_pk_template(script: &LeafScript) -> (r: Option<(u32, Vec<XOnlyKey>)>)
    ensures
        r matches Some((n, keys)) ==> keys@.len() >= 2 && spells(
            script@,
            and_v_older_multi_pk(n, keys@),
        ),
        forall|n: u32, keys: Seq<XOnlyKey>|
            keys.len() >= 2 && spells(script@, #[trigger] and_v_older_multi_pk(n, keys)) ==> (
            r matches Some((v1, v2)) && v1 == n && v2@ == keys),
        r is Some ==> template_of(script@) == Template::AndVOlderMultiPk,
{
    let parts = [
        Part::Older,
        Part::Op(OP_VERIFY),
        Part::CheckKeys(2),
    ];
    let found = script.match_parts(&parts);
    proof {
        assert forall|n: u32, keys: Seq<XOnlyKey>|
            keys.len() >= 2 && spells(script@, #[trigger] and_v_older_multi_pk(n, keys)) implies (
            found matches Some(f) && seen_of(f@) == seq![Seen::Lock(DualTimeoutLock::Older(n)), Seen::Nothing, Seen::Keys(keys)]) by {
            let seen = seq![Seen::Lock(DualTimeoutLock::Older(n)), Seen::Nothing, Seen::Keys(keys)];
            assert(fragments(parts@, seen) =~= and_v_older_multi_pk(n, keys));
        }
    }
    match found {
        None => None,
        Some(mut found) => {
            let ghost seen = seen_of(found@);
            proof {
                lemma_template_of(script@, parts@, seen);
                reveal_with_fuel(parts_outline, 4);
                reveal_with_fuel(parts_verifies, 4);
            }
            let n = take_older(&mut found, 0);
            let keys = take_keys(&mut found, 2);
            assert(fragments(parts@, seen) =~= and_v_older_multi_pk(n, keys@));
            Some((n, keys))
        },
    }
}

/// `and_v(v:after(n), pk..)` with at least two keys.
///
/// ```text
/// <n> OP_CLTV OP_VERIFY (<key> OP_CHECKSIGVERIFY){1,} <key> OP_CHECKSIG
/// ```
pub open spec fn and_v_after_multi_pk(n: u32, keys: Seq<XOnlyKey>) -> Seq<Seq<Slot>> {
    seq![
        after(n),
        code(OP_VERIFY),
        check_keys(keys),
    ]
}

/// The parts of a script that is [`and_v_after_multi_pk`], `None` for every other script.
pub fn bare_tapscript_and_v_after_multi_pk_template(script: &LeafScript) -> (r: Option<(u32, Vec<XOnlyKey>)>)
    ensures
        r matches Some((n, keys)) ==> keys@.len() >= 2 && spells(
            script@,
            and_v_after_multi_pk(n, keys@),
        ),
        forall|n: u32, keys: Seq<XOnlyKey>|
            keys.len() >= 2 && spells(script@, #[trigger] and_v_after_multi_pk(n, keys)) ==> (
            r matches Some((v1, v2)) && v1 == n && v2@ == keys),
        r is Some ==> template_of(script@) == Template::AndVAfterMultiPk,
{
    let parts = [
        Part::After,
        Part::Op(OP_VERIFY),
        Part::CheckKeys(2),
    ];
    let found = script.match_parts(&parts);
    proof {
        assert forall|n: u32, keys: Seq<XOnlyKey>|
            keys.len() >= 2 && spells(script@, #[trigger] and_v_after_multi_pk(n, keys)) implies (
            found matches Some(f) && seen_of(f@) == seq![Seen::Lock(DualTimeoutLock::After(n)), Seen::Nothing, Seen::Keys(keys)]) by {
            let seen = seq![Seen::Lock(DualTimeoutLock::After(n)), Seen::Nothing, Seen::Keys(keys)];
            assert(fragments(parts@, seen) =~= and_v_after_multi_pk(n, keys));
        }
    }
    match found {
        None => None,
        Some(mut found) => {
            let ghost seen = seen_of(found@);
            proof {
                lemma_template_of(script@, parts@, seen);
                reveal_with_fuel(parts_outline, 4);
                reveal_with_fuel(parts_verifies, 4);
            }
            let n = take_after(&mut found, 0);
            let keys = take_keys(&mut found, 2);
            assert(fragments(parts@, seen) =~= and_v_after_multi_pk(n, keys@));
            Some((n, keys))
        },
    }
}

/// `and_v(v:hash, pk..)` with at least two keys.
///
/// ```text
/// OP_SIZE <32> OP_EQUALVERIFY <kind> <digest> OP_EQUALVERIFY
/// (<key> OP_CHECKSIGVERIFY){1,} <key> OP_CHECKSIG
/// ```
pub open spec fn and_v_hash_multi_pk(keys: Seq<XOnlyKey>, kind: TapscriptHashKind, digest: Seq<u8>) -> Seq<Seq<Slot>> {
    seq![
        preimage(kind, digest, OP_EQUALVERIFY),
        check_keys(keys),
    ]
}

/// The parts of a script that is [`and_v_hash_multi_pk`], `None` for every other script.
pub fn bare_tapscript_and_v_hash_multi_pk_template(script: &LeafScript) -> (r: Option<(Vec<XOnlyKey>, TapscriptHashKind, Vec<u8>)>)
    ensures
        r matches Some((keys, kind, digest)) ==> keys@.len() >= 2 && spells(
            script@,
            and_v_hash_multi_pk(keys@, kind, digest@),
        ),
        forall|keys: Seq<XOnlyKey>, kind: TapscriptHashKind, digest: Seq<u8>|
            keys.len() >= 2 && spells(script@, #[trigger] and_v_hash_multi_pk(keys, kind, digest)) ==> (
            r matches Some((v1, v2, v3)) && v1@ == keys && v2 == kind && v3@ == digest),
        r is Some ==> template_of(script@) == Template::AndVHashMultiPk,
{
    let parts = [
        Part::Preimage(OP_EQUALVERIFY),
        Part::CheckKeys(2),
    ];
    let found = script.match_parts(&parts);
    proof {
        assert forall|keys: Seq<XOnlyKey>, kind: TapscriptHashKind, digest: Seq<u8>|
            keys.len() >= 2 && spells(script@, #[trigger] and_v_hash_multi_pk(keys, kind, digest)) implies (
            found matches Some(f) && seen_of(f@) == seq![Seen::Preimage(kind, digest), Seen::Keys(keys)]) by {
            let seen = seq![Seen::Preimage(kind, digest), Seen::Keys(keys)];
            assert(fragments(parts@, seen) =~= and_v_hash_multi_pk(keys, kind, digest));
        }
    }
    match found {
        None => None,
        Some(mut found) => {
            let ghost seen = seen_of(found@);
            proof {
                lemma_template_of(script@, parts@, seen);
                reveal_with_fuel(parts_outline, 3);
                reveal_with_fuel(parts_verifies, 3);
            }
            let (kind, digest) = take_preimage(&mut found, 0);
            let keys = take_keys(&mut found, 1);
            assert(fragments(parts@, seen) =~= and_v_hash_multi_pk(keys@, kind, digest@));
            Some((keys, kind, digest))
        },
    }
}

/// `and_v(v:pk.., and_v(v:older(n), pk..))`: keys on both sides of the timeout.
///
/// ```text
/// (<key> OP_CHECKSIGVERIFY){1,} <n> OP_CSV OP_VERIFY
/// (<key> OP_CHECKSIGVERIFY){0,} <key> OP_CHECKSIG
/// ```
pub open spec fn and_v_multi_pk_older_multi_pk(left: Seq<XOnlyKey>, n: u32, right: Seq<XOnlyKey>) -> Seq<Seq<Slot>> {
    seq![
        verify_keys(left),
        older(n),
        code(OP_VERIFY),
        check_keys(right),
    ]
}

/// The parts of a script that is [`and_v_multi_pk_older_multi_pk`], `None` for every other script.
pub fn bare_tapscript_and_v_multi_pk_older_multi_pk_template(script: &LeafScript) -> (r: Option<(Vec<XOnlyKey>, u32, Vec<XOnlyKey>)>)
    ensures
        r matches Some((left, n, right)) ==> left@.len() >= 1 && right@.len() >= 1 && spells(
            script@,
            and_v_multi_pk_older_multi_pk(left@, n, right@),
        ),
        forall|left: Seq<XOnlyKey>, n: u32, right: Seq<XOnlyKey>|
            left.len() >= 1 && right.len() >= 1 && spells(script@, #[trigger] and_v_multi_pk_older_multi_pk(left, n, right)) ==> (
            r matches Some((v1, v2, v3)) && v1@ == left && v2 == n && v3@ == right),
        r is Some ==> template_of(script@) == Template::AndVMultiPkOlderMultiPk,
{
    let parts = [
        Part::VerifyKeys(1),
        Part::Older,
        Part::Op(OP_VERIFY),
        Part::CheckKeys(1),
    ];
    let found = script.match_parts(&parts);
    proof {
        assert forall|left: Seq<XOnlyKey>, n: u32, right: Seq<XOnlyKey>|
            left.len() >= 1 && right.len() >= 1 && spells(script@, #[trigger] and_v_multi_pk_older_multi_pk(left, n, right)) implies (
            found matches Some(f) && seen_of(f@) == seq![Seen::Keys(left), Seen::Lock(DualTimeoutLock::Older(n)), Seen::Nothing, Seen::Keys(right)]) by {
            let seen = seq![Seen::Keys(left), Seen::Lock(DualTimeoutLock::Older(n)), Seen::Nothing, Seen::Keys(right)];
            assert(fragments(parts@, seen) =~= and_v_multi_pk_older_multi_pk(left, n, right));
        }
    }
    match found {
        None => None,
        Some(mut found) => {
            let ghost seen = seen_of(found@);
            proof {
                lemma_template_of(script@, parts@, seen);
                reveal_with_fuel(parts_outline, 5);
                reveal_with_fuel(parts_verifies, 5);
            }
            let left = take_keys(&mut found, 0);
            let n = take_older(&mut found, 1);
            let right = take_keys(&mut found, 3);
            assert(fragments(parts@, seen) =~= and_v_multi_pk_older_multi_pk(left@, n, right@));
            Some((left, n, right))
        },
    }
}

/// `and_v(v:pk.., and_v(v:after(n), pk..))`: keys on both sides of the timeout.
///
/// ```text
/// (<key> OP_CHECKSIGVERIFY){1,} <n> OP_CLTV OP_VERIFY
/// (<key> OP_CHECKSIGVERIFY){0,} <key> OP_CHECKSIG
/// ```
pub open spec fn and_v_multi_pk_after_multi_pk(left: Seq<XOnlyKey>, n: u32, right: Seq<XOnlyKey>) -> Seq<Seq<Slot>> {
    seq![
        verify_keys(left),
        after(n),
        code(OP_VERIFY),
        check_keys(right),
    ]
}

/// The parts of a script that is [`and_v_multi_pk_after_multi_pk`], `None` for every other script.
pub fn bare_tapscript_and_v_multi_pk_after_multi_pk_template(script: &LeafScript) -> (r: Option<(Vec<XOnlyKey>, u32, Vec<XOnlyKey>)>)
    ensures
        r matches Some((left, n, right)) ==> left@.len() >= 1 && right@.len() >= 1 && spells(
            script@,
            and_v_multi_pk_after_multi_pk(left@, n, right@),
        ),
        forall|left: Seq<XOnlyKey>, n: u32, right: Seq<XOnlyKey>|
            left.len() >= 1 && right.len() >= 1 && spells(script@, #[trigger] and_v_multi_pk_after_multi_pk(left, n, right)) ==> (
            r matches Some((v1, v2, v3)) && v1@ == left && v2 == n && v3@ == right),
        r is Some ==> template_of(script@) == Template::AndVMultiPkAfterMultiPk,
{
    let parts = [
        Part::VerifyKeys(1),
        Part::After,
        Part::Op(OP_VERIFY),
        Part::CheckKeys(1),
    ];
    let found = script.match_parts(&parts);
    proof {
        assert forall|left: Seq<XOnlyKey>, n: u32, right: Seq<XOnlyKey>|
            left.len() >= 1 && right.len() >= 1 && spells(script@, #[trigger] and_v_multi_pk_after_multi_pk(left, n, right)) implies (
            found matches Some(f) && seen_of(f@) == seq![Seen::Keys(left), Seen::Lock(DualTimeoutLock::After(n)), Seen::Nothing, Seen::Keys(right)]) by {
            let seen = seq![Seen::Keys(left), Seen::Lock(DualTimeoutLock::After(n)), Seen::Nothing, Seen::Keys(right)];
            assert(fragments(parts@, seen) =~= and_v_multi_pk_after_multi_pk(left, n, right));
        }
    }
    match found {
        None => None,
        Some(mut found) => {
            let ghost seen = seen_of(found@);
            proof {
                lemma_template_of(script@, parts@, seen);
                reveal_with_fuel(parts_outline, 5);
                reveal_with_fuel(parts_verifies, 5);
            }
            let left = take_keys(&mut found, 0);
            let n = take_after(&mut found, 1);
            let right = take_keys(&mut found, 3);
            assert(fragments(parts@, seen) =~= and_v_multi_pk_after_multi_pk(left@, n, right@));
            Some((left, n, right))
        },
    }
}

/// `and_v(v:pk.., and_v(v:hash, pk..))`: keys on both sides of the hash.
///
/// ```text
/// (<key> OP_CHECKSIGVERIFY){1,} OP_SIZE <32> OP_EQUALVERIFY <kind> <digest> OP_EQUALVERIFY
/// (<key> OP_CHECKSIGVERIFY){0,} <key> OP_CHECKSIG
/// ```
pub open spec fn and_v_multi_pk_hash_multi_pk(left: Seq<XOnlyKey>, kind: TapscriptHashKind, digest: Seq<u8>, right: Seq<XOnlyKey>) -> Seq<Seq<Slot>> {
    seq![
        verify_keys(left),
        preimage(kind, digest, OP_EQUALVERIFY),
        check_keys(right),
    ]
}

/// The parts of a script that is [`and_v_multi_pk_hash_multi_pk`], `None` for every other script.
pub fn bare_tapscript_and_v_multi_pk_hash_multi_pk_template(script: &LeafScript) -> (r: Option<SandwichMultiPkHashParts>)
    ensures
        r matches Some((left, kind, digest, right)) ==> left@.len() >= 1 && right@.len() >= 1 && spells(
            script@,
            and_v_multi_pk_hash_multi_pk(left@, kind, digest@, right@),
        ),
        forall|left: Seq<XOnlyKey>, kind: TapscriptHashKind, digest: Seq<u8>, right: Seq<XOnlyKey>|
            left.len() >= 1 && right.len() >= 1 && spells(script@, #[trigger] and_v_multi_pk_hash_multi_pk(left, kind, digest, right)) ==> (
            r matches Some((v1, v2, v3, v4)) && v1@ == left && v2 == kind && v3@ == digest && v4@ == right),
        r is Some ==> template_of(script@) == Template::AndVMultiPkHashMultiPk,
{
    let parts = [
        Part::VerifyKeys(1),
        Part::Preimage(OP_EQUALVERIFY),
        Part::CheckKeys(1),
    ];
    let found = script.match_parts(&parts);
    proof {
        assert forall|left: Seq<XOnlyKey>, kind: TapscriptHashKind, digest: Seq<u8>, right: Seq<XOnlyKey>|
            left.len() >= 1 && right.len() >= 1 && spells(script@, #[trigger] and_v_multi_pk_hash_multi_pk(left, kind, digest, right)) implies (
            found matches Some(f) && seen_of(f@) == seq![Seen::Keys(left), Seen::Preimage(kind, digest), Seen::Keys(right)]) by {
            let seen = seq![Seen::Keys(left), Seen::Preimage(kind, digest), Seen::Keys(right)];
            assert(fragments(parts@, seen) =~= and_v_multi_pk_hash_multi_pk(left, kind, digest, right));
        }
    }
    match found {
        None => None,
        Some(mut found) => {
            let ghost seen = seen_of(found@);
            proof {
                lemma_template_of(script@, parts@, seen);
                reveal_with_fuel(parts_outline, 4);
                reveal_with_fuel(parts_verifies, 4);
            }
            let left = take_keys(&mut found, 0);
            let (kind, digest) = take_preimage(&mut found, 1);
            let right = take_keys(&mut found, 2);
            assert(fragments(parts@, seen) =~= and_v_multi_pk_hash_multi_pk(left@, kind, digest@, right@));
            Some((left, kind, digest, right))
        },
    }
}

} // verus!
