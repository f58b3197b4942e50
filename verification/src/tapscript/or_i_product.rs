//! `or_i` leaves with two whole spending paths.

use vstd::prelude::*;

use crate::tapscript::common::{OP_ELSE, OP_ENDIF, OP_EQUAL, OP_IF};
use crate::tapscript::hash::TapscriptHashKind;
use crate::tapscript::kind::{
    lemma_template_of, parts_outline, parts_verifies, template_of, Template,
};
use crate::tapscript::layout::{after, check_keys, code, older, preimage, spells, timeout, verify_keys, Slot};
use crate::tapscript::matching::{fragments, seen_of, take_after, take_keys, take_lock, take_older, take_preimage, Part, Seen};
use crate::tapscript::older_after::DualTimeoutLock;
use crate::tapscript::script::{LeafScript, XOnlyKey};

verus! {

/// Keys of both paths, hash with its digest.
pub type InheritanceOrIPkAndVPkHashParts = (
    Vec<XOnlyKey>,
    Vec<XOnlyKey>,
    TapscriptHashKind,
    Vec<u8>,
);

/// Keys of both paths, hash with its digest, argument of the timeout.
pub type HtlcOrIHashAndLockParts = (
    Vec<XOnlyKey>,
    Vec<XOnlyKey>,
    TapscriptHashKind,
    Vec<u8>,
    u32,
);

/// Keys of both paths, hash of each path with its digest.
pub type DualHashOrIParts = (
    Vec<XOnlyKey>,
    Vec<XOnlyKey>,
    TapscriptHashKind,
    Vec<u8>,
    TapscriptHashKind,
    Vec<u8>,
);

/// Keys of both paths, timeout of each.
pub type DualTimeoutOrIParts = (Vec<XOnlyKey>, Vec<XOnlyKey>, DualTimeoutLock, DualTimeoutLock);

/// `or_i(and_v(v:pk.., pk), older(n))`.
///
/// ```text
/// OP_IF (<key> OP_CHECKSIGVERIFY){0,} <key> OP_CHECKSIG OP_ELSE <n> OP_CSV OP_ENDIF
/// ```
pub open spec fn or_i_and_v_pk_older(keys: Seq<XOnlyKey>, n: u32) -> Seq<Seq<Slot>> {
    seq![
        code(OP_IF),
        check_keys(keys),
        code(OP_ELSE),
        older(n),
        code(OP_ENDIF),
    ]
}

/// The parts of a script that is [`or_i_and_v_pk_older`], `None` for every other script.
pub fn bare_tapscript_or_i_and_v_pk_older_template(script: &LeafScript) -> (r: Option<(Vec<XOnlyKey>, u32)>)
    ensures
        r matches Some((keys, n)) ==> keys@.len() >= 1 && spells(
            script@,
            or_i_and_v_pk_older(keys@, n),
        ),
        forall|keys: Seq<XOnlyKey>, n: u32|
            keys.len() >= 1 && spells(script@, #[trigger] or_i_and_v_pk_older(keys, n)) ==> (
            r matches Some((v1, v2)) && v1@ == keys && v2 == n),
        r is Some ==> template_of(script@) == Template::OrIAndVPkOlder,
{
    let parts = [
        Part::Op(OP_IF),
        Part::CheckKeys(1),
        Part::Op(OP_ELSE),
        Part::Older,
        Part::Op(OP_ENDIF),
    ];
    let found = script.match_parts(&parts);
    proof {
        assert forall|keys: Seq<XOnlyKey>, n: u32|
            keys.len() >= 1 && spells(script@, #[trigger] or_i_and_v_pk_older(keys, n)) implies (
            found matches Some(f) && seen_of(f@) == seq![Seen::Nothing, Seen::Keys(keys), Seen::Nothing, Seen::Lock(DualTimeoutLock::Older(n)), Seen::Nothing]) by {
            let seen = seq![Seen::Nothing, Seen::Keys(keys), Seen::Nothing, Seen::Lock(DualTimeoutLock::Older(n)), Seen::Nothing];
            assert(fragments(parts@, seen) =~= or_i_and_v_pk_older(keys, n));
        }
    }
    match found {
        None => None,
        Some(mut found) => {
            let ghost seen = seen_of(found@);
            proof {
                lemma_template_of(script@, parts@, seen);
                reveal_with_fuel(parts_outline, 6);
                reveal_with_fuel(parts_verifies, 6);
            }
            let keys = take_keys(&mut found, 1);
            let n = take_older(&mut found, 3);
            assert(fragments(parts@, seen) =~= or_i_and_v_pk_older(keys@, n));
            Some((keys, n))
        },
    }
}

/// `or_i(and_v(v:pk.., pk), after(n))`.
///
/// ```text
/// OP_IF (<key> OP_CHECKSIGVERIFY){0,} <key> OP_CHECKSIG OP_ELSE <n> OP_CLTV OP_ENDIF
/// ```
pub open spec fn or_i_and_v_pk_after(keys: Seq<XOnlyKey>, n: u32) -> Seq<Seq<Slot>> {
    seq![
        code(OP_IF),
        check_keys(keys),
        code(OP_ELSE),
        after(n),
        code(OP_ENDIF),
    ]
}

/// The parts of a script that is [`or_i_and_v_pk_after`], `None` for every other script.
pub fn bare_tapscript_or_i_and_v_pk_after_template(script: &LeafScript) -> (r: Option<(Vec<XOnlyKey>, u32)>)
    ensures
        r matches Some((keys, n)) ==> keys@.len() >= 1 && spells(
            script@,
            or_i_and_v_pk_after(keys@, n),
        ),
        forall|keys: Seq<XOnlyKey>, n: u32|
            keys.len() >= 1 && spells(script@, #[trigger] or_i_and_v_pk_after(keys, n)) ==> (
            r matches Some((v1, v2)) && v1@ == keys && v2 == n),
        r is Some ==> template_of(script@) == Template::OrIAndVPkAfter,
{
    let parts = [
        Part::Op(OP_IF),
        Part::CheckKeys(1),
        Part::Op(OP_ELSE),
        Part::After,
        Part::Op(OP_ENDIF),
    ];
    let found = script.match_parts(&parts);
    proof {
        assert forall|keys: Seq<XOnlyKey>, n: u32|
            keys.len() >= 1 && spells(script@, #[trigger] or_i_and_v_pk_after(keys, n)) implies (
            found matches Some(f) && seen_of(f@) == seq![Seen::Nothing, Seen::Keys(keys), Seen::Nothing, Seen::Lock(DualTimeoutLock::After(n)), Seen::Nothing]) by {
            let seen = seq![Seen::Nothing, Seen::Keys(keys), Seen::Nothing, Seen::Lock(DualTimeoutLock::After(n)), Seen::Nothing];
            assert(fragments(parts@, seen) =~= or_i_and_v_pk_after(keys, n));
        }
    }
    match found {
        None => None,
        Some(mut found) => {
            let ghost seen = seen_of(found@);
            proof {
                lemma_template_of(script@, parts@, seen);
                reveal_with_fuel(parts_outline, 6);
                reveal_with_fuel(parts_verifies, 6);
            }
            let keys = take_keys(&mut found, 1);
            let n = take_after(&mut found, 3);
            assert(fragments(parts@, seen) =~= or_i_and_v_pk_after(keys@, n));
            Some((keys, n))
        },
    }
}

/// `or_i(and_v(v:pk.., pk), hash)`.
///
/// ```text
/// OP_IF (<key> OP_CHECKSIGVERIFY){0,} <key> OP_CHECKSIG OP_ELSE
/// OP_SIZE <32> OP_EQUALVERIFY <kind> <digest> OP_EQUAL OP_ENDIF
/// ```
pub open spec fn or_i_and_v_pk_hash(keys: Seq<XOnlyKey>, kind: TapscriptHashKind, digest: Seq<u8>) -> Seq<Seq<Slot>> {
    seq![
        code(OP_IF),
        check_keys(keys),
        code(OP_ELSE),
        preimage(kind, digest, OP_EQUAL),
        code(OP_ENDIF),
    ]
}

/// The parts of a script that is [`or_i_and_v_pk_hash`], `None` for every other script.
pub fn bare_tapscript_or_i_and_v_pk_hash_template(script: &LeafScript) -> (r: Option<(Vec<XOnlyKey>, TapscriptHashKind, Vec<u8>)>)
    ensures
        r matches Some((keys, kind, digest)) ==> keys@.len() >= 1 && spells(
            script@,
            or_i_and_v_pk_hash(keys@, kind, digest@),
        ),
        forall|keys: Seq<XOnlyKey>, kind: TapscriptHashKind, digest: Seq<u8>|
            keys.len() >= 1 && spells(script@, #[trigger] or_i_and_v_pk_hash(keys, kind, digest)) ==> (
            r matches Some((v1, v2, v3)) && v1@ == keys && v2 == kind && v3@ == digest),
        r is Some ==> template_of(script@) == Template::OrIAndVPkHash,
{
    let parts = [
        Part::Op(OP_IF),
        Part::CheckKeys(1),
        Part::Op(OP_ELSE),
        Part::Preimage(OP_EQUAL),
        Part::Op(OP_ENDIF),
    ];
    let found = script.match_parts(&parts);
    proof {
        assert forall|keys: Seq<XOnlyKey>, kind: TapscriptHashKind, digest: Seq<u8>|
            keys.len() >= 1 && spells(script@, #[trigger] or_i_and_v_pk_hash(keys, kind, digest)) implies (
            found matches Some(f) && seen_of(f@) == seq![Seen::Nothing, Seen::Keys(keys), Seen::Nothing, Seen::Preimage(kind, digest), Seen::Nothing]) by {
            let seen = seq![Seen::Nothing, Seen::Keys(keys), Seen::Nothing, Seen::Preimage(kind, digest), Seen::Nothing];
            assert(fragments(parts@, seen) =~= or_i_and_v_pk_hash(keys, kind, digest));
        }
    }
    match found {
        None => None,
        Some(mut found) => {
            let ghost seen = seen_of(found@);
            proof {
                lemma_template_of(script@, parts@, seen);
                reveal_with_fuel(parts_outline, 6);
                reveal_with_fuel(parts_verifies, 6);
            }
            let keys = take_keys(&mut found, 1);
            let (kind, digest) = take_preimage(&mut found, 3);
            assert(fragments(parts@, seen) =~= or_i_and_v_pk_hash(keys@, kind, digest@));
            Some((keys, kind, digest))
        },
    }
}

/// `or_i(and_v(v:pk.., pk), and_v(v:pk.., older(n)))`: recovery keys behind a timeout.
///
/// ```text
/// OP_IF (<key> OP_CHECKSIGVERIFY){0,} <key> OP_CHECKSIG OP_ELSE
/// (<key> OP_CHECKSIGVERIFY){1,} <n> OP_CSV OP_ENDIF
/// ```
pub open spec fn or_i_pk_and_v_pk_older(if_keys: Seq<XOnlyKey>, else_keys: Seq<XOnlyKey>, n: u32) -> Seq<Seq<Slot>> {
    seq![
        code(OP_IF),
        check_keys(if_keys),
        code(OP_ELSE),
        verify_keys(else_keys),
        older(n),
        code(OP_ENDIF),
    ]
}

/// The parts of a script that is [`or_i_pk_and_v_pk_older`], `None` for every other script.
pub fn bare_tapscript_or_i_pk_and_v_pk_older_template(script: &LeafScript) -> (r: Option<(Vec<XOnlyKey>, Vec<XOnlyKey>, u32)>)
    ensures
        r matches Some((if_keys, else_keys, n)) ==> if_keys@.len() >= 1 && else_keys@.len() >= 1 && spells(
            script@,
            or_i_pk_and_v_pk_older(if_keys@, else_keys@, n),
        ),
        forall|if_keys: Seq<XOnlyKey>, else_keys: Seq<XOnlyKey>, n: u32|
            if_keys.len() >= 1 && else_keys.len() >= 1 && spells(script@, #[trigger] or_i_pk_and_v_pk_older(if_keys, else_keys, n)) ==> (
            r matches Some((v1, v2, v3)) && v1@ == if_keys && v2@ == else_keys && v3 == n),
        r is Some ==> template_of(script@) == Template::OrIPkAndVPkOlder,
{
    let parts = [
        Part::Op(OP_IF),
        Part::CheckKeys(1),
        Part::Op(OP_ELSE),
        Part::VerifyKeys(1),
        Part::Older,
        Part::Op(OP_ENDIF),
    ];
    let found = script.match_parts(&parts);
    proof {
        assert forall|if_keys: Seq<XOnlyKey>, else_keys: Seq<XOnlyKey>, n: u32|
            if_keys.len() >= 1 && else_keys.len() >= 1 && spells(script@, #[trigger] or_i_pk_and_v_pk_older(if_keys, else_keys, n)) implies (
            found matches Some(f) && seen_of(f@) == seq![Seen::Nothing, Seen::Keys(if_keys), Seen::Nothing, Seen::Keys(else_keys), Seen::Lock(DualTimeoutLock::Older(n)), Seen::Nothing]) by {
            let seen = seq![Seen::Nothing, Seen::Keys(if_keys), Seen::Nothing, Seen::Keys(else_keys), Seen::Lock(DualTimeoutLock::Older(n)), Seen::Nothing];
            assert(fragments(parts@, seen) =~= or_i_pk_and_v_pk_older(if_keys, else_keys, n));
        }
    }
    match found {
        None => None,
        Some(mut found) => {
            let ghost seen = seen_of(found@);
            proof {
                lemma_template_of(script@, parts@, seen);
                reveal_with_fuel(parts_outline, 7);
                reveal_with_fuel(parts_verifies, 7);
            }
            let if_keys = take_keys(&mut found, 1);
            let else_keys = take_keys(&mut found, 3);
            let n = take_older(&mut found, 4);
            assert(fragments(parts@, seen) =~= or_i_pk_and_v_pk_older(if_keys@, else_keys@, n));
            Some((if_keys, else_keys, n))
        },
    }
}

/// `or_i(and_v(v:pk.., pk), and_v(v:pk.., after(n)))`: recovery keys behind a timeout.
///
/// ```text
/// OP_IF (<key> OP_CHECKSIGVERIFY){0,} <key> OP_CHECKSIG OP_ELSE
/// (<key> OP_CHECKSIGVERIFY){1,} <n> OP_CLTV OP_ENDIF
/// ```
pub open spec fn or_i_pk_and_v_pk_after(if_keys: Seq<XOnlyKey>, else_keys: Seq<XOnlyKey>, n: u32) -> Seq<Seq<Slot>> {
    seq![
        code(OP_IF),
        check_keys(if_keys),
        code(OP_ELSE),
        verify_keys(else_keys),
        after(n),
        code(OP_ENDIF),
    ]
}

/// The parts of a script that is [`or_i_pk_and_v_pk_after`], `None` for every other script.
pub fn bare_tapscript_or_i_pk_and_v_pk_after_template(script: &LeafScript) -> (r: Option<(Vec<XOnlyKey>, Vec<XOnlyKey>, u32)>)
    ensures
        r matches Some((if_keys, else_keys, n)) ==> if_keys@.len() >= 1 && else_keys@.len() >= 1 && spells(
            script@,
            or_i_pk_and_v_pk_after(if_keys@, else_keys@, n),
        ),
        forall|if_keys: Seq<XOnlyKey>, else_keys: Seq<XOnlyKey>, n: u32|
            if_keys.len() >= 1 && else_keys.len() >= 1 && spells(script@, #[trigger] or_i_pk_and_v_pk_after(if_keys, else_keys, n)) ==> (
            r matches Some((v1, v2, v3)) && v1@ == if_keys && v2@ == else_keys && v3 == n),
        r is Some ==> template_of(script@) == Template::OrIPkAndVPkAfter,
{
    let parts = [
        Part::Op(OP_IF),
        Part::CheckKeys(1),
        Part::Op(OP_ELSE),
        Part::VerifyKeys(1),
        Part::After,
        Part::Op(OP_ENDIF),
    ];
    let found = script.match_parts(&parts);
    proof {
        assert forall|if_keys: Seq<XOnlyKey>, else_keys: Seq<XOnlyKey>, n: u32|
            if_keys.len() >= 1 && else_keys.len() >= 1 && spells(script@, #[trigger] or_i_pk_and_v_pk_after(if_keys, else_keys, n)) implies (
            found matches Some(f) && seen_of(f@) == seq![Seen::Nothing, Seen::Keys(if_keys), Seen::Nothing, Seen::Keys(else_keys), Seen::Lock(DualTimeoutLock::After(n)), Seen::Nothing]) by {
            let seen = seq![Seen::Nothing, Seen::Keys(if_keys), Seen::Nothing, Seen::Keys(else_keys), Seen::Lock(DualTimeoutLock::After(n)), Seen::Nothing];
            assert(fragments(parts@, seen) =~= or_i_pk_and_v_pk_after(if_keys, else_keys, n));
        }
    }
    match found {
        None => None,
        Some(mut found) => {
            let ghost seen = seen_of(found@);
            proof {
                lemma_template_of(script@, parts@, seen);
                reveal_with_fuel(parts_outline, 7);
                reveal_with_fuel(parts_verifies, 7);
            }
            let if_keys = take_keys(&mut found, 1);
            let else_keys = take_keys(&mut found, 3);
            let n = take_after(&mut found, 4);
            assert(fragments(parts@, seen) =~= or_i_pk_and_v_pk_after(if_keys@, else_keys@, n));
            Some((if_keys, else_keys, n))
        },
    }
}

/// `or_i(and_v(v:pk.., pk), and_v(v:pk.., hash))`: recovery keys behind a preimage.
///
/// ```text
/// OP_IF (<key> OP_CHECKSIGVERIFY){0,} <key> OP_CHECKSIG OP_ELSE
/// (<key> OP_CHECKSIGVERIFY){1,} OP_SIZE <32> OP_EQUALVERIFY <kind> <digest> OP_EQUAL
/// OP_ENDIF
/// ```
pub open spec fn or_i_pk_and_v_pk_hash(if_keys: Seq<XOnlyKey>, else_keys: Seq<XOnlyKey>, kind: TapscriptHashKind, digest: Seq<u8>) -> Seq<Seq<Slot>> {
    seq![
        code(OP_IF),
        check_keys(if_keys),
        code(OP_ELSE),
        verify_keys(else_keys),
        preimage(kind, digest, OP_EQUAL),
        code(OP_ENDIF),
    ]
}

/// The parts of a script that is [`or_i_pk_and_v_pk_hash`], `None` for every other script.
pub fn bare_tapscript_or_i_pk_and_v_pk_hash_template(script: &LeafScript) -> (r: Option<InheritanceOrIPkAndVPkHashParts>)
    ensures
        r matches Some((if_keys, else_keys, kind, digest)) ==> if_keys@.len() >= 1 && else_keys@.len() >= 1 && spells(
            script@,
            or_i_pk_and_v_pk_hash(if_keys@, else_keys@, kind, digest@),
        ),
        forall|if_keys: Seq<XOnlyKey>, else_keys: Seq<XOnlyKey>, kind: TapscriptHashKind, digest: Seq<u8>|
            if_keys.len() >= 1 && else_keys.len() >= 1 && spells(script@, #[trigger] or_i_pk_and_v_pk_hash(if_keys, else_keys, kind, digest)) ==> (
            r matches Some((v1, v2, v3, v4)) && v1@ == if_keys && v2@ == else_keys && v3 == kind && v4@ == digest),
        r is Some ==> template_of(script@) == Template::OrIPkAndVPkHash,
{
    let parts = [
        Part::Op(OP_IF),
        Part::CheckKeys(1),
        Part::Op(OP_ELSE),
        Part::VerifyKeys(1),
        Part::Preimage(OP_EQUAL),
        Part::Op(OP_ENDIF),
    ];
    let found = script.match_parts(&parts);
    proof {
        assert forall|if_keys: Seq<XOnlyKey>, else_keys: Seq<XOnlyKey>, kind: TapscriptHashKind, digest: Seq<u8>|
            if_keys.len() >= 1 && else_keys.len() >= 1 && spells(script@, #[trigger] or_i_pk_and_v_pk_hash(if_keys, else_keys, kind, digest)) implies (
            found matches Some(f) && seen_of(f@) == seq![Seen::Nothing, Seen::Keys(if_keys), Seen::Nothing, Seen::Keys(else_keys), Seen::Preimage(kind, digest), Seen::Nothing]) by {
            let seen = seq![Seen::Nothing, Seen::Keys(if_keys), Seen::Nothing, Seen::Keys(else_keys), Seen::Preimage(kind, digest), Seen::Nothing];
            assert(fragments(parts@, seen) =~= or_i_pk_and_v_pk_hash(if_keys, else_keys, kind, digest));
        }
    }
    match found {
        None => None,
        Some(mut found) => {
            let ghost seen = seen_of(found@);
            proof {
                lemma_template_of(script@, parts@, seen);
                reveal_with_fuel(parts_outline, 7);
                reveal_with_fuel(parts_verifies, 7);
            }
            let if_keys = take_keys(&mut found, 1);
            let else_keys = take_keys(&mut found, 3);
            let (kind, digest) = take_preimage(&mut found, 4);
            assert(fragments(parts@, seen) =~= or_i_pk_and_v_pk_hash(if_keys@, else_keys@, kind, digest@));
            Some((if_keys, else_keys, kind, digest))
        },
    }
}

/// `or_i(and_v(v:pk.., hash), and_v(v:pk.., older(n)))`: claim by preimage, refund after a timeout.
///
/// ```text
/// OP_IF (<key> OP_CHECKSIGVERIFY){1,} OP_SIZE <32> OP_EQUALVERIFY <kind> <digest> OP_EQUAL
/// OP_ELSE (<key> OP_CHECKSIGVERIFY){1,} <n> OP_CSV OP_ENDIF
/// ```
pub open spec fn or_i_hash_and_v_pk_older(if_keys: Seq<XOnlyKey>, else_keys: Seq<XOnlyKey>, kind: TapscriptHashKind, digest: Seq<u8>, n: u32) -> Seq<Seq<Slot>> {
    seq![
        code(OP_IF),
        verify_keys(if_keys),
        preimage(kind, digest, OP_EQUAL),
        code(OP_ELSE),
        verify_keys(else_keys),
        older(n),
        code(OP_ENDIF),
    ]
}

/// The parts of a script that is [`or_i_hash_and_v_pk_older`], `None` for every other script.
pub fn bare_tapscript_or_i_hash_and_v_pk_older_template(script: &LeafScript) -> (r: Option<HtlcOrIHashAndLockParts>)
    ensures
        r matches Some((if_keys, else_keys, kind, digest, n)) ==> if_keys@.len() >= 1 && else_keys@.len() >= 1 && spells(
            script@,
            or_i_hash_and_v_pk_older(if_keys@, else_keys@, kind, digest@, n),
        ),
        forall|if_keys: Seq<XOnlyKey>, else_keys: Seq<XOnlyKey>, kind: TapscriptHashKind, digest: Seq<u8>, n: u32|
            if_keys.len() >= 1 && else_keys.len() >= 1 && spells(script@, #[trigger] or_i_hash_and_v_pk_older(if_keys, else_keys, kind, digest, n)) ==> (
            r matches Some((v1, v2, v3, v4, v5)) && v1@ == if_keys && v2@ == else_keys && v3 == kind && v4@ == digest && v5 == n),
        r is Some ==> template_of(script@) == Template::OrIHashAndVPkOlder,
{
    let parts = [
        Part::Op(OP_IF),
        Part::VerifyKeys(1),
        Part::Preimage(OP_EQUAL),
        Part::Op(OP_ELSE),
        Part::VerifyKeys(1),
        Part::Older,
        Part::Op(OP_ENDIF),
    ];
    let found = script.match_parts(&parts);
    proof {
        assert forall|if_keys: Seq<XOnlyKey>, else_keys: Seq<XOnlyKey>, kind: TapscriptHashKind, digest: Seq<u8>, n: u32|
            if_keys.len() >= 1 && else_keys.len() >= 1 && spells(script@, #[trigger] or_i_hash_and_v_pk_older(if_keys, else_keys, kind, digest, n)) implies (
            found matches Some(f) && seen_of(f@) == seq![Seen::Nothing, Seen::Keys(if_keys), Seen::Preimage(kind, digest), Seen::Nothing, Seen::Keys(else_keys), Seen::Lock(DualTimeoutLock::Older(n)), Seen::Nothing]) by {
            let seen = seq![Seen::Nothing, Seen::Keys(if_keys), Seen::Preimage(kind, digest), Seen::Nothing, Seen::Keys(else_keys), Seen::Lock(DualTimeoutLock::Older(n)), Seen::Nothing];
            assert(fragments(parts@, seen) =~= or_i_hash_and_v_pk_older(if_keys, else_keys, kind, digest, n));
        }
    }
    match found {
        None => None,
        Some(mut found) => {
            let ghost seen = seen_of(found@);
            proof {
                lemma_template_of(script@, parts@, seen);
                reveal_with_fuel(parts_outline, 8);
                reveal_with_fuel(parts_verifies, 8);
            }
            let if_keys = take_keys(&mut found, 1);
            let (kind, digest) = take_preimage(&mut found, 2);
            let else_keys = take_keys(&mut found, 4);
            let n = take_older(&mut found, 5);
            assert(fragments(parts@, seen) =~= or_i_hash_and_v_pk_older(if_keys@, else_keys@, kind, digest@, n));
            Some((if_keys, else_keys, kind, digest, n))
        },
    }
}

/// `or_i(and_v(v:pk.., hash), and_v(v:pk.., after(n)))`: claim by preimage, refund after a timeout.
///
/// ```text
/// OP_IF (<key> OP_CHECKSIGVERIFY){1,} OP_SIZE <32> OP_EQUALVERIFY <kind> <digest> OP_EQUAL
/// OP_ELSE (<key> OP_CHECKSIGVERIFY){1,} <n> OP_CLTV OP_ENDIF
/// ```
pub open spec fn or_i_hash_and_v_pk_after(if_keys: Seq<XOnlyKey>, else_keys: Seq<XOnlyKey>, kind: TapscriptHashKind, digest: Seq<u8>, n: u32) -> Seq<Seq<Slot>> {
    seq![
        code(OP_IF),
        verify_keys(if_keys),
        preimage(kind, digest, OP_EQUAL),
        code(OP_ELSE),
        verify_keys(else_keys),
        after(n),
        code(OP_ENDIF),
    ]
}

/// The parts of a script that is [`or_i_hash_and_v_pk_after`], `None` for every other script.
pub fn bare_tapscript_or_i_hash_and_v_pk_after_template(script: &LeafScript) -> (r: Option<HtlcOrIHashAndLockParts>)
    ensures
        r matches Some((if_keys, else_keys, kind, digest, n)) ==> if_keys@.len() >= 1 && else_keys@.len() >= 1 && spells(
            script@,
            or_i_hash_and_v_pk_after(if_keys@, else_keys@, kind, digest@, n),
        ),
        forall|if_keys: Seq<XOnlyKey>, else_keys: Seq<XOnlyKey>, kind: TapscriptHashKind, digest: Seq<u8>, n: u32|
            if_keys.len() >= 1 && else_keys.len() >= 1 && spells(script@, #[trigger] or_i_hash_and_v_pk_after(if_keys, else_keys, kind, digest, n)) ==> (
            r matches Some((v1, v2, v3, v4, v5)) && v1@ == if_keys && v2@ == else_keys && v3 == kind && v4@ == digest && v5 == n),
        r is Some ==> template_of(script@) == Template::OrIHashAndVPkAfter,
{
    let parts = [
        Part::Op(OP_IF),
        Part::VerifyKeys(1),
        Part::Preimage(OP_EQUAL),
        Part::Op(OP_ELSE),
        Part::VerifyKeys(1),
        Part::After,
        Part::Op(OP_ENDIF),
    ];
    let found = script.match_parts(&parts);
    proof {
        assert forall|if_keys: Seq<XOnlyKey>, else_keys: Seq<XOnlyKey>, kind: TapscriptHashKind, digest: Seq<u8>, n: u32|
            if_keys.len() >= 1 && else_keys.len() >= 1 && spells(script@, #[trigger] or_i_hash_and_v_pk_after(if_keys, else_keys, kind, digest, n)) implies (
            found matches Some(f) && seen_of(f@) == seq![Seen::Nothing, Seen::Keys(if_keys), Seen::Preimage(kind, digest), Seen::Nothing, Seen::Keys(else_keys), Seen::Lock(DualTimeoutLock::After(n)), Seen::Nothing]) by {
            let seen = seq![Seen::Nothing, Seen::Keys(if_keys), Seen::Preimage(kind, digest), Seen::Nothing, Seen::Keys(else_keys), Seen::Lock(DualTimeoutLock::After(n)), Seen::Nothing];
            assert(fragments(parts@, seen) =~= or_i_hash_and_v_pk_after(if_keys, else_keys, kind, digest, n));
        }
    }
    match found {
        None => None,
        Some(mut found) => {
            let ghost seen = seen_of(found@);
            proof {
                lemma_template_of(script@, parts@, seen);
                reveal_with_fuel(parts_outline, 8);
                reveal_with_fuel(parts_verifies, 8);
            }
            let if_keys = take_keys(&mut found, 1);
            let (kind, digest) = take_preimage(&mut found, 2);
            let else_keys = take_keys(&mut found, 4);
            let n = take_after(&mut found, 5);
            assert(fragments(parts@, seen) =~= or_i_hash_and_v_pk_after(if_keys@, else_keys@, kind, digest@, n));
            Some((if_keys, else_keys, kind, digest, n))
        },
    }
}

/// `or_i(and_v(v:pk.., older(n)), and_v(v:pk.., hash))`: the refund path first.
///
/// ```text
/// OP_IF (<key> OP_CHECKSIGVERIFY){1,} <n> OP_CSV OP_ELSE (<key> OP_CHECKSIGVERIFY){1,}
/// OP_SIZE <32> OP_EQUALVERIFY <kind> <digest> OP_EQUAL OP_ENDIF
/// ```
pub open spec fn or_i_older_and_v_pk_hash(if_keys: Seq<XOnlyKey>, else_keys: Seq<XOnlyKey>, kind: TapscriptHashKind, digest: Seq<u8>, n: u32) -> Seq<Seq<Slot>> {
    seq![
        code(OP_IF),
        verify_keys(if_keys),
        older(n),
        code(OP_ELSE),
        verify_keys(else_keys),
        preimage(kind, digest, OP_EQUAL),
        code(OP_ENDIF),
    ]
}

/// The parts of a script that is [`or_i_older_and_v_pk_hash`], `None` for every other script.
pub fn bare_tapscript_or_i_older_and_v_pk_hash_template(script: &LeafScript) -> (r: Option<HtlcOrIHashAndLockParts>)
    ensures
        r matches Some((if_keys, else_keys, kind, digest, n)) ==> if_keys@.len() >= 1 && else_keys@.len() >= 1 && spells(
            script@,
            or_i_older_and_v_pk_hash(if_keys@, else_keys@, kind, digest@, n),
        ),
        forall|if_keys: Seq<XOnlyKey>, else_keys: Seq<XOnlyKey>, kind: TapscriptHashKind, digest: Seq<u8>, n: u32|
            if_keys.len() >= 1 && else_keys.len() >= 1 && spells(script@, #[trigger] or_i_older_and_v_pk_hash(if_keys, else_keys, kind, digest, n)) ==> (
            r matches Some((v1, v2, v3, v4, v5)) && v1@ == if_keys && v2@ == else_keys && v3 == kind && v4@ == digest && v5 == n),
        r is Some ==> template_of(script@) == Template::OrIOlderAndVPkHash,
{
    let parts = [
        Part::Op(OP_IF),
        Part::VerifyKeys(1),
        Part::Older,
        Part::Op(OP_ELSE),
        Part::VerifyKeys(1),
        Part::Preimage(OP_EQUAL),
        Part::Op(OP_ENDIF),
    ];
    let found = script.match_parts(&parts);
    proof {
        assert forall|if_keys: Seq<XOnlyKey>, else_keys: Seq<XOnlyKey>, kind: TapscriptHashKind, digest: Seq<u8>, n: u32|
            if_keys.len() >= 1 && else_keys.len() >= 1 && spells(script@, #[trigger] or_i_older_and_v_pk_hash(if_keys, else_keys, kind, digest, n)) implies (
            found matches Some(f) && seen_of(f@) == seq![Seen::Nothing, Seen::Keys(if_keys), Seen::Lock(DualTimeoutLock::Older(n)), Seen::Nothing, Seen::Keys(else_keys), Seen::Preimage(kind, digest), Seen::Nothing]) by {
            let seen = seq![Seen::Nothing, Seen::Keys(if_keys), Seen::Lock(DualTimeoutLock::Older(n)), Seen::Nothing, Seen::Keys(else_keys), Seen::Preimage(kind, digest), Seen::Nothing];
            assert(fragments(parts@, seen) =~= or_i_older_and_v_pk_hash(if_keys, else_keys, kind, digest, n));
        }
    }
    match found {
        None => None,
        Some(mut found) => {
            let ghost seen = seen_of(found@);
            proof {
                lemma_template_of(script@, parts@, seen);
                reveal_with_fuel(parts_outline, 8);
                reveal_with_fuel(parts_verifies, 8);
            }
            let if_keys = take_keys(&mut found, 1);
            let n = take_older(&mut found, 2);
            let else_keys = take_keys(&mut found, 4);
            let (kind, digest) = take_preimage(&mut found, 5);
            assert(fragments(parts@, seen) =~= or_i_older_and_v_pk_hash(if_keys@, else_keys@, kind, digest@, n));
            Some((if_keys, else_keys, kind, digest, n))
        },
    }
}

/// `or_i(and_v(v:pk.., after(n)), and_v(v:pk.., hash))`: the refund path first.
///
/// ```text
/// OP_IF (<key> OP_CHECKSIGVERIFY){1,} <n> OP_CLTV OP_ELSE (<key> OP_CHECKSIGVERIFY){1,}
/// OP_SIZE <32> OP_EQUALVERIFY <kind> <digest> OP_EQUAL OP_ENDIF
/// ```
pub open spec fn or_i_after_and_v_pk_hash(if_keys: Seq<XOnlyKey>, else_keys: Seq<XOnlyKey>, kind: TapscriptHashKind, digest: Seq<u8>, n: u32) -> Seq<Seq<Slot>> {
    seq![
        code(OP_IF),
        verify_keys(if_keys),
        after(n),
        code(OP_ELSE),
        verify_keys(else_keys),
        preimage(kind, digest, OP_EQUAL),
        code(OP_ENDIF),
    ]
}

/// The parts of a script that is [`or_i_after_and_v_pk_hash`], `None` for every other script.
pub fn bare_tapscript_or_i_after_and_v_pk_hash_template(script: &LeafScript) -> (r: Option<HtlcOrIHashAndLockParts>)
    ensures
        r matches Some((if_keys, else_keys, kind, digest, n)) ==> if_keys@.len() >= 1 && else_keys@.len() >= 1 && spells(
            script@,
            or_i_after_and_v_pk_hash(if_keys@, else_keys@, kind, digest@, n),
        ),
        forall|if_keys: Seq<XOnlyKey>, else_keys: Seq<XOnlyKey>, kind: TapscriptHashKind, digest: Seq<u8>, n: u32|
            if_keys.len() >= 1 && else_keys.len() >= 1 && spells(script@, #[trigger] or_i_after_and_v_pk_hash(if_keys, else_keys, kind, digest, n)) ==> (
            r matches Some((v1, v2, v3, v4, v5)) && v1@ == if_keys && v2@ == else_keys && v3 == kind && v4@ == digest && v5 == n),
        r is Some ==> template_of(script@) == Template::OrIAfterAndVPkHash,
{
    let parts = [
        Part::Op(OP_IF),
        Part::VerifyKeys(1),
        Part::After,
        Part::Op(OP_ELSE),
        Part::VerifyKeys(1),
        Part::Preimage(OP_EQUAL),
        Part::Op(OP_ENDIF),
    ];
    let found = script.match_parts(&parts);
    proof {
        assert forall|if_keys: Seq<XOnlyKey>, else_keys: Seq<XOnlyKey>, kind: TapscriptHashKind, digest: Seq<u8>, n: u32|
            if_keys.len() >= 1 && else_keys.len() >= 1 && spells(script@, #[trigger] or_i_after_and_v_pk_hash(if_keys, else_keys, kind, digest, n)) implies (
            found matches Some(f) && seen_of(f@) == seq![Seen::Nothing, Seen::Keys(if_keys), Seen::Lock(DualTimeoutLock::After(n)), Seen::Nothing, Seen::Keys(else_keys), Seen::Preimage(kind, digest), Seen::Nothing]) by {
            let seen = seq![Seen::Nothing, Seen::Keys(if_keys), Seen::Lock(DualTimeoutLock::After(n)), Seen::Nothing, Seen::Keys(else_keys), Seen::Preimage(kind, digest), Seen::Nothing];
            assert(fragments(parts@, seen) =~= or_i_after_and_v_pk_hash(if_keys, else_keys, kind, digest, n));
        }
    }
    match found {
        None => None,
        Some(mut found) => {
            let ghost seen = seen_of(found@);
            proof {
                lemma_template_of(script@, parts@, seen);
                reveal_with_fuel(parts_outline, 8);
                reveal_with_fuel(parts_verifies, 8);
            }
            let if_keys = take_keys(&mut found, 1);
            let n = take_after(&mut found, 2);
            let else_keys = take_keys(&mut found, 4);
            let (kind, digest) = take_preimage(&mut found, 5);
            assert(fragments(parts@, seen) =~= or_i_after_and_v_pk_hash(if_keys@, else_keys@, kind, digest@, n));
            Some((if_keys, else_keys, kind, digest, n))
        },
    }
}

/// `or_i(and_v(v:pk.., hash), and_v(v:pk.., hash))`: two claim paths.
///
/// ```text
/// OP_IF (<key> OP_CHECKSIGVERIFY){1,}
/// OP_SIZE <32> OP_EQUALVERIFY <kind1> <digest1> OP_EQUAL OP_ELSE
/// (<key> OP_CHECKSIGVERIFY){1,} OP_SIZE <32> OP_EQUALVERIFY <kind2> <digest2> OP_EQUAL
/// OP_ENDIF
/// ```
pub open spec fn or_i_hash_and_v_pk_hash(if_keys: Seq<XOnlyKey>, else_keys: Seq<XOnlyKey>, kind1: TapscriptHashKind, digest1: Seq<u8>, kind2: TapscriptHashKind, digest2: Seq<u8>) -> Seq<Seq<Slot>> {
    seq![
        code(OP_IF),
        verify_keys(if_keys),
        preimage(kind1, digest1, OP_EQUAL),
        code(OP_ELSE),
        verify_keys(else_keys),
        preimage(kind2, digest2, OP_EQUAL),
        code(OP_ENDIF),
    ]
}

/// The parts of a script that is [`or_i_hash_and_v_pk_hash`], `None` for every other script.
pub fn bare_tapscript_or_i_hash_and_v_pk_hash_template(script: &LeafScript) -> (r: Option<DualHashOrIParts>)
    ensures
        r matches Some((if_keys, else_keys, kind1, digest1, kind2, digest2)) ==> if_keys@.len() >= 1 && else_keys@.len() >= 1 && spells(
            script@,
            or_i_hash_and_v_pk_hash(if_keys@, else_keys@, kind1, digest1@, kind2, digest2@),
        ),
        forall|if_keys: Seq<XOnlyKey>, else_keys: Seq<XOnlyKey>, kind1: TapscriptHashKind, digest1: Seq<u8>, kind2: TapscriptHashKind, digest2: Seq<u8>|
            if_keys.len() >= 1 && else_keys.len() >= 1 && spells(script@, #[trigger] or_i_hash_and_v_pk_hash(if_keys, else_keys, kind1, digest1, kind2, digest2)) ==> (
            r matches Some((v1, v2, v3, v4, v5, v6)) && v1@ == if_keys && v2@ == else_keys && v3 == kind1 && v4@ == digest1 && v5 == kind2 && v6@ == digest2),
        r is Some ==> template_of(script@) == Template::OrIHashAndVPkHash,
{
    let parts = [
        Part::Op(OP_IF),
        Part::VerifyKeys(1),
        Part::Preimage(OP_EQUAL),
        Part::Op(OP_ELSE),
        Part::VerifyKeys(1),
        Part::Preimage(OP_EQUAL),
        Part::Op(OP_ENDIF),
    ];
    let found = script.match_parts(&parts);
    proof {
        assert forall|if_keys: Seq<XOnlyKey>, else_keys: Seq<XOnlyKey>, kind1: TapscriptHashKind, digest1: Seq<u8>, kind2: TapscriptHashKind, digest2: Seq<u8>|
            if_keys.len() >= 1 && else_keys.len() >= 1 && spells(script@, #[trigger] or_i_hash_and_v_pk_hash(if_keys, else_keys, kind1, digest1, kind2, digest2)) implies (
            found matches Some(f) && seen_of(f@) == seq![Seen::Nothing, Seen::Keys(if_keys), Seen::Preimage(kind1, digest1), Seen::Nothing, Seen::Keys(else_keys), Seen::Preimage(kind2, digest2), Seen::Nothing]) by {
            let seen = seq![Seen::Nothing, Seen::Keys(if_keys), Seen::Preimage(kind1, digest1), Seen::Nothing, Seen::Keys(else_keys), Seen::Preimage(kind2, digest2), Seen::Nothing];
            assert(fragments(parts@, seen) =~= or_i_hash_and_v_pk_hash(if_keys, else_keys, kind1, digest1, kind2, digest2));
        }
    }
    match found {
        None => None,
        Some(mut found) => {
            let ghost seen = seen_of(found@);
            proof {
                lemma_template_of(script@, parts@, seen);
                reveal_with_fuel(parts_outline, 8);
                reveal_with_fuel(parts_verifies, 8);
            }
            let if_keys = take_keys(&mut found, 1);
            let (kind1, digest1) = take_preimage(&mut found, 2);
            let else_keys = take_keys(&mut found, 4);
            let (kind2, digest2) = take_preimage(&mut found, 5);
            assert(fragments(parts@, seen) =~= or_i_hash_and_v_pk_hash(if_keys@, else_keys@, kind1, digest1@, kind2, digest2@));
            Some((if_keys, else_keys, kind1, digest1, kind2, digest2))
        },
    }
}

/// `or_i(and_v(v:pk.., older|after), and_v(v:pk.., older|after))`: two timeout paths.
///
/// ```text
/// OP_IF (<key> OP_CHECKSIGVERIFY){1,} (<n> OP_CSV | <n> OP_CLTV) OP_ELSE
/// (<key> OP_CHECKSIGVERIFY){1,} (<n> OP_CSV | <n> OP_CLTV) OP_ENDIF
/// ```
pub open spec fn or_i_lock_and_v_pk_lock(if_keys: Seq<XOnlyKey>, else_keys: Seq<XOnlyKey>, if_lock: DualTimeoutLock, else_lock: DualTimeoutLock) -> Seq<Seq<Slot>> {
    seq![
        code(OP_IF),
        verify_keys(if_keys),
        timeout(if_lock),
        code(OP_ELSE),
        verify_keys(else_keys),
        timeout(else_lock),
        code(OP_ENDIF),
    ]
}

/// The parts of a script that is [`or_i_lock_and_v_pk_lock`], `None` for every other script.
pub fn bare_tapscript_or_i_lock_and_v_pk_lock_template(script: &LeafScript) -> (r: Option<DualTimeoutOrIParts>)
    ensures
        r matches Some((if_keys, else_keys, if_lock, else_lock)) ==> if_keys@.len() >= 1 && else_keys@.len() >= 1 && spells(
            script@,
            or_i_lock_and_v_pk_lock(if_keys@, else_keys@, if_lock, else_lock),
        ),
        forall|if_keys: Seq<XOnlyKey>, else_keys: Seq<XOnlyKey>, if_lock: DualTimeoutLock, else_lock: DualTimeoutLock|
            if_keys.len() >= 1 && else_keys.len() >= 1 && spells(script@, #[trigger] or_i_lock_and_v_pk_lock(if_keys, else_keys, if_lock, else_lock)) ==> (
            r matches Some((v1, v2, v3, v4)) && v1@ == if_keys && v2@ == else_keys && v3 == if_lock && v4 == else_lock),
        r is Some ==> template_of(script@) == Template::OrILockAndVPkLock,
{
    let parts = [
        Part::Op(OP_IF),
        Part::VerifyKeys(1),
        Part::Timeout,
        Part::Op(OP_ELSE),
        Part::VerifyKeys(1),
        Part::Timeout,
        Part::Op(OP_ENDIF),
    ];
    let found = script.match_parts(&parts);
    proof {
        assert forall|if_keys: Seq<XOnlyKey>, else_keys: Seq<XOnlyKey>, if_lock: DualTimeoutLock, else_lock: DualTimeoutLock|
            if_keys.len() >= 1 && else_keys.len() >= 1 && spells(script@, #[trigger] or_i_lock_and_v_pk_lock(if_keys, else_keys, if_lock, else_lock)) implies (
            found matches Some(f) && seen_of(f@) == seq![Seen::Nothing, Seen::Keys(if_keys), Seen::Lock(if_lock), Seen::Nothing, Seen::Keys(else_keys), Seen::Lock(else_lock), Seen::Nothing]) by {
            let seen = seq![Seen::Nothing, Seen::Keys(if_keys), Seen::Lock(if_lock), Seen::Nothing, Seen::Keys(else_keys), Seen::Lock(else_lock), Seen::Nothing];
            assert(fragments(parts@, seen) =~= or_i_lock_and_v_pk_lock(if_keys, else_keys, if_lock, else_lock));
        }
    }
    match found {
        None => None,
        Some(mut found) => {
            let ghost seen = seen_of(found@);
            proof {
                lemma_template_of(script@, parts@, seen);
                reveal_with_fuel(parts_outline, 8);
                reveal_with_fuel(parts_verifies, 8);
            }
            let if_keys = take_keys(&mut found, 1);
            let if_lock = take_lock(&mut found, 2);
            let else_keys = take_keys(&mut found, 4);
            let else_lock = take_lock(&mut found, 5);
            assert(fragments(parts@, seen) =~= or_i_lock_and_v_pk_lock(if_keys@, else_keys@, if_lock, else_lock));
            Some((if_keys, else_keys, if_lock, else_lock))
        },
    }
}

} // verus!
