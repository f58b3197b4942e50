//! `and_v` leaves with a choice of keys and a timeout or a hash.

use vstd::prelude::*;

use crate::tapscript::common::{OP_CHECKSIG, OP_CHECKSIGVERIFY, OP_ELSE, OP_ENDIF, OP_EQUAL, OP_IF, OP_NOTIF};
use crate::tapscript::hash::TapscriptHashKind;
use crate::tapscript::kind::{
    lemma_template_of, parts_outline, parts_verifies, template_of, Template,
};
use crate::tapscript::layout::{after, code, older, preimage, push_key, spells, Slot};
use crate::tapscript::matching::{fragments, seen_of, take_after, take_key, take_older, take_preimage, Part, Seen};
use crate::tapscript::older_after::DualTimeoutLock;
use crate::tapscript::script::{LeafScript, XOnlyKey};

verus! {

/// `and_v(or_c(pk, v:pk), older(n))`.
///
/// ```text
/// <a> OP_CHECKSIG OP_NOTIF <b> OP_CHECKSIGVERIFY OP_ENDIF <n> OP_CSV
/// ```
pub open spec fn and_v_or_c_older(a: XOnlyKey, b: XOnlyKey, n: u32) -> Seq<Seq<Slot>> {
    seq![
        push_key(a),
        code(OP_CHECKSIG),
        code(OP_NOTIF),
        push_key(b),
        code(OP_CHECKSIGVERIFY),
        code(OP_ENDIF),
        older(n),
    ]
}

/// The parts of a script that is [`and_v_or_c_older`], `None` for every other script.
pub fn bare_tapscript_and_v_or_c_older_template(script: &LeafScript) -> (r: Option<(XOnlyKey, XOnlyKey, u32)>)
    ensures
        r matches Some((a, b, n)) ==> spells(
            script@,
            and_v_or_c_older(a, b, n),
        ),
        forall|a: XOnlyKey, b: XOnlyKey, n: u32|
            spells(script@, #[trigger] and_v_or_c_older(a, b, n)) ==> (
            r matches Some((v1, v2, v3)) && v1 == a && v2 == b && v3 == n),
        r is Some ==> template_of(script@) == Template::AndVOrCOlder,
{
    let parts = [
        Part::Key,
        Part::Op(OP_CHECKSIG),
        Part::Op(OP_NOTIF),
        Part::Key,
        Part::Op(OP_CHECKSIGVERIFY),
        Part::Op(OP_ENDIF),
        Part::Older,
    ];
    let found = script.match_parts(&parts);
    proof {
        assert forall|a: XOnlyKey, b: XOnlyKey, n: u32|
            spells(script@, #[trigger] and_v_or_c_older(a, b, n)) implies (
            found matches Some(f) && seen_of(f@) == seq![Seen::Key(a), Seen::Nothing, Seen::Nothing, Seen::Key(b), Seen::Nothing, Seen::Nothing, Seen::Lock(DualTimeoutLock::Older(n))]) by {
            let seen = seq![Seen::Key(a), Seen::Nothing, Seen::Nothing, Seen::Key(b), Seen::Nothing, Seen::Nothing, Seen::Lock(DualTimeoutLock::Older(n))];
            assert(fragments(parts@, seen) =~= and_v_or_c_older(a, b, n));
        }
    }
    match found {
        None => None,
        Some(mut found) => {
            let ghost seen = seen_of(found@);
            proof {
                lemma_template_of(script@, parts@, seen);
                reveal_with_fuel(parts_outline, 8);
                reveal_with_fuel(parts_verifies, 8);
            }
            let a = take_key(&mut found, 0);
            let b = take_key(&mut found, 3);
            let n = take_older(&mut found, 6);
            assert(fragments(parts@, seen) =~= and_v_or_c_older(a, b, n));
            Some((a, b, n))
        },
    }
}

/// `and_v(or_c(pk, v:pk), after(n))`.
///
/// ```text
/// <a> OP_CHECKSIG OP_NOTIF <b> OP_CHECKSIGVERIFY OP_ENDIF <n> OP_CLTV
/// ```
pub open spec fn and_v_or_c_after(a: XOnlyKey, b: XOnlyKey, n: u32) -> Seq<Seq<Slot>> {
    seq![
        push_key(a),
        code(OP_CHECKSIG),
        code(OP_NOTIF),
        push_key(b),
        code(OP_CHECKSIGVERIFY),
        code(OP_ENDIF),
        after(n),
    ]
}

/// The parts of a script that is [`and_v_or_c_after`], `None` for every other script.
pub fn bare_tapscript_and_v_or_c_after_template(script: &LeafScript) -> (r: Option<(XOnlyKey, XOnlyKey, u32)>)
    ensures
        r matches Some((a, b, n)) ==> spells(
            script@,
            and_v_or_c_after(a, b, n),
        ),
        forall|a: XOnlyKey, b: XOnlyKey, n: u32|
            spells(script@, #[trigger] and_v_or_c_after(a, b, n)) ==> (
            r matches Some((v1, v2, v3)) && v1 == a && v2 == b && v3 == n),
        r is Some ==> template_of(script@) == Template::AndVOrCAfter,
{
    let parts = [
        Part::Key,
        Part::Op(OP_CHECKSIG),
        Part::Op(OP_NOTIF),
        Part::Key,
        Part::Op(OP_CHECKSIGVERIFY),
        Part::Op(OP_ENDIF),
        Part::After,
    ];
    let found = script.match_parts(&parts);
    proof {
        assert forall|a: XOnlyKey, b: XOnlyKey, n: u32|
            spells(script@, #[trigger] and_v_or_c_after(a, b, n)) implies (
            found matches Some(f) && seen_of(f@) == seq![Seen::Key(a), Seen::Nothing, Seen::Nothing, Seen::Key(b), Seen::Nothing, Seen::Nothing, Seen::Lock(DualTimeoutLock::After(n))]) by {
            let seen = seq![Seen::Key(a), Seen::Nothing, Seen::Nothing, Seen::Key(b), Seen::Nothing, Seen::Nothing, Seen::Lock(DualTimeoutLock::After(n))];
            assert(fragments(parts@, seen) =~= and_v_or_c_after(a, b, n));
        }
    }
    match found {
        None => None,
        Some(mut found) => {
            let ghost seen = seen_of(found@);
            proof {
                lemma_template_of(script@, parts@, seen);
                reveal_with_fuel(parts_outline, 8);
                reveal_with_fuel(parts_verifies, 8);
            }
            let a = take_key(&mut found, 0);
            let b = take_key(&mut found, 3);
            let n = take_after(&mut found, 6);
            assert(fragments(parts@, seen) =~= and_v_or_c_after(a, b, n));
            Some((a, b, n))
        },
    }
}

/// `and_v(or_c(pk, v:pk), hash)`.
///
/// ```text
/// <a> OP_CHECKSIG OP_NOTIF <b> OP_CHECKSIGVERIFY OP_ENDIF
/// OP_SIZE <32> OP_EQUALVERIFY <kind> <digest> OP_EQUAL
/// ```
pub open spec fn and_v_or_c_hash(a: XOnlyKey, b: XOnlyKey, kind: TapscriptHashKind, digest: Seq<u8>) -> Seq<Seq<Slot>> {
    seq![
        push_key(a),
        code(OP_CHECKSIG),
        code(OP_NOTIF),
        push_key(b),
        code(OP_CHECKSIGVERIFY),
        code(OP_ENDIF),
        preimage(kind, digest, OP_EQUAL),
    ]
}

/// The parts of a script that is [`and_v_or_c_hash`], `None` for every other script.
pub fn bare_tapscript_and_v_or_c_hash_template(script: &LeafScript) -> (r: Option<(XOnlyKey, XOnlyKey, TapscriptHashKind, Vec<u8>)>)
    ensures
        r matches Some((a, b, kind, digest)) ==> spells(
            script@,
            and_v_or_c_hash(a, b, kind, digest@),
        ),
        forall|a: XOnlyKey, b: XOnlyKey, kind: TapscriptHashKind, digest: Seq<u8>|
            spells(script@, #[trigger] and_v_or_c_hash(a, b, kind, digest)) ==> (
            r matches Some((v1, v2, v3, v4)) && v1 == a && v2 == b && v3 == kind && v4@ == digest),
        r is Some ==> template_of(script@) == Template::AndVOrCHash,
{
    let parts = [
        Part::Key,
        Part::Op(OP_CHECKSIG),
        Part::Op(OP_NOTIF),
        Part::Key,
        Part::Op(OP_CHECKSIGVERIFY),
        Part::Op(OP_ENDIF),
        Part::Preimage(OP_EQUAL),
    ];
    let found = script.match_parts(&parts);
    proof {
        assert forall|a: XOnlyKey, b: XOnlyKey, kind: TapscriptHashKind, digest: Seq<u8>|
            spells(script@, #[trigger] and_v_or_c_hash(a, b, kind, digest)) implies (
            found matches Some(f) && seen_of(f@) == seq![Seen::Key(a), Seen::Nothing, Seen::Nothing, Seen::Key(b), Seen::Nothing, Seen::Nothing, Seen::Preimage(kind, digest)]) by {
            let seen = seq![Seen::Key(a), Seen::Nothing, Seen::Nothing, Seen::Key(b), Seen::Nothing, Seen::Nothing, Seen::Preimage(kind, digest)];
            assert(fragments(parts@, seen) =~= and_v_or_c_hash(a, b, kind, digest));
        }
    }
    match found {
        None => None,
        Some(mut found) => {
            let ghost seen = seen_of(found@);
            proof {
                lemma_template_of(script@, parts@, seen);
                reveal_with_fuel(parts_outline, 8);
                reveal_with_fuel(parts_verifies, 8);
            }
            let a = take_key(&mut found, 0);
            let b = take_key(&mut found, 3);
            let (kind, digest) = take_preimage(&mut found, 6);
            assert(fragments(parts@, seen) =~= and_v_or_c_hash(a, b, kind, digest@));
            Some((a, b, kind, digest))
        },
    }
}

/// `and_v(or_i(v:pk, v:pk), older(n))`.
///
/// ```text
/// OP_IF <a> OP_CHECKSIGVERIFY OP_ELSE <b> OP_CHECKSIGVERIFY OP_ENDIF <n> OP_CSV
/// ```
pub open spec fn and_v_or_i_older(a: XOnlyKey, b: XOnlyKey, n: u32) -> Seq<Seq<Slot>> {
    seq![
        code(OP_IF),
        push_key(a),
        code(OP_CHECKSIGVERIFY),
        code(OP_ELSE),
        push_key(b),
        code(OP_CHECKSIGVERIFY),
        code(OP_ENDIF),
        older(n),
    ]
}

/// The parts of a script that is [`and_v_or_i_older`], `None` for every other script.
pub fn bare_tapscript_and_v_or_i_older_template(script: &LeafScript) -> (r: Option<(XOnlyKey, XOnlyKey, u32)>)
    ensures
        r matches Some((a, b, n)) ==> spells(
            script@,
            and_v_or_i_older(a, b, n),
        ),
        forall|a: XOnlyKey, b: XOnlyKey, n: u32|
            spells(script@, #[trigger] and_v_or_i_older(a, b, n)) ==> (
            r matches Some((v1, v2, v3)) && v1 == a && v2 == b && v3 == n),
        r is Some ==> template_of(script@) == Template::AndVOrIOlder,
{
    let parts = [
        Part::Op(OP_IF),
        Part::Key,
        Part::Op(OP_CHECKSIGVERIFY),
        Part::Op(OP_ELSE),
        Part::Key,
        Part::Op(OP_CHECKSIGVERIFY),
        Part::Op(OP_ENDIF),
        Part::Older,
    ];
    let found = script.match_parts(&parts);
    proof {
        assert forall|a: XOnlyKey, b: XOnlyKey, n: u32|
            spells(script@, #[trigger] and_v_or_i_older(a, b, n)) implies (
            found matches Some(f) && seen_of(f@) == seq![Seen::Nothing, Seen::Key(a), Seen::Nothing, Seen::Nothing, Seen::Key(b), Seen::Nothing, Seen::Nothing, Seen::Lock(DualTimeoutLock::Older(n))]) by {
            let seen = seq![Seen::Nothing, Seen::Key(a), Seen::Nothing, Seen::Nothing, Seen::Key(b), Seen::Nothing, Seen::Nothing, Seen::Lock(DualTimeoutLock::Older(n))];
            assert(fragments(parts@, seen) =~= and_v_or_i_older(a, b, n));
        }
    }
    match found {
        None => None,
        Some(mut found) => {
            let ghost seen = seen_of(found@);
            proof {
                lemma_template_of(script@, parts@, seen);
                reveal_with_fuel(parts_outline, 9);
                reveal_with_fuel(parts_verifies, 9);
            }
            let a = take_key(&mut found, 1);
            let b = take_key(&mut found, 4);
            let n = take_older(&mut found, 7);
            assert(fragments(parts@, seen) =~= and_v_or_i_older(a, b, n));
            Some((a, b, n))
        },
    }
}

/// `and_v(or_i(v:pk, v:pk), after(n))`.
///
/// ```text
/// OP_IF <a> OP_CHECKSIGVERIFY OP_ELSE <b> OP_CHECKSIGVERIFY OP_ENDIF <n> OP_CLTV
/// ```
pub open spec fn and_v_or_i_after(a: XOnlyKey, b: XOnlyKey, n: u32) -> Seq<Seq<Slot>> {
    seq![
        code(OP_IF),
        push_key(a),
        code(OP_CHECKSIGVERIFY),
        code(OP_ELSE),
        push_key(b),
        code(OP_CHECKSIGVERIFY),
        code(OP_ENDIF),
        after(n),
    ]
}

/// The parts of a script that is [`and_v_or_i_after`], `None` for every other script.
pub fn bare_tapscript_and_v_or_i_after_template(script: &LeafScript) -> (r: Option<(XOnlyKey, XOnlyKey, u32)>)
    ensures
        r matches Some((a, b, n)) ==> spells(
            script@,
            and_v_or_i_after(a, b, n),
        ),
        forall|a: XOnlyKey, b: XOnlyKey, n: u32|
            spells(script@, #[trigger] and_v_or_i_after(a, b, n)) ==> (
            r matches Some((v1, v2, v3)) && v1 == a && v2 == b && v3 == n),
        r is Some ==> template_of(script@) == Template::AndVOrIAfter,
{
    let parts = [
        Part::Op(OP_IF),
        Part::Key,
        Part::Op(OP_CHECKSIGVERIFY),
        Part::Op(OP_ELSE),
        Part::Key,
        Part::Op(OP_CHECKSIGVERIFY),
        Part::Op(OP_ENDIF),
        Part::After,
    ];
    let found = script.match_parts(&parts);
    proof {
        assert forall|a: XOnlyKey, b: XOnlyKey, n: u32|
            spells(script@, #[trigger] and_v_or_i_after(a, b, n)) implies (
            found matches Some(f) && seen_of(f@) == seq![Seen::Nothing, Seen::Key(a), Seen::Nothing, Seen::Nothing, Seen::Key(b), Seen::Nothing, Seen::Nothing, Seen::Lock(DualTimeoutLock::After(n))]) by {
            let seen = seq![Seen::Nothing, Seen::Key(a), Seen::Nothing, Seen::Nothing, Seen::Key(b), Seen::Nothing, Seen::Nothing, Seen::Lock(DualTimeoutLock::After(n))];
            assert(fragments(parts@, seen) =~= and_v_or_i_after(a, b, n));
        }
    }
    match found {
        None => None,
        Some(mut found) => {
            let ghost seen = seen_of(found@);
            proof {
                lemma_template_of(script@, parts@, seen);
                reveal_with_fuel(parts_outline, 9);
                reveal_with_fuel(parts_verifies, 9);
            }
            let a = take_key(&mut found, 1);
            let b = take_key(&mut found, 4);
            let n = take_after(&mut found, 7);
            assert(fragments(parts@, seen) =~= and_v_or_i_after(a, b, n));
            Some((a, b, n))
        },
    }
}

/// `and_v(or_i(v:pk, v:pk), hash)`.
///
/// ```text
/// OP_IF <a> OP_CHECKSIGVERIFY OP_ELSE <b> OP_CHECKSIGVERIFY OP_ENDIF
/// OP_SIZE <32> OP_EQUALVERIFY <kind> <digest> OP_EQUAL
/// ```
pub open spec fn and_v_or_i_hash(a: XOnlyKey, b: XOnlyKey, kind: TapscriptHashKind, digest: Seq<u8>) -> Seq<Seq<Slot>> {
    seq![
        code(OP_IF),
        push_key(a),
        code(OP_CHECKSIGVERIFY),
        code(OP_ELSE),
        push_key(b),
        code(OP_CHECKSIGVERIFY),
        code(OP_ENDIF),
        preimage(kind, digest, OP_EQUAL),
    ]
}

/// The parts of a script that is [`and_v_or_i_hash`], `None` for every other script.
pub fn bare_tapscript_and_v_or_i_hash_template(script: &LeafScript) -> (r: Option<(XOnlyKey, XOnlyKey, TapscriptHashKind, Vec<u8>)>)
    ensures
        r matches Some((a, b, kind, digest)) ==> spells(
            script@,
            and_v_or_i_hash(a, b, kind, digest@),
        ),
        forall|a: XOnlyKey, b: XOnlyKey, kind: TapscriptHashKind, digest: Seq<u8>|
            spells(script@, #[trigger] and_v_or_i_hash(a, b, kind, digest)) ==> (
            r matches Some((v1, v2, v3, v4)) && v1 == a && v2 == b && v3 == kind && v4@ == digest),
        r is Some ==> template_of(script@) == Template::AndVOrIHash,
{
    let parts = [
        Part::Op(OP_IF),
        Part::Key,
        Part::Op(OP_CHECKSIGVERIFY),
        Part::Op(OP_ELSE),
        Part::Key,
        Part::Op(OP_CHECKSIGVERIFY),
        Part::Op(OP_ENDIF),
        Part::Preimage(OP_EQUAL),
    ];
    let found = script.match_parts(&parts);
    proof {
        assert forall|a: XOnlyKey, b: XOnlyKey, kind: TapscriptHashKind, digest: Seq<u8>|
            spells(script@, #[trigger] and_v_or_i_hash(a, b, kind, digest)) implies (
            found matches Some(f) && seen_of(f@) == seq![Seen::Nothing, Seen::Key(a), Seen::Nothing, Seen::Nothing, Seen::Key(b), Seen::Nothing, Seen::Nothing, Seen::Preimage(kind, digest)]) by {
            let seen = seq![Seen::Nothing, Seen::Key(a), Seen::Nothing, Seen::Nothing, Seen::Key(b), Seen::Nothing, Seen::Nothing, Seen::Preimage(kind, digest)];
            assert(fragments(parts@, seen) =~= and_v_or_i_hash(a, b, kind, digest));
        }
    }
    match found {
        None => None,
        Some(mut found) => {
            let ghost seen = seen_of(found@);
            proof {
                lemma_template_of(script@, parts@, seen);
                reveal_with_fuel(parts_outline, 9);
                reveal_with_fuel(parts_verifies, 9);
            }
            let a = take_key(&mut found, 1);
            let b = take_key(&mut found, 4);
            let (kind, digest) = take_preimage(&mut found, 7);
            assert(fragments(parts@, seen) =~= and_v_or_i_hash(a, b, kind, digest@));
            Some((a, b, kind, digest))
        },
    }
}

/// `and_v(or_c(pk, or_c(pk, v:pk)), older(n))`.
///
/// ```text
/// <a> OP_CHECKSIG OP_NOTIF <b> OP_CHECKSIG OP_NOTIF <c> OP_CHECKSIGVERIFY OP_ENDIF
/// OP_ENDIF <n> OP_CSV
/// ```
pub open spec fn and_v_or_c_multi_older(a: XOnlyKey, b: XOnlyKey, c: XOnlyKey, n: u32) -> Seq<Seq<Slot>> {
    seq![
        push_key(a),
        code(OP_CHECKSIG),
        code(OP_NOTIF),
        push_key(b),
        code(OP_CHECKSIG),
        code(OP_NOTIF),
        push_key(c),
        code(OP_CHECKSIGVERIFY),
        code(OP_ENDIF),
        code(OP_ENDIF),
        older(n),
    ]
}

/// The parts of a script that is [`and_v_or_c_multi_older`], `None` for every other script.
pub fn bare_tapscript_and_v_or_c_multi_older_template(script: &LeafScript) -> (r: Option<(XOnlyKey, XOnlyKey, XOnlyKey, u32)>)
    ensures
        r matches Some((a, b, c, n)) ==> spells(
            script@,
            and_v_or_c_multi_older(a, b, c, n),
        ),
        forall|a: XOnlyKey, b: XOnlyKey, c: XOnlyKey, n: u32|
            spells(script@, #[trigger] and_v_or_c_multi_older(a, b, c, n)) ==> (
            r matches Some((v1, v2, v3, v4)) && v1 == a && v2 == b && v3 == c && v4 == n),
        r is Some ==> template_of(script@) == Template::AndVOrCMultiOlder,
{
    let parts = [
        Part::Key,
        Part::Op(OP_CHECKSIG),
        Part::Op(OP_NOTIF),
        Part::Key,
        Part::Op(OP_CHECKSIG),
        Part::Op(OP_NOTIF),
        Part::Key,
        Part::Op(OP_CHECKSIGVERIFY),
        Part::Op(OP_ENDIF),
        Part::Op(OP_ENDIF),
        Part::Older,
    ];
    let found = script.match_parts(&parts);
    proof {
        assert forall|a: XOnlyKey, b: XOnlyKey, c: XOnlyKey, n: u32|
            spells(script@, #[trigger] and_v_or_c_multi_older(a, b, c, n)) implies (
            found matches Some(f) && seen_of(f@) == seq![Seen::Key(a), Seen::Nothing, Seen::Nothing, Seen::Key(b), Seen::Nothing, Seen::Nothing, Seen::Key(c), Seen::Nothing, Seen::Nothing, Seen::Nothing, Seen::Lock(DualTimeoutLock::Older(n))]) by {
            let seen = seq![Seen::Key(a), Seen::Nothing, Seen::Nothing, Seen::Key(b), Seen::Nothing, Seen::Nothing, Seen::Key(c), Seen::Nothing, Seen::Nothing, Seen::Nothing, Seen::Lock(DualTimeoutLock::Older(n))];
            assert(fragments(parts@, seen) =~= and_v_or_c_multi_older(a, b, c, n));
        }
    }
    match found {
        None => None,
        Some(mut found) => {
            let ghost seen = seen_of(found@);
            proof {
                lemma_template_of(script@, parts@, seen);
                reveal_with_fuel(parts_outline, 12);
                reveal_with_fuel(parts_verifies, 12);
            }
            let a = take_key(&mut found, 0);
            let b = take_key(&mut found, 3);
            let c = take_key(&mut found, 6);
            let n = take_older(&mut found, 10);
            assert(fragments(parts@, seen) =~= and_v_or_c_multi_older(a, b, c, n));
            Some((a, b, c, n))
        },
    }
}

/// `and_v(or_c(pk, or_c(pk, v:pk)), after(n))`.
///
/// ```text
/// <a> OP_CHECKSIG OP_NOTIF <b> OP_CHECKSIG OP_NOTIF <c> OP_CHECKSIGVERIFY OP_ENDIF
/// OP_ENDIF <n> OP_CLTV
/// ```
pub open spec fn and_v_or_c_multi_after(a: XOnlyKey, b: XOnlyKey, c: XOnlyKey, n: u32) -> Seq<Seq<Slot>> {
    seq![
        push_key(a),
        code(OP_CHECKSIG),
        code(OP_NOTIF),
        push_key(b),
        code(OP_CHECKSIG),
        code(OP_NOTIF),
        push_key(c),
        code(OP_CHECKSIGVERIFY),
        code(OP_ENDIF),
        code(OP_ENDIF),
        after(n),
    ]
}

/// The parts of a script that is [`and_v_or_c_multi_after`], `None` for every other script.
pub fn bare_tapscript_and_v_or_c_multi_after_template(script: &LeafScript) -> (r: Option<(XOnlyKey, XOnlyKey, XOnlyKey, u32)>)
    ensures
        r matches Some((a, b, c, n)) ==> spells(
            script@,
            and_v_or_c_multi_after(a, b, c, n),
        ),
        forall|a: XOnlyKey, b: XOnlyKey, c: XOnlyKey, n: u32|
            spells(script@, #[trigger] and_v_or_c_multi_after(a, b, c, n)) ==> (
            r matches Some((v1, v2, v3, v4)) && v1 == a && v2 == b && v3 == c && v4 == n),
        r is Some ==> template_of(script@) == Template::AndVOrCMultiAfter,
{
    let parts = [
        Part::Key,
        Part::Op(OP_CHECKSIG),
        Part::Op(OP_NOTIF),
        Part::Key,
        Part::Op(OP_CHECKSIG),
        Part::Op(OP_NOTIF),
        Part::Key,
        Part::Op(OP_CHECKSIGVERIFY),
        Part::Op(OP_ENDIF),
        Part::Op(OP_ENDIF),
        Part::After,
    ];
    let found = script.match_parts(&parts);
    proof {
        assert forall|a: XOnlyKey, b: XOnlyKey, c: XOnlyKey, n: u32|
            spells(script@, #[trigger] and_v_or_c_multi_after(a, b, c, n)) implies (
            found matches Some(f) && seen_of(f@) == seq![Seen::Key(a), Seen::Nothing, Seen::Nothing, Seen::Key(b), Seen::Nothing, Seen::Nothing, Seen::Key(c), Seen::Nothing, Seen::Nothing, Seen::Nothing, Seen::Lock(DualTimeoutLock::After(n))]) by {
            let seen = seq![Seen::Key(a), Seen::Nothing, Seen::Nothing, Seen::Key(b), Seen::Nothing, Seen::Nothing, Seen::Key(c), Seen::Nothing, Seen::Nothing, Seen::Nothing, Seen::Lock(DualTimeoutLock::After(n))];
            assert(fragments(parts@, seen) =~= and_v_or_c_multi_after(a, b, c, n));
        }
    }
    match found {
        None => None,
        Some(mut found) => {
            let ghost seen = seen_of(found@);
            proof {
                lemma_template_of(script@, parts@, seen);
                reveal_with_fuel(parts_outline, 12);
                reveal_with_fuel(parts_verifies, 12);
            }
            let a = take_key(&mut found, 0);
            let b = take_key(&mut found, 3);
            let c = take_key(&mut found, 6);
            let n = take_after(&mut found, 10);
            assert(fragments(parts@, seen) =~= and_v_or_c_multi_after(a, b, c, n));
            Some((a, b, c, n))
        },
    }
}

/// `and_v(or_c(pk, or_c(pk, v:pk)), hash)`.
///
/// ```text
/// <a> OP_CHECKSIG OP_NOTIF <b> OP_CHECKSIG OP_NOTIF <c> OP_CHECKSIGVERIFY OP_ENDIF
/// OP_ENDIF OP_SIZE <32> OP_EQUALVERIFY <kind> <digest> OP_EQUAL
/// ```
pub open spec fn and_v_or_c_multi_hash(a: XOnlyKey, b: XOnlyKey, c: XOnlyKey, kind: TapscriptHashKind, digest: Seq<u8>) -> Seq<Seq<Slot>> {
    seq![
        push_key(a),
        code(OP_CHECKSIG),
        code(OP_NOTIF),
        push_key(b),
        code(OP_CHECKSIG),
        code(OP_NOTIF),
        push_key(c),
        code(OP_CHECKSIGVERIFY),
        code(OP_ENDIF),
        code(OP_ENDIF),
        preimage(kind, digest, OP_EQUAL),
    ]
}

/// The parts of a script that is [`and_v_or_c_multi_hash`], `None` for every other script.
pub fn bare_tapscript_and_v_or_c_multi_hash_template(script: &LeafScript) -> (r: Option<(XOnlyKey, XOnlyKey, XOnlyKey, TapscriptHashKind, Vec<u8>)>)
    ensures
        r matches Some((a, b, c, kind, digest)) ==> spells(
            script@,
            and_v_or_c_multi_hash(a, b, c, kind, digest@),
        ),
        forall|a: XOnlyKey, b: XOnlyKey, c: XOnlyKey, kind: TapscriptHashKind, digest: Seq<u8>|
            spells(script@, #[trigger] and_v_or_c_multi_hash(a, b, c, kind, digest)) ==> (
            r matches Some((v1, v2, v3, v4, v5)) && v1 == a && v2 == b && v3 == c && v4 == kind && v5@ == digest),
        r is Some ==> template_of(script@) == Template::AndVOrCMultiHash,
{
    let parts = [
        Part::Key,
        Part::Op(OP_CHECKSIG),
        Part::Op(OP_NOTIF),
        Part::Key,
        Part::Op(OP_CHECKSIG),
        Part::Op(OP_NOTIF),
        Part::Key,
        Part::Op(OP_CHECKSIGVERIFY),
        Part::Op(OP_ENDIF),
        Part::Op(OP_ENDIF),
        Part::Preimage(OP_EQUAL),
    ];
    let found = script.match_parts(&parts);
    proof {
        assert forall|a: XOnlyKey, b: XOnlyKey, c: XOnlyKey, kind: TapscriptHashKind, digest: Seq<u8>|
            spells(script@, #[trigger] and_v_or_c_multi_hash(a, b, c, kind, digest)) implies (
            found matches Some(f) && seen_of(f@) == seq![Seen::Key(a), Seen::Nothing, Seen::Nothing, Seen::Key(b), Seen::Nothing, Seen::Nothing, Seen::Key(c), Seen::Nothing, Seen::Nothing, Seen::Nothing, Seen::Preimage(kind, digest)]) by {
            let seen = seq![Seen::Key(a), Seen::Nothing, Seen::Nothing, Seen::Key(b), Seen::Nothing, Seen::Nothing, Seen::Key(c), Seen::Nothing, Seen::Nothing, Seen::Nothing, Seen::Preimage(kind, digest)];
            assert(fragments(parts@, seen) =~= and_v_or_c_multi_hash(a, b, c, kind, digest));
        }
    }
    match found {
        None => None,
        Some(mut found) => {
            let ghost seen = seen_of(found@);
            proof {
                lemma_template_of(script@, parts@, seen);
                reveal_with_fuel(parts_outline, 12);
                reveal_with_fuel(parts_verifies, 12);
            }
            let a = take_key(&mut found, 0);
            let b = take_key(&mut found, 3);
            let c = take_key(&mut found, 6);
            let (kind, digest) = take_preimage(&mut found, 10);
            assert(fragments(parts@, seen) =~= and_v_or_c_multi_hash(a, b, c, kind, digest@));
            Some((a, b, c, kind, digest))
        },
    }
}

/// `and_v(or_i(v:pk, or_i(v:pk, v:pk)), older(n))`.
///
/// ```text
/// OP_IF <a> OP_CHECKSIGVERIFY OP_ELSE OP_IF <b> OP_CHECKSIGVERIFY OP_ELSE <c>
/// OP_CHECKSIGVERIFY OP_ENDIF OP_ENDIF <n> OP_CSV
/// ```
pub open spec fn and_v_or_i_multi_older(a: XOnlyKey, b: XOnlyKey, c: XOnlyKey, n: u32) -> Seq<Seq<Slot>> {
    seq![
        code(OP_IF),
        push_key(a),
        code(OP_CHECKSIGVERIFY),
        code(OP_ELSE),
        code(OP_IF),
        push_key(b),
        code(OP_CHECKSIGVERIFY),
        code(OP_ELSE),
        push_key(c),
        code(OP_CHECKSIGVERIFY),
        code(OP_ENDIF),
        code(OP_ENDIF),
        older(n),
    ]
}

/// The parts of a script that is [`and_v_or_i_multi_older`], `None` for every other script.
pub fn bare_tapscript_and_v_or_i_multi_older_template(script: &LeafScript) -> (r: Option<(XOnlyKey, XOnlyKey, XOnlyKey, u32)>)
    ensures
        r matches Some((a, b, c, n)) ==> spells(
            script@,
            and_v_or_i_multi_older(a, b, c, n),
        ),
        forall|a: XOnlyKey, b: XOnlyKey, c: XOnlyKey, n: u32|
            spells(script@, #[trigger] and_v_or_i_multi_older(a, b, c, n)) ==> (
            r matches Some((v1, v2, v3, v4)) && v1 == a && v2 == b && v3 == c && v4 == n),
        r is Some ==> template_of(script@) == Template::AndVOrIMultiOlder,
{
    let parts = [
        Part::Op(OP_IF),
        Part::Key,
        Part::Op(OP_CHECKSIGVERIFY),
        Part::Op(OP_ELSE),
        Part::Op(OP_IF),
        Part::Key,
        Part::Op(OP_CHECKSIGVERIFY),
        Part::Op(OP_ELSE),
        Part::Key,
        Part::Op(OP_CHECKSIGVERIFY),
        Part::Op(OP_ENDIF),
        Part::Op(OP_ENDIF),
        Part::Older,
    ];
    let found = script.match_parts(&parts);
    proof {
        assert forall|a: XOnlyKey, b: XOnlyKey, c: XOnlyKey, n: u32|
            spells(script@, #[trigger] and_v_or_i_multi_older(a, b, c, n)) implies (
            found matches Some(f) && seen_of(f@) == seq![Seen::Nothing, Seen::Key(a), Seen::Nothing, Seen::Nothing, Seen::Nothing, Seen::Key(b), Seen::Nothing, Seen::Nothing, Seen::Key(c), Seen::Nothing, Seen::Nothing, Seen::Nothing, Seen::Lock(DualTimeoutLock::Older(n))]) by {
            let seen = seq![Seen::Nothing, Seen::Key(a), Seen::Nothing, Seen::Nothing, Seen::Nothing, Seen::Key(b), Seen::Nothing, Seen::Nothing, Seen::Key(c), Seen::Nothing, Seen::Nothing, Seen::Nothing, Seen::Lock(DualTimeoutLock::Older(n))];
            assert(fragments(parts@, seen) =~= and_v_or_i_multi_older(a, b, c, n));
        }
    }
    match found {
        None => None,
        Some(mut found) => {
            let ghost seen = seen_of(found@);
            proof {
                lemma_template_of(script@, parts@, seen);
                reveal_with_fuel(parts_outline, 14);
                reveal_with_fuel(parts_verifies, 14);
            }
            let a = take_key(&mut found, 1);
            let b = take_key(&mut found, 5);
            let c = take_key(&mut found, 8);
            let n = take_older(&mut found, 12);
            assert(fragments(parts@, seen) =~= and_v_or_i_multi_older(a, b, c, n));
            Some((a, b, c, n))
        },
    }
}

/// `and_v(or_i(v:pk, or_i(v:pk, v:pk)), after(n))`.
///
/// ```text
/// OP_IF <a> OP_CHECKSIGVERIFY OP_ELSE OP_IF <b> OP_CHECKSIGVERIFY OP_ELSE <c>
/// OP_CHECKSIGVERIFY OP_ENDIF OP_ENDIF <n> OP_CLTV
/// ```
pub open spec fn and_v_or_i_multi_after(a: XOnlyKey, b: XOnlyKey, c: XOnlyKey, n: u32) -> Seq<Seq<Slot>> {
    seq![
        code(OP_IF),
        push_key(a),
        code(OP_CHECKSIGVERIFY),
        code(OP_ELSE),
        code(OP_IF),
        push_key(b),
        code(OP_CHECKSIGVERIFY),
        code(OP_ELSE),
        push_key(c),
        code(OP_CHECKSIGVERIFY),
        code(OP_ENDIF),
        code(OP_ENDIF),
        after(n),
    ]
}

/// The parts of a script that is [`and_v_or_i_multi_after`], `None` for every other script.
pub fn bare_tapscript_and_v_or_i_multi_after_template(script: &LeafScript) -> (r: Option<(XOnlyKey, XOnlyKey, XOnlyKey, u32)>)
    ensures
        r matches Some((a, b, c, n)) ==> spells(
            script@,
            and_v_or_i_multi_after(a, b, c, n),
        ),
        forall|a: XOnlyKey, b: XOnlyKey, c: XOnlyKey, n: u32|
            spells(script@, #[trigger] and_v_or_i_multi_after(a, b, c, n)) ==> (
            r matches Some((v1, v2, v3, v4)) && v1 == a && v2 == b && v3 == c && v4 == n),
        r is Some ==> template_of(script@) == Template::AndVOrIMultiAfter,
{
    let parts = [
        Part::Op(OP_IF),
        Part::Key,
        Part::Op(OP_CHECKSIGVERIFY),
        Part::Op(OP_ELSE),
        Part::Op(OP_IF),
        Part::Key,
        Part::Op(OP_CHECKSIGVERIFY),
        Part::Op(OP_ELSE),
        Part::Key,
        Part::Op(OP_CHECKSIGVERIFY),
        Part::Op(OP_ENDIF),
        Part::Op(OP_ENDIF),
        Part::After,
    ];
    let found = script.match_parts(&parts);
    proof {
        assert forall|a: XOnlyKey, b: XOnlyKey, c: XOnlyKey, n: u32|
            spells(script@, #[trigger] and_v_or_i_multi_after(a, b, c, n)) implies (
            found matches Some(f) && seen_of(f@) == seq![Seen::Nothing, Seen::Key(a), Seen::Nothing, Seen::Nothing, Seen::Nothing, Seen::Key(b), Seen::Nothing, Seen::Nothing, Seen::Key(c), Seen::Nothing, Seen::Nothing, Seen::Nothing, Seen::Lock(DualTimeoutLock::After(n))]) by {
            let seen = seq![Seen::Nothing, Seen::Key(a), Seen::Nothing, Seen::Nothing, Seen::Nothing, Seen::Key(b), Seen::Nothing, Seen::Nothing, Seen::Key(c), Seen::Nothing, Seen::Nothing, Seen::Nothing, Seen::Lock(DualTimeoutLock::After(n))];
            assert(fragments(parts@, seen) =~= and_v_or_i_multi_after(a, b, c, n));
        }
    }
    match found {
        None => None,
        Some(mut found) => {
            let ghost seen = seen_of(found@);
            proof {
                lemma_template_of(script@, parts@, seen);
                reveal_with_fuel(parts_outline, 14);
                reveal_with_fuel(parts_verifies, 14);
            }
            let a = take_key(&mut found, 1);
            let b = take_key(&mut found, 5);
            let c = take_key(&mut found, 8);
            let n = take_after(&mut found, 12);
            assert(fragments(parts@, seen) =~= and_v_or_i_multi_after(a, b, c, n));
            Some((a, b, c, n))
        },
    }
}

/// `and_v(or_i(v:pk, or_i(v:pk, v:pk)), hash)`.
///
/// ```text
/// OP_IF <a> OP_CHECKSIGVERIFY OP_ELSE OP_IF <b> OP_CHECKSIGVERIFY OP_ELSE <c>
/// OP_CHECKSIGVERIFY OP_ENDIF OP_ENDIF OP_SIZE <32> OP_EQUALVERIFY <kind> <digest> OP_EQUAL
/// ```
pub open spec fn and_v_or_i_multi_hash(a: XOnlyKey, b: XOnlyKey, c: XOnlyKey, kind: TapscriptHashKind, digest: Seq<u8>) -> Seq<Seq<Slot>> {
    seq![
        code(OP_IF),
        push_key(a),
        code(OP_CHECKSIGVERIFY),
        code(OP_ELSE),
        code(OP_IF),
        push_key(b),
        code(OP_CHECKSIGVERIFY),
        code(OP_ELSE),
        push_key(c),
        code(OP_CHECKSIGVERIFY),
        code(OP_ENDIF),
        code(OP_ENDIF),
        preimage(kind, digest, OP_EQUAL),
    ]
}

/// The parts of a script that is [`and_v_or_i_multi_hash`], `None` for every other script.
pub fn bare_tapscript_and_v_or_i_multi_hash_template(script: &LeafScript) -> (r: Option<(XOnlyKey, XOnlyKey, XOnlyKey, TapscriptHashKind, Vec<u8>)>)
    ensures
        r matches Some((a, b, c, kind, digest)) ==> spells(
            script@,
            and_v_or_i_multi_hash(a, b, c, kind, digest@),
        ),
        forall|a: XOnlyKey, b: XOnlyKey, c: XOnlyKey, kind: TapscriptHashKind, digest: Seq<u8>|
            spells(script@, #[trigger] and_v_or_i_multi_hash(a, b, c, kind, digest)) ==> (
            r matches Some((v1, v2, v3, v4, v5)) && v1 == a && v2 == b && v3 == c && v4 == kind && v5@ == digest),
        r is Some ==> template_of(script@) == Template::AndVOrIMultiHash,
{
    let parts = [
        Part::Op(OP_IF),
        Part::Key,
        Part::Op(OP_CHECKSIGVERIFY),
        Part::Op(OP_ELSE),
        Part::Op(OP_IF),
        Part::Key,
        Part::Op(OP_CHECKSIGVERIFY),
        Part::Op(OP_ELSE),
        Part::Key,
        Part::Op(OP_CHECKSIGVERIFY),
        Part::Op(OP_ENDIF),
        Part::Op(OP_ENDIF),
        Part::Preimage(OP_EQUAL),
    ];
    let found = script.match_parts(&parts);
    proof {
        assert forall|a: XOnlyKey, b: XOnlyKey, c: XOnlyKey, kind: TapscriptHashKind, digest: Seq<u8>|
            spells(script@, #[trigger] and_v_or_i_multi_hash(a, b, c, kind, digest)) implies (
            found matches Some(f) && seen_of(f@) == seq![Seen::Nothing, Seen::Key(a), Seen::Nothing, Seen::Nothing, Seen::Nothing, Seen::Key(b), Seen::Nothing, Seen::Nothing, Seen::Key(c), Seen::Nothing, Seen::Nothing, Seen::Nothing, Seen::Preimage(kind, digest)]) by {
            let seen = seq![Seen::Nothing, Seen::Key(a), Seen::Nothing, Seen::Nothing, Seen::Nothing, Seen::Key(b), Seen::Nothing, Seen::Nothing, Seen::Key(c), Seen::Nothing, Seen::Nothing, Seen::Nothing, Seen::Preimage(kind, digest)];
            assert(fragments(parts@, seen) =~= and_v_or_i_multi_hash(a, b, c, kind, digest));
        }
    }
    match found {
        None => None,
        Some(mut found) => {
            let ghost seen = seen_of(found@);
            proof {
                lemma_template_of(script@, parts@, seen);
                reveal_with_fuel(parts_outline, 14);
                reveal_with_fuel(parts_verifies, 14);
            }
            let a = take_key(&mut found, 1);
            let b = take_key(&mut found, 5);
            let c = take_key(&mut found, 8);
            let (kind, digest) = take_preimage(&mut found, 12);
            assert(fragments(parts@, seen) =~= and_v_or_i_multi_hash(a, b, c, kind, digest@));
            Some((a, b, c, kind, digest))
        },
    }
}

} // verus!
