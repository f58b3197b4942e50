//! `or_d`, `and_n` and `andor` of keys.

use vstd::prelude::*;

use crate::tapscript::common::{OP_CHECKSIG, OP_ELSE, OP_ENDIF, OP_IFDUP, OP_NOTIF};
use crate::tapscript::kind::{
    lemma_template_of, parts_outline, parts_verifies, template_of, Template,
};
use crate::tapscript::layout::{code, push_empty, push_key, spells, Slot};
use crate::tapscript::matching::{fragments, seen_of, take_key, Part, Seen};
use crate::tapscript::script::{LeafScript, XOnlyKey};

verus! {

/// `or_d(pk(a), pk(b))`.
///
/// ```text
/// <a> OP_CHECKSIG OP_IFDUP OP_NOTIF <b> OP_CHECKSIG OP_ENDIF
/// ```
pub open spec fn or_d_checksig(a: XOnlyKey, b: XOnlyKey) -> Seq<Seq<Slot>> {
    seq![
        push_key(a),
        code(OP_CHECKSIG),
        code(OP_IFDUP),
        code(OP_NOTIF),
        push_key(b),
        code(OP_CHECKSIG),
        code(OP_ENDIF),
    ]
}

/// The parts of a script that is [`or_d_checksig`], `None` for every other script.
pub fn bare_tapscript_or_d_checksig_template(script: &LeafScript) -> (r: Option<(XOnlyKey, XOnlyKey)>)
    ensures
        r matches Some((a, b)) ==> spells(
            script@,
            or_d_checksig(a, b),
        ),
        forall|a: XOnlyKey, b: XOnlyKey|
            spells(script@, #[trigger] or_d_checksig(a, b)) ==> (
            r matches Some((v1, v2)) && v1 == a && v2 == b),
        r is Some ==> template_of(script@) == Template::OrDChecksig,
{
    let parts = [
        Part::Key,
        Part::Op(OP_CHECKSIG),
        Part::Op(OP_IFDUP),
        Part::Op(OP_NOTIF),
        Part::Key,
        Part::Op(OP_CHECKSIG),
        Part::Op(OP_ENDIF),
    ];
    let found = script.match_parts(&parts);
    proof {
        assert forall|a: XOnlyKey, b: XOnlyKey|
            spells(script@, #[trigger] or_d_checksig(a, b)) implies (
            found matches Some(f) && seen_of(f@) == seq![Seen::Key(a), Seen::Nothing, Seen::Nothing, Seen::Nothing, Seen::Key(b), Seen::Nothing, Seen::Nothing]) by {
            let seen = seq![Seen::Key(a), Seen::Nothing, Seen::Nothing, Seen::Nothing, Seen::Key(b), Seen::Nothing, Seen::Nothing];
            assert(fragments(parts@, seen) =~= or_d_checksig(a, b));
        }
    }
    match found {
        None => None,
        Some(mut found) => {
            let ghost seen = seen_of(found@);
            proof {
                lemma_template_of(script@, parts@, seen);
                reveal_with_fuel(parts_outline, 8);
                reveal_with_fuel(parts_verifies, 8);
            }
            let a = take_key(&mut found, 0);
            let b = take_key(&mut found, 4);
            assert(fragments(parts@, seen) =~= or_d_checksig(a, b));
            Some((a, b))
        },
    }
}

/// `and_n(pk(a), pk(b))`.
///
/// ```text
/// <a> OP_CHECKSIG OP_NOTIF OP_0 OP_ELSE <b> OP_CHECKSIG OP_ENDIF
/// ```
pub open spec fn and_n_checksig(a: XOnlyKey, b: XOnlyKey) -> Seq<Seq<Slot>> {
    seq![
        push_key(a),
        code(OP_CHECKSIG),
        code(OP_NOTIF),
        push_empty(),
        code(OP_ELSE),
        push_key(b),
        code(OP_CHECKSIG),
        code(OP_ENDIF),
    ]
}

/// The parts of a script that is [`and_n_checksig`], `None` for every other script.
pub fn bare_tapscript_and_n_checksig_template(script: &LeafScript) -> (r: Option<(XOnlyKey, XOnlyKey)>)
    ensures
        r matches Some((a, b)) ==> spells(
            script@,
            and_n_checksig(a, b),
        ),
        forall|a: XOnlyKey, b: XOnlyKey|
            spells(script@, #[trigger] and_n_checksig(a, b)) ==> (
            r matches Some((v1, v2)) && v1 == a && v2 == b),
        r is Some ==> template_of(script@) == Template::AndNChecksig,
{
    let parts = [
        Part::Key,
        Part::Op(OP_CHECKSIG),
        Part::Op(OP_NOTIF),
        Part::EmptyPush,
        Part::Op(OP_ELSE),
        Part::Key,
        Part::Op(OP_CHECKSIG),
        Part::Op(OP_ENDIF),
    ];
    let found = script.match_parts(&parts);
    proof {
        assert forall|a: XOnlyKey, b: XOnlyKey|
            spells(script@, #[trigger] and_n_checksig(a, b)) implies (
            found matches Some(f) && seen_of(f@) == seq![Seen::Key(a), Seen::Nothing, Seen::Nothing, Seen::Nothing, Seen::Nothing, Seen::Key(b), Seen::Nothing, Seen::Nothing]) by {
            let seen = seq![Seen::Key(a), Seen::Nothing, Seen::Nothing, Seen::Nothing, Seen::Nothing, Seen::Key(b), Seen::Nothing, Seen::Nothing];
            assert(fragments(parts@, seen) =~= and_n_checksig(a, b));
        }
    }
    match found {
        None => None,
        Some(mut found) => {
            let ghost seen = seen_of(found@);
            proof {
                lemma_template_of(script@, parts@, seen);
                reveal_with_fuel(parts_outline, 9);
                reveal_with_fuel(parts_verifies, 9);
            }
            let a = take_key(&mut found, 0);
            let b = take_key(&mut found, 5);
            assert(fragments(parts@, seen) =~= and_n_checksig(a, b));
            Some((a, b))
        },
    }
}

/// `andor(pk(a), pk(b), pk(c))`.
///
/// ```text
/// <a> OP_CHECKSIG OP_NOTIF <c> OP_CHECKSIG OP_ELSE <b> OP_CHECKSIG OP_ENDIF
/// ```
pub open spec fn andor_checksig(a: XOnlyKey, b: XOnlyKey, c: XOnlyKey) -> Seq<Seq<Slot>> {
    seq![
        push_key(a),
        code(OP_CHECKSIG),
        code(OP_NOTIF),
        push_key(c),
        code(OP_CHECKSIG),
        code(OP_ELSE),
        push_key(b),
        code(OP_CHECKSIG),
        code(OP_ENDIF),
    ]
}

/// The parts of a script that is [`andor_checksig`], `None` for every other script.
pub fn bare_tapscript_andor_checksig_template(script: &LeafScript) -> (r: Option<(XOnlyKey, XOnlyKey, XOnlyKey)>)
    ensures
        r matches Some((a, b, c)) ==> spells(
            script@,
            andor_checksig(a, b, c),
        ),
        forall|a: XOnlyKey, b: XOnlyKey, c: XOnlyKey|
            spells(script@, #[trigger] andor_checksig(a, b, c)) ==> (
            r matches Some((v1, v2, v3)) && v1 == a && v2 == b && v3 == c),
        r is Some ==> template_of(script@) == Template::AndorChecksig,
{
    let parts = [
        Part::Key,
        Part::Op(OP_CHECKSIG),
        Part::Op(OP_NOTIF),
        Part::Key,
        Part::Op(OP_CHECKSIG),
        Part::Op(OP_ELSE),
        Part::Key,
        Part::Op(OP_CHECKSIG),
        Part::Op(OP_ENDIF),
    ];
    let found = script.match_parts(&parts);
    proof {
        assert forall|a: XOnlyKey, b: XOnlyKey, c: XOnlyKey|
            spells(script@, #[trigger] andor_checksig(a, b, c)) implies (
            found matches Some(f) && seen_of(f@) == seq![Seen::Key(a), Seen::Nothing, Seen::Nothing, Seen::Key(c), Seen::Nothing, Seen::Nothing, Seen::Key(b), Seen::Nothing, Seen::Nothing]) by {
            let seen = seq![Seen::Key(a), Seen::Nothing, Seen::Nothing, Seen::Key(c), Seen::Nothing, Seen::Nothing, Seen::Key(b), Seen::Nothing, Seen::Nothing];
            assert(fragments(parts@, seen) =~= andor_checksig(a, b, c));
        }
    }
    match found {
        None => None,
        Some(mut found) => {
            let ghost seen = seen_of(found@);
            proof {
                lemma_template_of(script@, parts@, seen);
                reveal_with_fuel(parts_outline, 10);
                reveal_with_fuel(parts_verifies, 10);
            }
            let a = take_key(&mut found, 0);
            let c = take_key(&mut found, 3);
            let b = take_key(&mut found, 6);
            assert(fragments(parts@, seen) =~= andor_checksig(a, b, c));
            Some((a, b, c))
        },
    }
}

} // verus!
