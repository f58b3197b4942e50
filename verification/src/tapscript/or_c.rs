//! `or_c` of two keys.

use vstd::prelude::*;

use crate::tapscript::common::{OP_CHECKSIG, OP_ENDIF, OP_NOTIF};
use crate::tapscript::kind::{
    lemma_template_of, parts_outline, parts_verifies, template_of, Template,
};
use crate::tapscript::layout::{code, push_key, spells, Slot};
use crate::tapscript::matching::{fragments, seen_of, take_key, Part, Seen};
use crate::tapscript::script::{LeafScript, XOnlyKey};

verus! {

/// `or_c(pk(a), pk(b))`.
///
/// ```text
/// <a> OP_CHECKSIG OP_NOTIF <b> OP_CHECKSIG OP_ENDIF
/// ```
pub open spec fn or_c_checksig(a: XOnlyKey, b: XOnlyKey) -> Seq<Seq<Slot>> {
    seq![
        push_key(a),
        code(OP_CHECKSIG),
        code(OP_NOTIF),
        push_key(b),
        code(OP_CHECKSIG),
        code(OP_ENDIF),
    ]
}

/// The parts of a script that is [`or_c_checksig`], `None` for every other script.
pub fn bare_tapscript_or_c_checksig_template(script: &LeafScript) -> (r: Option<(XOnlyKey, XOnlyKey)>)
    ensures
        r matches Some((a, b)) ==> spells(
            script@,
            or_c_checksig(a, b),
        ),
        forall|a: XOnlyKey, b: XOnlyKey|
            spells(script@, #[trigger] or_c_checksig(a, b)) ==> (
            r matches Some((v1, v2)) && v1 == a && v2 == b),
        r is Some ==> template_of(script@) == Template::OrCChecksig,
{
    let parts = [
        Part::Key,
        Part::Op(OP_CHECKSIG),
        Part::Op(OP_NOTIF),
        Part::Key,
        Part::Op(OP_CHECKSIG),
        Part::Op(OP_ENDIF),
    ];
    let found = script.match_parts(&parts);
    proof {
        assert forall|a: XOnlyKey, b: XOnlyKey|
            spells(script@, #[trigger] or_c_checksig(a, b)) implies (
            found matches Some(f) && seen_of(f@) == seq![Seen::Key(a), Seen::Nothing, Seen::Nothing, Seen::Key(b), Seen::Nothing, Seen::Nothing]) by {
            let seen = seq![Seen::Key(a), Seen::Nothing, Seen::Nothing, Seen::Key(b), Seen::Nothing, Seen::Nothing];
            assert(fragments(parts@, seen) =~= or_c_checksig(a, b));
        }
    }
    match found {
        None => None,
        Some(mut found) => {
            let ghost seen = seen_of(found@);
            proof {
                lemma_template_of(script@, parts@, seen);
                reveal_with_fuel(parts_outline, 7);
                reveal_with_fuel(parts_verifies, 7);
            }
            let a = take_key(&mut found, 0);
            let b = take_key(&mut found, 3);
            assert(fragments(parts@, seen) =~= or_c_checksig(a, b));
            Some((a, b))
        },
    }
}

} // verus!
