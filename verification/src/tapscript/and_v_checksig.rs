//! All-keys leaves.

use vstd::prelude::*;

use crate::tapscript::kind::{
    lemma_template_of, parts_outline, parts_verifies, template_of, Template,
};
use crate::tapscript::layout::{check_keys, spells, Slot};
use crate::tapscript::matching::{fragments, seen_of, take_keys, Part, Seen};
use crate::tapscript::script::{LeafScript, XOnlyKey};

verus! {

/// `and_v(v:pk.., pk)`: all of at least two keys.
///
/// ```text
/// (<key> OP_CHECKSIGVERIFY){1,} <key> OP_CHECKSIG
/// ```
pub open spec fn and_v_checksigverify(keys: Seq<XOnlyKey>) -> Seq<Seq<Slot>> {
    seq![
        check_keys(keys),
    ]
}

/// The parts of a script that is [`and_v_checksigverify`], `None` for every other script.
pub fn bare_tapscript_and_v_checksigverify_template(script: &LeafScript) -> (r: Option<Vec<XOnlyKey>>)
    ensures
        r matches Some(keys) ==> keys@.len() >= 2 && spells(
            script@,
            and_v_checksigverify(keys@),
        ),
        forall|keys: Seq<XOnlyKey>|
            keys.len() >= 2 && spells(script@, #[trigger] and_v_checksigverify(keys)) ==> (
            r matches Some(v1) && v1@ == keys),
        r is Some ==> template_of(script@) == Template::AndVChecksigverify,
{
    let parts = [
        Part::CheckKeys(2),
    ];
    let found = script.match_parts(&parts);
    proof {
        assert forall|keys: Seq<XOnlyKey>|
            keys.len() >= 2 && spells(script@, #[trigger] and_v_checksigverify(keys)) implies (
            found matches Some(f) && seen_of(f@) == seq![Seen::Keys(keys)]) by {
            let seen = seq![Seen::Keys(keys)];
            assert(fragments(parts@, seen) =~= and_v_checksigverify(keys));
        }
    }
    match found {
        None => None,
        Some(mut found) => {
            let ghost seen = seen_of(found@);
            proof {
                lemma_template_of(script@, parts@, seen);
                reveal_with_fuel(parts_outline, 2);
                reveal_with_fuel(parts_verifies, 2);
            }
            let keys = take_keys(&mut found, 0);
            assert(fragments(parts@, seen) =~= and_v_checksigverify(keys@));
            Some(keys)
        },
    }
}

} // verus!
