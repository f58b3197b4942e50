//! `multi_a`: a number of keys out of a list.

use vstd::prelude::*;

use crate::tapscript::common::{OP_CHECKSIG, OP_CHECKSIGADD, OP_NUMEQUAL};
use crate::tapscript::kind::{lemma_template_of, parts_outline, template_of, Template};
use crate::tapscript::layout::{code, count, keys_with, push_key, spells, Slot};
use crate::tapscript::matching::{
    fragments, seen_of, take_count, take_key, take_keys, Part, Seen,
};
use crate::tapscript::script::{LeafScript, XOnlyKey};

verus! {

/// `multi_a(k, key, ..)`.
///
/// ```text
/// <key> OP_CHECKSIG (<key> OP_CHECKSIGADD){1,} <k> OP_NUMEQUAL
/// ```
pub open spec fn checksigadd_multi(k: usize, keys: Seq<XOnlyKey>) -> Seq<Seq<Slot>> {
    seq![
        push_key(keys[0]),
        code(OP_CHECKSIG),
        keys_with(OP_CHECKSIGADD, keys.skip(1)),
        count(k as u8),
        code(OP_NUMEQUAL),
    ]
}

/// The threshold and the keys of a script that is [`checksigadd_multi`] with at least two keys and
/// a threshold that they can reach, `None` for every other script.
pub fn bare_tapscript_checksigadd_multi_template(script: &LeafScript) -> (r: Option<
    (usize, Vec<XOnlyKey>),
>)
    ensures
        r matches Some((k, keys)) ==> keys@.len() >= 2 && 1 <= k <= 16 && k <= keys@.len()
            && spells(script@, checksigadd_multi(k, keys@)),
        forall|k: usize, keys: Seq<XOnlyKey>|
            keys.len() >= 2 && 1 <= k <= 16 && k <= keys.len() && spells(
                script@,
                #[trigger] checksigadd_multi(k, keys),
            ) ==> (r matches Some((v1, v2)) && v1 == k && v2@ == keys),
        r is Some ==> template_of(script@) == Template::ChecksigaddMulti,
{
    let parts = [
        Part::Key,
        Part::Op(OP_CHECKSIG),
        Part::AddKeys(1),
        Part::Count,
        Part::Op(OP_NUMEQUAL),
    ];
    let found = script.match_parts(&parts);
    proof {
        assert forall|k: usize, keys: Seq<XOnlyKey>|
            keys.len() >= 2 && 1 <= k <= 16 && spells(
                script@,
                #[trigger] checksigadd_multi(k, keys),
            ) implies (found matches Some(f) && seen_of(f@) == seq![
            Seen::Key(keys[0]),
            Seen::Nothing,
            Seen::Keys(keys.skip(1)),
            Seen::Count(k as u8),
            Seen::Nothing,
        ]) by {
            let seen = seq![
                Seen::Key(keys[0]),
                Seen::Nothing,
                Seen::Keys(keys.skip(1)),
                Seen::Count(k as u8),
                Seen::Nothing,
            ];
            assert(fragments(parts@, seen) =~= checksigadd_multi(k, keys));
        }
    }
    match found {
        None => None,
        Some(mut found) => {
            let ghost seen = seen_of(found@);
            proof {
                lemma_template_of(script@, parts@, seen);
                reveal_with_fuel(parts_outline, 6);
            }
            let first = take_key(&mut found, 0);
            let mut keys = take_keys(&mut found, 2);
            let k = take_count(&mut found, 3) as usize;
            let ghost rest = keys@;
            keys.insert(0, first);
            proof {
                assert(keys@.skip(1) =~= rest);
                assert(fragments(parts@, seen) =~= checksigadd_multi(k, keys@));
                assert forall|k2: usize, keys2: Seq<XOnlyKey>|
                    keys2.len() >= 2 && 1 <= k2 <= 16 && spells(
                        script@,
                        #[trigger] checksigadd_multi(k2, keys2),
                    ) implies k2 == k && keys2 == keys@ by {
                    let other = seq![
                        Seen::Key(keys2[0]),
                        Seen::Nothing,
                        Seen::Keys(keys2.skip(1)),
                        Seen::Count(k2 as u8),
                        Seen::Nothing,
                    ];
                    assert(seen == other);
                    assert(seen[0] == other[0] && seen[2] == other[2] && seen[3] == other[3]);
                    assert forall|i: int| 0 <= i < keys2.len() implies keys2[i] == keys@[i] by {
                        if i > 0 {
                            assert(keys2.skip(1)[i - 1] == rest[i - 1]);
                        }
                    }
                    assert(keys2 =~= keys@);
                }
            }
            if k <= keys.len() {
                Some((k, keys))
            } else {
                None
            }
        },
    }
}

} // verus!
