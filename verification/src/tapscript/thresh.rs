//! `thresh` leaves: a number of checks out of a list, the first of them a key.

use vstd::prelude::*;

use crate::tapscript::common::{OP_CHECKSIG, OP_EQUAL, OP_SIZE, OP_SWAP, OP_TOALTSTACK};
use crate::tapscript::hash::TapscriptHashKind;
use crate::tapscript::kind::{
    arm_outline, arms_outline, has_op, lemma_template_of, on, parts_outline, template_of, Outline,
    Template,
};
use crate::tapscript::layout::{arms_slots, code, count, push_key, spells, Arm, ArmCheck, Slot};
use crate::tapscript::matching::{
    arms_of, fragments, seen_of, take_arms, take_count, take_key, Part, Seen, ThreshArm,
    ThreshCheck,
};
use crate::tapscript::script::{LeafScript, Token, XOnlyKey};

verus! {

/// `thresh(k, pk(first), arm, ..)`.
///
/// ```text
/// <first> OP_CHECKSIG
/// ( OP_SWAP <check> OP_ADD | OP_TOALTSTACK <check> OP_FROMALTSTACK OP_ADD )*
/// <k> OP_EQUAL
/// ```
///
/// A check is `<key> OP_CHECKSIG` or
/// `OP_SIZE <32> OP_EQUALVERIFY <hash> <digest> OP_EQUAL`.
pub open spec fn thresh(k: usize, first: XOnlyKey, arms: Seq<Arm>) -> Seq<Seq<Slot>> {
    seq![
        push_key(first),
        code(OP_CHECKSIG),
        arms_slots(arms),
        count(k as u8),
        code(OP_EQUAL),
    ]
}

/// A hash check of a threshold with its place among all checks, the first key being at 0.
#[derive(PartialEq, Eq, Debug)]
pub struct ThreshHashArm {
    pub arm_idx: usize,
    pub kind: TapscriptHashKind,
    pub digest: Vec<u8>,
}

/// Model of [`ThreshHashArm`].
pub struct HashArm {
    pub arm_idx: int,
    pub kind: TapscriptHashKind,
    pub digest: Seq<u8>,
}

impl View for ThreshHashArm {
    type V = HashArm;

    open spec fn view(&self) -> HashArm {
        HashArm { arm_idx: self.arm_idx as int, kind: self.kind, digest: self.digest@ }
    }
}

/// A threshold with hash checks.
#[derive(PartialEq, Eq, Debug)]
pub struct ThreshHashArmTemplate {
    pub threshold: usize,
    pub pubkeys: Vec<XOnlyKey>,
    pub hash_arms: Vec<ThreshHashArm>,
}

impl ThreshHashArmTemplate {
    /// The number of hash checks.
    pub fn n_hash(&self) -> (n: usize)
        ensures
            n == self.hash_arms@.len(),
    {
        self.hash_arms.len()
    }

    /// The hash check, where there is exactly one.
    pub fn single_hash(&self) -> (arm: Option<&ThreshHashArm>)
        ensures
            arm == if self.hash_arms@.len() == 1 { Some(&self.hash_arms@[0]) } else {
                None::<&ThreshHashArm>
            },
    {
        if self.hash_arms.len() == 1 {
            Some(&self.hash_arms[0])
        } else {
            None
        }
    }
}

/// The models of hash checks.
pub open spec fn hash_arms_of(arms: Seq<ThreshHashArm>) -> Seq<HashArm> {
    arms.map_values(|arm: ThreshHashArm| arm@)
}

/// The keys among the arms, in order.
pub open spec fn arm_keys(arms: Seq<Arm>) -> Seq<XOnlyKey>
    decreases arms.len(),
{
    if arms.len() == 0 {
        Seq::empty()
    } else {
        match arms.last().check {
            ArmCheck::Key(key) => arm_keys(arms.drop_last()).push(key),
            ArmCheck::Preimage(_, _) => arm_keys(arms.drop_last()),
        }
    }
}

/// The hash checks among the arms, in order.
pub open spec fn arm_hashes(arms: Seq<Arm>) -> Seq<HashArm>
    decreases arms.len(),
{
    if arms.len() == 0 {
        Seq::empty()
    } else {
        match arms.last().check {
            ArmCheck::Key(_) => arm_hashes(arms.drop_last()),
            ArmCheck::Preimage(kind, digest) => arm_hashes(arms.drop_last()).push(
                HashArm { arm_idx: arms.len() as int, kind, digest },
            ),
        }
    }
}

/// Every hash check of arms is taken out once, with its place behind the first key, in the order
/// of the places.
pub proof fn lemma_hash_places(arms: Seq<Arm>)
    ensures
        forall|j: int|
            0 <= j < arm_hashes(arms).len() ==> {
                let h = #[trigger] arm_hashes(arms)[j];
                1 <= h.arm_idx <= arms.len() && arms[h.arm_idx - 1].check == ArmCheck::Preimage(
                    h.kind,
                    h.digest,
                )
            },
        forall|j: int, l: int|
            0 <= j < l < arm_hashes(arms).len() ==> (#[trigger] arm_hashes(arms)[j]).arm_idx < (
            #[trigger] arm_hashes(arms)[l]).arm_idx,
        forall|i: int|
            0 <= i < arms.len() && (#[trigger] arms[i]).check is Preimage ==> exists|j: int|
                0 <= j < arm_hashes(arms).len() && (#[trigger] arm_hashes(arms)[j]).arm_idx == i
                    + 1,
    decreases arms.len(),
{
    if arms.len() > 0 {
        let front = arms.drop_last();
        lemma_hash_places(front);
        let before = arm_hashes(front);
        let now = arm_hashes(arms);
        assert forall|j: int| 0 <= j < before.len() implies #[trigger] now[j] == before[j] by {}
        assert forall|j: int| 0 <= j < now.len() implies {
            let h = #[trigger] now[j];
            1 <= h.arm_idx <= arms.len() && arms[h.arm_idx - 1].check == ArmCheck::Preimage(
                h.kind,
                h.digest,
            )
        } by {
            if j < before.len() {
                let h = before[j];
                assert(front[h.arm_idx - 1] == arms[h.arm_idx - 1]);
            }
        }
        assert forall|i: int| 0 <= i < arms.len() && (#[trigger] arms[i]).check is Preimage implies
            exists|j: int| 0 <= j < now.len() && (#[trigger] now[j]).arm_idx == i + 1 by {
            if i < front.len() {
                assert(front[i].check is Preimage);
                let j = choose|j: int|
                    0 <= j < before.len() && (#[trigger] before[j]).arm_idx == i + 1;
                assert(now[j].arm_idx == i + 1);
            } else {
                assert(now[now.len() - 1].arm_idx == i + 1);
            }
        }
    }
}

/// The keys of arms and of further arms are those of both, one behind the other; one arm has its
/// key, or none where it checks a hash.
pub proof fn lemma_keys_in_order(arms: Seq<Arm>, more: Seq<Arm>, arm: Arm)
    ensures
        arm_keys(arms + more) == arm_keys(arms) + arm_keys(more),
        arm_keys(seq![arm]) == match arm.check {
            ArmCheck::Key(key) => seq![key],
            ArmCheck::Preimage(_, _) => Seq::<XOnlyKey>::empty(),
        },
    decreases more.len(),
{
    assert(seq![arm].drop_last() =~= Seq::empty());
    assert(arm_keys(Seq::<Arm>::empty()) =~= Seq::empty());
    if more.len() == 0 {
        assert(arms + more =~= arms);
        assert(arm_keys(arms) + arm_keys(more) =~= arm_keys(arms));
    } else {
        lemma_keys_in_order(arms, more.drop_last(), arm);
        assert((arms + more).drop_last() =~= arms + more.drop_last());
        assert((arms + more).last() == more.last());
        assert(arm_keys(arms + more) =~= arm_keys(arms) + arm_keys(more));
    }
}

/// Every arm checks a key or a hash, so that the threshold counts them all.
pub proof fn lemma_arms_are_keys_and_hashes(arms: Seq<Arm>)
    ensures
        arm_keys(arms).len() + arm_hashes(arms).len() == arms.len(),
    decreases arms.len(),
{
    if arms.len() > 0 {
        lemma_arms_are_keys_and_hashes(arms.drop_last());
    }
}

/// All arms swap, or none does.
pub open spec fn all_swap(arms: Seq<Arm>, swap: bool) -> bool {
    forall|i: int| 0 <= i < arms.len() ==> (#[trigger] arms[i]).swap == swap
}

/// Some arm swaps and some arm uses the alternate stack.
pub open spec fn mixed(arms: Seq<Arm>) -> bool {
    !all_swap(arms, true) && !all_swap(arms, false)
}

/// A threshold of keys alone that they can reach.
pub open spec fn key_thresh(k: usize, arms: Seq<Arm>) -> bool {
    &&& arms.len() >= 1
    &&& arm_hashes(arms).len() == 0
    &&& 1 <= k <= 16
    &&& k <= 1 + arms.len()
}

/// A threshold with hashes. Each hash counts, so that less than their number cannot be reached
/// exactly.
pub open spec fn hash_thresh(k: usize, arms: Seq<Arm>) -> bool {
    &&& arm_hashes(arms).len() >= 1
    &&& 1 <= k <= 16
    &&& arm_hashes(arms).len() <= k <= 1 + arms.len()
}

/// A threshold of keys alone has two keys or more and asks for one signature at least and for no
/// more than there are keys. One with a hash asks for every preimage at least and for no more than
/// there are checks, as each preimage has to be shown. No number above 16 can be asked for.
pub proof fn lemma_reachable(k: usize, arms: Seq<Arm>)
    ensures
        key_thresh(k, arms) <==> arms.len() >= 1 && 1 <= k <= 16 && k <= arms.len() + 1 && forall|
            i: int,
        | 0 <= i < arms.len() ==> (#[trigger] arms[i]).check is Key,
        hash_thresh(k, arms) <==> 1 <= k <= 16 && k <= arms.len() + 1 && k + arm_keys(arms).len()
            >= arms.len() && exists|i: int|
            0 <= i < arms.len() && (#[trigger] arms[i]).check is Preimage,
{
    lemma_arms_are_keys_and_hashes(arms);
    lemma_hash_places(arms);
    if arm_hashes(arms).len() > 0 {
        let h = arm_hashes(arms)[0];
        assert(arms[h.arm_idx - 1].check is Preimage);
    } else {
        assert forall|i: int| 0 <= i < arms.len() implies (#[trigger] arms[i]).check is Key by {
            if arms[i].check is Preimage {
                let j = choose|j: int|
                    0 <= j < arm_hashes(arms).len() && (#[trigger] arm_hashes(arms)[j]).arm_idx == i
                        + 1;
                assert(false);
            }
        }
    }
}

/// The script is a threshold of keys alone: `keys` are the first key and those of `arms`.
pub open spec fn spells_key_thresh(
    tokens: Seq<Token>,
    k: usize,
    keys: Seq<XOnlyKey>,
    first: XOnlyKey,
    arms: Seq<Arm>,
) -> bool {
    &&& key_thresh(k, arms)
    &&& spells(tokens, thresh(k, first, arms))
    &&& keys == seq![first] + arm_keys(arms)
}

/// The script is a threshold with hashes: `keys` are the first key and those of `arms`, `hashes`
/// the hash checks of `arms`.
pub open spec fn spells_hash_thresh(
    tokens: Seq<Token>,
    k: usize,
    keys: Seq<XOnlyKey>,
    hashes: Seq<HashArm>,
    first: XOnlyKey,
    arms: Seq<Arm>,
) -> bool {
    &&& hash_thresh(k, arms)
    &&& spells(tokens, thresh(k, first, arms))
    &&& keys == seq![first] + arm_keys(arms)
    &&& hashes == arm_hashes(arms)
}

/// The parts of a threshold.
struct ThreshParts {
    threshold: usize,
    pubkeys: Vec<XOnlyKey>,
    hash_arms: Vec<ThreshHashArm>,
    saw_swap: bool,
    saw_alt: bool,
}

/// What [`ThreshParts`] holds of a threshold.
spec fn parts_are(parts: ThreshParts, k: usize, first: XOnlyKey, arms: Seq<Arm>) -> bool {
    &&& parts.threshold == k
    &&& parts.pubkeys@ == seq![first] + arm_keys(arms)
    &&& hash_arms_of(parts.hash_arms@) == arm_hashes(arms)
    &&& parts.pubkeys@.len() + parts.hash_arms@.len() == 1 + arms.len()
    &&& parts.saw_swap == !all_swap(arms, false)
    &&& parts.saw_alt == !all_swap(arms, true)
}

/// The keys and the hashes of arms.
fn split_arms(first: XOnlyKey, arms: Vec<ThreshArm>, k: usize) -> (parts: ThreshParts)
    ensures
        parts_are(parts, k, first, arms_of(arms@)),
{
    let ghost all = arms_of(arms@);
    let mut pubkeys: Vec<XOnlyKey> = vec![first];
    let mut hash_arms: Vec<ThreshHashArm> = Vec::new();
    let mut saw_swap = false;
    let mut saw_alt = false;
    let mut i: usize = 0;
    assert(all.take(0) =~= Seq::empty());
    assert(pubkeys@ =~= seq![first] + arm_keys(all.take(0)));
    assert(hash_arms_of(hash_arms@) =~= arm_hashes(all.take(0)));
    while i < arms.len()
        invariant
            i <= arms@.len(),
            all == arms_of(arms@),
            pubkeys@ == seq![first] + arm_keys(all.take(i as int)),
            hash_arms_of(hash_arms@) == arm_hashes(all.take(i as int)),
            pubkeys@.len() + hash_arms@.len() == 1 + i,
            saw_swap == !all_swap(all.take(i as int), false),
            saw_alt == !all_swap(all.take(i as int), true),
        decreases arms@.len() - i,
    {
        let ghost before = all.take(i as int);
        let ghost now = all.take(i + 1);
        proof {
            assert(now.drop_last() =~= before);
            assert(now.last() == arms@[i as int]@);
            assert forall|j: int| 0 <= j < before.len() implies before[j] == now[j] by {}
            assert(now[i as int].swap == arms@[i as int].swap);
            if saw_swap {
                let j = choose|j: int| 0 <= j < before.len() && !((#[trigger] before[j]).swap == false);
                assert(now[j].swap);
            }
            if saw_alt {
                let j = choose|j: int| 0 <= j < before.len() && !((#[trigger] before[j]).swap == true);
                assert(!now[j].swap);
            }
        }
        if arms[i].swap {
            saw_swap = true;
        } else {
            saw_alt = true;
        }
        match &arms[i].check {
            ThreshCheck::Key(key) => {
                proof {
                    assert((seq![first] + arm_keys(before)).push(*key) =~= seq![first] + arm_keys(now));
                }
                pubkeys.push(*key);
            },
            ThreshCheck::Preimage(kind, digest) => {
                let arm = ThreshHashArm {
                    arm_idx: i + 1,
                    kind: *kind,
                    digest: digest.clone(),
                };
                proof {
                    assert(hash_arms_of(hash_arms@.push(arm)) =~= arm_hashes(now));
                }
                hash_arms.push(arm);
            },
        }
        i += 1;
    }
    assert(all.take(i as int) =~= all);
    ThreshParts { threshold: k, pubkeys, hash_arms, saw_swap, saw_alt }
}

/// The parts of a script that is [`thresh`], `None` for every other script.
fn parse_thresh(script: &LeafScript) -> (r: Option<ThreshParts>)
    ensures
        r matches Some(parts) ==> exists|k: usize, first: XOnlyKey, arms: Seq<Arm>|
            1 <= k <= 16 && spells(script@, #[trigger] thresh(k, first, arms)) && parts_are(
                parts,
                k,
                first,
                arms,
            ),
        forall|k: usize, first: XOnlyKey, arms: Seq<Arm>|
            1 <= k <= 16 && spells(script@, #[trigger] thresh(k, first, arms)) ==> (
            r matches Some(parts) && parts_are(parts, k, first, arms)),
{
    let parts = [
        Part::Key,
        Part::Op(OP_CHECKSIG),
        Part::Arms,
        Part::Count,
        Part::Op(OP_EQUAL),
    ];
    let found = script.match_parts(&parts);
    proof {
        assert forall|k: usize, first: XOnlyKey, arms: Seq<Arm>|
            1 <= k <= 16 && spells(script@, #[trigger] thresh(k, first, arms)) implies (
        found matches Some(f) && seen_of(f@) == seq![
            Seen::Key(first),
            Seen::Nothing,
            Seen::Arms(arms),
            Seen::Count(k as u8),
            Seen::Nothing,
        ]) by {
            let seen = seq![
                Seen::Key(first),
                Seen::Nothing,
                Seen::Arms(arms),
                Seen::Count(k as u8),
                Seen::Nothing,
            ];
            assert(fragments(parts@, seen) =~= thresh(k, first, arms));
        }
    }
    match found {
        None => None,
        Some(mut found) => {
            let ghost seen = seen_of(found@);
            let first = take_key(&mut found, 0);
            let arms = take_arms(&mut found, 2);
            let k = take_count(&mut found, 3) as usize;
            proof {
                assert(fragments(parts@, seen) =~= thresh(k, first, arms_of(arms@)));
            }
            let ghost all = arms_of(arms@);
            let parts = split_arms(first, arms, k);
            proof {
                assert(spells(script@, thresh(k, first, all)));
                assert forall|k2: usize, first2: XOnlyKey, arms2: Seq<Arm>|
                    1 <= k2 <= 16 && spells(
                        script@,
                        #[trigger] thresh(k2, first2, arms2),
                    ) implies k2 == k && first2 == first && arms2 == all by {
                    let other = seq![
                        Seen::Key(first2),
                        Seen::Nothing,
                        Seen::Arms(arms2),
                        Seen::Count(k2 as u8),
                        Seen::Nothing,
                    ];
                    assert(seen == other);
                    assert(seen[0] == other[0] && seen[2] == other[2] && seen[3] == other[3]);
                }
            }
            Some(parts)
        },
    }
}

/// What the arms of a threshold leave in the outline of the script.
proof fn lemma_arms_outline_ops(arms: Seq<Arm>, rest: Outline)
    ensures
        arms.len() >= 1 ==> (arms_outline(arms, rest) matches Outline::Op(op, _) && op == if
            arms[0].swap {
            OP_SWAP
        } else {
            OP_TOALTSTACK
        }),
        has_op(arms_outline(arms, rest), OP_SWAP) == (!all_swap(arms, false) || has_op(rest, OP_SWAP)),
        has_op(arms_outline(arms, rest), OP_TOALTSTACK) == (!all_swap(arms, true) || has_op(
            rest,
            OP_TOALTSTACK,
        )),
        has_op(arms_outline(arms, rest), OP_SIZE) == (arm_hashes(arms).len() > 0 || has_op(
            rest,
            OP_SIZE,
        )),
    decreases arms.len(),
{
    if arms.len() > 0 {
        let front = arms.drop_last();
        let last = arms.last();
        lemma_arms_outline_ops(front, arm_outline(last, rest));
        reveal_with_fuel(has_op, 7);
        if front.len() == 0 {
            assert(arms_outline(front, arm_outline(last, rest)) == arm_outline(last, rest));
        }
        assert forall|swap: bool|
            #[trigger] all_swap(arms, swap) == (all_swap(front, swap) && last.swap == swap) by {
            if all_swap(front, swap) && last.swap == swap {
                assert forall|i: int| 0 <= i < arms.len() implies (#[trigger] arms[i]).swap
                    == swap by {
                    if i < front.len() {
                        assert(front[i].swap == swap);
                    }
                }
            }
            if all_swap(arms, swap) {
                assert(arms[arms.len() - 1].swap == swap);
                assert forall|i: int| 0 <= i < front.len() implies (#[trigger] front[i]).swap
                    == swap by {
                    assert(arms[i].swap == swap);
                }
            }
        }
    }
}

/// Which threshold a script is.
proof fn lemma_thresh_template(tokens: Seq<Token>, k: usize, first: XOnlyKey, arms: Seq<Arm>)
    requires
        1 <= k <= 16,
        arms.len() >= 1,
        spells(tokens, thresh(k, first, arms)),
    ensures
        template_of(tokens) == if arm_hashes(arms).len() > 0 {
            if all_swap(arms, true) {
                Template::ThreshSHash
            } else if all_swap(arms, false) {
                Template::ThreshAHash
            } else {
                Template::ThreshMixedSaHash
            }
        } else {
            if all_swap(arms, true) {
                Template::ThreshChecksig
            } else if all_swap(arms, false) {
                Template::ThreshAPkChecksig
            } else {
                Template::ThreshMixedSaChecksig
            }
        },
{
    let parts = seq![Part::Key, Part::Op(OP_CHECKSIG), Part::Arms, Part::Count, Part::Op(OP_EQUAL)];
    let seen = seq![
        Seen::Key(first),
        Seen::Nothing,
        Seen::Arms(arms),
        Seen::Count(k as u8),
        Seen::Nothing,
    ];
    assert(fragments(parts, seen) =~= thresh(k, first, arms));
    lemma_template_of(tokens, parts, seen);
    reveal_with_fuel(parts_outline, 6);
    let end = on(OP_EQUAL, Outline::End);
    lemma_arms_outline_ops(arms, end);
    reveal_with_fuel(has_op, 3);
    assert(parts_outline(parts, seen, 0) == on(OP_CHECKSIG, arms_outline(arms, end)));
}

/// `thresh(k, pk, s:pk, ..)`: keys alone, every arm swaps.
///
/// ```text
/// <key> OP_CHECKSIG
/// ( OP_SWAP <key> OP_CHECKSIG OP_ADD ){1,}
/// <k> OP_EQUAL
/// ```
pub open spec fn thresh_checksig(tokens: Seq<Token>, k: usize, keys: Seq<XOnlyKey>) -> bool {
    exists|first: XOnlyKey, arms: Seq<Arm>|
        all_swap(arms, true) && #[trigger] spells_key_thresh(tokens, k, keys, first, arms)
}

/// The threshold and the keys, in script order, of a script that is [`thresh_checksig`],
/// `None` for every other script.
pub fn bare_tapscript_thresh_checksig_template(script: &LeafScript) -> (r: Option<
    (usize, Vec<XOnlyKey>),
>)
    ensures
        r matches Some((k, keys)) ==> thresh_checksig(script@, k, keys@),
        forall|k: usize, keys: Seq<XOnlyKey>| #[trigger]
            thresh_checksig(script@, k, keys) ==> (r matches Some((v1, v2)) && v1 == k && v2@
                == keys),
        r is Some ==> template_of(script@) == Template::ThreshChecksig,
{
    match parse_thresh(script) {
        None => None,
        Some(parts) => {
            if parts.hash_arms.len() == 0 && !parts.saw_alt && parts.pubkeys.len() >= 2
                && parts.threshold <= parts.pubkeys.len() {
                proof {
                    let (k, first, arms) = choose|k: usize, first: XOnlyKey, arms: Seq<Arm>|
                        1 <= k <= 16 && spells(script@, #[trigger] thresh(k, first, arms))
                            && parts_are(parts, k, first, arms);
                    lemma_thresh_template(script@, k, first, arms);
                    assert(spells_key_thresh(script@, k, parts.pubkeys@, first, arms));
                    assert(thresh_checksig(script@, parts.threshold, parts.pubkeys@));
                }
                Some((parts.threshold, parts.pubkeys))
            } else {
                None
            }
        },
    }
}

/// `thresh(k, pk, a:pk, ..)`: keys alone, every arm uses the alternate stack.
///
/// ```text
/// <key> OP_CHECKSIG
/// ( OP_TOALTSTACK <key> OP_CHECKSIG OP_FROMALTSTACK OP_ADD ){1,}
/// <k> OP_EQUAL
/// ```
pub open spec fn thresh_a_pk_checksig(tokens: Seq<Token>, k: usize, keys: Seq<XOnlyKey>) -> bool {
    exists|first: XOnlyKey, arms: Seq<Arm>|
        all_swap(arms, false) && #[trigger] spells_key_thresh(tokens, k, keys, first, arms)
}

/// The threshold and the keys, in script order, of a script that is [`thresh_a_pk_checksig`],
/// `None` for every other script.
pub fn bare_tapscript_thresh_a_pk_checksig_template(script: &LeafScript) -> (r: Option<
    (usize, Vec<XOnlyKey>),
>)
    ensures
        r matches Some((k, keys)) ==> thresh_a_pk_checksig(script@, k, keys@),
        forall|k: usize, keys: Seq<XOnlyKey>| #[trigger]
            thresh_a_pk_checksig(script@, k, keys) ==> (r matches Some((v1, v2)) && v1 == k && v2@
                == keys),
        r is Some ==> template_of(script@) == Template::ThreshAPkChecksig,
{
    match parse_thresh(script) {
        None => None,
        Some(parts) => {
            if parts.hash_arms.len() == 0 && !parts.saw_swap && parts.pubkeys.len() >= 2
                && parts.threshold <= parts.pubkeys.len() {
                proof {
                    let (k, first, arms) = choose|k: usize, first: XOnlyKey, arms: Seq<Arm>|
                        1 <= k <= 16 && spells(script@, #[trigger] thresh(k, first, arms))
                            && parts_are(parts, k, first, arms);
                    lemma_thresh_template(script@, k, first, arms);
                    assert(spells_key_thresh(script@, k, parts.pubkeys@, first, arms));
                    assert(thresh_a_pk_checksig(script@, parts.threshold, parts.pubkeys@));
                }
                Some((parts.threshold, parts.pubkeys))
            } else {
                None
            }
        },
    }
}

/// `thresh(k, pk, s:pk, a:pk, ..)`: keys alone, arms of both kinds.
///
/// ```text
/// <key> OP_CHECKSIG
/// ( OP_SWAP <key> OP_CHECKSIG OP_ADD
/// | OP_TOALTSTACK <key> OP_CHECKSIG OP_FROMALTSTACK OP_ADD ){2,}
/// <k> OP_EQUAL
/// ```
pub open spec fn thresh_mixed_sa_checksig(tokens: Seq<Token>, k: usize, keys: Seq<XOnlyKey>) -> bool {
    exists|first: XOnlyKey, arms: Seq<Arm>|
        mixed(arms) && #[trigger] spells_key_thresh(tokens, k, keys, first, arms)
}

/// The threshold and the keys, in script order, of a script that is [`thresh_mixed_sa_checksig`],
/// `None` for every other script.
pub fn bare_tapscript_thresh_mixed_sa_checksig_template(script: &LeafScript) -> (r: Option<
    (usize, Vec<XOnlyKey>),
>)
    ensures
        r matches Some((k, keys)) ==> thresh_mixed_sa_checksig(script@, k, keys@),
        forall|k: usize, keys: Seq<XOnlyKey>| #[trigger]
            thresh_mixed_sa_checksig(script@, k, keys) ==> (r matches Some((v1, v2)) && v1 == k && v2@
                == keys),
        r is Some ==> template_of(script@) == Template::ThreshMixedSaChecksig,
{
    match parse_thresh(script) {
        None => None,
        Some(parts) => {
            if parts.hash_arms.len() == 0 && parts.saw_swap && parts.saw_alt && parts.pubkeys.len() >= 2
                && parts.threshold <= parts.pubkeys.len() {
                proof {
                    let (k, first, arms) = choose|k: usize, first: XOnlyKey, arms: Seq<Arm>|
                        1 <= k <= 16 && spells(script@, #[trigger] thresh(k, first, arms))
                            && parts_are(parts, k, first, arms);
                    lemma_thresh_template(script@, k, first, arms);
                    assert(spells_key_thresh(script@, k, parts.pubkeys@, first, arms));
                    assert(thresh_mixed_sa_checksig(script@, parts.threshold, parts.pubkeys@));
                }
                Some((parts.threshold, parts.pubkeys))
            } else {
                None
            }
        },
    }
}

/// `thresh(k, pk, s:pk, s:hash, ..)`: at least one hash, every arm swaps.
///
/// ```text
/// <key> OP_CHECKSIG
/// ( OP_SWAP <key> OP_CHECKSIG OP_ADD
/// | OP_SWAP <preimage check> OP_ADD ){1,}
/// <k> OP_EQUAL
/// ```
pub open spec fn thresh_s_hash(
    tokens: Seq<Token>,
    k: usize,
    keys: Seq<XOnlyKey>,
    hashes: Seq<HashArm>,
) -> bool {
    exists|first: XOnlyKey, arms: Seq<Arm>|
        all_swap(arms, true) && #[trigger] spells_hash_thresh(tokens, k, keys, hashes, first, arms)
}

/// The threshold, the keys in script order and the hash checks with their places of a script that
/// is [`thresh_s_hash`], `None` for every other script.
pub fn bare_tapscript_thresh_s_hash_template(script: &LeafScript) -> (r: Option<
    ThreshHashArmTemplate,
>)
    ensures
        r matches Some(t) ==> thresh_s_hash(
            script@,
            t.threshold,
            t.pubkeys@,
            hash_arms_of(t.hash_arms@),
        ),
        forall|k: usize, keys: Seq<XOnlyKey>, hashes: Seq<HashArm>| #[trigger]
            thresh_s_hash(script@, k, keys, hashes) ==> (r matches Some(t) && t.threshold
                == k && t.pubkeys@ == keys && hash_arms_of(t.hash_arms@) == hashes),
        r is Some ==> template_of(script@) == Template::ThreshSHash,
{
    match parse_thresh(script) {
        None => None,
        Some(parts) => {
            if parts.hash_arms.len() >= 1 && !parts.saw_alt && parts.hash_arms.len() <= parts.threshold
                && parts.threshold - parts.hash_arms.len() <= parts.pubkeys.len() {
                proof {
                    let (k, first, arms) = choose|k: usize, first: XOnlyKey, arms: Seq<Arm>|
                        1 <= k <= 16 && spells(script@, #[trigger] thresh(k, first, arms))
                            && parts_are(parts, k, first, arms);
                    lemma_thresh_template(script@, k, first, arms);
                    let hashes = hash_arms_of(parts.hash_arms@);
                    assert(spells_hash_thresh(script@, k, parts.pubkeys@, hashes, first, arms));
                    assert(thresh_s_hash(
                        script@,
                        parts.threshold,
                        parts.pubkeys@,
                        hashes,
                    ));
                }
                Some(
                    ThreshHashArmTemplate {
                        threshold: parts.threshold,
                        pubkeys: parts.pubkeys,
                        hash_arms: parts.hash_arms,
                    },
                )
            } else {
                None
            }
        },
    }
}

/// `thresh(k, pk, a:pk, a:hash, ..)`: at least one hash, every arm uses the alternate stack.
///
/// ```text
/// <key> OP_CHECKSIG
/// ( OP_TOALTSTACK <key> OP_CHECKSIG OP_FROMALTSTACK OP_ADD
/// | OP_TOALTSTACK <preimage check> OP_FROMALTSTACK OP_ADD ){1,}
/// <k> OP_EQUAL
/// ```
pub open spec fn thresh_a_hash(
    tokens: Seq<Token>,
    k: usize,
    keys: Seq<XOnlyKey>,
    hashes: Seq<HashArm>,
) -> bool {
    exists|first: XOnlyKey, arms: Seq<Arm>|
        all_swap(arms, false) && #[trigger] spells_hash_thresh(tokens, k, keys, hashes, first, arms)
}

/// The threshold, the keys in script order and the hash checks with their places of a script that
/// is [`thresh_a_hash`], `None` for every other script.
pub fn bare_tapscript_thresh_a_hash_template(script: &LeafScript) -> (r: Option<
    ThreshHashArmTemplate,
>)
    ensures
        r matches Some(t) ==> thresh_a_hash(
            script@,
            t.threshold,
            t.pubkeys@,
            hash_arms_of(t.hash_arms@),
        ),
        forall|k: usize, keys: Seq<XOnlyKey>, hashes: Seq<HashArm>| #[trigger]
            thresh_a_hash(script@, k, keys, hashes) ==> (r matches Some(t) && t.threshold
                == k && t.pubkeys@ == keys && hash_arms_of(t.hash_arms@) == hashes),
        r is Some ==> template_of(script@) == Template::ThreshAHash,
{
    match parse_thresh(script) {
        None => None,
        Some(parts) => {
            if parts.hash_arms.len() >= 1 && !parts.saw_swap && parts.hash_arms.len() <= parts.threshold
                && parts.threshold - parts.hash_arms.len() <= parts.pubkeys.len() {
                proof {
                    let (k, first, arms) = choose|k: usize, first: XOnlyKey, arms: Seq<Arm>|
                        1 <= k <= 16 && spells(script@, #[trigger] thresh(k, first, arms))
                            && parts_are(parts, k, first, arms);
                    lemma_thresh_template(script@, k, first, arms);
                    let hashes = hash_arms_of(parts.hash_arms@);
                    assert(spells_hash_thresh(script@, k, parts.pubkeys@, hashes, first, arms));
                    assert(thresh_a_hash(
                        script@,
                        parts.threshold,
                        parts.pubkeys@,
                        hashes,
                    ));
                }
                Some(
                    ThreshHashArmTemplate {
                        threshold: parts.threshold,
                        pubkeys: parts.pubkeys,
                        hash_arms: parts.hash_arms,
                    },
                )
            } else {
                None
            }
        },
    }
}

/// `thresh(k, pk, s:pk, a:hash, ..)`: at least one hash, arms of both kinds.
///
/// ```text
/// <key> OP_CHECKSIG
/// ( OP_SWAP <key> OP_CHECKSIG OP_ADD
/// | OP_TOALTSTACK <key> OP_CHECKSIG OP_FROMALTSTACK OP_ADD
/// | OP_SWAP <preimage check> OP_ADD
/// | OP_TOALTSTACK <preimage check> OP_FROMALTSTACK OP_ADD ){2,}
/// <k> OP_EQUAL
/// ```
pub open spec fn thresh_mixed_sa_hash(
    tokens: Seq<Token>,
    k: usize,
    keys: Seq<XOnlyKey>,
    hashes: Seq<HashArm>,
) -> bool {
    exists|first: XOnlyKey, arms: Seq<Arm>|
        mixed(arms) && #[trigger] spells_hash_thresh(tokens, k, keys, hashes, first, arms)
}

/// The threshold, the keys in script order and the hash checks with their places of a script that
/// is [`thresh_mixed_sa_hash`], `None` for every other script.
pub fn bare_tapscript_thresh_mixed_sa_hash_template(script: &LeafScript) -> (r: Option<
    ThreshHashArmTemplate,
>)
    ensures
        r matches Some(t) ==> thresh_mixed_sa_hash(
            script@,
            t.threshold,
            t.pubkeys@,
            hash_arms_of(t.hash_arms@),
        ),
        forall|k: usize, keys: Seq<XOnlyKey>, hashes: Seq<HashArm>| #[trigger]
            thresh_mixed_sa_hash(script@, k, keys, hashes) ==> (r matches Some(t) && t.threshold
                == k && t.pubkeys@ == keys && hash_arms_of(t.hash_arms@) == hashes),
        r is Some ==> template_of(script@) == Template::ThreshMixedSaHash,
{
    match parse_thresh(script) {
        None => None,
        Some(parts) => {
            if parts.hash_arms.len() >= 1 && parts.saw_swap && parts.saw_alt && parts.hash_arms.len() <= parts.threshold
                && parts.threshold - parts.hash_arms.len() <= parts.pubkeys.len() {
                proof {
                    let (k, first, arms) = choose|k: usize, first: XOnlyKey, arms: Seq<Arm>|
                        1 <= k <= 16 && spells(script@, #[trigger] thresh(k, first, arms))
                            && parts_are(parts, k, first, arms);
                    lemma_thresh_template(script@, k, first, arms);
                    let hashes = hash_arms_of(parts.hash_arms@);
                    assert(spells_hash_thresh(script@, k, parts.pubkeys@, hashes, first, arms));
                    assert(thresh_mixed_sa_hash(
                        script@,
                        parts.threshold,
                        parts.pubkeys@,
                        hashes,
                    ));
                }
                Some(
                    ThreshHashArmTemplate {
                        threshold: parts.threshold,
                        pubkeys: parts.pubkeys,
                        hash_arms: parts.hash_arms,
                    },
                )
            } else {
                None
            }
        },
    }
}

} // verus!
