//! Which values a leaf template holds, in the order of its script.

use vstd::prelude::*;

use crate::tapscript::and_v_checksig::and_v_checksigverify;
use crate::tapscript::and_v_dual_hash::{
    and_v_dual_hash_pk, and_v_dual_hash_pk_lock, and_v_hash_pk_hash, and_v_pk_dual_hash,
    and_v_pk_dual_hash_lock,
};
use crate::tapscript::and_v_multi_pk::{
    and_v_after_multi_pk, and_v_hash_multi_pk, and_v_multi_pk_after, and_v_multi_pk_after_multi_pk,
    and_v_multi_pk_hash, and_v_multi_pk_hash_multi_pk, and_v_multi_pk_older,
    and_v_multi_pk_older_multi_pk, and_v_older_multi_pk,
};
use crate::tapscript::and_v_or::{
    and_v_or_c_after, and_v_or_c_hash, and_v_or_c_multi_after, and_v_or_c_multi_hash,
    and_v_or_c_multi_older, and_v_or_c_older, and_v_or_i_after, and_v_or_i_hash,
    and_v_or_i_multi_after, and_v_or_i_multi_hash, and_v_or_i_multi_older, and_v_or_i_older,
};
use crate::tapscript::and_v_pk_hash_lock::{
    and_v_hash_lock_pk, and_v_hash_pk_lock, and_v_lock_hash_pk, and_v_lock_pk_hash,
    and_v_pk_hash_lock, and_v_pk_lock_hash,
};
use crate::tapscript::combinators::{and_n_checksig, andor_checksig, or_d_checksig};
use crate::tapscript::or_c::or_c_checksig;
use crate::tapscript::or_i_basic::or_i_checksig;
use crate::tapscript::or_i_product::{
    or_i_after_and_v_pk_hash, or_i_and_v_pk_after, or_i_and_v_pk_hash, or_i_and_v_pk_older,
    or_i_hash_and_v_pk_after, or_i_hash_and_v_pk_hash, or_i_hash_and_v_pk_older,
    or_i_lock_and_v_pk_lock, or_i_older_and_v_pk_hash, or_i_pk_and_v_pk_after,
    or_i_pk_and_v_pk_hash, or_i_pk_and_v_pk_older,
};
use crate::tapscript::hash::{and_v_hash_pk, and_v_pk_hash, hash_preimage, TapscriptHashKind};
use crate::tapscript::older_after::{
    after_alone, and_v_after_pk, and_v_older_pk, and_v_pk_after, and_v_pk_older, older_alone,
    DualTimeoutLock,
};
use crate::tapscript::layout::{
    after, arm_check_slots, arm_slots, arms_slots, check_keys, code, count, fits, keys_with, older,
    preimage, push_empty, push_key, spells, timeout, verify_keys, Arm, ArmCheck, Slot,
};
use crate::tapscript::multi_a::checksigadd_multi;
use crate::tapscript::script::{token_number, Token, XOnlyKey};
use crate::tapscript::thresh::thresh;

verus! {

/// What a template hands out.
pub enum Held {
    /// A key that has to sign.
    Key(XOnlyKey),
    /// A hash whose preimage has to be shown, with its digest.
    Hash(TapscriptHashKind, Seq<u8>),
    /// A timeout that has to be over.
    Lock(DualTimeoutLock),
}

/// The value in one slot, where it holds one.
pub open spec fn value_in(slot: Slot) -> Seq<Held> {
    match slot {
        Slot::Key(key) => seq![Held::Key(key)],
        Slot::Digest(kind, digest) => seq![Held::Hash(kind, digest)],
        Slot::Older(n) => seq![Held::Lock(DualTimeoutLock::Older(n))],
        Slot::After(n) => seq![Held::Lock(DualTimeoutLock::After(n))],
        _ => Seq::empty(),
    }
}

/// The values in slots, from the first to the last.
pub open spec fn values_in(slots: Seq<Slot>) -> Seq<Held>
    decreases slots.len(),
{
    if slots.len() == 0 {
        Seq::empty()
    } else {
        value_in(slots[0]) + values_in(slots.skip(1))
    }
}

/// Each of the keys.
pub open spec fn all_keys(keys: Seq<XOnlyKey>) -> Seq<Held> {
    keys.map_values(|key: XOnlyKey| Held::Key(key))
}

/// The values in the fragments from the one at `i` on.
spec fn values_from(fragments: Seq<Seq<Slot>>, i: int) -> Seq<Held>
    decreases fragments.len() - i,
{
    if 0 <= i < fragments.len() {
        values_in(fragments[i]) + values_from(fragments, i + 1)
    } else {
        Seq::empty()
    }
}

proof fn lemma_values_concat(a: Seq<Slot>, b: Seq<Slot>)
    ensures
        values_in(a + b) == values_in(a) + values_in(b),
    decreases a.len(),
{
    if a.len() == 0 {
        assert(a + b =~= b);
        assert(values_in(a) + values_in(b) =~= values_in(b));
    } else {
        assert((a + b).skip(1) =~= a.skip(1) + b);
        lemma_values_concat(a.skip(1), b);
        assert(values_in(a + b) =~= values_in(a) + values_in(b));
    }
}

proof fn lemma_values_behind(fragments: Seq<Seq<Slot>>, i: int)
    requires
        0 <= i <= fragments.len(),
    ensures
        values_in(fragments.skip(i).flatten()) == values_from(fragments, i),
    decreases fragments.len() - i,
{
    let rest = fragments.skip(i);
    if i < fragments.len() {
        assert(rest.drop_first() =~= fragments.skip(i + 1));
        lemma_values_behind(fragments, i + 1);
        lemma_values_concat(rest.first(), rest.drop_first().flatten());
        assert(rest.flatten() == rest.first() + rest.drop_first().flatten());
    }
}

proof fn lemma_values_from(fragments: Seq<Seq<Slot>>)
    ensures
        values_in(fragments.flatten()) == values_from(fragments, 0),
{
    assert(fragments.skip(0) =~= fragments);
    lemma_values_behind(fragments, 0);
}

proof fn lemma_values_of_keys_with(op: u8, keys: Seq<XOnlyKey>)
    ensures
        values_in(keys_with(op, keys)) == all_keys(keys),
    decreases keys.len(),
{
    let slots = keys_with(op, keys);
    if keys.len() == 0 {
        assert(values_in(slots) =~= all_keys(keys));
    } else {
        lemma_values_of_keys_with(op, keys.skip(1));
        assert(slots.skip(1).skip(1) =~= keys_with(op, keys.skip(1)));
        assert(values_in(slots.skip(1)) =~= values_in(slots.skip(1).skip(1)));
        assert(values_in(slots) =~= seq![Held::Key(keys[0])] + all_keys(keys.skip(1)));
        assert(all_keys(keys) =~= seq![Held::Key(keys[0])] + all_keys(keys.skip(1)));
    }
}

proof fn lemma_values_of_one(slot: Slot)
    ensures
        values_in(seq![slot]) == value_in(slot),
{
    assert(values_in(seq![slot].skip(1)) =~= Seq::empty());
    assert(values_in(seq![slot]) =~= value_in(slot));
}

proof fn lemma_values_of_two(a: Slot, b: Slot)
    ensures
        values_in(seq![a, b]) == value_in(a) + value_in(b),
{
    assert(seq![a, b] =~= seq![a] + seq![b]);
    lemma_values_concat(seq![a], seq![b]);
    lemma_values_of_one(a);
    lemma_values_of_one(b);
}

proof fn lemma_values_of_preimage(kind: TapscriptHashKind, digest: Seq<u8>, end: u8)
    ensures
        values_in(preimage(kind, digest, end)) == seq![Held::Hash(kind, digest)],
{
    let slots = preimage(kind, digest, end);
    let (first, second, third) = (seq![slots[0], slots[1]], seq![slots[2], slots[3]], seq![slots[4], slots[5]]);
    assert(slots =~= first + second + third);
    lemma_values_concat(first + second, third);
    lemma_values_concat(first, second);
    lemma_values_of_two(slots[0], slots[1]);
    lemma_values_of_two(slots[2], slots[3]);
    lemma_values_of_two(slots[4], slots[5]);
    assert(values_in(slots) =~= seq![Held::Hash(kind, digest)]);
}

/// The values of the fragments that the templates are made of.
proof fn lemma_fragment_values()
    ensures
        forall|op: u8| #[trigger] values_in(code(op)) == Seq::<Held>::empty(),
        forall|key: XOnlyKey| #[trigger] values_in(push_key(key)) == seq![Held::Key(key)],
        values_in(push_empty()) == Seq::<Held>::empty(),
        forall|k: u8| #[trigger] values_in(count(k)) == Seq::<Held>::empty(),
        forall|op: u8, keys: Seq<XOnlyKey>| #[trigger]
            values_in(keys_with(op, keys)) == all_keys(keys),
        forall|keys: Seq<XOnlyKey>| #[trigger] values_in(verify_keys(keys)) == all_keys(keys),
        forall|keys: Seq<XOnlyKey>|
            keys.len() >= 1 ==> #[trigger] values_in(check_keys(keys)) == all_keys(keys),
        forall|kind: TapscriptHashKind, digest: Seq<u8>, end: u8| #[trigger]
            values_in(preimage(kind, digest, end)) == seq![Held::Hash(kind, digest)],
        forall|n: u32| #[trigger] values_in(older(n))
            == seq![Held::Lock(DualTimeoutLock::Older(n))],
        forall|n: u32| #[trigger] values_in(after(n))
            == seq![Held::Lock(DualTimeoutLock::After(n))],
        forall|lock: DualTimeoutLock| #[trigger] values_in(timeout(lock)) == seq![Held::Lock(lock)],
{
    assert forall|op: u8| #[trigger] values_in(code(op)) == Seq::<Held>::empty() by {
        lemma_values_of_one(Slot::Op(op));
    }
    assert forall|key: XOnlyKey| #[trigger] values_in(push_key(key)) == seq![Held::Key(key)] by {
        lemma_values_of_one(Slot::Key(key));
    }
    lemma_values_of_one(Slot::Bytes(Seq::empty()));
    assert forall|k: u8| #[trigger] values_in(count(k)) == Seq::<Held>::empty() by {
        lemma_values_of_one(Slot::Op((0x50 + k) as u8));
    }
    assert forall|op: u8, keys: Seq<XOnlyKey>| #[trigger]
        values_in(keys_with(op, keys)) == all_keys(keys) by {
        lemma_values_of_keys_with(op, keys);
    }
    assert forall|keys: Seq<XOnlyKey>|
        keys.len() >= 1 implies #[trigger] values_in(check_keys(keys)) == all_keys(keys) by {
        let last = seq![Slot::Key(keys.last()), check_keys(keys).last()];
        lemma_values_concat(verify_keys(keys.drop_last()), last);
        lemma_values_of_two(last[0], last[1]);
        assert(values_in(check_keys(keys)) =~= all_keys(keys));
    }
    assert forall|kind: TapscriptHashKind, digest: Seq<u8>, end: u8| #[trigger]
        values_in(preimage(kind, digest, end)) == seq![Held::Hash(kind, digest)] by {
        lemma_values_of_preimage(kind, digest, end);
    }
    assert forall|n: u32| #[trigger]
        values_in(older(n)) == seq![Held::Lock(DualTimeoutLock::Older(n))] by {
        lemma_values_of_two(older(n)[0], older(n)[1]);
        assert(values_in(older(n)) =~= seq![Held::Lock(DualTimeoutLock::Older(n))]);
    }
    assert forall|n: u32| #[trigger]
        values_in(after(n)) == seq![Held::Lock(DualTimeoutLock::After(n))] by {
        lemma_values_of_two(after(n)[0], after(n)[1]);
        assert(values_in(after(n)) =~= seq![Held::Lock(DualTimeoutLock::After(n))]);
    }
}

/// The keys of a template of keys alone, in the order of the script. `andor(a, b, c)` has `c`, the
/// key for when the first signature is missing, before `b`.
pub proof fn lemma_values_of_key_templates(
    keys: Seq<XOnlyKey>,
    a: XOnlyKey,
    b: XOnlyKey,
    c: XOnlyKey,
)
    ensures
        keys.len() >= 1 ==> values_in(and_v_checksigverify(keys).flatten()) == all_keys(keys),
        values_in(or_d_checksig(a, b).flatten()) == seq![Held::Key(a), Held::Key(b)],
        values_in(and_n_checksig(a, b).flatten()) == seq![Held::Key(a), Held::Key(b)],
        values_in(andor_checksig(a, b, c).flatten())
            == seq![Held::Key(a), Held::Key(c), Held::Key(b)],
        values_in(or_c_checksig(a, b).flatten()) == seq![Held::Key(a), Held::Key(b)],
        values_in(or_i_checksig(a, b).flatten()) == seq![Held::Key(a), Held::Key(b)],
{
    lemma_fragment_values();
    assert(keys.len() >= 1 ==> values_in(and_v_checksigverify(keys).flatten())
        == all_keys(keys)) by {
        lemma_values_from(and_v_checksigverify(keys));
        reveal_with_fuel(values_from, 2);
        assert(keys.len() >= 1 ==> values_from(and_v_checksigverify(keys), 0) =~= all_keys(keys));
    }
    assert(values_in(or_d_checksig(a, b).flatten()) == seq![Held::Key(a), Held::Key(b)]) by {
        lemma_values_from(or_d_checksig(a, b));
        reveal_with_fuel(values_from, 8);
        assert(values_from(or_d_checksig(a, b), 0) =~= seq![Held::Key(a), Held::Key(b)]);
    }
    assert(values_in(and_n_checksig(a, b).flatten()) == seq![Held::Key(a), Held::Key(b)]) by {
        lemma_values_from(and_n_checksig(a, b));
        reveal_with_fuel(values_from, 9);
        assert(values_from(and_n_checksig(a, b), 0) =~= seq![Held::Key(a), Held::Key(b)]);
    }
    assert(values_in(andor_checksig(a, b, c).flatten())
        == seq![Held::Key(a), Held::Key(c), Held::Key(b)]) by {
        lemma_values_from(andor_checksig(a, b, c));
        reveal_with_fuel(values_from, 10);
        assert(values_from(andor_checksig(a, b, c), 0) =~=
            seq![Held::Key(a), Held::Key(c), Held::Key(b)]);
    }
    assert(values_in(or_c_checksig(a, b).flatten()) == seq![Held::Key(a), Held::Key(b)]) by {
        lemma_values_from(or_c_checksig(a, b));
        reveal_with_fuel(values_from, 7);
        assert(values_from(or_c_checksig(a, b), 0) =~= seq![Held::Key(a), Held::Key(b)]);
    }
    assert(values_in(or_i_checksig(a, b).flatten()) == seq![Held::Key(a), Held::Key(b)]) by {
        lemma_values_from(or_i_checksig(a, b));
        reveal_with_fuel(values_from, 8);
        assert(values_from(or_i_checksig(a, b), 0) =~= seq![Held::Key(a), Held::Key(b)]);
    }
}

/// The values of a template with one hash and at most one key, in the order of the script.
pub proof fn lemma_values_of_hash_templates(
    kind: TapscriptHashKind,
    digest: Seq<u8>,
    a: XOnlyKey,
)
    ensures
        values_in(hash_preimage(kind, digest).flatten()) == seq![Held::Hash(kind, digest)],
        values_in(and_v_pk_hash(a, kind, digest).flatten())
            == seq![Held::Key(a), Held::Hash(kind, digest)],
        values_in(and_v_hash_pk(a, kind, digest).flatten())
            == seq![Held::Hash(kind, digest), Held::Key(a)],
{
    lemma_fragment_values();
    assert(values_in(hash_preimage(kind, digest).flatten()) == seq![Held::Hash(kind, digest)]) by {
        lemma_values_from(hash_preimage(kind, digest));
        reveal_with_fuel(values_from, 2);
        assert(values_from(hash_preimage(kind, digest), 0) =~= seq![Held::Hash(kind, digest)]);
    }
    assert(values_in(and_v_pk_hash(a, kind, digest).flatten())
        == seq![Held::Key(a), Held::Hash(kind, digest)]) by {
        lemma_values_from(and_v_pk_hash(a, kind, digest));
        reveal_with_fuel(values_from, 4);
        assert(values_from(and_v_pk_hash(a, kind, digest), 0) =~=
            seq![Held::Key(a), Held::Hash(kind, digest)]);
    }
    assert(values_in(and_v_hash_pk(a, kind, digest).flatten())
        == seq![Held::Hash(kind, digest), Held::Key(a)]) by {
        lemma_values_from(and_v_hash_pk(a, kind, digest));
        reveal_with_fuel(values_from, 4);
        assert(values_from(and_v_hash_pk(a, kind, digest), 0) =~=
            seq![Held::Hash(kind, digest), Held::Key(a)]);
    }
}

/// The values of a template with one timeout and at most one key, in the order of the script.
pub proof fn lemma_values_of_lock_templates(
    a: XOnlyKey,
    n: u32,
)
    ensures
        values_in(and_v_pk_older(a, n).flatten())
            == seq![Held::Key(a), Held::Lock(DualTimeoutLock::Older(n))],
        values_in(and_v_older_pk(n, a).flatten())
            == seq![Held::Lock(DualTimeoutLock::Older(n)), Held::Key(a)],
        values_in(older_alone(n).flatten()) == seq![Held::Lock(DualTimeoutLock::Older(n))],
        values_in(and_v_pk_after(a, n).flatten())
            == seq![Held::Key(a), Held::Lock(DualTimeoutLock::After(n))],
        values_in(and_v_after_pk(n, a).flatten())
            == seq![Held::Lock(DualTimeoutLock::After(n)), Held::Key(a)],
        values_in(after_alone(n).flatten()) == seq![Held::Lock(DualTimeoutLock::After(n))],
{
    lemma_fragment_values();
    assert(values_in(and_v_pk_older(a, n).flatten())
        == seq![Held::Key(a), Held::Lock(DualTimeoutLock::Older(n))]) by {
        lemma_values_from(and_v_pk_older(a, n));
        reveal_with_fuel(values_from, 4);
        assert(values_from(and_v_pk_older(a, n), 0) =~=
            seq![Held::Key(a), Held::Lock(DualTimeoutLock::Older(n))]);
    }
    assert(values_in(and_v_older_pk(n, a).flatten())
        == seq![Held::Lock(DualTimeoutLock::Older(n)), Held::Key(a)]) by {
        lemma_values_from(and_v_older_pk(n, a));
        reveal_with_fuel(values_from, 5);
        assert(values_from(and_v_older_pk(n, a), 0) =~=
            seq![Held::Lock(DualTimeoutLock::Older(n)), Held::Key(a)]);
    }
    assert(values_in(older_alone(n).flatten()) == seq![Held::Lock(DualTimeoutLock::Older(n))]) by {
        lemma_values_from(older_alone(n));
        reveal_with_fuel(values_from, 2);
        assert(values_from(older_alone(n), 0) =~= seq![Held::Lock(DualTimeoutLock::Older(n))]);
    }
    assert(values_in(and_v_pk_after(a, n).flatten())
        == seq![Held::Key(a), Held::Lock(DualTimeoutLock::After(n))]) by {
        lemma_values_from(and_v_pk_after(a, n));
        reveal_with_fuel(values_from, 4);
        assert(values_from(and_v_pk_after(a, n), 0) =~=
            seq![Held::Key(a), Held::Lock(DualTimeoutLock::After(n))]);
    }
    assert(values_in(and_v_after_pk(n, a).flatten())
        == seq![Held::Lock(DualTimeoutLock::After(n)), Held::Key(a)]) by {
        lemma_values_from(and_v_after_pk(n, a));
        reveal_with_fuel(values_from, 5);
        assert(values_from(and_v_after_pk(n, a), 0) =~=
            seq![Held::Lock(DualTimeoutLock::After(n)), Held::Key(a)]);
    }
    assert(values_in(after_alone(n).flatten()) == seq![Held::Lock(DualTimeoutLock::After(n))]) by {
        lemma_values_from(after_alone(n));
        reveal_with_fuel(values_from, 2);
        assert(values_from(after_alone(n), 0) =~= seq![Held::Lock(DualTimeoutLock::After(n))]);
    }
}

/// The values of a template of keys with a timeout or a hash, in the order of the script.
pub proof fn lemma_values_of_multi_pk_templates(
    keys: Seq<XOnlyKey>,
    n: u32,
    kind: TapscriptHashKind,
    digest: Seq<u8>,
    left: Seq<XOnlyKey>,
    right: Seq<XOnlyKey>,
)
    ensures
        values_in(and_v_multi_pk_older(keys, n).flatten())
            == all_keys(keys) + seq![Held::Lock(DualTimeoutLock::Older(n))],
        values_in(and_v_multi_pk_after(keys, n).flatten())
            == all_keys(keys) + seq![Held::Lock(DualTimeoutLock::After(n))],
        values_in(and_v_multi_pk_hash(keys, kind, digest).flatten())
            == all_keys(keys) + seq![Held::Hash(kind, digest)],
        keys.len() >= 1 ==> values_in(and_v_older_multi_pk(n, keys).flatten())
            == seq![Held::Lock(DualTimeoutLock::Older(n))] + all_keys(keys),
        keys.len() >= 1 ==> values_in(and_v_after_multi_pk(n, keys).flatten())
            == seq![Held::Lock(DualTimeoutLock::After(n))] + all_keys(keys),
        keys.len() >= 1 ==> values_in(and_v_hash_multi_pk(keys, kind, digest).flatten())
            == seq![Held::Hash(kind, digest)] + all_keys(keys),
        right.len() >= 1 ==> values_in(and_v_multi_pk_older_multi_pk(left, n, right).flatten())
            == all_keys(left) + seq![Held::Lock(DualTimeoutLock::Older(n))] + all_keys(right),
        right.len() >= 1 ==> values_in(and_v_multi_pk_after_multi_pk(left, n, right).flatten())
            == all_keys(left) + seq![Held::Lock(DualTimeoutLock::After(n))] + all_keys(right),
        right.len() >= 1 ==> values_in(and_v_multi_pk_hash_multi_pk(left, kind, digest, right).flatten())
            == all_keys(left) + seq![Held::Hash(kind, digest)] + all_keys(right),
{
    lemma_fragment_values();
    assert(values_in(and_v_multi_pk_older(keys, n).flatten())
        == all_keys(keys) + seq![Held::Lock(DualTimeoutLock::Older(n))]) by {
        lemma_values_from(and_v_multi_pk_older(keys, n));
        reveal_with_fuel(values_from, 3);
        assert(values_from(and_v_multi_pk_older(keys, n), 0) =~=
            all_keys(keys) + seq![Held::Lock(DualTimeoutLock::Older(n))]);
    }
    assert(values_in(and_v_multi_pk_after(keys, n).flatten())
        == all_keys(keys) + seq![Held::Lock(DualTimeoutLock::After(n))]) by {
        lemma_values_from(and_v_multi_pk_after(keys, n));
        reveal_with_fuel(values_from, 3);
        assert(values_from(and_v_multi_pk_after(keys, n), 0) =~=
            all_keys(keys) + seq![Held::Lock(DualTimeoutLock::After(n))]);
    }
    assert(values_in(and_v_multi_pk_hash(keys, kind, digest).flatten())
        == all_keys(keys) + seq![Held::Hash(kind, digest)]) by {
        lemma_values_from(and_v_multi_pk_hash(keys, kind, digest));
        reveal_with_fuel(values_from, 3);
        assert(values_from(and_v_multi_pk_hash(keys, kind, digest), 0) =~=
            all_keys(keys) + seq![Held::Hash(kind, digest)]);
    }
    assert(keys.len() >= 1 ==> values_in(and_v_older_multi_pk(n, keys).flatten())
        == seq![Held::Lock(DualTimeoutLock::Older(n))] + all_keys(keys)) by {
        lemma_values_from(and_v_older_multi_pk(n, keys));
        reveal_with_fuel(values_from, 4);
        assert(keys.len() >= 1 ==> values_from(and_v_older_multi_pk(n, keys), 0) =~=
            seq![Held::Lock(DualTimeoutLock::Older(n))] + all_keys(keys));
    }
    assert(keys.len() >= 1 ==> values_in(and_v_after_multi_pk(n, keys).flatten())
        == seq![Held::Lock(DualTimeoutLock::After(n))] + all_keys(keys)) by {
        lemma_values_from(and_v_after_multi_pk(n, keys));
        reveal_with_fuel(values_from, 4);
        assert(keys.len() >= 1 ==> values_from(and_v_after_multi_pk(n, keys), 0) =~=
            seq![Held::Lock(DualTimeoutLock::After(n))] + all_keys(keys));
    }
    assert(keys.len() >= 1 ==> values_in(and_v_hash_multi_pk(keys, kind, digest).flatten())
        == seq![Held::Hash(kind, digest)] + all_keys(keys)) by {
        lemma_values_from(and_v_hash_multi_pk(keys, kind, digest));
        reveal_with_fuel(values_from, 3);
        assert(keys.len() >= 1 ==> values_from(and_v_hash_multi_pk(keys, kind, digest), 0) =~=
            seq![Held::Hash(kind, digest)] + all_keys(keys));
    }
    assert(right.len() >= 1 ==> values_in(and_v_multi_pk_older_multi_pk(left, n, right).flatten())
        == all_keys(left) + seq![Held::Lock(DualTimeoutLock::Older(n))] + all_keys(right)) by {
        lemma_values_from(and_v_multi_pk_older_multi_pk(left, n, right));
        reveal_with_fuel(values_from, 5);
        assert(right.len() >= 1 ==> values_from(and_v_multi_pk_older_multi_pk(left, n, right), 0) =~=
            all_keys(left) + seq![Held::Lock(DualTimeoutLock::Older(n))] + all_keys(right));
    }
    assert(right.len() >= 1 ==> values_in(and_v_multi_pk_after_multi_pk(left, n, right).flatten())
        == all_keys(left) + seq![Held::Lock(DualTimeoutLock::After(n))] + all_keys(right)) by {
        lemma_values_from(and_v_multi_pk_after_multi_pk(left, n, right));
        reveal_with_fuel(values_from, 5);
        assert(right.len() >= 1 ==> values_from(and_v_multi_pk_after_multi_pk(left, n, right), 0) =~=
            all_keys(left) + seq![Held::Lock(DualTimeoutLock::After(n))] + all_keys(right));
    }
    assert(right.len() >= 1 ==> values_in(and_v_multi_pk_hash_multi_pk(left, kind, digest, right).flatten())
        == all_keys(left) + seq![Held::Hash(kind, digest)] + all_keys(right)) by {
        lemma_values_from(and_v_multi_pk_hash_multi_pk(left, kind, digest, right));
        reveal_with_fuel(values_from, 4);
        assert(right.len() >= 1 ==> values_from(and_v_multi_pk_hash_multi_pk(left, kind, digest, right), 0) =~=
            all_keys(left) + seq![Held::Hash(kind, digest)] + all_keys(right));
    }
}

/// The values of a template of keys and two hashes, in the order of the script.
pub proof fn lemma_values_of_dual_hash_templates(
    keys: Seq<XOnlyKey>,
    kind1: TapscriptHashKind,
    digest1: Seq<u8>,
    kind2: TapscriptHashKind,
    digest2: Seq<u8>,
    lock: DualTimeoutLock,
)
    ensures
        values_in(and_v_pk_dual_hash_lock(keys, kind1, digest1, kind2, digest2, lock).flatten())
            == all_keys(keys)
            + seq![Held::Hash(kind1, digest1), Held::Hash(kind2, digest2), Held::Lock(lock)],
        values_in(and_v_pk_dual_hash(keys, kind1, digest1, kind2, digest2).flatten())
            == all_keys(keys) + seq![Held::Hash(kind1, digest1), Held::Hash(kind2, digest2)],
        keys.len() >= 1 ==> values_in(and_v_dual_hash_pk(keys, kind1, digest1, kind2, digest2).flatten())
            == seq![Held::Hash(kind1, digest1), Held::Hash(kind2, digest2)] + all_keys(keys),
        values_in(and_v_hash_pk_hash(keys, kind1, digest1, kind2, digest2).flatten())
            == seq![Held::Hash(kind1, digest1)] + all_keys(keys) + seq![Held::Hash(kind2, digest2)],
        values_in(and_v_dual_hash_pk_lock(keys, kind1, digest1, kind2, digest2, lock).flatten())
            == seq![Held::Hash(kind1, digest1), Held::Hash(kind2, digest2)] + all_keys(keys)
            + seq![Held::Lock(lock)],
{
    lemma_fragment_values();
    assert(values_in(and_v_pk_dual_hash_lock(keys, kind1, digest1, kind2, digest2, lock).flatten())
        == all_keys(keys)
        + seq![Held::Hash(kind1, digest1), Held::Hash(kind2, digest2), Held::Lock(lock)]) by {
        lemma_values_from(and_v_pk_dual_hash_lock(keys, kind1, digest1, kind2, digest2, lock));
        reveal_with_fuel(values_from, 5);
        assert(values_from(and_v_pk_dual_hash_lock(keys, kind1, digest1, kind2, digest2, lock), 0) =~=
            all_keys(keys)
            + seq![Held::Hash(kind1, digest1), Held::Hash(kind2, digest2), Held::Lock(lock)]);
    }
    assert(values_in(and_v_pk_dual_hash(keys, kind1, digest1, kind2, digest2).flatten())
        == all_keys(keys) + seq![Held::Hash(kind1, digest1), Held::Hash(kind2, digest2)]) by {
        lemma_values_from(and_v_pk_dual_hash(keys, kind1, digest1, kind2, digest2));
        reveal_with_fuel(values_from, 4);
        assert(values_from(and_v_pk_dual_hash(keys, kind1, digest1, kind2, digest2), 0) =~=
            all_keys(keys) + seq![Held::Hash(kind1, digest1), Held::Hash(kind2, digest2)]);
    }
    assert(keys.len() >= 1 ==> values_in(and_v_dual_hash_pk(keys, kind1, digest1, kind2, digest2).flatten())
        == seq![Held::Hash(kind1, digest1), Held::Hash(kind2, digest2)] + all_keys(keys)) by {
        lemma_values_from(and_v_dual_hash_pk(keys, kind1, digest1, kind2, digest2));
        reveal_with_fuel(values_from, 4);
        assert(keys.len() >= 1 ==> values_from(and_v_dual_hash_pk(keys, kind1, digest1, kind2, digest2), 0) =~=
            seq![Held::Hash(kind1, digest1), Held::Hash(kind2, digest2)] + all_keys(keys));
    }
    assert(values_in(and_v_hash_pk_hash(keys, kind1, digest1, kind2, digest2).flatten())
        == seq![Held::Hash(kind1, digest1)] + all_keys(keys)
        + seq![Held::Hash(kind2, digest2)]) by {
        lemma_values_from(and_v_hash_pk_hash(keys, kind1, digest1, kind2, digest2));
        reveal_with_fuel(values_from, 4);
        assert(values_from(and_v_hash_pk_hash(keys, kind1, digest1, kind2, digest2), 0) =~=
            seq![Held::Hash(kind1, digest1)] + all_keys(keys) + seq![Held::Hash(kind2, digest2)]);
    }
    assert(values_in(and_v_dual_hash_pk_lock(keys, kind1, digest1, kind2, digest2, lock).flatten())
        == seq![Held::Hash(kind1, digest1), Held::Hash(kind2, digest2)] + all_keys(keys)
        + seq![Held::Lock(lock)]) by {
        lemma_values_from(and_v_dual_hash_pk_lock(keys, kind1, digest1, kind2, digest2, lock));
        reveal_with_fuel(values_from, 5);
        assert(values_from(and_v_dual_hash_pk_lock(keys, kind1, digest1, kind2, digest2, lock), 0) =~=
            seq![Held::Hash(kind1, digest1), Held::Hash(kind2, digest2)] + all_keys(keys)
            + seq![Held::Lock(lock)]);
    }
}

/// The values of a template of keys, a hash and a timeout, in the order of the script.
pub proof fn lemma_values_of_pk_hash_lock_templates(
    keys: Seq<XOnlyKey>,
    kind: TapscriptHashKind,
    digest: Seq<u8>,
    lock: DualTimeoutLock,
)
    ensures
        values_in(and_v_pk_hash_lock(keys, kind, digest, lock).flatten())
            == all_keys(keys) + seq![Held::Hash(kind, digest), Held::Lock(lock)],
        values_in(and_v_hash_pk_lock(keys, kind, digest, lock).flatten())
            == seq![Held::Hash(kind, digest)] + all_keys(keys) + seq![Held::Lock(lock)],
        values_in(and_v_lock_pk_hash(keys, kind, digest, lock).flatten())
            == seq![Held::Lock(lock)] + all_keys(keys) + seq![Held::Hash(kind, digest)],
        values_in(and_v_pk_lock_hash(keys, kind, digest, lock).flatten())
            == all_keys(keys) + seq![Held::Lock(lock), Held::Hash(kind, digest)],
        keys.len() >= 1 ==> values_in(and_v_hash_lock_pk(keys, kind, digest, lock).flatten())
            == seq![Held::Hash(kind, digest), Held::Lock(lock)] + all_keys(keys),
        keys.len() >= 1 ==> values_in(and_v_lock_hash_pk(keys, kind, digest, lock).flatten())
            == seq![Held::Lock(lock), Held::Hash(kind, digest)] + all_keys(keys),
{
    lemma_fragment_values();
    assert(values_in(and_v_pk_hash_lock(keys, kind, digest, lock).flatten())
        == all_keys(keys) + seq![Held::Hash(kind, digest), Held::Lock(lock)]) by {
        lemma_values_from(and_v_pk_hash_lock(keys, kind, digest, lock));
        reveal_with_fuel(values_from, 4);
        assert(values_from(and_v_pk_hash_lock(keys, kind, digest, lock), 0) =~=
            all_keys(keys) + seq![Held::Hash(kind, digest), Held::Lock(lock)]);
    }
    assert(values_in(and_v_hash_pk_lock(keys, kind, digest, lock).flatten())
        == seq![Held::Hash(kind, digest)] + all_keys(keys) + seq![Held::Lock(lock)]) by {
        lemma_values_from(and_v_hash_pk_lock(keys, kind, digest, lock));
        reveal_with_fuel(values_from, 4);
        assert(values_from(and_v_hash_pk_lock(keys, kind, digest, lock), 0) =~=
            seq![Held::Hash(kind, digest)] + all_keys(keys) + seq![Held::Lock(lock)]);
    }
    assert(values_in(and_v_lock_pk_hash(keys, kind, digest, lock).flatten())
        == seq![Held::Lock(lock)] + all_keys(keys) + seq![Held::Hash(kind, digest)]) by {
        lemma_values_from(and_v_lock_pk_hash(keys, kind, digest, lock));
        reveal_with_fuel(values_from, 5);
        assert(values_from(and_v_lock_pk_hash(keys, kind, digest, lock), 0) =~=
            seq![Held::Lock(lock)] + all_keys(keys) + seq![Held::Hash(kind, digest)]);
    }
    assert(values_in(and_v_pk_lock_hash(keys, kind, digest, lock).flatten())
        == all_keys(keys) + seq![Held::Lock(lock), Held::Hash(kind, digest)]) by {
        lemma_values_from(and_v_pk_lock_hash(keys, kind, digest, lock));
        reveal_with_fuel(values_from, 5);
        assert(values_from(and_v_pk_lock_hash(keys, kind, digest, lock), 0) =~=
            all_keys(keys) + seq![Held::Lock(lock), Held::Hash(kind, digest)]);
    }
    assert(keys.len() >= 1 ==> values_in(and_v_hash_lock_pk(keys, kind, digest, lock).flatten())
        == seq![Held::Hash(kind, digest), Held::Lock(lock)] + all_keys(keys)) by {
        lemma_values_from(and_v_hash_lock_pk(keys, kind, digest, lock));
        reveal_with_fuel(values_from, 5);
        assert(keys.len() >= 1 ==> values_from(and_v_hash_lock_pk(keys, kind, digest, lock), 0) =~=
            seq![Held::Hash(kind, digest), Held::Lock(lock)] + all_keys(keys));
    }
    assert(keys.len() >= 1 ==> values_in(and_v_lock_hash_pk(keys, kind, digest, lock).flatten())
        == seq![Held::Lock(lock), Held::Hash(kind, digest)] + all_keys(keys)) by {
        lemma_values_from(and_v_lock_hash_pk(keys, kind, digest, lock));
        reveal_with_fuel(values_from, 5);
        assert(keys.len() >= 1 ==> values_from(and_v_lock_hash_pk(keys, kind, digest, lock), 0) =~=
            seq![Held::Lock(lock), Held::Hash(kind, digest)] + all_keys(keys));
    }
}

/// The values of a template of two keys, either of which signs, and a timeout or a hash.
pub proof fn lemma_values_of_or_templates(
    a: XOnlyKey,
    b: XOnlyKey,
    n: u32,
    kind: TapscriptHashKind,
    digest: Seq<u8>,
)
    ensures
        values_in(and_v_or_c_older(a, b, n).flatten())
            == seq![Held::Key(a), Held::Key(b), Held::Lock(DualTimeoutLock::Older(n))],
        values_in(and_v_or_c_after(a, b, n).flatten())
            == seq![Held::Key(a), Held::Key(b), Held::Lock(DualTimeoutLock::After(n))],
        values_in(and_v_or_c_hash(a, b, kind, digest).flatten())
            == seq![Held::Key(a), Held::Key(b), Held::Hash(kind, digest)],
        values_in(and_v_or_i_older(a, b, n).flatten())
            == seq![Held::Key(a), Held::Key(b), Held::Lock(DualTimeoutLock::Older(n))],
        values_in(and_v_or_i_after(a, b, n).flatten())
            == seq![Held::Key(a), Held::Key(b), Held::Lock(DualTimeoutLock::After(n))],
        values_in(and_v_or_i_hash(a, b, kind, digest).flatten())
            == seq![Held::Key(a), Held::Key(b), Held::Hash(kind, digest)],
{
    lemma_fragment_values();
    assert(values_in(and_v_or_c_older(a, b, n).flatten())
        == seq![Held::Key(a), Held::Key(b), Held::Lock(DualTimeoutLock::Older(n))]) by {
        lemma_values_from(and_v_or_c_older(a, b, n));
        reveal_with_fuel(values_from, 8);
        assert(values_from(and_v_or_c_older(a, b, n), 0) =~=
            seq![Held::Key(a), Held::Key(b), Held::Lock(DualTimeoutLock::Older(n))]);
    }
    assert(values_in(and_v_or_c_after(a, b, n).flatten())
        == seq![Held::Key(a), Held::Key(b), Held::Lock(DualTimeoutLock::After(n))]) by {
        lemma_values_from(and_v_or_c_after(a, b, n));
        reveal_with_fuel(values_from, 8);
        assert(values_from(and_v_or_c_after(a, b, n), 0) =~=
            seq![Held::Key(a), Held::Key(b), Held::Lock(DualTimeoutLock::After(n))]);
    }
    assert(values_in(and_v_or_c_hash(a, b, kind, digest).flatten())
        == seq![Held::Key(a), Held::Key(b), Held::Hash(kind, digest)]) by {
        lemma_values_from(and_v_or_c_hash(a, b, kind, digest));
        reveal_with_fuel(values_from, 8);
        assert(values_from(and_v_or_c_hash(a, b, kind, digest), 0) =~=
            seq![Held::Key(a), Held::Key(b), Held::Hash(kind, digest)]);
    }
    assert(values_in(and_v_or_i_older(a, b, n).flatten())
        == seq![Held::Key(a), Held::Key(b), Held::Lock(DualTimeoutLock::Older(n))]) by {
        lemma_values_from(and_v_or_i_older(a, b, n));
        reveal_with_fuel(values_from, 9);
        assert(values_from(and_v_or_i_older(a, b, n), 0) =~=
            seq![Held::Key(a), Held::Key(b), Held::Lock(DualTimeoutLock::Older(n))]);
    }
    assert(values_in(and_v_or_i_after(a, b, n).flatten())
        == seq![Held::Key(a), Held::Key(b), Held::Lock(DualTimeoutLock::After(n))]) by {
        lemma_values_from(and_v_or_i_after(a, b, n));
        reveal_with_fuel(values_from, 9);
        assert(values_from(and_v_or_i_after(a, b, n), 0) =~=
            seq![Held::Key(a), Held::Key(b), Held::Lock(DualTimeoutLock::After(n))]);
    }
    assert(values_in(and_v_or_i_hash(a, b, kind, digest).flatten())
        == seq![Held::Key(a), Held::Key(b), Held::Hash(kind, digest)]) by {
        lemma_values_from(and_v_or_i_hash(a, b, kind, digest));
        reveal_with_fuel(values_from, 9);
        assert(values_from(and_v_or_i_hash(a, b, kind, digest), 0) =~=
            seq![Held::Key(a), Held::Key(b), Held::Hash(kind, digest)]);
    }
}

/// The values of a template of three keys, any of which signs, and a timeout or a hash.
pub proof fn lemma_values_of_multi_or_templates(
    a: XOnlyKey,
    b: XOnlyKey,
    c: XOnlyKey,
    n: u32,
    kind: TapscriptHashKind,
    digest: Seq<u8>,
)
    ensures
        values_in(and_v_or_c_multi_older(a, b, c, n).flatten())
            == seq![Held::Key(a), Held::Key(b), Held::Key(c), Held::Lock(DualTimeoutLock::Older(n))],
        values_in(and_v_or_c_multi_after(a, b, c, n).flatten())
            == seq![Held::Key(a), Held::Key(b), Held::Key(c), Held::Lock(DualTimeoutLock::After(n))],
        values_in(and_v_or_c_multi_hash(a, b, c, kind, digest).flatten())
            == seq![Held::Key(a), Held::Key(b), Held::Key(c), Held::Hash(kind, digest)],
        values_in(and_v_or_i_multi_older(a, b, c, n).flatten())
            == seq![Held::Key(a), Held::Key(b), Held::Key(c), Held::Lock(DualTimeoutLock::Older(n))],
        values_in(and_v_or_i_multi_after(a, b, c, n).flatten())
            == seq![Held::Key(a), Held::Key(b), Held::Key(c), Held::Lock(DualTimeoutLock::After(n))],
        values_in(and_v_or_i_multi_hash(a, b, c, kind, digest).flatten())
            == seq![Held::Key(a), Held::Key(b), Held::Key(c), Held::Hash(kind, digest)],
{
    lemma_fragment_values();
    assert(values_in(and_v_or_c_multi_older(a, b, c, n).flatten())
        == seq![Held::Key(a), Held::Key(b), Held::Key(c), Held::Lock(DualTimeoutLock::Older(n))]) by {
        lemma_values_from(and_v_or_c_multi_older(a, b, c, n));
        reveal_with_fuel(values_from, 12);
        assert(values_from(and_v_or_c_multi_older(a, b, c, n), 0) =~=
            seq![Held::Key(a), Held::Key(b), Held::Key(c), Held::Lock(DualTimeoutLock::Older(n))]);
    }
    assert(values_in(and_v_or_c_multi_after(a, b, c, n).flatten())
        == seq![Held::Key(a), Held::Key(b), Held::Key(c), Held::Lock(DualTimeoutLock::After(n))]) by {
        lemma_values_from(and_v_or_c_multi_after(a, b, c, n));
        reveal_with_fuel(values_from, 12);
        assert(values_from(and_v_or_c_multi_after(a, b, c, n), 0) =~=
            seq![Held::Key(a), Held::Key(b), Held::Key(c), Held::Lock(DualTimeoutLock::After(n))]);
    }
    assert(values_in(and_v_or_c_multi_hash(a, b, c, kind, digest).flatten())
        == seq![Held::Key(a), Held::Key(b), Held::Key(c), Held::Hash(kind, digest)]) by {
        lemma_values_from(and_v_or_c_multi_hash(a, b, c, kind, digest));
        reveal_with_fuel(values_from, 12);
        assert(values_from(and_v_or_c_multi_hash(a, b, c, kind, digest), 0) =~=
            seq![Held::Key(a), Held::Key(b), Held::Key(c), Held::Hash(kind, digest)]);
    }
    assert(values_in(and_v_or_i_multi_older(a, b, c, n).flatten())
        == seq![Held::Key(a), Held::Key(b), Held::Key(c), Held::Lock(DualTimeoutLock::Older(n))]) by {
        lemma_values_from(and_v_or_i_multi_older(a, b, c, n));
        reveal_with_fuel(values_from, 14);
        assert(values_from(and_v_or_i_multi_older(a, b, c, n), 0) =~=
            seq![Held::Key(a), Held::Key(b), Held::Key(c), Held::Lock(DualTimeoutLock::Older(n))]);
    }
    assert(values_in(and_v_or_i_multi_after(a, b, c, n).flatten())
        == seq![Held::Key(a), Held::Key(b), Held::Key(c), Held::Lock(DualTimeoutLock::After(n))]) by {
        lemma_values_from(and_v_or_i_multi_after(a, b, c, n));
        reveal_with_fuel(values_from, 14);
        assert(values_from(and_v_or_i_multi_after(a, b, c, n), 0) =~=
            seq![Held::Key(a), Held::Key(b), Held::Key(c), Held::Lock(DualTimeoutLock::After(n))]);
    }
    assert(values_in(and_v_or_i_multi_hash(a, b, c, kind, digest).flatten())
        == seq![Held::Key(a), Held::Key(b), Held::Key(c), Held::Hash(kind, digest)]) by {
        lemma_values_from(and_v_or_i_multi_hash(a, b, c, kind, digest));
        reveal_with_fuel(values_from, 14);
        assert(values_from(and_v_or_i_multi_hash(a, b, c, kind, digest), 0) =~=
            seq![Held::Key(a), Held::Key(b), Held::Key(c), Held::Hash(kind, digest)]);
    }
}

/// The values of a template of two branches, one of which is a timeout or a hash or keys alone: those
/// of the first branch come first.
pub proof fn lemma_values_of_branch_templates(
    keys: Seq<XOnlyKey>,
    n: u32,
    kind: TapscriptHashKind,
    digest: Seq<u8>,
    if_keys: Seq<XOnlyKey>,
    else_keys: Seq<XOnlyKey>,
)
    ensures
        keys.len() >= 1 ==> values_in(or_i_and_v_pk_older(keys, n).flatten())
            == all_keys(keys) + seq![Held::Lock(DualTimeoutLock::Older(n))],
        keys.len() >= 1 ==> values_in(or_i_and_v_pk_after(keys, n).flatten())
            == all_keys(keys) + seq![Held::Lock(DualTimeoutLock::After(n))],
        keys.len() >= 1 ==> values_in(or_i_and_v_pk_hash(keys, kind, digest).flatten())
            == all_keys(keys) + seq![Held::Hash(kind, digest)],
        if_keys.len() >= 1 ==> values_in(or_i_pk_and_v_pk_older(if_keys, else_keys, n).flatten())
            == all_keys(if_keys) + all_keys(else_keys)
            + seq![Held::Lock(DualTimeoutLock::Older(n))],
        if_keys.len() >= 1 ==> values_in(or_i_pk_and_v_pk_after(if_keys, else_keys, n).flatten())
            == all_keys(if_keys) + all_keys(else_keys)
            + seq![Held::Lock(DualTimeoutLock::After(n))],
        if_keys.len() >= 1 ==> values_in(or_i_pk_and_v_pk_hash(if_keys, else_keys, kind, digest).flatten())
            == all_keys(if_keys) + all_keys(else_keys) + seq![Held::Hash(kind, digest)],
{
    lemma_fragment_values();
    assert(keys.len() >= 1 ==> values_in(or_i_and_v_pk_older(keys, n).flatten())
        == all_keys(keys) + seq![Held::Lock(DualTimeoutLock::Older(n))]) by {
        lemma_values_from(or_i_and_v_pk_older(keys, n));
        reveal_with_fuel(values_from, 6);
        assert(keys.len() >= 1 ==> values_from(or_i_and_v_pk_older(keys, n), 0) =~=
            all_keys(keys) + seq![Held::Lock(DualTimeoutLock::Older(n))]);
    }
    assert(keys.len() >= 1 ==> values_in(or_i_and_v_pk_after(keys, n).flatten())
        == all_keys(keys) + seq![Held::Lock(DualTimeoutLock::After(n))]) by {
        lemma_values_from(or_i_and_v_pk_after(keys, n));
        reveal_with_fuel(values_from, 6);
        assert(keys.len() >= 1 ==> values_from(or_i_and_v_pk_after(keys, n), 0) =~=
            all_keys(keys) + seq![Held::Lock(DualTimeoutLock::After(n))]);
    }
    assert(keys.len() >= 1 ==> values_in(or_i_and_v_pk_hash(keys, kind, digest).flatten())
        == all_keys(keys) + seq![Held::Hash(kind, digest)]) by {
        lemma_values_from(or_i_and_v_pk_hash(keys, kind, digest));
        reveal_with_fuel(values_from, 6);
        assert(keys.len() >= 1 ==> values_from(or_i_and_v_pk_hash(keys, kind, digest), 0) =~=
            all_keys(keys) + seq![Held::Hash(kind, digest)]);
    }
    assert(if_keys.len() >= 1 ==> values_in(or_i_pk_and_v_pk_older(if_keys, else_keys, n).flatten())
        == all_keys(if_keys) + all_keys(else_keys)
        + seq![Held::Lock(DualTimeoutLock::Older(n))]) by {
        lemma_values_from(or_i_pk_and_v_pk_older(if_keys, else_keys, n));
        reveal_with_fuel(values_from, 7);
        assert(if_keys.len() >= 1 ==> values_from(or_i_pk_and_v_pk_older(if_keys, else_keys, n), 0) =~=
            all_keys(if_keys) + all_keys(else_keys) + seq![Held::Lock(DualTimeoutLock::Older(n))]);
    }
    assert(if_keys.len() >= 1 ==> values_in(or_i_pk_and_v_pk_after(if_keys, else_keys, n).flatten())
        == all_keys(if_keys) + all_keys(else_keys)
        + seq![Held::Lock(DualTimeoutLock::After(n))]) by {
        lemma_values_from(or_i_pk_and_v_pk_after(if_keys, else_keys, n));
        reveal_with_fuel(values_from, 7);
        assert(if_keys.len() >= 1 ==> values_from(or_i_pk_and_v_pk_after(if_keys, else_keys, n), 0) =~=
            all_keys(if_keys) + all_keys(else_keys) + seq![Held::Lock(DualTimeoutLock::After(n))]);
    }
    assert(if_keys.len() >= 1 ==> values_in(or_i_pk_and_v_pk_hash(if_keys, else_keys, kind, digest).flatten())
        == all_keys(if_keys) + all_keys(else_keys) + seq![Held::Hash(kind, digest)]) by {
        lemma_values_from(or_i_pk_and_v_pk_hash(if_keys, else_keys, kind, digest));
        reveal_with_fuel(values_from, 7);
        assert(if_keys.len() >= 1 ==> values_from(or_i_pk_and_v_pk_hash(if_keys, else_keys, kind, digest), 0) =~=
            all_keys(if_keys) + all_keys(else_keys) + seq![Held::Hash(kind, digest)]);
    }
}

/// The values of a template of two branches with keys and a condition each: those of the first branch
/// come first.
pub proof fn lemma_values_of_two_condition_branches(
    if_keys: Seq<XOnlyKey>,
    else_keys: Seq<XOnlyKey>,
    kind: TapscriptHashKind,
    digest: Seq<u8>,
    n: u32,
    kind1: TapscriptHashKind,
    digest1: Seq<u8>,
    kind2: TapscriptHashKind,
    digest2: Seq<u8>,
    if_lock: DualTimeoutLock,
    else_lock: DualTimeoutLock,
)
    ensures
        values_in(or_i_hash_and_v_pk_older(if_keys, else_keys, kind, digest, n).flatten())
            == all_keys(if_keys) + seq![Held::Hash(kind, digest)] + all_keys(else_keys)
            + seq![Held::Lock(DualTimeoutLock::Older(n))],
        values_in(or_i_hash_and_v_pk_after(if_keys, else_keys, kind, digest, n).flatten())
            == all_keys(if_keys) + seq![Held::Hash(kind, digest)] + all_keys(else_keys)
            + seq![Held::Lock(DualTimeoutLock::After(n))],
        values_in(or_i_older_and_v_pk_hash(if_keys, else_keys, kind, digest, n).flatten())
            == all_keys(if_keys) + seq![Held::Lock(DualTimeoutLock::Older(n))]
            + all_keys(else_keys) + seq![Held::Hash(kind, digest)],
        values_in(or_i_after_and_v_pk_hash(if_keys, else_keys, kind, digest, n).flatten())
            == all_keys(if_keys) + seq![Held::Lock(DualTimeoutLock::After(n))]
            + all_keys(else_keys) + seq![Held::Hash(kind, digest)],
        values_in(or_i_hash_and_v_pk_hash(if_keys, else_keys, kind1, digest1, kind2, digest2).flatten())
            == all_keys(if_keys) + seq![Held::Hash(kind1, digest1)] + all_keys(else_keys)
            + seq![Held::Hash(kind2, digest2)],
        values_in(or_i_lock_and_v_pk_lock(if_keys, else_keys, if_lock, else_lock).flatten())
            == all_keys(if_keys) + seq![Held::Lock(if_lock)] + all_keys(else_keys)
            + seq![Held::Lock(else_lock)],
{
    lemma_fragment_values();
    assert(values_in(or_i_hash_and_v_pk_older(if_keys, else_keys, kind, digest, n).flatten())
        == all_keys(if_keys) + seq![Held::Hash(kind, digest)] + all_keys(else_keys)
        + seq![Held::Lock(DualTimeoutLock::Older(n))]) by {
        lemma_values_from(or_i_hash_and_v_pk_older(if_keys, else_keys, kind, digest, n));
        reveal_with_fuel(values_from, 8);
        assert(values_from(or_i_hash_and_v_pk_older(if_keys, else_keys, kind, digest, n), 0) =~=
            all_keys(if_keys) + seq![Held::Hash(kind, digest)] + all_keys(else_keys)
            + seq![Held::Lock(DualTimeoutLock::Older(n))]);
    }
    assert(values_in(or_i_hash_and_v_pk_after(if_keys, else_keys, kind, digest, n).flatten())
        == all_keys(if_keys) + seq![Held::Hash(kind, digest)] + all_keys(else_keys)
        + seq![Held::Lock(DualTimeoutLock::After(n))]) by {
        lemma_values_from(or_i_hash_and_v_pk_after(if_keys, else_keys, kind, digest, n));
        reveal_with_fuel(values_from, 8);
        assert(values_from(or_i_hash_and_v_pk_after(if_keys, else_keys, kind, digest, n), 0) =~=
            all_keys(if_keys) + seq![Held::Hash(kind, digest)] + all_keys(else_keys)
            + seq![Held::Lock(DualTimeoutLock::After(n))]);
    }
    assert(values_in(or_i_older_and_v_pk_hash(if_keys, else_keys, kind, digest, n).flatten())
        == all_keys(if_keys) + seq![Held::Lock(DualTimeoutLock::Older(n))] + all_keys(else_keys)
        + seq![Held::Hash(kind, digest)]) by {
        lemma_values_from(or_i_older_and_v_pk_hash(if_keys, else_keys, kind, digest, n));
        reveal_with_fuel(values_from, 8);
        assert(values_from(or_i_older_and_v_pk_hash(if_keys, else_keys, kind, digest, n), 0) =~=
            all_keys(if_keys) + seq![Held::Lock(DualTimeoutLock::Older(n))] + all_keys(else_keys)
            + seq![Held::Hash(kind, digest)]);
    }
    assert(values_in(or_i_after_and_v_pk_hash(if_keys, else_keys, kind, digest, n).flatten())
        == all_keys(if_keys) + seq![Held::Lock(DualTimeoutLock::After(n))] + all_keys(else_keys)
        + seq![Held::Hash(kind, digest)]) by {
        lemma_values_from(or_i_after_and_v_pk_hash(if_keys, else_keys, kind, digest, n));
        reveal_with_fuel(values_from, 8);
        assert(values_from(or_i_after_and_v_pk_hash(if_keys, else_keys, kind, digest, n), 0) =~=
            all_keys(if_keys) + seq![Held::Lock(DualTimeoutLock::After(n))] + all_keys(else_keys)
            + seq![Held::Hash(kind, digest)]);
    }
    assert(values_in(or_i_hash_and_v_pk_hash(if_keys, else_keys, kind1, digest1, kind2, digest2).flatten())
        == all_keys(if_keys) + seq![Held::Hash(kind1, digest1)] + all_keys(else_keys)
        + seq![Held::Hash(kind2, digest2)]) by {
        lemma_values_from(or_i_hash_and_v_pk_hash(if_keys, else_keys, kind1, digest1, kind2, digest2));
        reveal_with_fuel(values_from, 8);
        assert(values_from(or_i_hash_and_v_pk_hash(if_keys, else_keys, kind1, digest1, kind2, digest2), 0) =~=
            all_keys(if_keys) + seq![Held::Hash(kind1, digest1)] + all_keys(else_keys)
            + seq![Held::Hash(kind2, digest2)]);
    }
    assert(values_in(or_i_lock_and_v_pk_lock(if_keys, else_keys, if_lock, else_lock).flatten())
        == all_keys(if_keys) + seq![Held::Lock(if_lock)] + all_keys(else_keys)
        + seq![Held::Lock(else_lock)]) by {
        lemma_values_from(or_i_lock_and_v_pk_lock(if_keys, else_keys, if_lock, else_lock));
        reveal_with_fuel(values_from, 8);
        assert(values_from(or_i_lock_and_v_pk_lock(if_keys, else_keys, if_lock, else_lock), 0) =~=
            all_keys(if_keys) + seq![Held::Lock(if_lock)] + all_keys(else_keys)
            + seq![Held::Lock(else_lock)]);
    }
}

/// The value that an arm of a threshold checks.
pub open spec fn arm_value(arm: Arm) -> Held {
    match arm.check {
        ArmCheck::Key(key) => Held::Key(key),
        ArmCheck::Preimage(kind, digest) => Held::Hash(kind, digest),
    }
}

proof fn lemma_values_of_arm(arm: Arm)
    ensures
        values_in(arm_slots(arm)) == seq![arm_value(arm)],
{
    lemma_fragment_values();
    let check = arm_check_slots(arm.check);
    match arm.check {
        ArmCheck::Key(key) => {
            lemma_values_of_two(check[0], check[1]);
        },
        ArmCheck::Preimage(kind, digest) => {},
    }
    assert(values_in(check) =~= seq![arm_value(arm)]);
    let n = check.len() as int;
    let (before, behind) = (arm_slots(arm).take(1), arm_slots(arm).skip(1 + n));
    assert(arm_slots(arm) =~= before + check + behind);
    lemma_values_concat(before + check, behind);
    lemma_values_concat(before, check);
    lemma_values_of_one(before[0]);
    assert(before =~= seq![before[0]]);
    if arm.swap {
        lemma_values_of_one(behind[0]);
        assert(behind =~= seq![behind[0]]);
    } else {
        lemma_values_of_two(behind[0], behind[1]);
        assert(behind =~= seq![behind[0], behind[1]]);
    }
    assert(values_in(arm_slots(arm)) =~= seq![arm_value(arm)]);
}

proof fn lemma_values_of_arms(arms: Seq<Arm>)
    ensures
        values_in(arms_slots(arms)) == arms.map_values(|arm: Arm| arm_value(arm)),
    decreases arms.len(),
{
    let values = arms.map_values(|arm: Arm| arm_value(arm));
    if arms.len() > 0 {
        lemma_values_of_arms(arms.drop_last());
        lemma_values_of_arm(arms.last());
        lemma_values_concat(arms_slots(arms.drop_last()), arm_slots(arms.last()));
    }
    assert(values_in(arms_slots(arms)) =~= values);
}

/// The values of a threshold are its keys, or its first key and then what each of its arms
/// checks, in the order of the script. The number that the script compares with is the threshold.
pub proof fn lemma_values_of_thresholds(
    tokens: Seq<Token>,
    k: usize,
    keys: Seq<XOnlyKey>,
    first: XOnlyKey,
    arms: Seq<Arm>,
)
    requires
        keys.len() >= 1,
        1 <= k <= 16,
    ensures
        values_in(checksigadd_multi(k, keys).flatten()) == all_keys(keys),
        values_in(thresh(k, first, arms).flatten()) == seq![Held::Key(first)] + arms.map_values(
            |arm: Arm| arm_value(arm),
        ),
        spells(tokens, checksigadd_multi(k, keys)) || spells(tokens, thresh(k, first, arms))
            ==> tokens.len() >= 2 && token_number(tokens[tokens.len() - 2]) == Some(k as int),
{
    lemma_fragment_values();
    lemma_values_of_arms(arms);
    let multi = checksigadd_multi(k, keys);
    let all = thresh(k, first, arms);
    let values = arms.map_values(|arm: Arm| arm_value(arm));
    lemma_values_from(multi);
    lemma_values_from(all);
    reveal_with_fuel(values_from, 6);
    assert(values_from(multi, 0) =~= all_keys(keys));
    assert(values_from(all, 0) =~= seq![Held::Key(first)] + values);
    if spells(tokens, multi) {
        lemma_count_before_last(tokens, multi, k);
    }
    if spells(tokens, all) {
        lemma_count_before_last(tokens, all, k);
    }
}

proof fn lemma_count_before_last(tokens: Seq<Token>, fragments: Seq<Seq<Slot>>, k: usize)
    requires
        spells(tokens, fragments),
        fragments.len() >= 2,
        1 <= k <= 16,
        fragments[fragments.len() - 2] == count(k as u8),
        fragments.last().len() == 1,
    ensures
        tokens.len() >= 2,
        token_number(tokens[tokens.len() - 2]) == Some(k as int),
{
    let n = fragments.len() as int;
    let slots = fragments.flatten();
    let before = fragments.drop_last();
    assert(fragments =~= before.push(fragments.last()));
    assert(before =~= before.drop_last().push(before.last()));
    fragments.lemma_flatten_and_flatten_alt_are_equivalent();
    before.lemma_flatten_and_flatten_alt_are_equivalent();
    assert(fragments.flatten() == before.flatten() + fragments.last());
    assert(before.flatten() == before.drop_last().flatten_alt() + before.last());
    let at = tokens.len() - 2;
    assert(slots[at] == before.last()[0]);
    assert(fits(tokens[0 + at], slots[at]));
}

} // verus!
