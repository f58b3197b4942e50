//! Hash preimage leaves.

use vstd::prelude::*;

use crate::tapscript::common::{
    OP_CHECKSIG, OP_CHECKSIGVERIFY, OP_EQUAL, OP_EQUALVERIFY, OP_HASH160, OP_HASH256, OP_RIPEMD160,
    OP_SHA256,
};
use crate::tapscript::kind::{
    lemma_template_of, parts_outline, parts_verifies, template_of, Template,
};
use crate::tapscript::layout::{code, preimage, push_key, spells, Slot};
use crate::tapscript::matching::{fragments, seen_of, take_key, take_preimage, Part, Seen};
use crate::tapscript::script::{LeafScript, XOnlyKey};

verus! {

/// Hash of a preimage check. The preimage is 32 bytes long under each of them, the digest of the
/// two 160 bit hashes is shorter.
#[derive(Clone, Copy, PartialEq, Eq, Structural, Debug)]
pub enum TapscriptHashKind {
    Sha256,
    Hash256,
    Ripemd160,
    Hash160,
}

impl TapscriptHashKind {
    /// The opcode that computes the hash.
    pub open spec fn opcode(self) -> u8 {
        match self {
            TapscriptHashKind::Sha256 => OP_SHA256,
            TapscriptHashKind::Hash256 => OP_HASH256,
            TapscriptHashKind::Ripemd160 => OP_RIPEMD160,
            TapscriptHashKind::Hash160 => OP_HASH160,
        }
    }

    /// The number of bytes of a digest.
    pub open spec fn digest_len(self) -> nat {
        match self {
            TapscriptHashKind::Sha256 | TapscriptHashKind::Hash256 => 32,
            TapscriptHashKind::Ripemd160 | TapscriptHashKind::Hash160 => 20,
        }
    }

    /// Miniscript name of the fragment.
    pub open spec fn spec_name(self) -> Seq<char> {
        match self {
            TapscriptHashKind::Sha256 => "sha256"@,
            TapscriptHashKind::Hash256 => "hash256"@,
            TapscriptHashKind::Ripemd160 => "ripemd160"@,
            TapscriptHashKind::Hash160 => "hash160"@,
        }
    }

    /// Miniscript name of the fragment.
    pub fn name(self) -> (name: &'static str)
        ensures
            name@ == self.spec_name(),
    {
        match self {
            TapscriptHashKind::Sha256 => "sha256",
            TapscriptHashKind::Hash256 => "hash256",
            TapscriptHashKind::Ripemd160 => "ripemd160",
            TapscriptHashKind::Hash160 => "hash160",
        }
    }

    /// The hash that an opcode computes.
    pub fn from_hash_op(op: u8) -> (kind: Option<TapscriptHashKind>)
        ensures
            kind matches Some(k) ==> k.opcode() == op,
            kind is None ==> forall|k: TapscriptHashKind| #[trigger] k.opcode() != op,
    {
        if op == OP_SHA256 {
            Some(TapscriptHashKind::Sha256)
        } else if op == OP_HASH256 {
            Some(TapscriptHashKind::Hash256)
        } else if op == OP_RIPEMD160 {
            Some(TapscriptHashKind::Ripemd160)
        } else if op == OP_HASH160 {
            Some(TapscriptHashKind::Hash160)
        } else {
            None
        }
    }

    /// The number of bytes of a digest.
    pub fn expected_digest_len(self) -> (n: usize)
        ensures
            n == self.digest_len(),
    {
        match self {
            TapscriptHashKind::Sha256 | TapscriptHashKind::Hash256 => 32,
            TapscriptHashKind::Ripemd160 | TapscriptHashKind::Hash160 => 20,
        }
    }
}

/// The hashes are told apart by opcode and by name, and a name ends in the number of bits of the
/// digest.
pub proof fn lemma_hashes_told_apart(a: TapscriptHashKind, b: TapscriptHashKind)
    ensures
        a.opcode() == b.opcode() ==> a == b,
        a.spec_name() == b.spec_name() ==> a == b,
        a.spec_name().len() > 3,
        a.spec_name().skip(a.spec_name().len() - 3) == if a.digest_len() == 20 {
            "160"@
        } else {
            "256"@
        },
        a.digest_len() == 20 || a.digest_len() == 32,
        // The opcodes lie in one row, the two that hash once more after SHA-256 at its end.
        a.opcode() >= 0xa9 <==> a.spec_name().take(4) == "hash"@,
        0xa6 <= a.opcode() <= 0xaa,
{
    reveal_strlit("sha256");
    reveal_strlit("hash256");
    reveal_strlit("ripemd160");
    reveal_strlit("hash160");
    reveal_strlit("160");
    reveal_strlit("256");
    reveal_strlit("hash");
    assert("sha256"@.skip(3) =~= "256"@);
    assert("hash256"@.skip(4) =~= "256"@);
    assert("ripemd160"@.skip(6) =~= "160"@);
    assert("hash160"@.skip(4) =~= "160"@);
    assert("hash256"@.take(4) =~= "hash"@);
    assert("hash160"@.take(4) =~= "hash"@);
    assert("sha256"@.take(4)[0] != "hash"@[0]);
    assert("ripemd160"@.take(4)[0] != "hash"@[0]);
    assert("hash160"@[4] != "hash256"@[4]);
}

/// A hash preimage alone.
///
/// ```text
/// OP_SIZE <32> OP_EQUALVERIFY <kind> <digest> OP_EQUAL
/// ```
pub open spec fn hash_preimage(kind: TapscriptHashKind, digest: Seq<u8>) -> Seq<Seq<Slot>> {
    seq![
        preimage(kind, digest, OP_EQUAL),
    ]
}

/// The parts of a script that is [`hash_preimage`], `None` for every other script.
pub fn bare_tapscript_hash_preimage_template(script: &LeafScript) -> (r: Option<(TapscriptHashKind, Vec<u8>)>)
    ensures
        r matches Some((kind, digest)) ==> spells(
            script@,
            hash_preimage(kind, digest@),
        ),
        forall|kind: TapscriptHashKind, digest: Seq<u8>|
            spells(script@, #[trigger] hash_preimage(kind, digest)) ==> (
            r matches Some((v1, v2)) && v1 == kind && v2@ == digest),
        r is Some ==> template_of(script@) == Template::HashPreimage,
{
    let parts = [
        Part::Preimage(OP_EQUAL),
    ];
    let found = script.match_parts(&parts);
    proof {
        assert forall|kind: TapscriptHashKind, digest: Seq<u8>|
            spells(script@, #[trigger] hash_preimage(kind, digest)) implies (
            found matches Some(f) && seen_of(f@) == seq![Seen::Preimage(kind, digest)]) by {
            let seen = seq![Seen::Preimage(kind, digest)];
            assert(fragments(parts@, seen) =~= hash_preimage(kind, digest));
        }
    }
    match found {
        None => None,
        Some(mut found) => {
            let ghost seen = seen_of(found@);
            proof {
                lemma_template_of(script@, parts@, seen);
                reveal_with_fuel(parts_outline, 2);
                reveal_with_fuel(parts_verifies, 2);
            }
            let (kind, digest) = take_preimage(&mut found, 0);
            assert(fragments(parts@, seen) =~= hash_preimage(kind, digest@));
            Some((kind, digest))
        },
    }
}

/// `and_v(v:pk(a), hash)`.
///
/// ```text
/// <a> OP_CHECKSIGVERIFY OP_SIZE <32> OP_EQUALVERIFY <kind> <digest> OP_EQUAL
/// ```
pub open spec fn and_v_pk_hash(a: XOnlyKey, kind: TapscriptHashKind, digest: Seq<u8>) -> Seq<Seq<Slot>> {
    seq![
        push_key(a),
        code(OP_CHECKSIGVERIFY),
        preimage(kind, digest, OP_EQUAL),
    ]
}

/// The parts of a script that is [`and_v_pk_hash`], `None` for every other script.
pub fn bare_tapscript_and_v_pk_hash_template(script: &LeafScript) -> (r: Option<(XOnlyKey, TapscriptHashKind, Vec<u8>)>)
    ensures
        r matches Some((a, kind, digest)) ==> spells(
            script@,
            and_v_pk_hash(a, kind, digest@),
        ),
        forall|a: XOnlyKey, kind: TapscriptHashKind, digest: Seq<u8>|
            spells(script@, #[trigger] and_v_pk_hash(a, kind, digest)) ==> (
            r matches Some((v1, v2, v3)) && v1 == a && v2 == kind && v3@ == digest),
        r is Some ==> template_of(script@) == Template::AndVPkHash,
{
    let parts = [
        Part::Key,
        Part::Op(OP_CHECKSIGVERIFY),
        Part::Preimage(OP_EQUAL),
    ];
    let found = script.match_parts(&parts);
    proof {
        assert forall|a: XOnlyKey, kind: TapscriptHashKind, digest: Seq<u8>|
            spells(script@, #[trigger] and_v_pk_hash(a, kind, digest)) implies (
            found matches Some(f) && seen_of(f@) == seq![Seen::Key(a), Seen::Nothing, Seen::Preimage(kind, digest)]) by {
            let seen = seq![Seen::Key(a), Seen::Nothing, Seen::Preimage(kind, digest)];
            assert(fragments(parts@, seen) =~= and_v_pk_hash(a, kind, digest));
        }
    }
    match found {
        None => None,
        Some(mut found) => {
            let ghost seen = seen_of(found@);
            proof {
                lemma_template_of(script@, parts@, seen);
                reveal_with_fuel(parts_outline, 4);
                reveal_with_fuel(parts_verifies, 4);
            }
            let a = take_key(&mut found, 0);
            let (kind, digest) = take_preimage(&mut found, 2);
            assert(fragments(parts@, seen) =~= and_v_pk_hash(a, kind, digest@));
            Some((a, kind, digest))
        },
    }
}

/// `and_v(v:hash, pk(a))`.
///
/// ```text
/// OP_SIZE <32> OP_EQUALVERIFY <kind> <digest> OP_EQUALVERIFY <a> OP_CHECKSIG
/// ```
pub open spec fn and_v_hash_pk(a: XOnlyKey, kind: TapscriptHashKind, digest: Seq<u8>) -> Seq<Seq<Slot>> {
    seq![
        preimage(kind, digest, OP_EQUALVERIFY),
        push_key(a),
        code(OP_CHECKSIG),
    ]
}

/// The parts of a script that is [`and_v_hash_pk`], `None` for every other script.
pub fn bare_tapscript_and_v_hash_pk_template(script: &LeafScript) -> (r: Option<(XOnlyKey, TapscriptHashKind, Vec<u8>)>)
    ensures
        r matches Some((a, kind, digest)) ==> spells(
            script@,
            and_v_hash_pk(a, kind, digest@),
        ),
        forall|a: XOnlyKey, kind: TapscriptHashKind, digest: Seq<u8>|
            spells(script@, #[trigger] and_v_hash_pk(a, kind, digest)) ==> (
            r matches Some((v1, v2, v3)) && v1 == a && v2 == kind && v3@ == digest),
        r is Some ==> template_of(script@) == Template::AndVHashPk,
{
    let parts = [
        Part::Preimage(OP_EQUALVERIFY),
        Part::Key,
        Part::Op(OP_CHECKSIG),
    ];
    let found = script.match_parts(&parts);
    proof {
        assert forall|a: XOnlyKey, kind: TapscriptHashKind, digest: Seq<u8>|
            spells(script@, #[trigger] and_v_hash_pk(a, kind, digest)) implies (
            found matches Some(f) && seen_of(f@) == seq![Seen::Preimage(kind, digest), Seen::Key(a), Seen::Nothing]) by {
            let seen = seq![Seen::Preimage(kind, digest), Seen::Key(a), Seen::Nothing];
            assert(fragments(parts@, seen) =~= and_v_hash_pk(a, kind, digest));
        }
    }
    match found {
        None => None,
        Some(mut found) => {
            let ghost seen = seen_of(found@);
            proof {
                lemma_template_of(script@, parts@, seen);
                reveal_with_fuel(parts_outline, 4);
                reveal_with_fuel(parts_verifies, 4);
            }
            let (kind, digest) = take_preimage(&mut found, 0);
            let a = take_key(&mut found, 1);
            assert(fragments(parts@, seen) =~= and_v_hash_pk(a, kind, digest@));
            Some((a, kind, digest))
        },
    }
}

} // verus!
