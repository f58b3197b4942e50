//! Templates of leaf scripts.

use bitcoin::secp256k1::{Keypair, Secp256k1, SecretKey};
use bitcoin_funding::tapscript::and_v_checksig::{
    bare_tapscript_and_v_checksigverify_template,
};
use bitcoin_funding::tapscript::and_v_dual_hash::{
    bare_tapscript_and_v_pk_dual_hash_lock_template,
    bare_tapscript_and_v_pk_dual_hash_template,
    bare_tapscript_and_v_dual_hash_pk_template,
    bare_tapscript_and_v_hash_pk_hash_template,
    bare_tapscript_and_v_dual_hash_pk_lock_template,
};
use bitcoin_funding::tapscript::and_v_multi_pk::{
    bare_tapscript_and_v_multi_pk_older_template,
    bare_tapscript_and_v_multi_pk_after_template,
    bare_tapscript_and_v_multi_pk_hash_template,
    bare_tapscript_and_v_older_multi_pk_template,
    bare_tapscript_and_v_after_multi_pk_template,
    bare_tapscript_and_v_hash_multi_pk_template,
    bare_tapscript_and_v_multi_pk_older_multi_pk_template,
    bare_tapscript_and_v_multi_pk_after_multi_pk_template,
    bare_tapscript_and_v_multi_pk_hash_multi_pk_template,
};
use bitcoin_funding::tapscript::and_v_or::{
    bare_tapscript_and_v_or_c_older_template,
    bare_tapscript_and_v_or_c_after_template,
    bare_tapscript_and_v_or_c_hash_template,
    bare_tapscript_and_v_or_i_older_template,
    bare_tapscript_and_v_or_i_after_template,
    bare_tapscript_and_v_or_i_hash_template,
    bare_tapscript_and_v_or_c_multi_older_template,
    bare_tapscript_and_v_or_c_multi_after_template,
    bare_tapscript_and_v_or_c_multi_hash_template,
    bare_tapscript_and_v_or_i_multi_older_template,
    bare_tapscript_and_v_or_i_multi_after_template,
    bare_tapscript_and_v_or_i_multi_hash_template,
};
use bitcoin_funding::tapscript::and_v_pk_hash_lock::{
    bare_tapscript_and_v_pk_hash_lock_template,
    bare_tapscript_and_v_hash_pk_lock_template,
    bare_tapscript_and_v_lock_pk_hash_template,
    bare_tapscript_and_v_pk_lock_hash_template,
    bare_tapscript_and_v_hash_lock_pk_template,
    bare_tapscript_and_v_lock_hash_pk_template,
};
use bitcoin_funding::tapscript::combinators::{
    bare_tapscript_or_d_checksig_template,
    bare_tapscript_and_n_checksig_template,
    bare_tapscript_andor_checksig_template,
};
use bitcoin_funding::tapscript::common::{
    OP_ADD,
    OP_CHECKSIG,
    OP_CHECKSIGADD,
    OP_CHECKSIGVERIFY,
    OP_CLTV,
    OP_CSV,
    OP_ELSE,
    OP_ENDIF,
    OP_EQUAL,
    OP_EQUALVERIFY,
    OP_FROMALTSTACK,
    OP_HASH160,
    OP_HASH256,
    OP_IF,
    OP_IFDUP,
    OP_NOTIF,
    OP_NUMEQUAL,
    OP_RIPEMD160,
    OP_SHA256,
    OP_SIZE,
    OP_SWAP,
    OP_TOALTSTACK,
    OP_VERIFY,
};
use bitcoin_funding::tapscript::hash::{
    bare_tapscript_hash_preimage_template,
    bare_tapscript_and_v_pk_hash_template,
    bare_tapscript_and_v_hash_pk_template,
    TapscriptHashKind,
};
use bitcoin_funding::tapscript::multi_a::{
    bare_tapscript_checksigadd_multi_template,
};
use bitcoin_funding::tapscript::older_after::{
    bare_tapscript_and_v_pk_older_template,
    bare_tapscript_and_v_older_pk_template,
    bare_tapscript_older_template,
    bare_tapscript_and_v_pk_after_template,
    bare_tapscript_and_v_after_pk_template,
    bare_tapscript_after_template,
    dual_timeout_lock_satisfied,
    locktime_satisfies_cltv_after,
    sequence_satisfies_csv_older,
    DualTimeoutLock,
};
use bitcoin_funding::tapscript::or_c::{
    bare_tapscript_or_c_checksig_template,
};
use bitcoin_funding::tapscript::or_i_basic::{
    bare_tapscript_or_i_checksig_template,
};
use bitcoin_funding::tapscript::or_i_product::{
    bare_tapscript_or_i_and_v_pk_older_template,
    bare_tapscript_or_i_and_v_pk_after_template,
    bare_tapscript_or_i_and_v_pk_hash_template,
    bare_tapscript_or_i_pk_and_v_pk_older_template,
    bare_tapscript_or_i_pk_and_v_pk_after_template,
    bare_tapscript_or_i_pk_and_v_pk_hash_template,
    bare_tapscript_or_i_hash_and_v_pk_older_template,
    bare_tapscript_or_i_hash_and_v_pk_after_template,
    bare_tapscript_or_i_older_and_v_pk_hash_template,
    bare_tapscript_or_i_after_and_v_pk_hash_template,
    bare_tapscript_or_i_hash_and_v_pk_hash_template,
    bare_tapscript_or_i_lock_and_v_pk_lock_template,
};
use bitcoin_funding::tapscript::script::{
    LeafScript,
    ScriptItem,
    XOnlyKey,
};
use bitcoin_funding::tapscript::thresh::{
    bare_tapscript_thresh_checksig_template,
    bare_tapscript_thresh_a_pk_checksig_template,
    bare_tapscript_thresh_mixed_sa_checksig_template,
    bare_tapscript_thresh_s_hash_template,
    bare_tapscript_thresh_a_hash_template,
    bare_tapscript_thresh_mixed_sa_hash_template,
    ThreshHashArm,
};

/// The x-only public key of a small secret key.
fn xonly(n: u8) -> [u8; 32] {
    let mut secret = [0u8; 32];
    secret[31] = n;
    let pair = Keypair::from_secret_key(
        &Secp256k1::new(),
        &SecretKey::from_slice(&secret).unwrap(),
    );
    pair.x_only_public_key().0.serialize()
}

fn key(n: u8) -> Vec<u8> {
    let mut push = vec![0x20];
    push.extend_from_slice(&xonly(n));
    push
}

fn keys(ns: &[u8]) -> Vec<XOnlyKey> {
    ns.iter().map(|n| XOnlyKey { bytes: xonly(*n) }).collect()
}

fn op(code: u8) -> Vec<u8> {
    vec![code]
}

fn verify(ns: &[u8]) -> Vec<u8> {
    ns.iter().flat_map(|n| [key(*n), op(OP_CHECKSIGVERIFY)].concat()).collect()
}

fn check(ns: &[u8]) -> Vec<u8> {
    let (last, front) = ns.split_last().unwrap();
    [verify(front), key(*last), op(OP_CHECKSIG)].concat()
}

fn digest(hash: u8) -> Vec<u8> {
    let short = hash == OP_RIPEMD160 || hash == OP_HASH160;
    vec![hash; if short { 20 } else { 32 }]
}

fn preimage(hash: u8, end: u8) -> Vec<u8> {
    let d = digest(hash);
    [vec![OP_SIZE, 0x01, 0x20, OP_EQUALVERIFY, hash, d.len() as u8], d, op(end)].concat()
}

/// A number as a script pushes it.
fn number(n: u32) -> Vec<u8> {
    bitcoin::script::Builder::new().push_int(n as i64).into_bytes()
}

fn older(n: u32) -> Vec<u8> {
    [number(n), op(OP_CSV)].concat()
}

fn after(n: u32) -> Vec<u8> {
    [number(n), op(OP_CLTV)].concat()
}

fn swap_key(n: u8) -> Vec<u8> {
    [op(OP_SWAP), key(n), op(OP_CHECKSIG), op(OP_ADD)].concat()
}

fn alt_key(n: u8) -> Vec<u8> {
    [op(OP_TOALTSTACK), key(n), op(OP_CHECKSIG), op(OP_FROMALTSTACK), op(OP_ADD)].concat()
}

fn swap_hash() -> Vec<u8> {
    [op(OP_SWAP), preimage(OP_SHA256, OP_EQUAL), op(OP_ADD)].concat()
}

fn alt_hash() -> Vec<u8> {
    [op(OP_TOALTSTACK), preimage(OP_HASH256, OP_EQUAL), op(OP_FROMALTSTACK), op(OP_ADD)].concat()
}

/// The templates that a script is.
fn recognised(script: &LeafScript) -> Vec<&'static str> {
    let mut found = Vec::new();
    if bare_tapscript_and_v_checksigverify_template(script).is_some() {
        found.push("and_v_checksigverify");
    }
    if bare_tapscript_and_v_pk_dual_hash_lock_template(script).is_some() {
        found.push("and_v_pk_dual_hash_lock");
    }
    if bare_tapscript_and_v_pk_dual_hash_template(script).is_some() {
        found.push("and_v_pk_dual_hash");
    }
    if bare_tapscript_and_v_dual_hash_pk_template(script).is_some() {
        found.push("and_v_dual_hash_pk");
    }
    if bare_tapscript_and_v_hash_pk_hash_template(script).is_some() {
        found.push("and_v_hash_pk_hash");
    }
    if bare_tapscript_and_v_dual_hash_pk_lock_template(script).is_some() {
        found.push("and_v_dual_hash_pk_lock");
    }
    if bare_tapscript_and_v_multi_pk_older_template(script).is_some() {
        found.push("and_v_multi_pk_older");
    }
    if bare_tapscript_and_v_multi_pk_after_template(script).is_some() {
        found.push("and_v_multi_pk_after");
    }
    if bare_tapscript_and_v_multi_pk_hash_template(script).is_some() {
        found.push("and_v_multi_pk_hash");
    }
    if bare_tapscript_and_v_older_multi_pk_template(script).is_some() {
        found.push("and_v_older_multi_pk");
    }
    if bare_tapscript_and_v_after_multi_pk_template(script).is_some() {
        found.push("and_v_after_multi_pk");
    }
    if bare_tapscript_and_v_hash_multi_pk_template(script).is_some() {
        found.push("and_v_hash_multi_pk");
    }
    if bare_tapscript_and_v_multi_pk_older_multi_pk_template(script).is_some() {
        found.push("and_v_multi_pk_older_multi_pk");
    }
    if bare_tapscript_and_v_multi_pk_after_multi_pk_template(script).is_some() {
        found.push("and_v_multi_pk_after_multi_pk");
    }
    if bare_tapscript_and_v_multi_pk_hash_multi_pk_template(script).is_some() {
        found.push("and_v_multi_pk_hash_multi_pk");
    }
    if bare_tapscript_and_v_or_c_older_template(script).is_some() {
        found.push("and_v_or_c_older");
    }
    if bare_tapscript_and_v_or_c_after_template(script).is_some() {
        found.push("and_v_or_c_after");
    }
    if bare_tapscript_and_v_or_c_hash_template(script).is_some() {
        found.push("and_v_or_c_hash");
    }
    if bare_tapscript_and_v_or_i_older_template(script).is_some() {
        found.push("and_v_or_i_older");
    }
    if bare_tapscript_and_v_or_i_after_template(script).is_some() {
        found.push("and_v_or_i_after");
    }
    if bare_tapscript_and_v_or_i_hash_template(script).is_some() {
        found.push("and_v_or_i_hash");
    }
    if bare_tapscript_and_v_or_c_multi_older_template(script).is_some() {
        found.push("and_v_or_c_multi_older");
    }
    if bare_tapscript_and_v_or_c_multi_after_template(script).is_some() {
        found.push("and_v_or_c_multi_after");
    }
    if bare_tapscript_and_v_or_c_multi_hash_template(script).is_some() {
        found.push("and_v_or_c_multi_hash");
    }
    if bare_tapscript_and_v_or_i_multi_older_template(script).is_some() {
        found.push("and_v_or_i_multi_older");
    }
    if bare_tapscript_and_v_or_i_multi_after_template(script).is_some() {
        found.push("and_v_or_i_multi_after");
    }
    if bare_tapscript_and_v_or_i_multi_hash_template(script).is_some() {
        found.push("and_v_or_i_multi_hash");
    }
    if bare_tapscript_and_v_pk_hash_lock_template(script).is_some() {
        found.push("and_v_pk_hash_lock");
    }
    if bare_tapscript_and_v_hash_pk_lock_template(script).is_some() {
        found.push("and_v_hash_pk_lock");
    }
    if bare_tapscript_and_v_lock_pk_hash_template(script).is_some() {
        found.push("and_v_lock_pk_hash");
    }
    if bare_tapscript_and_v_pk_lock_hash_template(script).is_some() {
        found.push("and_v_pk_lock_hash");
    }
    if bare_tapscript_and_v_hash_lock_pk_template(script).is_some() {
        found.push("and_v_hash_lock_pk");
    }
    if bare_tapscript_and_v_lock_hash_pk_template(script).is_some() {
        found.push("and_v_lock_hash_pk");
    }
    if bare_tapscript_or_d_checksig_template(script).is_some() {
        found.push("or_d_checksig");
    }
    if bare_tapscript_and_n_checksig_template(script).is_some() {
        found.push("and_n_checksig");
    }
    if bare_tapscript_andor_checksig_template(script).is_some() {
        found.push("andor_checksig");
    }
    if bare_tapscript_hash_preimage_template(script).is_some() {
        found.push("hash_preimage");
    }
    if bare_tapscript_and_v_pk_hash_template(script).is_some() {
        found.push("and_v_pk_hash");
    }
    if bare_tapscript_and_v_hash_pk_template(script).is_some() {
        found.push("and_v_hash_pk");
    }
    if bare_tapscript_and_v_pk_older_template(script).is_some() {
        found.push("and_v_pk_older");
    }
    if bare_tapscript_and_v_older_pk_template(script).is_some() {
        found.push("and_v_older_pk");
    }
    if bare_tapscript_older_template(script).is_some() {
        found.push("older_alone");
    }
    if bare_tapscript_and_v_pk_after_template(script).is_some() {
        found.push("and_v_pk_after");
    }
    if bare_tapscript_and_v_after_pk_template(script).is_some() {
        found.push("and_v_after_pk");
    }
    if bare_tapscript_after_template(script).is_some() {
        found.push("after_alone");
    }
    if bare_tapscript_or_c_checksig_template(script).is_some() {
        found.push("or_c_checksig");
    }
    if bare_tapscript_or_i_checksig_template(script).is_some() {
        found.push("or_i_checksig");
    }
    if bare_tapscript_or_i_and_v_pk_older_template(script).is_some() {
        found.push("or_i_and_v_pk_older");
    }
    if bare_tapscript_or_i_and_v_pk_after_template(script).is_some() {
        found.push("or_i_and_v_pk_after");
    }
    if bare_tapscript_or_i_and_v_pk_hash_template(script).is_some() {
        found.push("or_i_and_v_pk_hash");
    }
    if bare_tapscript_or_i_pk_and_v_pk_older_template(script).is_some() {
        found.push("or_i_pk_and_v_pk_older");
    }
    if bare_tapscript_or_i_pk_and_v_pk_after_template(script).is_some() {
        found.push("or_i_pk_and_v_pk_after");
    }
    if bare_tapscript_or_i_pk_and_v_pk_hash_template(script).is_some() {
        found.push("or_i_pk_and_v_pk_hash");
    }
    if bare_tapscript_or_i_hash_and_v_pk_older_template(script).is_some() {
        found.push("or_i_hash_and_v_pk_older");
    }
    if bare_tapscript_or_i_hash_and_v_pk_after_template(script).is_some() {
        found.push("or_i_hash_and_v_pk_after");
    }
    if bare_tapscript_or_i_older_and_v_pk_hash_template(script).is_some() {
        found.push("or_i_older_and_v_pk_hash");
    }
    if bare_tapscript_or_i_after_and_v_pk_hash_template(script).is_some() {
        found.push("or_i_after_and_v_pk_hash");
    }
    if bare_tapscript_or_i_hash_and_v_pk_hash_template(script).is_some() {
        found.push("or_i_hash_and_v_pk_hash");
    }
    if bare_tapscript_or_i_lock_and_v_pk_lock_template(script).is_some() {
        found.push("or_i_lock_and_v_pk_lock");
    }
    if bare_tapscript_checksigadd_multi_template(script).is_some() {
        found.push("checksigadd_multi");
    }
    if bare_tapscript_thresh_checksig_template(script).is_some() {
        found.push("thresh_checksig");
    }
    if bare_tapscript_thresh_a_pk_checksig_template(script).is_some() {
        found.push("thresh_a_pk_checksig");
    }
    if bare_tapscript_thresh_mixed_sa_checksig_template(script).is_some() {
        found.push("thresh_mixed_sa_checksig");
    }
    if bare_tapscript_thresh_s_hash_template(script).is_some() {
        found.push("thresh_s_hash");
    }
    if bare_tapscript_thresh_a_hash_template(script).is_some() {
        found.push("thresh_a_hash");
    }
    if bare_tapscript_thresh_mixed_sa_hash_template(script).is_some() {
        found.push("thresh_mixed_sa_hash");
    }
    found
}

/// Scripts with the template that each of them is.
fn samples() -> Vec<(&'static str, Vec<u8>)> {
    vec![
        ("and_v_checksigverify", [check(&[1, 2])].concat()),
        ("and_v_checksigverify", [check(&[1, 2, 3, 4])].concat()),
        ("and_v_pk_dual_hash_lock", [verify(&[1]), preimage(OP_SHA256, OP_EQUALVERIFY), preimage(OP_HASH160, OP_EQUALVERIFY), older(16)].concat()),
        ("and_v_pk_dual_hash_lock", [verify(&[1, 2, 3]), preimage(OP_SHA256, OP_EQUALVERIFY), preimage(OP_HASH160, OP_EQUALVERIFY), older(16)].concat()),
        ("and_v_pk_dual_hash_lock", [verify(&[1]), preimage(OP_SHA256, OP_EQUALVERIFY), preimage(OP_HASH160, OP_EQUALVERIFY), after(17)].concat()),
        ("and_v_pk_dual_hash", [verify(&[1]), preimage(OP_SHA256, OP_EQUALVERIFY), preimage(OP_HASH160, OP_EQUAL)].concat()),
        ("and_v_pk_dual_hash", [verify(&[1, 2, 3]), preimage(OP_SHA256, OP_EQUALVERIFY), preimage(OP_HASH160, OP_EQUAL)].concat()),
        ("and_v_dual_hash_pk", [preimage(OP_SHA256, OP_EQUALVERIFY), preimage(OP_HASH160, OP_EQUALVERIFY), check(&[1])].concat()),
        ("and_v_dual_hash_pk", [preimage(OP_SHA256, OP_EQUALVERIFY), preimage(OP_HASH160, OP_EQUALVERIFY), check(&[1, 2, 3])].concat()),
        ("and_v_hash_pk_hash", [preimage(OP_SHA256, OP_EQUALVERIFY), verify(&[1]), preimage(OP_HASH160, OP_EQUAL)].concat()),
        ("and_v_hash_pk_hash", [preimage(OP_SHA256, OP_EQUALVERIFY), verify(&[1, 2, 3]), preimage(OP_HASH160, OP_EQUAL)].concat()),
        ("and_v_dual_hash_pk_lock", [preimage(OP_SHA256, OP_EQUALVERIFY), preimage(OP_HASH160, OP_EQUALVERIFY), verify(&[1]), older(16)].concat()),
        ("and_v_dual_hash_pk_lock", [preimage(OP_SHA256, OP_EQUALVERIFY), preimage(OP_HASH160, OP_EQUALVERIFY), verify(&[1, 2, 3]), older(16)].concat()),
        ("and_v_dual_hash_pk_lock", [preimage(OP_SHA256, OP_EQUALVERIFY), preimage(OP_HASH160, OP_EQUALVERIFY), verify(&[1]), after(17)].concat()),
        ("and_v_multi_pk_older", [verify(&[1, 2]), older(144)].concat()),
        ("and_v_multi_pk_older", [verify(&[1, 2, 3, 4]), older(144)].concat()),
        ("and_v_multi_pk_after", [verify(&[1, 2]), after(500_000)].concat()),
        ("and_v_multi_pk_after", [verify(&[1, 2, 3, 4]), after(500_000)].concat()),
        ("and_v_multi_pk_hash", [verify(&[1, 2]), preimage(OP_SHA256, OP_EQUAL)].concat()),
        ("and_v_multi_pk_hash", [verify(&[1, 2, 3, 4]), preimage(OP_SHA256, OP_EQUAL)].concat()),
        ("and_v_older_multi_pk", [older(144), op(OP_VERIFY), check(&[1, 2])].concat()),
        ("and_v_older_multi_pk", [older(144), op(OP_VERIFY), check(&[1, 2, 3, 4])].concat()),
        ("and_v_after_multi_pk", [after(500_000), op(OP_VERIFY), check(&[1, 2])].concat()),
        ("and_v_after_multi_pk", [after(500_000), op(OP_VERIFY), check(&[1, 2, 3, 4])].concat()),
        ("and_v_hash_multi_pk", [preimage(OP_SHA256, OP_EQUALVERIFY), check(&[1, 2])].concat()),
        ("and_v_hash_multi_pk", [preimage(OP_SHA256, OP_EQUALVERIFY), check(&[1, 2, 3, 4])].concat()),
        ("and_v_multi_pk_older_multi_pk", [verify(&[1]), older(144), op(OP_VERIFY), check(&[2])].concat()),
        ("and_v_multi_pk_older_multi_pk", [verify(&[1, 2, 3]), older(144), op(OP_VERIFY), check(&[4, 5, 6])].concat()),
        ("and_v_multi_pk_after_multi_pk", [verify(&[1]), after(500_000), op(OP_VERIFY), check(&[2])].concat()),
        ("and_v_multi_pk_after_multi_pk", [verify(&[1, 2, 3]), after(500_000), op(OP_VERIFY), check(&[4, 5, 6])].concat()),
        ("and_v_multi_pk_hash_multi_pk", [verify(&[1]), preimage(OP_SHA256, OP_EQUALVERIFY), check(&[2])].concat()),
        ("and_v_multi_pk_hash_multi_pk", [verify(&[1, 2, 3]), preimage(OP_SHA256, OP_EQUALVERIFY), check(&[4, 5, 6])].concat()),
        ("and_v_or_c_older", [key(1), op(OP_CHECKSIG), op(OP_NOTIF), key(2), op(OP_CHECKSIGVERIFY), op(OP_ENDIF), older(144)].concat()),
        ("and_v_or_c_after", [key(1), op(OP_CHECKSIG), op(OP_NOTIF), key(2), op(OP_CHECKSIGVERIFY), op(OP_ENDIF), after(500_000)].concat()),
        ("and_v_or_c_hash", [key(1), op(OP_CHECKSIG), op(OP_NOTIF), key(2), op(OP_CHECKSIGVERIFY), op(OP_ENDIF), preimage(OP_SHA256, OP_EQUAL)].concat()),
        ("and_v_or_i_older", [op(OP_IF), key(1), op(OP_CHECKSIGVERIFY), op(OP_ELSE), key(2), op(OP_CHECKSIGVERIFY), op(OP_ENDIF), older(144)].concat()),
        ("and_v_or_i_after", [op(OP_IF), key(1), op(OP_CHECKSIGVERIFY), op(OP_ELSE), key(2), op(OP_CHECKSIGVERIFY), op(OP_ENDIF), after(500_000)].concat()),
        ("and_v_or_i_hash", [op(OP_IF), key(1), op(OP_CHECKSIGVERIFY), op(OP_ELSE), key(2), op(OP_CHECKSIGVERIFY), op(OP_ENDIF), preimage(OP_SHA256, OP_EQUAL)].concat()),
        ("and_v_or_c_multi_older", [key(1), op(OP_CHECKSIG), op(OP_NOTIF), key(2), op(OP_CHECKSIG), op(OP_NOTIF), key(3), op(OP_CHECKSIGVERIFY), op(OP_ENDIF), op(OP_ENDIF), older(144)].concat()),
        ("and_v_or_c_multi_after", [key(1), op(OP_CHECKSIG), op(OP_NOTIF), key(2), op(OP_CHECKSIG), op(OP_NOTIF), key(3), op(OP_CHECKSIGVERIFY), op(OP_ENDIF), op(OP_ENDIF), after(500_000)].concat()),
        ("and_v_or_c_multi_hash", [key(1), op(OP_CHECKSIG), op(OP_NOTIF), key(2), op(OP_CHECKSIG), op(OP_NOTIF), key(3), op(OP_CHECKSIGVERIFY), op(OP_ENDIF), op(OP_ENDIF), preimage(OP_SHA256, OP_EQUAL)].concat()),
        ("and_v_or_i_multi_older", [op(OP_IF), key(1), op(OP_CHECKSIGVERIFY), op(OP_ELSE), op(OP_IF), key(2), op(OP_CHECKSIGVERIFY), op(OP_ELSE), key(3), op(OP_CHECKSIGVERIFY), op(OP_ENDIF), op(OP_ENDIF), older(144)].concat()),
        ("and_v_or_i_multi_after", [op(OP_IF), key(1), op(OP_CHECKSIGVERIFY), op(OP_ELSE), op(OP_IF), key(2), op(OP_CHECKSIGVERIFY), op(OP_ELSE), key(3), op(OP_CHECKSIGVERIFY), op(OP_ENDIF), op(OP_ENDIF), after(500_000)].concat()),
        ("and_v_or_i_multi_hash", [op(OP_IF), key(1), op(OP_CHECKSIGVERIFY), op(OP_ELSE), op(OP_IF), key(2), op(OP_CHECKSIGVERIFY), op(OP_ELSE), key(3), op(OP_CHECKSIGVERIFY), op(OP_ENDIF), op(OP_ENDIF), preimage(OP_SHA256, OP_EQUAL)].concat()),
        ("and_v_pk_hash_lock", [verify(&[1]), preimage(OP_SHA256, OP_EQUALVERIFY), older(16)].concat()),
        ("and_v_pk_hash_lock", [verify(&[1, 2, 3]), preimage(OP_SHA256, OP_EQUALVERIFY), older(16)].concat()),
        ("and_v_pk_hash_lock", [verify(&[1]), preimage(OP_SHA256, OP_EQUALVERIFY), after(17)].concat()),
        ("and_v_hash_pk_lock", [preimage(OP_SHA256, OP_EQUALVERIFY), verify(&[1]), older(16)].concat()),
        ("and_v_hash_pk_lock", [preimage(OP_SHA256, OP_EQUALVERIFY), verify(&[1, 2, 3]), older(16)].concat()),
        ("and_v_hash_pk_lock", [preimage(OP_SHA256, OP_EQUALVERIFY), verify(&[1]), after(17)].concat()),
        ("and_v_lock_pk_hash", [older(16), op(OP_VERIFY), verify(&[1]), preimage(OP_SHA256, OP_EQUAL)].concat()),
        ("and_v_lock_pk_hash", [older(16), op(OP_VERIFY), verify(&[1, 2, 3]), preimage(OP_SHA256, OP_EQUAL)].concat()),
        ("and_v_lock_pk_hash", [after(17), op(OP_VERIFY), verify(&[1]), preimage(OP_SHA256, OP_EQUAL)].concat()),
        ("and_v_pk_lock_hash", [verify(&[1]), older(16), op(OP_VERIFY), preimage(OP_SHA256, OP_EQUAL)].concat()),
        ("and_v_pk_lock_hash", [verify(&[1, 2, 3]), older(16), op(OP_VERIFY), preimage(OP_SHA256, OP_EQUAL)].concat()),
        ("and_v_pk_lock_hash", [verify(&[1]), after(17), op(OP_VERIFY), preimage(OP_SHA256, OP_EQUAL)].concat()),
        ("and_v_hash_lock_pk", [preimage(OP_SHA256, OP_EQUALVERIFY), older(16), op(OP_VERIFY), check(&[1])].concat()),
        ("and_v_hash_lock_pk", [preimage(OP_SHA256, OP_EQUALVERIFY), older(16), op(OP_VERIFY), check(&[1, 2, 3])].concat()),
        ("and_v_hash_lock_pk", [preimage(OP_SHA256, OP_EQUALVERIFY), after(17), op(OP_VERIFY), check(&[1])].concat()),
        ("and_v_lock_hash_pk", [older(16), op(OP_VERIFY), preimage(OP_SHA256, OP_EQUALVERIFY), check(&[1])].concat()),
        ("and_v_lock_hash_pk", [older(16), op(OP_VERIFY), preimage(OP_SHA256, OP_EQUALVERIFY), check(&[1, 2, 3])].concat()),
        ("and_v_lock_hash_pk", [after(17), op(OP_VERIFY), preimage(OP_SHA256, OP_EQUALVERIFY), check(&[1])].concat()),
        ("or_d_checksig", [key(1), op(OP_CHECKSIG), op(OP_IFDUP), op(OP_NOTIF), key(2), op(OP_CHECKSIG), op(OP_ENDIF)].concat()),
        ("and_n_checksig", [key(1), op(OP_CHECKSIG), op(OP_NOTIF), vec![0x00], op(OP_ELSE), key(2), op(OP_CHECKSIG), op(OP_ENDIF)].concat()),
        ("andor_checksig", [key(1), op(OP_CHECKSIG), op(OP_NOTIF), key(2), op(OP_CHECKSIG), op(OP_ELSE), key(3), op(OP_CHECKSIG), op(OP_ENDIF)].concat()),
        ("hash_preimage", [preimage(OP_SHA256, OP_EQUAL)].concat()),
        ("and_v_pk_hash", [key(1), op(OP_CHECKSIGVERIFY), preimage(OP_SHA256, OP_EQUAL)].concat()),
        ("and_v_hash_pk", [preimage(OP_SHA256, OP_EQUALVERIFY), key(1), op(OP_CHECKSIG)].concat()),
        ("and_v_pk_older", [key(1), op(OP_CHECKSIGVERIFY), older(144)].concat()),
        ("and_v_older_pk", [older(144), op(OP_VERIFY), key(1), op(OP_CHECKSIG)].concat()),
        ("older_alone", [older(144)].concat()),
        ("and_v_pk_after", [key(1), op(OP_CHECKSIGVERIFY), after(500_000)].concat()),
        ("and_v_after_pk", [after(500_000), op(OP_VERIFY), key(1), op(OP_CHECKSIG)].concat()),
        ("after_alone", [after(500_000)].concat()),
        ("or_c_checksig", [key(1), op(OP_CHECKSIG), op(OP_NOTIF), key(2), op(OP_CHECKSIG), op(OP_ENDIF)].concat()),
        ("or_i_checksig", [op(OP_IF), key(1), op(OP_CHECKSIG), op(OP_ELSE), key(2), op(OP_CHECKSIG), op(OP_ENDIF)].concat()),
        ("or_i_and_v_pk_older", [op(OP_IF), check(&[1]), op(OP_ELSE), older(144), op(OP_ENDIF)].concat()),
        ("or_i_and_v_pk_older", [op(OP_IF), check(&[1, 2, 3]), op(OP_ELSE), older(144), op(OP_ENDIF)].concat()),
        ("or_i_and_v_pk_after", [op(OP_IF), check(&[1]), op(OP_ELSE), after(500_000), op(OP_ENDIF)].concat()),
        ("or_i_and_v_pk_after", [op(OP_IF), check(&[1, 2, 3]), op(OP_ELSE), after(500_000), op(OP_ENDIF)].concat()),
        ("or_i_and_v_pk_hash", [op(OP_IF), check(&[1]), op(OP_ELSE), preimage(OP_SHA256, OP_EQUAL), op(OP_ENDIF)].concat()),
        ("or_i_and_v_pk_hash", [op(OP_IF), check(&[1, 2, 3]), op(OP_ELSE), preimage(OP_SHA256, OP_EQUAL), op(OP_ENDIF)].concat()),
        ("or_i_pk_and_v_pk_older", [op(OP_IF), check(&[1]), op(OP_ELSE), verify(&[2]), older(144), op(OP_ENDIF)].concat()),
        ("or_i_pk_and_v_pk_older", [op(OP_IF), check(&[1, 2, 3]), op(OP_ELSE), verify(&[4, 5, 6]), older(144), op(OP_ENDIF)].concat()),
        ("or_i_pk_and_v_pk_after", [op(OP_IF), check(&[1]), op(OP_ELSE), verify(&[2]), after(500_000), op(OP_ENDIF)].concat()),
        ("or_i_pk_and_v_pk_after", [op(OP_IF), check(&[1, 2, 3]), op(OP_ELSE), verify(&[4, 5, 6]), after(500_000), op(OP_ENDIF)].concat()),
        ("or_i_pk_and_v_pk_hash", [op(OP_IF), check(&[1]), op(OP_ELSE), verify(&[2]), preimage(OP_SHA256, OP_EQUAL), op(OP_ENDIF)].concat()),
        ("or_i_pk_and_v_pk_hash", [op(OP_IF), check(&[1, 2, 3]), op(OP_ELSE), verify(&[4, 5, 6]), preimage(OP_SHA256, OP_EQUAL), op(OP_ENDIF)].concat()),
        ("or_i_hash_and_v_pk_older", [op(OP_IF), verify(&[1]), preimage(OP_SHA256, OP_EQUAL), op(OP_ELSE), verify(&[2]), older(144), op(OP_ENDIF)].concat()),
        ("or_i_hash_and_v_pk_older", [op(OP_IF), verify(&[1, 2, 3]), preimage(OP_SHA256, OP_EQUAL), op(OP_ELSE), verify(&[4, 5, 6]), older(144), op(OP_ENDIF)].concat()),
        ("or_i_hash_and_v_pk_after", [op(OP_IF), verify(&[1]), preimage(OP_SHA256, OP_EQUAL), op(OP_ELSE), verify(&[2]), after(500_000), op(OP_ENDIF)].concat()),
        ("or_i_hash_and_v_pk_after", [op(OP_IF), verify(&[1, 2, 3]), preimage(OP_SHA256, OP_EQUAL), op(OP_ELSE), verify(&[4, 5, 6]), after(500_000), op(OP_ENDIF)].concat()),
        ("or_i_older_and_v_pk_hash", [op(OP_IF), verify(&[1]), older(144), op(OP_ELSE), verify(&[2]), preimage(OP_SHA256, OP_EQUAL), op(OP_ENDIF)].concat()),
        ("or_i_older_and_v_pk_hash", [op(OP_IF), verify(&[1, 2, 3]), older(144), op(OP_ELSE), verify(&[4, 5, 6]), preimage(OP_SHA256, OP_EQUAL), op(OP_ENDIF)].concat()),
        ("or_i_after_and_v_pk_hash", [op(OP_IF), verify(&[1]), after(500_000), op(OP_ELSE), verify(&[2]), preimage(OP_SHA256, OP_EQUAL), op(OP_ENDIF)].concat()),
        ("or_i_after_and_v_pk_hash", [op(OP_IF), verify(&[1, 2, 3]), after(500_000), op(OP_ELSE), verify(&[4, 5, 6]), preimage(OP_SHA256, OP_EQUAL), op(OP_ENDIF)].concat()),
        ("or_i_hash_and_v_pk_hash", [op(OP_IF), verify(&[1]), preimage(OP_SHA256, OP_EQUAL), op(OP_ELSE), verify(&[2]), preimage(OP_HASH160, OP_EQUAL), op(OP_ENDIF)].concat()),
        ("or_i_hash_and_v_pk_hash", [op(OP_IF), verify(&[1, 2, 3]), preimage(OP_SHA256, OP_EQUAL), op(OP_ELSE), verify(&[4, 5, 6]), preimage(OP_HASH160, OP_EQUAL), op(OP_ENDIF)].concat()),
        ("or_i_lock_and_v_pk_lock", [op(OP_IF), verify(&[1]), older(16), op(OP_ELSE), verify(&[2]), older(16), op(OP_ENDIF)].concat()),
        ("or_i_lock_and_v_pk_lock", [op(OP_IF), verify(&[1, 2, 3]), older(16), op(OP_ELSE), verify(&[4, 5, 6]), older(16), op(OP_ENDIF)].concat()),
        ("or_i_lock_and_v_pk_lock", [op(OP_IF), verify(&[1]), after(17), op(OP_ELSE), verify(&[2]), after(17), op(OP_ENDIF)].concat()),
        ("checksigadd_multi", [key(1), op(OP_CHECKSIG), key(2), op(OP_CHECKSIGADD), op(0x51), op(OP_NUMEQUAL)].concat()),
        ("checksigadd_multi", [key(1), op(OP_CHECKSIG), key(2), op(OP_CHECKSIGADD), key(3), op(OP_CHECKSIGADD), op(0x53), op(OP_NUMEQUAL)].concat()),
        ("thresh_checksig", [key(1), op(OP_CHECKSIG), swap_key(2), op(0x52), op(OP_EQUAL)].concat()),
        ("thresh_checksig", [key(1), op(OP_CHECKSIG), swap_key(2), swap_key(3), op(0x52), op(OP_EQUAL)].concat()),
        ("thresh_a_pk_checksig", [key(1), op(OP_CHECKSIG), alt_key(2), alt_key(3), op(0x52), op(OP_EQUAL)].concat()),
        ("thresh_mixed_sa_checksig", [key(1), op(OP_CHECKSIG), swap_key(2), alt_key(3), op(0x52), op(OP_EQUAL)].concat()),
        ("thresh_s_hash", [key(1), op(OP_CHECKSIG), swap_hash(), swap_key(2), op(0x52), op(OP_EQUAL)].concat()),
        ("thresh_a_hash", [key(1), op(OP_CHECKSIG), alt_key(2), alt_hash(), op(0x52), op(OP_EQUAL)].concat()),
        ("thresh_mixed_sa_hash", [key(1), op(OP_CHECKSIG), swap_key(2), alt_hash(), op(0x52), op(OP_EQUAL)].concat()),
    ]
}

#[test]
fn each_sample_is_its_template_and_no_other() {
    for (name, bytes) in samples() {
        assert_eq!(recognised(&LeafScript::from_bytes(&bytes)), vec![name]);
    }
}

#[test]
fn nothing_may_follow_or_be_missing() {
    for (_, bytes) in samples() {
        let longer = [bytes.clone(), op(0x61)].concat();
        assert!(recognised(&LeafScript::from_bytes(&longer)).is_empty());
        let before = [op(0x61), bytes].concat();
        assert!(recognised(&LeafScript::from_bytes(&before)).is_empty());
    }
    assert!(recognised(&LeafScript::from_bytes(&[])).is_empty());
}

#[test]
fn values_of_templates() {
    let script = LeafScript::from_bytes(&[verify(&[1, 2]), older(144)].concat());
    assert_eq!(
        bare_tapscript_and_v_multi_pk_older_template(&script),
        Some((keys(&[1, 2]), 144))
    );
    let script = LeafScript::from_bytes(&[key(3), op(OP_CHECKSIGVERIFY), after(17)].concat());
    assert_eq!(
        bare_tapscript_and_v_pk_after_template(&script),
        Some((XOnlyKey { bytes: xonly(3) }, 17))
    );
    let script = LeafScript::from_bytes(
        &[verify(&[1]), preimage(OP_HASH160, OP_EQUALVERIFY), after(500_000_000)].concat(),
    );
    assert_eq!(
        bare_tapscript_and_v_pk_hash_lock_template(&script),
        Some((
            keys(&[1]),
            TapscriptHashKind::Hash160,
            digest(OP_HASH160),
            DualTimeoutLock::After(500_000_000)
        ))
    );
    let script = LeafScript::from_bytes(
        &[
            key(1),
            op(OP_CHECKSIG),
            key(2),
            op(OP_CHECKSIGADD),
            key(3),
            op(OP_CHECKSIGADD),
            op(0x52),
            op(OP_NUMEQUAL),
        ]
        .concat(),
    );
    assert_eq!(
        bare_tapscript_checksigadd_multi_template(&script),
        Some((2, keys(&[1, 2, 3])))
    );
}

#[test]
fn hash_checks_of_a_threshold() {
    let script = LeafScript::from_bytes(
        &[key(1), op(OP_CHECKSIG), swap_key(2), alt_hash(), swap_key(3), op(0x53), op(OP_EQUAL)]
            .concat(),
    );
    let t = bare_tapscript_thresh_mixed_sa_hash_template(&script).unwrap();
    assert_eq!(t.threshold, 3);
    assert_eq!(t.pubkeys, keys(&[1, 2, 3]));
    assert_eq!(t.n_hash(), 1);
    assert_eq!(
        t.single_hash(),
        Some(&ThreshHashArm {
            arm_idx: 2,
            kind: TapscriptHashKind::Hash256,
            digest: digest(OP_HASH256),
        })
    );
}

#[test]
fn thresholds_out_of_reach() {
    let thresh = |k: u8| {
        LeafScript::from_bytes(
            &[key(1), op(OP_CHECKSIG), swap_key(2), op(0x50 + k), op(OP_EQUAL)].concat(),
        )
    };
    assert!(bare_tapscript_thresh_checksig_template(&thresh(2)).is_some());
    assert!(bare_tapscript_thresh_checksig_template(&thresh(3)).is_none());
    // Every hash counts, so one of two cannot be asked for alone.
    let two_hashes = LeafScript::from_bytes(
        &[key(1), op(OP_CHECKSIG), swap_hash(), swap_hash(), op(0x51), op(OP_EQUAL)].concat(),
    );
    assert!(recognised(&two_hashes).is_empty());
    let multi = LeafScript::from_bytes(
        &[key(1), op(OP_CHECKSIG), key(2), op(OP_CHECKSIGADD), op(0x53), op(OP_NUMEQUAL)].concat(),
    );
    assert!(recognised(&multi).is_empty());
}

#[test]
fn keys_have_to_be_on_the_curve() {
    // No point has this x coordinate.
    let off = [vec![0x20], vec![0xff; 32], op(OP_CHECKSIGVERIFY), older(144)].concat();
    assert!(recognised(&LeafScript::from_bytes(&off)).is_empty());
    match &LeafScript::from_bytes(&off).items[0] {
        ScriptItem::Push { bytes, xonly } => {
            assert_eq!(bytes, &vec![0xff; 32]);
            assert!(!xonly);
        }
        other => panic!("{other:?}"),
    }
    match &LeafScript::from_bytes(&key(1)).items[0] {
        ScriptItem::Push { xonly, .. } => assert!(xonly),
        other => panic!("{other:?}"),
    }
}

#[test]
fn digests_have_the_length_of_the_hash() {
    let mut short = preimage(OP_SHA256, OP_EQUAL);
    assert_eq!(recognised(&LeafScript::from_bytes(&short)), vec!["hash_preimage"]);
    short[4] = OP_RIPEMD160;
    assert!(recognised(&LeafScript::from_bytes(&short)).is_empty());
    let other_size = [vec![OP_SIZE, 0x01, 0x1f], preimage(OP_SHA256, OP_EQUAL)[3..].to_vec()].concat();
    assert!(recognised(&LeafScript::from_bytes(&other_size)).is_empty());
}

#[test]
fn arguments_of_timeouts() {
    let is = |bytes: Vec<u8>| !recognised(&LeafScript::from_bytes(&bytes)).is_empty();
    assert!(is(older(1)));
    assert!(is(older(16)));
    assert!(is(older(17)));
    assert!(is(older(0x7fff_ffff)));
    assert!(!is([op(0x00), op(OP_CSV)].concat()));
    assert!(!is([op(0x4f), op(OP_CSV)].concat()));
    // Not minimal: one more byte than it takes.
    assert!(!is(vec![0x02, 0x11, 0x00, OP_CSV]));
    assert!(is(after(0x7fff_ffff)));
    assert!(!is([vec![0x05, 0, 0, 0, 0x80, 0], op(OP_CLTV)].concat()));
}

#[test]
fn pushes_of_every_form() {
    let script = LeafScript::from_bytes(&[0x4c, 0x01, 0xaa, 0x4d, 0x01, 0x00, 0xbb, 0x61]);
    assert_eq!(
        script.items,
        vec![
            ScriptItem::Push { bytes: vec![0xaa], xonly: false },
            ScriptItem::Push { bytes: vec![0xbb], xonly: false },
            ScriptItem::Op(0x61),
        ]
    );
    assert_eq!(
        LeafScript::from_bytes(&[0x61, 0x03, 0xaa]).items,
        vec![ScriptItem::Op(0x61), ScriptItem::Malformed]
    );
    assert_eq!(LeafScript::from_bytes(&[0x4e, 0x01]).items, vec![ScriptItem::Malformed]);
}

#[test]
fn timeouts_that_have_passed() {
    assert!(sequence_satisfies_csv_older(2, 144, 144));
    assert!(!sequence_satisfies_csv_older(1, 144, 144));
    assert!(!sequence_satisfies_csv_older(2, 143, 144));
    // Blocks and units of 512 seconds are not held against each other.
    assert!(!sequence_satisfies_csv_older(2, 0x0040_0000 | 200, 144));
    assert!(!sequence_satisfies_csv_older(2, 0x8000_0000 | 200, 144));
    assert!(locktime_satisfies_cltv_after(500_000, 0, 500_000));
    assert!(!locktime_satisfies_cltv_after(499_999, 0, 500_000));
    assert!(!locktime_satisfies_cltv_after(500_000, u32::MAX, 500_000));
    assert!(!locktime_satisfies_cltv_after(1_600_000_000, 0, 500_000));
    assert!(dual_timeout_lock_satisfied(DualTimeoutLock::Older(1), 2, 1, 0));
    assert!(dual_timeout_lock_satisfied(DualTimeoutLock::After(1), 1, 0, 1));
}

#[test]
fn opcodes_by_their_numbers() {
    assert_eq!(bitcoin::opcodes::all::OP_CSV.to_u8(), OP_CSV);
    assert_eq!(bitcoin::opcodes::all::OP_CLTV.to_u8(), OP_CLTV);
    assert_eq!(bitcoin::opcodes::all::OP_IF.to_u8(), OP_IF);
    assert_eq!(bitcoin::opcodes::all::OP_CHECKSIGADD.to_u8(), OP_CHECKSIGADD);
    assert_eq!(bitcoin::opcodes::all::OP_CHECKSIG.to_u8(), OP_CHECKSIG);
    assert_eq!(bitcoin::opcodes::all::OP_CHECKSIGVERIFY.to_u8(), OP_CHECKSIGVERIFY);
    assert_eq!(bitcoin::opcodes::all::OP_SIZE.to_u8(), OP_SIZE);
    assert_eq!(bitcoin::opcodes::all::OP_HASH160.to_u8(), OP_HASH160);
    assert_eq!(bitcoin::opcodes::all::OP_HASH256.to_u8(), OP_HASH256);
    assert_eq!(bitcoin::opcodes::all::OP_RIPEMD160.to_u8(), OP_RIPEMD160);
    assert_eq!(bitcoin::opcodes::all::OP_SHA256.to_u8(), OP_SHA256);
    assert_eq!(bitcoin::opcodes::all::OP_TOALTSTACK.to_u8(), OP_TOALTSTACK);
    assert_eq!(bitcoin::opcodes::all::OP_FROMALTSTACK.to_u8(), OP_FROMALTSTACK);
    assert_eq!(bitcoin::opcodes::all::OP_NOTIF.to_u8(), OP_NOTIF);
    assert_eq!(bitcoin::opcodes::all::OP_IFDUP.to_u8(), OP_IFDUP);
    assert_eq!(bitcoin::opcodes::all::OP_VERIFY.to_u8(), OP_VERIFY);
    assert_eq!(bitcoin::opcodes::all::OP_EQUAL.to_u8(), OP_EQUAL);
    assert_eq!(bitcoin::opcodes::all::OP_EQUALVERIFY.to_u8(), OP_EQUALVERIFY);
    assert_eq!(bitcoin::opcodes::all::OP_NUMEQUAL.to_u8(), OP_NUMEQUAL);
    assert_eq!(bitcoin::opcodes::all::OP_ADD.to_u8(), OP_ADD);
    assert_eq!(bitcoin::opcodes::all::OP_SWAP.to_u8(), OP_SWAP);
    assert_eq!(bitcoin::opcodes::all::OP_ELSE.to_u8(), OP_ELSE);
    assert_eq!(bitcoin::opcodes::all::OP_ENDIF.to_u8(), OP_ENDIF);
}

#[test]
fn hashes_by_name_and_opcode() {
    for kind in [
        TapscriptHashKind::Sha256,
        TapscriptHashKind::Hash256,
        TapscriptHashKind::Ripemd160,
        TapscriptHashKind::Hash160,
    ] {
        let code = match kind.name() {
            "sha256" => OP_SHA256,
            "hash256" => OP_HASH256,
            "ripemd160" => OP_RIPEMD160,
            _ => OP_HASH160,
        };
        assert_eq!(TapscriptHashKind::from_hash_op(code), Some(kind));
        assert_eq!(kind.expected_digest_len(), digest(code).len());
    }
    assert_eq!(TapscriptHashKind::from_hash_op(OP_ADD), None);
}
