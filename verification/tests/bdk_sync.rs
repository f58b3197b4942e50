//! Synchronization of a watch-only wallet.

use std::cell::RefCell;
use std::collections::HashMap;
use std::str::FromStr;

use bitcoin::bip32::{ChildNumber, DerivationPath, Xpriv, Xpub};
use bitcoin::secp256k1::Secp256k1;
use bitcoin_funding::bdk_bip84::{
    assert_snapshot_utxos_within_sign_gap, list_bip84_utxos_with_bdk_sync,
    select_and_prepare_bip84_spend_with_bdk_sync, BdkBip84Wallet, FailingBdkUpdateSource,
    MockBdkUpdateSource,
};
use bitcoin_funding::bdk_scan::{
    bdk_utxo_sync_mempool_unsupported_error, open_product_bdk_update_source, FullScan,
    HistoryEntry, ScanAction, ScanEndpoint, ScanFault, ScanServer, ESPLORA_TXS_PAGE_SIZE,
};
use bitcoin_funding::bdk_source::{
    tip_from_reply, ElectrumBdkUpdateSource, EsploraBdkUpdateSource, HistoryReply, TipReply,
    TxReply,
};
use bitcoin_funding::bdk_sync::{
    bdk_sync_notice_lines, merge_observation, normalize_stop_gap,
    observation_from_electrum_height, observation_from_esplora_height, synthetic_block_hash,
    tip_height_to_u32, BdkTxObservation, BDK_FULL_SCAN_DEFAULT_STOP_GAP,
    BDK_FULL_SCAN_MAX_INDEX, BDK_PRODUCT_SIGN_GAP_CAP, BDK_SYNC_AVAILABLE,
};
use bitcoin_funding::bdk_update::{
    chain_update_from_scanned_txs, chain_update_from_transactions, deserialize_tx_hex,
    funding_tx_to_script, serialize_tx_hex, spend_tx_from_outpoint, BdkOutPoint,
    ScannedTx,
};
use bitcoin_funding::chain_select::{
    ChainSourceKind, CompiledBackends, ProductChainSourceConfig,
};
use bitcoin_funding::error::WalletError;
use bitcoin_funding::mnemonic::import_mnemonic;
use bitcoin_funding::network::Network;
use bitcoin_funding::wallet_types::{
    balance_from_utxos, OutPointRef, WalletBalance, WalletSyncSnapshot, WalletUtxo,
    MAX_ADDRESS_GAP,
};

/// BIP-39 test mnemonic (public vector; not a funded wallet).
const PHRASE: &str = "abandon abandon abandon abandon abandon abandon abandon abandon abandon abandon abandon about";

/// The extended private key of the words and its account key by BIP-84 on a test network.
fn account_key() -> (Xpriv, Xpriv) {
    let secp = Secp256k1::new();
    let seed = import_mnemonic(PHRASE).unwrap().to_seed("");
    let master = Xpriv::new_master(bitcoin::Network::Regtest, &seed).unwrap();
    let path = DerivationPath::from_str("m/84'/1'/0'").unwrap();
    let account = master.derive_priv(&secp, &path).unwrap();
    (master, account)
}

fn descriptors() -> (String, String) {
    let secp = Secp256k1::new();
    let (master, account) = account_key();
    let origin = master.fingerprint(&secp);
    let xpub = Xpub::from_priv(&secp, &account);
    (
        format!("wpkh([{origin}/84'/1'/0']{xpub}/0/*)"),
        format!("wpkh([{origin}/84'/1'/0']{xpub}/1/*)"),
    )
}

fn test_wallet() -> BdkBip84Wallet {
    let (receive, change) = descriptors();
    match BdkBip84Wallet::from_descriptors(&receive, &change, Network::Regtest) {
        Ok(w) => w,
        Err(e) => panic!("{}", e.to_string()),
    }
}

/// The script that pays to the hash of somebody else's key.
fn foreign_script(byte: u8) -> Vec<u8> {
    let mut script = vec![0x00, 0x14];
    script.extend_from_slice(&[byte; 20]);
    script
}

/// A server with fixed replies that remembers what it was asked for.
struct MockServer {
    tip: Result<u64, String>,
    /// By address, or address and cursor.
    history: HashMap<String, Vec<(String, BdkTxObservation)>>,
    history_fails: HashMap<String, String>,
    txs: HashMap<String, String>,
    tx_fails: HashMap<String, String>,
    calls: RefCell<Vec<String>>,
}

fn confirmed(height: u32) -> BdkTxObservation {
    BdkTxObservation::Confirmed { height }
}

impl MockServer {
    fn with_tip(tip: u64) -> Self {
        MockServer {
            tip: Ok(tip),
            history: HashMap::new(),
            history_fails: HashMap::new(),
            txs: HashMap::new(),
            tx_fails: HashMap::new(),
            calls: RefCell::new(Vec::new()),
        }
    }

    fn insert_history(&mut self, address: &str, entries: Vec<(String, BdkTxObservation)>) {
        self.history.insert(address.to_string(), entries);
    }

    fn insert_tx(&mut self, txid: &str, hex: String) {
        self.txs.insert(txid.to_string(), hex);
    }

    fn ask_tip(&self) -> TipReply {
        self.calls.borrow_mut().push("tip".to_string());
        match &self.tip {
            Ok(height) => TipReply::Height(*height),
            Err(why) => TipReply::NoReply(why.clone()),
        }
    }

    fn ask_history(&self, address: &str, cursor: Option<&str>) -> HistoryReply {
        let place = match cursor {
            Some(txid) => format!("{address}/chain/{txid}"),
            None => address.to_string(),
        };
        self.calls.borrow_mut().push(format!("history {place}"));
        if let Some(why) = self.history_fails.get(&place) {
            return HistoryReply::Failed(ScanFault::Transport, why.clone());
        }
        let entries = match self.history.get(&place) {
            Some(list) => list
                .iter()
                .map(|(txid, observation)| HistoryEntry {
                    txid: txid.clone(),
                    observation: *observation,
                })
                .collect(),
            None => Vec::new(),
        };
        HistoryReply::Entries(entries)
    }

    fn ask_tx(&self, txid: &str) -> TxReply {
        self.calls.borrow_mut().push(format!("tx {txid}"));
        if let Some(why) = self.tx_fails.get(txid) {
            return TxReply::Failed(ScanFault::Transport, why.clone());
        }
        match self.txs.get(txid) {
            Some(hex) => TxReply::Hex(hex.clone()),
            None => TxReply::Failed(ScanFault::Transport, "no fixture".to_string()),
        }
    }

    fn esplora<'a>(
        &'a self,
        stop_gap: u32,
    ) -> EsploraBdkUpdateSource<
        impl Fn() -> TipReply + 'a,
        impl Fn(&str, &Vec<u8>, Option<&str>) -> HistoryReply + 'a,
        impl Fn(&str) -> TxReply + 'a,
    > {
        EsploraBdkUpdateSource::with_stop_gap(
            move || self.ask_tip(),
            move |address: &str, _script: &Vec<u8>, cursor: Option<&str>| {
                self.ask_history(address, cursor)
            },
            move |txid: &str| self.ask_tx(txid),
            stop_gap,
        )
    }

    /// An Electrum server knows scripts, not addresses.
    fn electrum<'a>(
        &'a self,
        stop_gap: u32,
    ) -> ElectrumBdkUpdateSource<
        impl Fn() -> TipReply + 'a,
        impl Fn(&str, &Vec<u8>, Option<&str>) -> HistoryReply + 'a,
        impl Fn(&str) -> TxReply + 'a,
    > {
        ElectrumBdkUpdateSource::with_stop_gap(
            move || self.ask_tip(),
            move |_address: &str, script: &Vec<u8>, cursor: Option<&str>| {
                assert!(cursor.is_none());
                self.ask_history(&hex(script), cursor)
            },
            move |txid: &str| self.ask_tx(txid),
            stop_gap,
        )
    }

    fn called(&self, start: &str) -> bool {
        self.calls.borrow().iter().any(|c| c.starts_with(start))
    }
}

fn hex(bytes: &[u8]) -> String {
    bytes.iter().map(|b| format!("{b:02x}")).collect()
}

/// A payment of everything else being equal: the coins of a snapshot are chosen in order, and each
/// is signed for with the key of its address.
struct Prepared {
    payment_sats: u64,
    fee_sats: u64,
    raw_hex: String,
    txid_hex: String,
    selected_inputs: Vec<OutPointRef>,
}

fn prepare_spend(
    sync: &WalletSyncSnapshot,
    gap: u32,
    pay_to: &str,
    payment_sats: u64,
    fee_rate: u64,
) -> Result<Prepared, WalletError> {
    let secp = Secp256k1::new();
    let (_, account) = account_key();
    let fee_sats = 141 * fee_rate;
    let coin = match sync.utxos.iter().find(|u| u.amount_sats >= payment_sats + fee_sats) {
        Some(coin) => coin,
        None => return Err(WalletError::Onchain("insufficient funds".to_string())),
    };
    let script_of = |address: &str| {
        bitcoin::Address::from_str(address).unwrap().assume_checked().script_pubkey()
    };
    let mut key = None;
    for index in 0..gap {
        let path = [
            ChildNumber::from_normal_idx(if coin.is_change { 1 } else { 0 }).unwrap(),
            ChildNumber::from_normal_idx(index).unwrap(),
        ];
        let child = account.derive_priv(&secp, &path).unwrap();
        let public = bitcoin::CompressedPublicKey::from_private_key(&secp, &child.to_priv()).unwrap();
        let address = bitcoin::Address::p2wpkh(&public, bitcoin::Network::Regtest);
        if address.to_string() == coin.address {
            key = Some((child.private_key, public));
        }
    }
    let (private, public) = key.unwrap();
    let mut tx = bitcoin::Transaction {
        version: bitcoin::transaction::Version::TWO,
        lock_time: bitcoin::absolute::LockTime::ZERO,
        input: vec![bitcoin::TxIn {
            previous_output: bitcoin::OutPoint {
                txid: bitcoin::Txid::from_str(&coin.outpoint.txid).unwrap(),
                vout: coin.outpoint.vout,
            },
            ..Default::default()
        }],
        output: vec![
            bitcoin::TxOut {
                value: bitcoin::Amount::from_sat(payment_sats),
                script_pubkey: script_of(pay_to),
            },
            bitcoin::TxOut {
                value: bitcoin::Amount::from_sat(coin.amount_sats - payment_sats - fee_sats),
                script_pubkey: script_of(&coin.address),
            },
        ],
    };
    let sighash = bitcoin::sighash::SighashCache::new(&tx)
        .p2wpkh_signature_hash(
            0,
            &script_of(&coin.address),
            bitcoin::Amount::from_sat(coin.amount_sats),
            bitcoin::EcdsaSighashType::All,
        )
        .unwrap();
    let message = bitcoin::secp256k1::Message::from(sighash);
    let signature =
        bitcoin::ecdsa::Signature::sighash_all(secp.sign_ecdsa(&message, &private));
    tx.input[0].witness = bitcoin::Witness::p2wpkh(&signature, &public.0);
    Ok(Prepared {
        payment_sats,
        fee_sats,
        raw_hex: bitcoin::consensus::encode::serialize_hex(&tx),
        txid_hex: tx.compute_txid().to_string(),
        selected_inputs: vec![OutPointRef {
            txid: coin.outpoint.txid.clone(),
            vout: coin.outpoint.vout,
        }],
    })
}

#[test]
fn bdk_capability_flag_true() {
    assert!(BDK_SYNC_AVAILABLE);
    assert_eq!(BDK_PRODUCT_SIGN_GAP_CAP, MAX_ADDRESS_GAP);
}

#[test]
fn create_watch_only_empty() {
    let w = test_wallet();
    assert_eq!(w.list_wallet_utxos().unwrap().len(), 0);
    assert_eq!(w.balance().unwrap().total_sats(), 0);
    assert!(w.receive_descriptor().starts_with("wpkh("));
    assert!(w.change_descriptor().starts_with("wpkh("));
}

#[test]
fn debug_redacts_descriptor_xpubs() {
    let w = test_wallet();
    let dbg = w.debug_text();
    assert!(dbg.contains("[descriptor redacted]"));
    assert!(
        !dbg.contains("tpub"),
        "Debug must not leak account xpub: {dbg}"
    );
    assert!(
        !dbg.contains("xpub") && !dbg.contains("tpub"),
        "Debug must not leak account xpub: {dbg}"
    );
    // Accessors still return full strings for product use.
    assert!(w.receive_descriptor().contains("tpub") || w.receive_descriptor().contains("xpub"));
}

#[test]
fn spent_tx_history_drops_spent_utxo() {
    let mut w = test_wallet();
    let spk0 = w.receive_script_pubkey(0);
    let spk5 = w.receive_script_pubkey(5);

    let fund0 = funding_tx_to_script(&spk0, 50_000, 0);
    let fund5 = funding_tx_to_script(&spk5, 30_000, 1);
    let spend0 = spend_tx_from_outpoint(fund0.outpoint(0), &foreign_script(0x11), 49_000, 2);

    let update = chain_update_from_transactions(
        Network::Regtest,
        100,
        vec![fund0, fund5, spend0],
        Some(5),
        None,
    )
    .ok()
    .unwrap();

    let source = MockBdkUpdateSource::with_update(update);
    let snap = list_bip84_utxos_with_bdk_sync(&mut w, &source).unwrap();

    assert_eq!(
        snap.utxos.len(),
        1,
        "spent fund0 must leave only fund5; got {:?}",
        snap.utxos
    );
    assert_eq!(snap.utxos[0].amount_sats, 30_000);
    assert_eq!(snap.highest_used_receive, Some(5));
    assert_eq!(snap.balance.confirmed_sats, 30_000);
    assert!(snap.receive_gap > 5);
    assert!(!snap.utxos[0].is_change);
    assert!(snap.utxos[0].confirmations >= 1);

    let notices = bdk_sync_notice_lines(&snap);
    assert!(notices[0].contains("bdk_wallet"));
    assert!(!notices[0].contains("Gap-limit"));
}

#[test]
fn deep_index_recovered_via_last_active() {
    let mut w = test_wallet();
    let spk = w.receive_script_pubkey(42);
    let fund = funding_tx_to_script(&spk, 12_345, 0);
    let update =
        chain_update_from_transactions(Network::Regtest, 50, vec![fund], Some(42), None)
            .ok()
            .unwrap();
    w.apply_update(update).unwrap();
    let utxos = w.list_wallet_utxos().unwrap();
    assert_eq!(utxos.len(), 1);
    assert_eq!(utxos[0].amount_sats, 12_345);
    assert_eq!(w.revealed_external_count(), 43); // next after 42
}

#[test]
fn change_chain_marked_is_change() {
    let mut w = test_wallet();
    let spk = w.change_script_pubkey(1);
    let fund = funding_tx_to_script(&spk, 8_000, 0);
    let update =
        chain_update_from_transactions(Network::Regtest, 10, vec![fund], None, Some(1))
            .ok()
            .unwrap();
    w.apply_update(update).unwrap();
    let utxos = w.list_wallet_utxos().unwrap();
    assert_eq!(utxos.len(), 1);
    assert!(utxos[0].is_change);
    assert_eq!(utxos[0].amount_sats, 8_000);
}

#[test]
fn snapshot_compatible_with_product_balance() {
    let mut w = test_wallet();
    let fund = funding_tx_to_script(&w.receive_script_pubkey(0), 100_000, 0);
    let update =
        chain_update_from_transactions(Network::Regtest, 5, vec![fund], Some(0), None)
            .ok()
            .unwrap();
    w.apply_update(update).unwrap();
    let snap = w.snapshot(0, 0).unwrap();
    assert_eq!(snap.balance.total_sats(), 100_000);
    assert_eq!(snap.utxos.len(), 1);
    // Outpoint hex is 64 chars
    assert_eq!(snap.utxos[0].outpoint.txid.len(), 64);
}

#[test]
fn zero_fee_spend_fails_sync_arm() {
    let mut w = test_wallet();
    let source = MockBdkUpdateSource::new();
    let err = select_and_prepare_bip84_spend_with_bdk_sync(
        &mut w,
        &source,
        0,
        |_: u32| Ok(()),
        |_: &(), sync: &WalletSyncSnapshot, gap: u32| {
            prepare_spend(sync, gap, "bcrt1qexample", 1000, 0)
        },
    )
    .err()
    .unwrap();
    assert!(!err.is_after_sync());
    assert!(err.cause().to_string().contains("fee rate"));
    assert!(err.notice_lines().is_empty());
}

#[test]
fn failing_update_source_propagates_to_list_and_spend_sync() {
    let mut w = test_wallet();
    let source = FailingBdkUpdateSource::new("mock full_scan transport refused");
    let list_err = list_bip84_utxos_with_bdk_sync(&mut w, &source).unwrap_err();
    assert!(
        list_err
            .to_string()
            .contains("mock full_scan transport refused"),
        "{}",
        list_err.to_string()
    );
    // Never invent empty Success on source failure.
    assert_eq!(w.list_wallet_utxos().unwrap().len(), 0);

    let pay_to = w.peek_receive_address(1);
    let spend_err = select_and_prepare_bip84_spend_with_bdk_sync(
        &mut w,
        &source,
        5,
        |_: u32| Ok(()),
        |_: &(), sync: &WalletSyncSnapshot, gap: u32| prepare_spend(sync, gap, &pay_to, 1_000, 5),
    )
    .err()
    .unwrap();
    assert!(!spend_err.is_after_sync());
    assert!(spend_err.cause().to_string().contains("mock full_scan"));
    assert!(spend_err.sync_snapshot().is_none());
    assert!(spend_err.notice_lines().is_empty());
}

#[test]
fn spend_happy_path_prepare_from_bdk_snapshot() {
    let mut w = test_wallet();
    let fund = funding_tx_to_script(&w.receive_script_pubkey(0), 100_000, 0);
    let fund_txid = fund.txid_text().to_string();
    let update =
        chain_update_from_transactions(Network::Regtest, 10, vec![fund], Some(1), None)
            .ok()
            .unwrap();
    let source = MockBdkUpdateSource::with_update(update);
    let pay_to = w.peek_receive_address(1);

    let synced = select_and_prepare_bip84_spend_with_bdk_sync(
        &mut w,
        &source,
        5,
        |gap: u32| {
            assert_eq!(gap, 2);
            Ok(())
        },
        |_: &(), sync: &WalletSyncSnapshot, gap: u32| prepare_spend(sync, gap, &pay_to, 25_000, 5),
    )
    .ok()
    .expect("funded BDK prepare must succeed");

    assert_eq!(synced.prepared.payment_sats, 25_000);
    assert!(synced.prepared.fee_sats > 0);
    assert!(!synced.prepared.raw_hex.is_empty());
    assert_eq!(synced.prepared.selected_inputs.len(), 1);
    assert_eq!(synced.prepared.selected_inputs[0].txid, fund_txid);
    assert_eq!(synced.prepared.selected_inputs[0].vout, 0);
    assert_eq!(synced.sync.utxos.len(), 1);
    assert_eq!(synced.sync.utxos[0].amount_sats, 100_000);
    // Signed tx has a real txid (64 hex).
    assert_eq!(synced.prepared.txid_hex.len(), 64);
}

#[test]
fn spend_after_sync_insufficient_funds_uses_bdk_notices_not_gap_copy() {
    let mut w = test_wallet();
    let fund = funding_tx_to_script(&w.receive_script_pubkey(0), 5_000, 0);
    let update =
        chain_update_from_transactions(Network::Regtest, 10, vec![fund], Some(0), None)
            .ok()
            .unwrap();
    let source = MockBdkUpdateSource::with_update(update);
    let pay_to = w.peek_receive_address(1);

    let err = select_and_prepare_bip84_spend_with_bdk_sync(
        &mut w,
        &source,
        50,
        |_: u32| Ok(()),
        |_: &(), sync: &WalletSyncSnapshot, gap: u32| prepare_spend(sync, gap, &pay_to, 4_000, 50),
    )
    .err()
    .unwrap();
    assert!(err.is_after_sync());
    let notices = err.notice_lines();
    assert!(
        notices.iter().any(|l| l.contains("bdk_wallet")),
        "AfterSync notices must use BDK copy, got {notices:?}"
    );
    assert!(
        notices
            .iter()
            .all(|l| !l.contains("Gap-limit ChainSource") && !l.contains("not full bdk")),
        "must not mislabel BDK as gap-limit: {notices:?}"
    );
    let display = err.display_lines().join("\n");
    assert!(!display.contains("not full bdk_wallet auto-sync"));
    assert!(display.starts_with("insufficient funds\n"));
}

#[test]
fn spend_without_a_signing_wallet_keeps_what_was_found() {
    let mut w = test_wallet();
    let fund = funding_tx_to_script(&w.receive_script_pubkey(0), 5_000, 0);
    let update =
        chain_update_from_transactions(Network::Regtest, 10, vec![fund], Some(0), None)
            .ok()
            .unwrap();
    let source = MockBdkUpdateSource::with_update(update);
    let err = select_and_prepare_bip84_spend_with_bdk_sync(
        &mut w,
        &source,
        1,
        |_: u32| Err(WalletError::Onchain("no signing wallet".to_string())),
        |_: &(), _: &WalletSyncSnapshot, _: u32| Ok(()),
    )
    .err()
    .unwrap();
    assert!(err.is_after_sync());
    assert_eq!(err.cause().to_string(), "no signing wallet");
    assert_eq!(err.sync_snapshot().unwrap().balance.total_sats(), 5_000);
    assert!(!err.notice_lines().is_empty());
}

#[test]
fn spend_refuses_utxo_beyond_sign_gap_cap() {
    // Hostile source: last_active past BDK_PRODUCT_SIGN_GAP_CAP with a deep UTXO.
    let mut w = test_wallet();
    let deep = BDK_PRODUCT_SIGN_GAP_CAP; // index == cap is out of range (need index < cap)
    let fund = funding_tx_to_script(&w.receive_script_pubkey(deep), 50_000, 0);
    let update =
        chain_update_from_transactions(Network::Regtest, 20, vec![fund], Some(deep), None)
            .ok()
            .unwrap();
    let source = MockBdkUpdateSource::with_update(update);

    let err = select_and_prepare_bip84_spend_with_bdk_sync(
        &mut w,
        &source,
        5,
        |_: u32| -> Result<(), WalletError> { panic!("nothing to open") },
        |_: &(), _: &WalletSyncSnapshot, _: u32| -> Result<Prepared, WalletError> {
            panic!("nothing to prepare")
        },
    )
    .err()
    .unwrap();
    assert!(err.is_after_sync());
    let msg = err.cause().to_string();
    assert!(
        msg.contains("exceeds product sign gap cap") || msg.contains("sign gap"),
        "expected sign-gap honesty, got: {msg}"
    );
    // Coins remain on the BDK wallet (not silently dropped from graph).
    assert_eq!(w.list_wallet_utxos().unwrap().len(), 1);
    assert_eq!(err.into_cause().to_string(), msg);
}

#[test]
fn empty_mock_source_snapshot_zero() {
    let mut w = test_wallet();
    let snap = list_bip84_utxos_with_bdk_sync(&mut w, &MockBdkUpdateSource::new()).unwrap();
    assert!(snap.utxos.is_empty());
    assert_eq!(snap.balance.total_sats(), 0);
}

#[test]
fn tip_height_zero_rejected() {
    let err = chain_update_from_transactions(Network::Regtest, 0, vec![], None, None)
        .err()
        .unwrap();
    assert!(err.to_string().contains("tip_height"));
}

#[test]
fn esplora_transport_full_scan_spent_tx_drop() {
    let mut w = test_wallet();
    let addr0 = w.peek_receive_address(0);
    let addr5 = w.peek_receive_address(5);
    let fund0 = funding_tx_to_script(&w.receive_script_pubkey(0), 50_000, 0);
    let fund5 = funding_tx_to_script(&w.receive_script_pubkey(5), 30_000, 1);
    let spend0 = spend_tx_from_outpoint(fund0.outpoint(0), &foreign_script(0x11), 49_000, 2);
    let fund0_id = fund0.txid_text().to_string();
    let fund5_id = fund5.txid_text().to_string();
    let spend0_id = spend0.txid_text().to_string();

    let mut mock = MockServer::with_tip(100);
    // Address 0: fund + spend history.
    mock.insert_history(
        &addr0,
        vec![(fund0_id.clone(), confirmed(90)), (spend0_id.clone(), confirmed(95))],
    );
    mock.insert_history(&addr5, vec![(fund5_id.clone(), confirmed(91))]);
    mock.insert_tx(&fund0_id, serialize_tx_hex(&fund0));
    mock.insert_tx(&fund5_id, serialize_tx_hex(&fund5));
    mock.insert_tx(&spend0_id, serialize_tx_hex(&spend0));

    // stop_gap must exceed empty run between index 0 and 5 (4 empties).
    let source = mock.esplora(6);
    let snap = list_bip84_utxos_with_bdk_sync(&mut w, &source).unwrap();

    assert_eq!(
        snap.utxos.len(),
        1,
        "spent fund0 must leave only fund5; got {:?}",
        snap.utxos
    );
    assert_eq!(snap.utxos[0].amount_sats, 30_000);
    assert_eq!(snap.highest_used_receive, Some(5));
    assert_eq!(snap.balance.confirmed_sats, 30_000);
    // Transport was exercised (tip + txs + hex), not only MockBdkUpdateSource.
    assert!(mock.called("tip"), "expected tip probe");
    assert!(mock.called("history"), "expected address txs");
    assert!(mock.called("tx "), "expected tx hex");
}

#[test]
fn esplora_transport_deep_index_and_empty_wallet() {
    let mut w = test_wallet();
    // Index 15 is within default BIP44 stop-gap (20) from 0 with no intermediate activity.
    let deep = 15u32;
    let addr = w.peek_receive_address(deep);
    let fund = funding_tx_to_script(&w.receive_script_pubkey(deep), 12_345, 0);
    let fund_id = fund.txid_text().to_string();

    let mut mock = MockServer::with_tip(50);
    mock.insert_history(&addr, vec![(fund_id.clone(), observation_from_esplora_height(None))]);
    mock.insert_tx(&fund_id, serialize_tx_hex(&fund));

    let source = EsploraBdkUpdateSource::new(
        || mock.ask_tip(),
        |address: &str, _: &Vec<u8>, cursor: Option<&str>| mock.ask_history(address, cursor),
        |txid: &str| mock.ask_tx(txid),
    );
    assert_eq!(source.stop_gap(), BDK_FULL_SCAN_DEFAULT_STOP_GAP);
    let snap = list_bip84_utxos_with_bdk_sync(&mut w, &source).unwrap();
    assert_eq!(snap.utxos.len(), 1);
    assert_eq!(snap.utxos[0].amount_sats, 12_345);
    assert_eq!(w.revealed_external_count(), deep + 1);

    // Empty wallet: only tip + empty look-ahead → zero UTXOs, not invented.
    let mut w2 = test_wallet();
    let mock2 = MockServer::with_tip(10);
    let empty = list_bip84_utxos_with_bdk_sync(&mut w2, &mock2.esplora(2)).unwrap();
    assert!(empty.utxos.is_empty());
    assert_eq!(empty.balance.total_sats(), 0);
}

#[test]
fn esplora_transport_error_is_sync_failure_not_empty_success() {
    let mut w = test_wallet();
    let mut mock = MockServer::with_tip(1);
    mock.tip = Err("simulated tip 503".to_string());
    let source = mock.esplora(20);
    let err = list_bip84_utxos_with_bdk_sync(&mut w, &source).unwrap_err().to_string();
    assert!(err.contains("tip") || err.contains("503"), "{err}");
    assert_eq!(w.list_wallet_utxos().unwrap().len(), 0);

    let pay_to = w.peek_receive_address(1);
    let spend_err = select_and_prepare_bip84_spend_with_bdk_sync(
        &mut w,
        &source,
        5,
        |_: u32| Ok(()),
        |_: &(), sync: &WalletSyncSnapshot, gap: u32| prepare_spend(sync, gap, &pay_to, 1_000, 5),
    )
    .err()
    .unwrap();
    assert!(!spend_err.is_after_sync());
    assert!(spend_err.sync_snapshot().is_none());
}

#[test]
fn electrum_transport_full_scan_spent_tx_drop() {
    let mut w = test_wallet();
    let spk0 = w.receive_script_pubkey(0);
    let spk5 = w.receive_script_pubkey(5);
    let fund0 = funding_tx_to_script(&spk0, 50_000, 0);
    let fund5 = funding_tx_to_script(&spk5, 30_000, 1);
    let spend0 = spend_tx_from_outpoint(fund0.outpoint(0), &foreign_script(0x22), 49_000, 2);
    let fund0_id = fund0.txid_text().to_string();
    let fund5_id = fund5.txid_text().to_string();
    let spend0_id = spend0.txid_text().to_string();

    let mut mock = MockServer::with_tip(100);
    mock.insert_history(
        &hex(&spk0),
        vec![
            (fund0_id.clone(), observation_from_electrum_height(90)),
            (spend0_id.clone(), observation_from_electrum_height(95)),
        ],
    );
    mock.insert_history(
        &hex(&spk5),
        vec![(fund5_id.clone(), observation_from_electrum_height(91))],
    );
    mock.insert_tx(&fund0_id, serialize_tx_hex(&fund0));
    mock.insert_tx(&fund5_id, serialize_tx_hex(&fund5));
    mock.insert_tx(&spend0_id, serialize_tx_hex(&spend0));

    // stop_gap must exceed empty run between index 0 and 5.
    let snap = list_bip84_utxos_with_bdk_sync(&mut w, &mock.electrum(6)).unwrap();
    assert_eq!(snap.utxos.len(), 1);
    assert_eq!(snap.utxos[0].amount_sats, 30_000);
    assert_eq!(snap.highest_used_receive, Some(5));

    assert!(mock.called("tip"));
    assert!(mock.called("history"));
    assert!(mock.called("tx "));
}

#[test]
fn electrum_transport_error_is_sync_failure() {
    let mut w = test_wallet();
    let mut mock = MockServer::with_tip(1);
    mock.tip = Err("refused".to_string());
    let err = list_bip84_utxos_with_bdk_sync(&mut w, &mock.electrum(20)).unwrap_err().to_string();
    assert!(err.contains("headers") || err.contains("subscribe"), "{err}");
    assert_eq!(w.list_wallet_utxos().unwrap().len(), 0);
}

#[test]
fn stop_gap_zero_rejected() {
    let mut w = test_wallet();
    let mock = MockServer::with_tip(10);
    let err = list_bip84_utxos_with_bdk_sync(&mut w, &mock.esplora(0)).unwrap_err().to_string();
    assert!(err.contains("stop_gap"), "{err}");
}

#[test]
fn esplora_mid_scan_history_error_is_sync_failure() {
    let mut w = test_wallet();
    let addr0 = w.peek_receive_address(0);
    let mut mock = MockServer::with_tip(100);
    mock.history_fails.insert(addr0, "simulated address txs 503".to_string());
    let err = list_bip84_utxos_with_bdk_sync(&mut w, &mock.esplora(2)).unwrap_err().to_string();
    assert!(err.contains("address txs") || err.contains("503"), "{err}");
    assert_eq!(w.list_wallet_utxos().unwrap().len(), 0);
}

#[test]
fn esplora_mid_scan_tx_hex_error_is_sync_failure() {
    let mut w = test_wallet();
    let addr0 = w.peek_receive_address(0);
    let fund = funding_tx_to_script(&w.receive_script_pubkey(0), 10_000, 0);
    let fund_id = fund.txid_text().to_string();
    let mut mock = MockServer::with_tip(100);
    mock.insert_history(&addr0, vec![(fund_id.clone(), confirmed(90))]);
    mock.tx_fails.insert(fund_id, "simulated tx hex 404".to_string());
    let err = list_bip84_utxos_with_bdk_sync(&mut w, &mock.esplora(2)).unwrap_err().to_string();
    assert!(err.contains("tx hex") || err.contains("404"), "{err}");
    assert_eq!(w.list_wallet_utxos().unwrap().len(), 0);
}

#[test]
fn electrum_mid_scan_history_error_is_sync_failure() {
    let mut w = test_wallet();
    let sh0 = hex(&w.receive_script_pubkey(0));
    let mut mock = MockServer::with_tip(100);
    mock.history_fails.insert(sh0, "simulated get_history 503".to_string());
    let err = list_bip84_utxos_with_bdk_sync(&mut w, &mock.electrum(2)).unwrap_err().to_string();
    assert!(err.contains("get_history") || err.contains("503"), "{err}");
    assert_eq!(w.list_wallet_utxos().unwrap().len(), 0);
}

#[test]
fn electrum_mid_scan_tx_get_error_is_sync_failure() {
    let mut w = test_wallet();
    let fund = funding_tx_to_script(&w.receive_script_pubkey(0), 10_000, 0);
    let fund_id = fund.txid_text().to_string();
    let sh0 = hex(&w.receive_script_pubkey(0));
    let mut mock = MockServer::with_tip(100);
    mock.insert_history(&sh0, vec![(fund_id, confirmed(90))]);
    // No transaction inserted: the request for it fails.
    let err = list_bip84_utxos_with_bdk_sync(&mut w, &mock.electrum(2)).unwrap_err().to_string();
    assert!(err.contains("transaction.get") || err.contains("fixture"), "{err}");
    assert_eq!(w.list_wallet_utxos().unwrap().len(), 0);
}

#[test]
fn transport_update_uses_history_height_not_tip_anchor() {
    let mut w = test_wallet();
    let addr0 = w.peek_receive_address(0);
    let fund = funding_tx_to_script(&w.receive_script_pubkey(0), 25_000, 0);
    let fund_id = fund.txid_text().to_string();
    // Confirmed at 90, tip 100 → confirmations = 11.
    let mut mock = MockServer::with_tip(100);
    mock.insert_history(&addr0, vec![(fund_id.clone(), confirmed(90))]);
    mock.insert_tx(&fund_id, serialize_tx_hex(&fund));
    let snap = list_bip84_utxos_with_bdk_sync(&mut w, &mock.esplora(2)).unwrap();
    assert_eq!(snap.utxos.len(), 1);
    assert_eq!(
        snap.utxos[0].confirmations, 11,
        "must use history height 90 vs tip 100, not tip-anchor conf=1"
    );
}

#[test]
fn transport_unconfirmed_stays_zero_confirmations() {
    let mut w = test_wallet();
    let addr0 = w.peek_receive_address(0);
    let fund = funding_tx_to_script(&w.receive_script_pubkey(0), 15_000, 0);
    let fund_id = fund.txid_text().to_string();
    let mut mock = MockServer::with_tip(100);
    mock.insert_history(&addr0, vec![(fund_id.clone(), BdkTxObservation::Unconfirmed)]);
    mock.insert_tx(&fund_id, serialize_tx_hex(&fund));
    let snap = list_bip84_utxos_with_bdk_sync(&mut w, &mock.esplora(2)).unwrap();
    assert_eq!(snap.utxos.len(), 1);
    assert_eq!(
        snap.utxos[0].confirmations, 0,
        "mempool must not become tip-anchored confirmed"
    );
    assert_eq!(snap.balance.confirmed_sats, 0);
    assert_eq!(snap.balance.unconfirmed_sats, 15_000);
}

#[test]
fn esplora_paginates_chain_history_beyond_first_page() {
    let mut w = test_wallet();
    let addr0 = w.peek_receive_address(0);
    // Page 1: ESPLORA_TXS_PAGE_SIZE newest dummy txids + no real wallet coin.
    // Page 2 (chain): the real funding tx at older height.
    // Pagination must fetch page 2 so the funding UTXO is not missed.
    let fund = funding_tx_to_script(&w.receive_script_pubkey(0), 40_000, 0);
    let fund_id = fund.txid_text().to_string();

    let mut mock = MockServer::with_tip(100);
    let mut page1 = Vec::new();
    for i in 0..ESPLORA_TXS_PAGE_SIZE {
        // Distinct locktimes so each dummy funding tx has a unique txid.
        let dummy = funding_tx_to_script(&foreign_script(0xab), 1, i as u32);
        let id = dummy.txid_text().to_string();
        mock.insert_tx(&id, serialize_tx_hex(&dummy));
        page1.push((id, confirmed(95)));
    }
    let last_of_page1 = page1.last().unwrap().0.clone();
    mock.insert_history(&addr0, page1);
    mock.insert_history(
        &format!("{addr0}/chain/{last_of_page1}"),
        vec![(fund_id.clone(), confirmed(80))],
    );
    mock.insert_tx(&fund_id, serialize_tx_hex(&fund));

    let snap = list_bip84_utxos_with_bdk_sync(&mut w, &mock.esplora(2)).unwrap();
    // Foreign dummy outputs are ignored; only our SPK's fund UTXO remains.
    assert_eq!(snap.utxos.len(), 1);
    assert_eq!(snap.utxos[0].amount_sats, 40_000);
    assert_eq!(snap.utxos[0].confirmations, 21); // tip 100, height 80
    assert!(
        mock.calls.borrow().iter().any(|p| p.contains("/chain/")),
        "expected chain pagination call"
    );
}

#[test]
fn scanned_tx_future_height_rejected() {
    let fund = funding_tx_to_script(&foreign_script(0xcd), 1_000, 0);
    let err = chain_update_from_scanned_txs(
        Network::Regtest,
        10,
        &vec![ScannedTx { tx: fund, observation: BdkTxObservation::Confirmed { height: 50 } }],
        None,
        None,
    )
    .err()
    .unwrap()
    .to_string();
    assert!(err.contains("exceeds tip"), "{err}");
}

fn nothing_built() -> CompiledBackends {
    CompiledBackends { explorer_http: false, esplora: false, electrum: false }
}

fn everything_built() -> CompiledBackends {
    CompiledBackends { explorer_http: true, esplora: true, electrum: true }
}

#[test]
fn open_product_bdk_update_source_mempool_fail_closed() {
    let config = ProductChainSourceConfig::mempool();
    let err = match open_product_bdk_update_source(&config, everything_built()) {
        Ok(_) => panic!("mempool must not open a BDK full_scan source"),
        Err(e) => e.to_string(),
    };
    let lower = err.to_ascii_lowercase();
    assert!(lower.contains("mempool"), "err={err}");
    assert!(
        lower.contains("bdk") || lower.contains("full_scan"),
        "err={err}"
    );
    assert!(
        lower.contains("gap") || lower.contains("esplora") || lower.contains("electrum"),
        "err={err}"
    );
    assert!(!lower.contains("crypto"));
    assert_eq!(err, bdk_utxo_sync_mempool_unsupported_error().to_string());
}

#[test]
fn open_product_bdk_update_source_esplora_feature_honesty() {
    let cfg = ProductChainSourceConfig {
        kind: ChainSourceKind::Esplora,
        esplora_url: Some("https://blockstream.info/api".into()),
        electrum_addr: None,
        electrum_tls: false,
    };
    let err = match open_product_bdk_update_source(&cfg, nothing_built()) {
        Ok(_) => panic!("expected feature-missing error"),
        Err(e) => e.to_string(),
    };
    assert!(err.contains("feature `esplora`"), "err={err}");
    assert!(
        err.contains("not compiled") || err.contains("bdk"),
        "err={err}"
    );
    assert_eq!(
        open_product_bdk_update_source(&cfg, everything_built()).unwrap(),
        ScanEndpoint::Esplora { base_url: "https://blockstream.info/api".to_string() },
        "live Esplora BDK source constructs without I/O"
    );
}

#[test]
fn open_product_bdk_update_source_electrum_feature_honesty() {
    let cfg = ProductChainSourceConfig {
        kind: ChainSourceKind::Electrum,
        esplora_url: None,
        electrum_addr: Some("127.0.0.1:50001".into()),
        electrum_tls: false,
    };
    let err = match open_product_bdk_update_source(&cfg, nothing_built()) {
        Ok(_) => panic!("expected feature-missing error"),
        Err(e) => e.to_string(),
    };
    assert!(err.contains("feature `electrum`"), "err={err}");
    assert!(
        err.contains("not compiled") || err.contains("bdk"),
        "err={err}"
    );
    assert_eq!(
        open_product_bdk_update_source(&cfg, everything_built()).unwrap(),
        ScanEndpoint::Electrum { addr: "127.0.0.1:50001".to_string(), tls: false },
        "live Electrum BDK source constructs without I/O"
    );
}

#[test]
fn product_prefer_bdk_list_with_mock_source() {
    let mut w = test_wallet();
    let fund = funding_tx_to_script(&w.receive_script_pubkey(0), 12_000, 0);
    let update =
        chain_update_from_transactions(Network::Regtest, 50, vec![fund], Some(0), None)
            .ok()
            .unwrap();
    let source = MockBdkUpdateSource::with_update(update);
    // Same entry as shell prefer-BDK after open_product_* (inject mock offline).
    let snap = list_bip84_utxos_with_bdk_sync(&mut w, &source).unwrap();
    assert_eq!(snap.utxos.len(), 1);
    assert_eq!(snap.utxos[0].amount_sats, 12_000);
    let notices = bdk_sync_notice_lines(&snap);
    let j = notices.join("\n").to_ascii_lowercase();
    assert!(j.contains("bdk"), "notices={notices:?}");
    // BDK notice contrasts "not gap-limit"; reject gap-only residual phrasing.
    assert!(
        !j.contains("gap-limit chainsource sync only") && !j.contains("not full bdk_wallet"),
        "must not use gap residual copy: {notices:?}"
    );
    assert!(!j.contains("crypto"));
}

#[test]
fn addresses_of_the_test_vector() {
    // Mainnet account of the same words, as BIP-84 lists it.
    let w = match BdkBip84Wallet::from_descriptors(
        "wpkh([73c5da0a/84'/0'/0']xpub6CatWdiZiodmUeTDp8LT5or8nmbKNcuyvz7WyksVFkKB4RHwCD3XyuvPEbvqAQY3rAPshWcMLoP2fMFMKHPJ4ZeZXYVUhLv1VMrjPC7PW6V/0/*)",
        "wpkh([73c5da0a/84'/0'/0']xpub6CatWdiZiodmUeTDp8LT5or8nmbKNcuyvz7WyksVFkKB4RHwCD3XyuvPEbvqAQY3rAPshWcMLoP2fMFMKHPJ4ZeZXYVUhLv1VMrjPC7PW6V/1/*)",
        Network::Bitcoin,
    ) {
        Ok(w) => w,
        Err(e) => panic!("{}", e.to_string()),
    };
    assert_eq!(w.network(), Network::Bitcoin);
    assert_eq!(w.peek_receive_address(0), "bc1qcr8te4kr609gcawutmrza0j4xv80jy8z306fyu");
    assert_eq!(w.peek_receive_address(1), "bc1qnjg0jd8228aq7egyzacy8cys3knf9xvrerkf9g");
    assert_eq!(w.peek_change_address(0), "bc1q8c6fshw2dlwun7ekn9qwf37cu2rn755upcp6el");
    assert_eq!(hex(&w.receive_script_pubkey(0)), "0014c0cebcd6c3d3ca8c75dc5ec62ebe55330ef910e2");
    assert_eq!(w.index_of_address(false, "bc1qnjg0jd8228aq7egyzacy8cys3knf9xvrerkf9g"), Some(1));
    assert_eq!(w.index_of_address(true, "bc1qnjg0jd8228aq7egyzacy8cys3knf9xvrerkf9g"), None);
    assert_eq!(
        w.debug_text(),
        "BdkBip84Wallet { network: Bitcoin, receive_descriptor: \"[descriptor redacted]\", change_descriptor: \"[descriptor redacted]\", external_index: None, internal_index: None }"
    );
}

#[test]
fn descriptors_that_make_no_wallet() {
    let err = BdkBip84Wallet::from_descriptors("wpkh(nonsense)", "wpkh(nonsense)", Network::Regtest)
        .err()
        .unwrap()
        .to_string();
    assert!(err.starts_with("bdk_wallet create failed: "), "{err}");
    let err = BdkBip84Wallet::from_descriptors("nonsense", "", Network::Regtest)
        .err()
        .unwrap()
        .to_string();
    assert!(err.starts_with("bdk_wallet create failed: "), "{err}");
}

#[test]
fn transactions_in_hexadecimal() {
    let script = foreign_script(0x11);
    let fund = funding_tx_to_script(&script, 50_000, 7);
    let parsed: bitcoin::Transaction =
        bitcoin::consensus::encode::deserialize_hex(&serialize_tx_hex(&fund)).unwrap();
    assert!(parsed.input.is_empty());
    assert_eq!(parsed.output[0].value.to_sat(), 50_000);
    assert_eq!(parsed.output[0].script_pubkey.to_bytes(), script);
    assert_eq!(parsed.lock_time.to_consensus_u32(), 7);
    assert_eq!(parsed.compute_txid().to_string(), fund.txid_text());

    let spend = spend_tx_from_outpoint(fund.outpoint(3), &script, 49_000, 0);
    let parsed: bitcoin::Transaction =
        bitcoin::consensus::encode::deserialize_hex(&serialize_tx_hex(&spend)).unwrap();
    assert_eq!(parsed.input[0].previous_output.txid.to_string(), fund.txid_text());
    assert_eq!(parsed.input[0].previous_output.vout, 3);
    let mut id = [0u8; 32];
    id[31] = 0xab;
    let other = spend_tx_from_outpoint(BdkOutPoint { txid: id, vout: 9 }, &script, 1, 0);
    let spent: bitcoin::Transaction =
        bitcoin::consensus::encode::deserialize_hex(&serialize_tx_hex(&other)).unwrap();
    assert_eq!(
        spent.input[0].previous_output.to_string(),
        "ab00000000000000000000000000000000000000000000000000000000000000:9"
    );
    assert_eq!(parsed.input[0].sequence, bitcoin::Sequence::MAX);
    assert!(parsed.input[0].script_sig.is_empty() && parsed.input[0].witness.is_empty());
    assert_eq!(parsed.version, bitcoin::transaction::Version::TWO);

    assert_eq!(
        serialize_tx_hex(&funding_tx_to_script(&vec![0x51], 1_000, 0)),
        "0200000000010001e803000000000000015100000000"
    );

    let upper = format!(" {} \n", serialize_tx_hex(&spend).to_ascii_uppercase());
    let read = deserialize_tx_hex(&upper).ok().unwrap();
    assert_eq!(read.txid_text(), spend.txid_text());
    assert_eq!(serialize_tx_hex(&read), serialize_tx_hex(&spend));
    assert_eq!(
        deserialize_tx_hex("  ").err().unwrap().to_string(),
        "bdk full_scan tx hex body is empty"
    );
    assert!(deserialize_tx_hex("00zz")
        .err()
        .unwrap()
        .to_string()
        .starts_with("bdk full_scan tx hex deserialize failed: "));
}

#[test]
fn update_is_what_was_scanned() {
    let fund = funding_tx_to_script(&foreign_script(0x11), 1, 0);
    let seen = funding_tx_to_script(&foreign_script(0x11), 1, 1);
    let fund_id = bitcoin::Txid::from_str(fund.txid_text()).unwrap();
    let seen_id = bitcoin::Txid::from_str(seen.txid_text()).unwrap();
    let update = chain_update_from_scanned_txs(
        Network::Regtest,
        10,
        &vec![
            ScannedTx { tx: fund, observation: confirmed(4) },
            ScannedTx { tx: seen, observation: BdkTxObservation::Unconfirmed },
        ],
        Some(3),
        None,
    )
    .ok()
    .unwrap();
    let chain = update.chain.unwrap();
    assert_eq!(chain.height(), 10);
    let heights: Vec<u32> = chain.iter().map(|c| c.height()).collect();
    assert_eq!(heights, vec![10, 4, 0]);
    let txids: Vec<bitcoin::Txid> =
        update.tx_update.txs.iter().map(|tx| tx.compute_txid()).collect();
    assert_eq!(txids, vec![fund_id, seen_id]);
    assert_eq!(update.tx_update.anchors.len(), 1);
    let (anchor, txid) = update.tx_update.anchors.iter().next().unwrap();
    assert_eq!((anchor.block_id.height, *txid), (4, fund_id));
    let unconfirmed: Vec<bitcoin::Txid> =
        update.tx_update.seen_ats.iter().map(|(txid, _)| *txid).collect();
    assert_eq!(unconfirmed, vec![seen_id]);
    assert_eq!(update.last_active_indices.len(), 1);
}

#[test]
fn observations() {
    assert_eq!(observation_from_esplora_height(Some(0)), BdkTxObservation::Unconfirmed);
    assert_eq!(observation_from_esplora_height(Some(7)), confirmed(7));
    assert_eq!(observation_from_electrum_height(-1), BdkTxObservation::Unconfirmed);
    assert_eq!(observation_from_electrum_height(1 << 32), BdkTxObservation::Unconfirmed);
    assert_eq!(merge_observation(confirmed(7), confirmed(5)), confirmed(5));
    assert_eq!(merge_observation(BdkTxObservation::Unconfirmed, confirmed(5)), confirmed(5));
    assert_eq!(
        merge_observation(BdkTxObservation::Unconfirmed, BdkTxObservation::Unconfirmed),
        BdkTxObservation::Unconfirmed
    );
}

#[test]
fn limits_of_a_scan() {
    assert_eq!(normalize_stop_gap(5).unwrap(), 5);
    assert_eq!(normalize_stop_gap(u32::MAX).unwrap(), BDK_FULL_SCAN_MAX_INDEX);
    assert_eq!(
        normalize_stop_gap(0).unwrap_err().to_string(),
        "bdk full_scan stop_gap must be > 0"
    );
    assert_eq!(tip_height_to_u32(9).unwrap(), 9);
    assert_eq!(
        tip_height_to_u32(1 << 32).unwrap_err().to_string(),
        "bdk full_scan tip_height 4294967296 exceeds u32"
    );
    assert_eq!(
        tip_from_reply(ScanServer::Esplora, &TipReply::Unreadable("x\"".to_string()))
            .unwrap_err()
            .to_string(),
        "bdk Esplora full_scan tip height unparseable: \"x\\\"\""
    );
    let mut expected = [0u8; 32];
    expected[..6].copy_from_slice(&[0x04, 0x03, 0x02, 0x01, 0xbd, 0x6b]);
    assert_eq!(synthetic_block_hash(0x0102_0304), expected);
}

#[test]
fn scan_asks_for_one_thing_after_the_other() {
    let mut scan = FullScan::new(ScanServer::Electrum, 1).ok().unwrap();
    let fund = funding_tx_to_script(&foreign_script(0x11), 1, 0);
    let id = fund.txid_text().to_string();
    assert!(matches!(scan.next(), ScanAction::History { change: false, index: 0, cursor: None }));
    scan.take_history(vec![HistoryEntry { txid: id.clone(), observation: confirmed(3) }]).unwrap();
    match scan.next() {
        ScanAction::Tx { txid } => assert_eq!(txid, id),
        _ => panic!("expected a transaction"),
    }
    scan.take_tx(&serialize_tx_hex(&fund)).unwrap();
    assert!(matches!(scan.next(), ScanAction::History { change: false, index: 1, cursor: None }));
    scan.take_history(vec![]).unwrap();
    assert!(matches!(scan.next(), ScanAction::History { change: true, index: 0, cursor: None }));
    scan.take_history(vec![]).unwrap();
    assert!(matches!(scan.next(), ScanAction::Done));
    let update = scan.finish(Network::Regtest, 5).ok().unwrap();
    assert_eq!(update.tx_update.txs.len(), 1);
}

#[test]
fn scan_refuses_another_transaction_than_it_asked_for() {
    let mut scan = FullScan::new(ScanServer::Esplora, 1).ok().unwrap();
    let fund = funding_tx_to_script(&foreign_script(0x11), 1, 0);
    scan.take_history(vec![HistoryEntry { txid: "00".repeat(32), observation: confirmed(3) }])
        .unwrap();
    assert!(scan.take_tx(&serialize_tx_hex(&fund)).is_err());
}

fn coin(amount_sats: u64, confirmations: u32) -> WalletUtxo {
    WalletUtxo {
        outpoint: OutPointRef { txid: "00".repeat(32), vout: 0 },
        amount_sats,
        address: "bcrt1q".to_string(),
        confirmations,
        is_change: false,
    }
}

#[test]
fn balances() {
    assert_eq!(
        balance_from_utxos(&vec![coin(5, 0), coin(7, 1), coin(8, 2)]).unwrap(),
        WalletBalance { confirmed_sats: 15, unconfirmed_sats: 5 }
    );
    assert_eq!(
        balance_from_utxos(&vec![coin(u64::MAX, 1), coin(1, 1)]).unwrap_err().to_string(),
        "wallet balance overflows"
    );
    assert_eq!(
        WalletBalance { confirmed_sats: u64::MAX, unconfirmed_sats: 1 }.total_sats(),
        u64::MAX
    );
}

#[test]
fn coin_of_an_unknown_address_is_not_signed_for() {
    let w = test_wallet();
    let err = assert_snapshot_utxos_within_sign_gap(&w, &vec![coin(5, 1)], 20)
        .unwrap_err()
        .to_string();
    assert!(err.contains("could not be mapped to a derivation index within sign gap 20"), "{err}");
    assert!(assert_snapshot_utxos_within_sign_gap(&w, &vec![], 20).is_ok());
}

#[test]
fn longest_transaction_that_is_read() {
    // 25 bytes stand around a script of this length.
    let longest = funding_tx_to_script(&vec![0x51; 3_999_975], 1, 0);
    let hex = serialize_tx_hex(&longest);
    assert_eq!(hex.len(), 8_000_000);
    assert_eq!(deserialize_tx_hex(&hex).ok().unwrap().txid_text(), longest.txid_text());
    let longer = funding_tx_to_script(&vec![0x51; 3_999_976], 1, 0);
    assert!(deserialize_tx_hex(&serialize_tx_hex(&longer)).is_err());
}

#[test]
fn wallet_can_be_changed_from_within() {
    let mut w = test_wallet();
    assert_eq!(w.revealed_external_count(), 0);
    w.inner_mut().reveal_next_address(bdk_wallet::KeychainKind::External);
    assert_eq!(w.revealed_external_count(), 1);
}

#[test]
fn scan_orders_transactions_by_id() {
    let mut txs = Vec::new();
    for i in 0..5 {
        txs.push(funding_tx_to_script(&foreign_script(0x11), 1, i));
    }
    // Latest ids first, so that the order of the history is not that of the ids.
    txs.sort_by(|a, b| b.txid_text().cmp(a.txid_text()));
    let mut scan = FullScan::new(ScanServer::Electrum, 1).ok().unwrap();
    let mut entries = Vec::new();
    for tx in &txs {
        entries.push(HistoryEntry {
            txid: tx.txid_text().to_string(),
            observation: confirmed(3),
        });
    }
    scan.take_history(entries).unwrap();
    for tx in &txs {
        scan.take_tx(&serialize_tx_hex(tx)).unwrap();
    }
    scan.take_history(vec![]).unwrap();
    scan.take_history(vec![]).unwrap();
    let update = scan.finish(Network::Regtest, 5).ok().unwrap();
    let found: Vec<String> =
        update.tx_update.txs.iter().map(|tx| tx.compute_txid().to_string()).collect();
    let mut expected: Vec<String> = txs.iter().map(|tx| tx.txid_text().to_string()).collect();
    expected.sort();
    assert_eq!(found, expected);
}

#[test]
fn history_without_an_end_is_refused() {
    let mut scan = FullScan::new(ScanServer::Esplora, 1).ok().unwrap();
    let page = |n: usize| {
        let mut entries = Vec::new();
        for i in 0..25 {
            entries.push(HistoryEntry {
                txid: format!("{:064x}", n * 25 + i),
                observation: confirmed(3),
            });
        }
        entries
    };
    for n in 0..199 {
        scan.take_history(page(n)).unwrap();
    }
    assert_eq!(
        scan.take_history(page(199)).unwrap_err().to_string(),
        "bdk Esplora full_scan address history exceeded 200 pages at index 0 (refusing silent truncate)"
    );
}
