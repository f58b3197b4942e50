//! Updates of a `bdk_wallet` wallet: the blocks, transactions and addresses that a scan found.

use vstd::prelude::*;
use vstd::string::StringExecFns;

use crate::bdk_sync::{
    lemma_stand_ins_differ, stand_in_hash, synthetic_block_hash, BdkTxObservation,
};
use crate::error::{onchain_error, WalletError};
use crate::network::Network;
use crate::text::{decimal, decimal_text, hex_of, hex_text, trim, trimmed};

verus! {

/// Outside type: an update as `bdk_wallet` takes it.
#[verifier::external_type_specification]
#[verifier::external_body]
pub struct ExUpdate(bdk_wallet::Update);

/// Outside type: a transaction as `bitcoin` holds it.
#[verifier::external_type_specification]
#[verifier::external_body]
pub struct ExTransaction(bitcoin::Transaction);

/// Input of a transaction: the output that it spends, and what entitles it to.
pub struct Spend {
    pub txid: Seq<char>,
    pub vout: u32,
    pub script: Seq<u8>,
    pub sequence: u32,
    pub witness: Seq<Seq<u8>>,
}

/// Output of a transaction.
pub struct Payment {
    pub amount: u64,
    pub script: Seq<u8>,
}

/// What a transaction holds.
pub struct TxData {
    pub version: i32,
    pub inputs: Seq<Spend>,
    pub outputs: Seq<Payment>,
    pub lock_time: u32,
}

/// What a transaction holds.
pub uninterp spec fn tx_data(tx: &bitcoin::Transaction) -> TxData;

/// The transaction that a text writes in hexadecimal, or what the parser says of it.
pub uninterp spec fn tx_parsed(hex: Seq<char>) -> Result<TxData, Seq<char>>;

/// Calls `bitcoin::consensus::encode::deserialize_hex`: the transaction, or the text of the error.
/// Both depend on the text alone.
#[verifier::external_body]
fn read_tx(hex: &str) -> (r: Result<bitcoin::Transaction, String>)
    ensures
        tx_parsed(hex@) == match r {
            Ok(tx) => Ok(tx_data(&tx)),
            Err(e) => Err(e@),
        },
{
    match bitcoin::consensus::encode::deserialize_hex(hex) {
        Ok(tx) => Ok(tx),
        Err(e) => Err(e.to_string()),
    }
}

/// The text writes the transaction that holds this.
pub open spec fn reads_as(hex: Seq<char>, data: TxData) -> bool {
    tx_parsed(hex) matches Ok(read) && read == data
}

/// A transaction in hexadecimal.
pub uninterp spec fn tx_hex(data: TxData) -> Seq<char>;

/// Calls `bitcoin::consensus::encode::serialize_hex`: a text that depends on what the transaction
/// holds alone. `deserialize_hex` reads it as the same transaction, where it is not longer than the
/// four million bytes that it reads at most.
#[verifier::external_body]
fn write_tx(tx: &bitcoin::Transaction) -> (text: String)
    ensures
        text@ == tx_hex(tx_data(tx)),
        text@.len() <= 8_000_000 ==> reads_as(text@, tx_data(tx)),
{
    bitcoin::consensus::encode::serialize_hex(tx)
}

/// The id of a transaction, as it is written.
pub uninterp spec fn tx_id(data: TxData) -> Seq<char>;

/// How the bytes of a transaction id are written: from the last to the first, in hexadecimal.
pub open spec fn id_text(bytes: Seq<u8>) -> Seq<char> {
    hex_of(bytes.reverse())
}

/// Calls `bitcoin::Transaction::compute_txid`: the bytes of a hash of what the transaction holds,
/// which `bitcoin::Txid` writes from the last to the first.
#[verifier::external_body]
fn id_of_tx(tx: &bitcoin::Transaction) -> (bytes: [u8; 32])
    ensures
        id_text(bytes@) == tx_id(tx_data(tx)),
{
    bitcoin::hashes::Hash::to_byte_array(tx.compute_txid())
}

/// How the bytes of a transaction id are written.
fn written_id(bytes: &[u8; 32]) -> (text: String)
    ensures
        text@ == id_text(bytes@),
{
    let mut turned: Vec<u8> = Vec::new();
    for i in 0..32usize
        invariant
            turned@.len() == i,
            forall|k: int| 0 <= k < i ==> turned@[k] == bytes@[31 - k],
    {
        turned.push(bytes[31 - i]);
    }
    assert(turned@ =~= bytes@.reverse());
    hex_text(turned.as_slice())
}

/// Output of a transaction: the bytes of the id of the transaction, and the place of the output.
#[derive(Clone, Copy, PartialEq, Eq, Debug)]
pub struct BdkOutPoint {
    pub txid: [u8; 32],
    pub vout: u32,
}

/// The inputs of a transaction that spends one output, or nothing, and has no signature.
pub open spec fn plain_inputs(spent: Option<(Seq<char>, u32)>) -> Seq<Spend> {
    match spent {
        Some((txid, vout)) => seq![
            Spend {
                txid,
                vout,
                script: Seq::empty(),
                sequence: 0xffff_ffff,
                witness: Seq::empty(),
            },
        ],
        None => Seq::empty(),
    }
}

/// Makes a `bitcoin::Transaction` with one output. Where it has an input, that is
/// `bitcoin::TxIn::default` with another output to spend.
#[verifier::external_body]
fn make_tx(
    version: i32,
    spent: Option<BdkOutPoint>,
    amount: u64,
    script: &Vec<u8>,
    lock_time: u32,
) -> (tx: bitcoin::Transaction)
    ensures
        tx_data(&tx) == (TxData {
            version,
            inputs: plain_inputs(
                match spent {
                    Some(output) => Some((id_text(output.txid@), output.vout)),
                    None => None,
                },
            ),
            outputs: seq![Payment { amount, script: script@ }],
            lock_time,
        }),
{
    let input = spent.map(|output| bitcoin::TxIn {
        previous_output: bitcoin::OutPoint {
            txid: bitcoin::hashes::Hash::from_byte_array(output.txid),
            vout: output.vout,
        },
        ..Default::default()
    });
    let script_pubkey = bitcoin::ScriptBuf::from_bytes(script.clone());
    bitcoin::Transaction {
        version: bitcoin::transaction::Version(version),
        lock_time: bitcoin::absolute::LockTime::from_consensus(lock_time),
        input: input.into_iter().collect(),
        output: vec![bitcoin::TxOut { value: bitcoin::Amount::from_sat(amount), script_pubkey }],
    }
}

/// Transaction with its id.
pub struct BdkTx {
    inner: bitcoin::Transaction,
    id_bytes: [u8; 32],
    id: String,
}

impl BdkTx {
    #[verifier::type_invariant]
    closed spec fn valid(&self) -> bool {
        &&& self.id@ == tx_id(tx_data(&self.inner))
        &&& id_text(self.id_bytes@) == self.id@
    }

    /// What the transaction holds.
    pub closed spec fn data(&self) -> TxData {
        tx_data(&self.inner)
    }

    /// The id.
    pub open spec fn txid(&self) -> Seq<char> {
        tx_id(self.data())
    }

    /// The transaction with its id.
    fn new(inner: bitcoin::Transaction) -> (tx: BdkTx)
        ensures
            tx.data() == tx_data(&inner),
    {
        let id_bytes = id_of_tx(&inner);
        let id = written_id(&id_bytes);
        BdkTx { inner, id_bytes, id }
    }

    /// An output, which need not be there.
    pub fn outpoint(&self, vout: u32) -> (output: BdkOutPoint)
        ensures
            id_text(output.txid@) == self.txid(),
            output.vout == vout,
    {
        proof {
            use_type_invariant(self);
        }
        BdkOutPoint { txid: self.id_bytes, vout }
    }

    /// The id.
    pub fn txid_text(&self) -> (text: &str)
        ensures
            text@ == self.txid(),
    {
        proof {
            use_type_invariant(self);
        }
        self.id.as_str()
    }
}

/// The transaction that a text writes in hexadecimal, white space around it aside, or what is wrong
/// with it.
pub open spec fn tx_of(body: Seq<char>) -> Result<TxData, Seq<char>> {
    if trimmed(body).len() == 0 {
        Err("bdk full_scan tx hex body is empty"@)
    } else {
        match tx_parsed(trimmed(body)) {
            Ok(data) => Ok(data),
            Err(e) => Err("bdk full_scan tx hex deserialize failed: "@ + e),
        }
    }
}

/// The transaction that a text writes in hexadecimal.
pub fn deserialize_tx_hex(hex_body: &str) -> (r: Result<BdkTx, WalletError>)
    ensures
        match tx_of(hex_body@) {
            Ok(data) => r matches Ok(tx) && tx.data() == data,
            Err(message) => onchain_error(r, message),
        },
{
    let hex = trim(hex_body);
    if hex.is_empty() {
        return Err(WalletError::Onchain("bdk full_scan tx hex body is empty".to_owned()));
    }
    match read_tx(hex) {
        Ok(tx) => Ok(BdkTx::new(tx)),
        Err(e) => {
            let mut message = "bdk full_scan tx hex deserialize failed: ".to_owned();
            message.append(e.as_str());
            Err(WalletError::Onchain(message))
        },
    }
}

/// A transaction in hexadecimal. Read again it is the same transaction, unless it is longer than
/// what is read.
pub fn serialize_tx_hex(tx: &BdkTx) -> (text: String)
    ensures
        text@ == tx_hex(tx.data()),
        text@.len() <= 8_000_000 ==> reads_as(text@, tx.data()),
{
    write_tx(&tx.inner)
}

/// A transaction without inputs that pays an amount to a script.
pub fn funding_tx_to_script(script_pubkey: &Vec<u8>, amount_sats: u64, locktime: u32) -> (tx: BdkTx)
    ensures
        tx.data() == (TxData {
            version: 2,
            inputs: Seq::empty(),
            outputs: seq![Payment { amount: amount_sats, script: script_pubkey@ }],
            lock_time: locktime,
        }),
{
    BdkTx::new(make_tx(2, None, amount_sats, script_pubkey, locktime))
}

/// A transaction that spends one output and pays an amount to a script. Neither fee nor signature
/// is looked at.
pub fn spend_tx_from_outpoint(
    prev: BdkOutPoint,
    script_pubkey: &Vec<u8>,
    amount_sats: u64,
    locktime: u32,
) -> (tx: BdkTx)
    ensures
        tx.data() == (TxData {
            version: 2,
            inputs: plain_inputs(Some((id_text(prev.txid@), prev.vout))),
            outputs: seq![Payment { amount: amount_sats, script: script_pubkey@ }],
            lock_time: locktime,
        }),
{
    BdkTx::new(make_tx(2, Some(prev), amount_sats, script_pubkey, locktime))
}

/// Transaction with where it was seen.
pub struct ScannedTx {
    pub tx: BdkTx,
    pub observation: BdkTxObservation,
}

/// Block: its height and its hash.
#[derive(Clone, Copy)]
pub struct BlockRef {
    pub height: u32,
    pub hash: [u8; 32],
}

/// The blocks of an update, from the lowest to the highest.
pub uninterp spec fn update_blocks(update: &bdk_wallet::Update) -> Seq<(u32, Seq<u8>)>;

/// The transactions of an update, in the order in which they were added.
pub uninterp spec fn update_txs(update: &bdk_wallet::Update) -> Seq<TxData>;

/// The blocks of the transactions of an update: the id, the height and hash of the block, and its
/// time.
pub uninterp spec fn update_anchors(update: &bdk_wallet::Update) -> Set<
    (Seq<char>, u32, Seq<u8>, u64),
>;

/// The transactions of an update that were seen outside of blocks, and when.
pub uninterp spec fn update_seen(update: &bdk_wallet::Update) -> Set<(Seq<char>, u64)>;

/// The last address in use of each chain of an update, that of change under `true`.
pub uninterp spec fn update_active(update: &bdk_wallet::Update) -> Map<bool, u32>;

/// An update with nothing in it.
pub open spec fn nothing_in(update: &bdk_wallet::Update) -> bool {
    &&& update_blocks(update).len() == 0
    &&& update_txs(update).len() == 0
    &&& update_anchors(update) == Set::<(Seq<char>, u32, Seq<u8>, u64)>::empty()
    &&& update_seen(update) == Set::<(Seq<char>, u64)>::empty()
    &&& update_active(update) == Map::<bool, u32>::empty()
}

/// Calls `bdk_wallet::Update::default`: an update with nothing in it.
#[verifier::external_body]
pub(crate) fn empty_update() -> (update: bdk_wallet::Update)
    ensures
        nothing_in(&update),
{
    bdk_wallet::Update::default()
}

/// The model of a list of blocks.
pub open spec fn blocks_view(blocks: Seq<BlockRef>) -> Seq<(u32, Seq<u8>)> {
    Seq::new(blocks.len(), |i: int| (blocks[i].height, blocks[i].hash@))
}

/// Heights that grow.
pub open spec fn ascending(heights: Seq<u32>) -> bool {
    forall|i: int, j: int| 0 <= i < j < heights.len() ==> heights[i] < heights[j]
}

/// Calls `bdk_wallet::chain::CheckPoint::from_block_ids`, which takes at least one block, each
/// higher than the one before, and makes the result the chain of the update.
#[verifier::external_body]
fn set_blocks(update: &mut bdk_wallet::Update, blocks: &Vec<BlockRef>) -> (ok: bool)
    ensures
        ok == (blocks@.len() > 0 && ascending(Seq::new(blocks@.len(), |i: int| blocks@[i].height))),
        update_blocks(final(update)) == if ok {
            blocks_view(blocks@)
        } else {
            update_blocks(old(update))
        },
        update_txs(final(update)) == update_txs(old(update)),
        update_anchors(final(update)) == update_anchors(old(update)),
        update_seen(final(update)) == update_seen(old(update)),
        update_active(final(update)) == update_active(old(update)),
{
    let ids = blocks.iter().map(
        |b|
            bdk_wallet::chain::BlockId {
                height: b.height,
                hash: bitcoin::hashes::Hash::from_byte_array(b.hash),
            },
    );
    match bdk_wallet::chain::CheckPoint::from_block_ids(ids) {
        Ok(chain) => {
            update.chain = Some(chain);
            true
        },
        Err(_) => false,
    }
}

/// Adds a transaction to the list `tx_update.txs` of the update, and the block that it is in with
/// the time of the block to the set `tx_update.anchors`.
#[verifier::external_body]
fn add_confirmed(
    update: &mut bdk_wallet::Update,
    tx: &bitcoin::Transaction,
    block: BlockRef,
    time: u64,
)
    ensures
        update_txs(final(update)) == update_txs(old(update)).push(tx_data(tx)),
        update_anchors(final(update)) == update_anchors(old(update)).insert(
            (tx_id(tx_data(tx)), block.height, block.hash@, time),
        ),
        update_blocks(final(update)) == update_blocks(old(update)),
        update_seen(final(update)) == update_seen(old(update)),
        update_active(final(update)) == update_active(old(update)),
{
    let hash = bitcoin::hashes::Hash::from_byte_array(block.hash);
    let block_id = bdk_wallet::chain::BlockId { height: block.height, hash };
    let anchor = bdk_wallet::chain::ConfirmationBlockTime { block_id, confirmation_time: time };
    update.tx_update.anchors.insert((anchor, tx.compute_txid()));
    update.tx_update.txs.push(std::sync::Arc::new(tx.clone()));
}

/// Adds a transaction to the list `tx_update.txs` of the update, and a time at which it was seen
/// outside of blocks to the set `tx_update.seen_ats`.
#[verifier::external_body]
fn add_unconfirmed(update: &mut bdk_wallet::Update, tx: &bitcoin::Transaction, seen_at: u64)
    ensures
        update_txs(final(update)) == update_txs(old(update)).push(tx_data(tx)),
        update_seen(final(update)) == update_seen(old(update)).insert(
            (tx_id(tx_data(tx)), seen_at),
        ),
        update_blocks(final(update)) == update_blocks(old(update)),
        update_anchors(final(update)) == update_anchors(old(update)),
        update_active(final(update)) == update_active(old(update)),
{
    update.tx_update.seen_ats.insert((tx.compute_txid(), seen_at));
    update.tx_update.txs.push(std::sync::Arc::new(tx.clone()));
}

/// Sets the last address in use of one chain in the map `last_active_indices` of the update.
#[verifier::external_body]
fn set_active(update: &mut bdk_wallet::Update, change: bool, index: u32)
    ensures
        update_active(final(update)) == update_active(old(update)).insert(change, index),
        update_blocks(final(update)) == update_blocks(old(update)),
        update_txs(final(update)) == update_txs(old(update)),
        update_anchors(final(update)) == update_anchors(old(update)),
        update_seen(final(update)) == update_seen(old(update)),
{
    let keychain = match change {
        true => bdk_wallet::KeychainKind::Internal,
        false => bdk_wallet::KeychainKind::External,
    };
    update.last_active_indices.insert(keychain, index);
}

/// Calls `bdk_wallet::Update::clone`: an update with the same in it.
#[verifier::external_body]
pub(crate) fn copy_update(update: &bdk_wallet::Update) -> (copy: bdk_wallet::Update)
    ensures
        update_blocks(&copy) == update_blocks(update),
        update_txs(&copy) == update_txs(update),
        update_anchors(&copy) == update_anchors(update),
        update_seen(&copy) == update_seen(update),
        update_active(&copy) == update_active(update),
{
    update.clone()
}

/// The hash of the first block of a network.
pub uninterp spec fn genesis_hash(network: Network) -> Seq<u8>;

/// Calls `bitcoin::Network::chain_hash`: the hash of the first block of the network.
#[verifier::external_body]
fn first_block_hash(network: Network) -> (hash: [u8; 32])
    ensures
        hash@ == genesis_hash(network),
{
    match network {
        Network::Bitcoin => bitcoin::Network::Bitcoin.chain_hash().to_bytes(),
        Network::Testnet => bitcoin::Network::Testnet.chain_hash().to_bytes(),
        Network::Testnet4 => bitcoin::Network::Testnet4.chain_hash().to_bytes(),
        Network::Signet => bitcoin::Network::Signet.chain_hash().to_bytes(),
        Network::Regtest => bitcoin::Network::Regtest.chain_hash().to_bytes(),
    }
}

/// The hash of the block of a height: the real one of the first block, a stand-in for the others.
pub open spec fn block_hash(network: Network, height: u32) -> Seq<u8> {
    if height == 0 {
        genesis_hash(network)
    } else {
        stand_in_hash(height)
    }
}

/// The hash of the block of a height.
fn hash_at(network: Network, height: u32) -> (hash: [u8; 32])
    ensures
        hash@ == block_hash(network, height),
{
    if height == 0 {
        first_block_hash(network)
    } else {
        synthetic_block_hash(height)
    }
}

/// What was seen of a transaction: its id and where.
pub struct Sight {
    pub txid: Seq<char>,
    pub observation: BdkTxObservation,
}

/// The model of a list of transactions.
pub open spec fn sights(txs: Seq<ScannedTx>) -> Seq<Sight> {
    Seq::new(txs.len(), |i: int| Sight { txid: txs[i].tx.txid(), observation: txs[i].observation })
}

/// What the transactions of a list hold.
pub open spec fn bodies(txs: Seq<ScannedTx>) -> Seq<TxData> {
    Seq::new(txs.len(), |i: int| txs[i].tx.data())
}

/// What is wrong with the first transaction whose block cannot be below the tip.
pub open spec fn height_fault(list: Seq<Sight>, tip: u32) -> Option<Seq<char>>
    decreases list.len(),
{
    if list.len() == 0 {
        None
    } else {
        match list[0].observation {
            BdkTxObservation::Confirmed { height } => if height == 0 {
                Some("bdk chain update confirmed height must be > 0"@)
            } else if height > tip {
                Some(
                    "bdk chain update confirmed height "@ + decimal(height as nat)
                        + " exceeds tip "@ + decimal(tip as nat),
                )
            } else {
                height_fault(list.skip(1), tip)
            },
            BdkTxObservation::Unconfirmed => height_fault(list.skip(1), tip),
        }
    }
}

/// A transaction was seen in the block of this height.
pub open spec fn seen_at_height(list: Seq<Sight>, height: u32) -> bool {
    exists|i: int|
        0 <= i < list.len() && (#[trigger] list[i]).observation == (BdkTxObservation::Confirmed {
            height,
        })
}

/// The heights of an update: the first block, the tip, and the blocks of the transactions, each
/// once, from the lowest to the highest.
pub open spec fn are_heights(heights: Seq<u32>, list: Seq<Sight>, tip: u32) -> bool {
    &&& ascending(heights)
    &&& forall|h: u32| #[trigger]
        heights.contains(h) <==> h == 0 || h == tip || seen_at_height(list, h)
}

/// The blocks of these heights.
pub open spec fn blocks_at(network: Network, heights: Seq<u32>) -> Seq<(u32, Seq<u8>)> {
    Seq::new(heights.len(), |i: int| (heights[i], block_hash(network, heights[i])))
}

/// The blocks of the transactions that were seen in blocks.
pub open spec fn anchors_of(network: Network, list: Seq<Sight>) -> Set<
    (Seq<char>, u32, Seq<u8>, u64),
>
    decreases list.len(),
{
    if list.len() == 0 {
        Set::empty()
    } else {
        let before = anchors_of(network, list.drop_last());
        match list.last().observation {
            BdkTxObservation::Confirmed { height } => before.insert(
                (list.last().txid, height, block_hash(network, height), 1u64),
            ),
            BdkTxObservation::Unconfirmed => before,
        }
    }
}

/// The transactions that were seen outside of blocks.
pub open spec fn seen_of(list: Seq<Sight>) -> Set<(Seq<char>, u64)>
    decreases list.len(),
{
    if list.len() == 0 {
        Set::empty()
    } else {
        let before = seen_of(list.drop_last());
        match list.last().observation {
            BdkTxObservation::Confirmed { height } => before,
            BdkTxObservation::Unconfirmed => before.insert((list.last().txid, 1u64)),
        }
    }
}

/// The last address in use of each chain.
pub open spec fn active_of(external: Option<u32>, internal: Option<u32>) -> Map<bool, u32> {
    let receive = match external {
        Some(i) => Map::<bool, u32>::empty().insert(false, i),
        None => Map::<bool, u32>::empty(),
    };
    match internal {
        Some(i) => receive.insert(true, i),
        None => receive,
    }
}

/// An update that tells of these transactions below this tip.
pub open spec fn tells_of(
    update: &bdk_wallet::Update,
    network: Network,
    tip: u32,
    list: Seq<Sight>,
    txs: Seq<TxData>,
    external: Option<u32>,
    internal: Option<u32>,
) -> bool {
    &&& exists|heights: Seq<u32>| #[trigger]
        are_heights(heights, list, tip) && update_blocks(update) == blocks_at(network, heights)
    &&& update_txs(update) == txs
    &&& update_anchors(update) == anchors_of(network, list)
    &&& update_seen(update) == seen_of(list)
    &&& update_active(update) == active_of(external, internal)
}

/// Adds a height to a list that grows, where it is not in it.
fn insert_height(heights: &mut Vec<u32>, height: u32)
    requires
        ascending(old(heights)@),
    ensures
        ascending(final(heights)@),
        forall|h: u32| #[trigger]
            final(heights)@.contains(h) <==> h == height || old(heights)@.contains(h),
{
    let ghost before = heights@;
    let mut at: usize = 0;
    while at < heights.len() && heights[at] < height
        invariant
            at <= heights@.len(),
            heights@ == before,
            ascending(before),
            forall|i: int| 0 <= i < at ==> before[i] < height,
        decreases heights@.len() - at,
    {
        at += 1;
    }
    if at < heights.len() && heights[at] == height {
        assert forall|h: u32| #[trigger] heights@.contains(h) <==> h == height || before.contains(
            h,
        ) by {
            assert(before[at as int] == height);
        }
        return;
    }
    heights.insert(at, height);
    let ghost after = heights@;
    assert(after == before.insert(at as int, height));
    assert forall|h: u32| #[trigger] after.contains(h) <==> h == height || before.contains(h) by {
        if before.contains(h) {
            let i = choose|i: int| 0 <= i < before.len() && before[i] == h;
            if i < at {
                assert(after[i] == h);
            } else {
                assert(after[i + 1] == h);
            }
        }
        if h == height {
            assert(after[at as int] == h);
        }
        if after.contains(h) {
            let i = choose|i: int| 0 <= i < after.len() && after[i] == h;
            if i < at {
                assert(before[i] == h);
            } else if i > at {
                assert(before[i - 1] == h);
            }
        }
    }
}

/// The heights of an update, or what is wrong with the transactions.
fn heights_of(txs: &Vec<ScannedTx>, tip_height: u32) -> (r: Result<Vec<u32>, WalletError>)
    ensures
        match height_fault(sights(txs@), tip_height) {
            Some(message) => onchain_error(r, message),
            None => r matches Ok(heights) && are_heights(heights@, sights(txs@), tip_height),
        },
{
    let ghost list = sights(txs@);
    let mut heights: Vec<u32> = Vec::new();
    insert_height(&mut heights, 0);
    insert_height(&mut heights, tip_height);
    assert(list.skip(0) =~= list);
    for i in 0..txs.len()
        invariant
            list == sights(txs@),
            ascending(heights@),
            height_fault(list, tip_height) == height_fault(list.skip(i as int), tip_height),
            forall|h: u32| #[trigger]
                heights@.contains(h) <==> h == 0 || h == tip_height || seen_at_height(
                    list.take(i as int),
                    h,
                ),
    {
        let ghost before = heights@;
        assert(list.skip(i as int)[0] == list[i as int]);
        assert(list.skip(i as int).skip(1) =~= list.skip(i + 1));
        if let BdkTxObservation::Confirmed { height } = txs[i].observation {
            if height == 0 {
                return Err(
                    WalletError::Onchain(
                        "bdk chain update confirmed height must be > 0".to_owned(),
                    ),
                );
            }
            if height > tip_height {
                let mut message = "bdk chain update confirmed height ".to_owned();
                message.append(decimal_text(height as u64).as_str());
                message.append(" exceeds tip ");
                message.append(decimal_text(tip_height as u64).as_str());
                return Err(WalletError::Onchain(message));
            }
            insert_height(&mut heights, height);
        }
        assert forall|h: u32| #[trigger] heights@.contains(h) <==> h == 0 || h == tip_height
            || seen_at_height(list.take(i + 1), h) by {
            let seen = BdkTxObservation::Confirmed { height: h };
            if seen_at_height(list.take(i as int), h) {
                let k = choose|k: int|
                    0 <= k < list.take(i as int).len() && (#[trigger] list.take(
                        i as int,
                    )[k]).observation == seen;
                assert(list.take(i + 1)[k].observation == seen);
            }
            if list[i as int].observation == seen {
                assert(list.take(i + 1)[i as int].observation == seen);
            }
            if seen_at_height(list.take(i + 1), h) {
                let k = choose|k: int|
                    0 <= k < list.take(i + 1).len() && (#[trigger] list.take(i + 1)[k]).observation
                        == seen;
                if k < i {
                    assert(list.take(i as int)[k].observation == seen);
                }
            }
            assert(before.contains(h) <==> h == 0 || h == tip_height || seen_at_height(
                list.take(i as int),
                h,
            ));
        }
    }
    assert(list.take(list.len() as int) =~= list);
    Ok(heights)
}

/// The update that tells of transactions, each in its block or outside of blocks, below a tip.
pub fn chain_update_from_scanned_txs(
    network: Network,
    tip_height: u32,
    txs: &Vec<ScannedTx>,
    last_active_external: Option<u32>,
    last_active_internal: Option<u32>,
) -> (r: Result<bdk_wallet::Update, WalletError>)
    ensures
        if tip_height == 0 {
            onchain_error(
                r,
                "bdk chain update tip_height must be > 0 (genesis reserved for height 0)"@,
            )
        } else {
            match height_fault(sights(txs@), tip_height) {
                Some(message) => onchain_error(r, message),
                None => r matches Ok(update) && tells_of(
                    &update,
                    network,
                    tip_height,
                    sights(txs@),
                    bodies(txs@),
                    last_active_external,
                    last_active_internal,
                ),
            }
        },
{
    if tip_height == 0 {
        return Err(
            WalletError::Onchain(
                "bdk chain update tip_height must be > 0 (genesis reserved for height 0)".to_owned(),
            ),
        );
    }
    let heights = match heights_of(txs, tip_height) {
        Ok(heights) => heights,
        Err(e) => return Err(e),
    };
    let ghost list = sights(txs@);
    let mut update = empty_update();
    let mut blocks: Vec<BlockRef> = Vec::new();
    for i in 0..heights.len()
        invariant
            blocks@.len() == i,
            forall|k: int|
                0 <= k < i ==> (#[trigger] blocks@[k]).height == heights@[k] && blocks@[k].hash@
                    == block_hash(network, heights@[k]),
    {
        blocks.push(BlockRef { height: heights[i], hash: hash_at(network, heights[i]) });
    }
    proof {
        assert(heights@.contains(0));
        assert(Seq::new(blocks@.len(), |i: int| blocks@[i].height) =~= heights@);
        assert(blocks_view(blocks@) =~= blocks_at(network, heights@));
    }
    let ghost before = update;
    if !set_blocks(&mut update, &blocks) {
        return Err(
            WalletError::Onchain(
                "bdk CheckPoint::from_block_ids failed (ordering?)".to_owned(),
            ),
        );
    }
    if let Some(i) = last_active_external {
        set_active(&mut update, false, i);
    }
    if let Some(i) = last_active_internal {
        set_active(&mut update, true, i);
    }
    assert(anchors_of(network, list.take(0)) =~= Set::empty());
    for i in 0..txs.len()
        invariant
            list == sights(txs@),
            update_blocks(&update) == blocks_at(network, heights@),
            update_active(&update) == active_of(last_active_external, last_active_internal),
            update_txs(&update) == bodies(txs@).take(i as int),
            update_anchors(&update) == anchors_of(network, list.take(i as int)),
            update_seen(&update) == seen_of(list.take(i as int)),
    {
        let scanned = &txs[i];
        assert(list.take(i + 1).drop_last() =~= list.take(i as int));
        assert(list.take(i + 1).last() == list[i as int]);
        match scanned.observation {
            BdkTxObservation::Confirmed { height } => {
                let block = BlockRef { height, hash: hash_at(network, height) };
                add_confirmed(&mut update, &scanned.tx.inner, block, 1);
            },
            BdkTxObservation::Unconfirmed => add_unconfirmed(&mut update, &scanned.tx.inner, 1),
        }
        assert(update_txs(&update) =~= bodies(txs@).take(i + 1));
    }
    assert(list.take(list.len() as int) =~= list);
    assert(bodies(txs@).take(list.len() as int) =~= bodies(txs@));
    assert(are_heights(heights@, list, tip_height));
    Ok(update)
}

/// The update that tells of transactions in the block of the tip.
pub fn chain_update_from_transactions(
    network: Network,
    tip_height: u32,
    txs: Vec<BdkTx>,
    last_active_external: Option<u32>,
    last_active_internal: Option<u32>,
) -> (r: Result<bdk_wallet::Update, WalletError>)
    ensures
        if tip_height == 0 {
            onchain_error(
                r,
                "bdk chain update tip_height must be > 0 (genesis reserved for height 0)"@,
            )
        } else {
            r matches Ok(update) && tells_of(
                &update,
                network,
                tip_height,
                Seq::new(
                    txs@.len(),
                    |i: int|
                        Sight {
                            txid: txs@[i].txid(),
                            observation: BdkTxObservation::Confirmed { height: tip_height },
                        },
                ),
                Seq::new(txs@.len(), |i: int| txs@[i].data()),
                last_active_external,
                last_active_internal,
            )
        },
{
    let ghost ids = txs@;
    let observation = BdkTxObservation::Confirmed { height: tip_height };
    let mut scanned: Vec<ScannedTx> = Vec::new();
    let ghost expected = Seq::new(
        ids.len(),
        |i: int| Sight { txid: ids[i].txid(), observation },
    );
    for tx in it: txs
        invariant
            it.seq() == ids,
            scanned@.len() == it.index(),
            forall|k: int|
                0 <= k < scanned@.len() ==> (#[trigger] scanned@[k]).tx == ids[k]
                    && scanned@[k].observation == observation,
    {
        scanned.push(ScannedTx { tx, observation });
    }
    assert(sights(scanned@) =~= expected);
    assert(bodies(scanned@) =~= Seq::new(ids.len(), |i: int| ids[i].data()));
    proof {
        if tip_height > 0 {
            lemma_no_fault(expected, tip_height);
        }
    }
    chain_update_from_scanned_txs(
        network,
        tip_height,
        &scanned,
        last_active_external,
        last_active_internal,
    )
}

/// Transactions in the block of the tip are all below it.
proof fn lemma_no_fault(list: Seq<Sight>, tip: u32)
    requires
        tip > 0,
        forall|i: int|
            0 <= i < list.len() ==> (#[trigger] list[i]).observation == (
            BdkTxObservation::Confirmed { height: tip }),
    ensures
        height_fault(list, tip) is None,
    decreases list.len(),
{
    if list.len() > 0 {
        assert(list[0].observation == (BdkTxObservation::Confirmed { height: tip }));
        lemma_no_fault(list.skip(1), tip);
    }
}

/// The first block is that of the network, and blocks of different heights above it are told apart.
pub proof fn lemma_blocks_told_apart(network: Network, a: u32, b: u32)
    requires
        a > 0,
        b > 0,
    ensures
        block_hash(network, 0) == genesis_hash(network),
        block_hash(network, a) == block_hash(network, b) ==> a == b,
        block_hash(network, a).len() == 32,
{
    if block_hash(network, a) == block_hash(network, b) {
        lemma_stand_ins_differ(a, b);
    }
}

/// A transaction has a block in an update where it was seen in that block, and nowhere else.
pub proof fn lemma_anchors(network: Network, list: Seq<Sight>)
    ensures
        forall|txid: Seq<char>, height: u32, hash: Seq<u8>, time: u64| #[trigger]
            anchors_of(network, list).contains((txid, height, hash, time)) <==> time == 1 && hash
                == block_hash(network, height) && exists|i: int|
                0 <= i < list.len() && (#[trigger] list[i]).txid == txid && list[i].observation
                    == (BdkTxObservation::Confirmed { height }),
    decreases list.len(),
{
    if list.len() > 0 {
        let front = list.drop_last();
        lemma_anchors(network, front);
        assert forall|txid: Seq<char>, height: u32, hash: Seq<u8>, time: u64| #[trigger]
            anchors_of(network, list).contains((txid, height, hash, time)) <==> time == 1 && hash
                == block_hash(network, height) && exists|i: int|
                0 <= i < list.len() && (#[trigger] list[i]).txid == txid && list[i].observation
                    == (BdkTxObservation::Confirmed { height }) by {
            let seen = BdkTxObservation::Confirmed { height };
            if anchors_of(network, list).contains((txid, height, hash, time)) {
                if anchors_of(network, front).contains((txid, height, hash, time)) {
                    let i = choose|i: int|
                        0 <= i < front.len() && (#[trigger] front[i]).txid == txid
                            && front[i].observation == seen;
                    assert(list[i] == front[i]);
                } else {
                    assert(list[list.len() - 1].txid == txid);
                }
            }
            if time == 1 && hash == block_hash(network, height) && exists|i: int|
                0 <= i < list.len() && (#[trigger] list[i]).txid == txid && list[i].observation
                    == seen {
                let i = choose|i: int|
                    0 <= i < list.len() && (#[trigger] list[i]).txid == txid
                        && list[i].observation == seen;
                if i < front.len() {
                    assert(front[i].txid == txid && front[i].observation == seen);
                    assert(anchors_of(network, front).contains((txid, height, hash, time)));
                }
            }
        }
    }
}

/// A transaction counts as seen outside of blocks in an update where it was seen so.
pub proof fn lemma_seen(list: Seq<Sight>)
    ensures
        forall|txid: Seq<char>, time: u64| #[trigger]
            seen_of(list).contains((txid, time)) <==> time == 1 && exists|i: int|
                0 <= i < list.len() && (#[trigger] list[i]).txid == txid && list[i].observation
                    is Unconfirmed,
    decreases list.len(),
{
    if list.len() > 0 {
        let front = list.drop_last();
        lemma_seen(front);
        assert forall|txid: Seq<char>, time: u64| #[trigger]
            seen_of(list).contains((txid, time)) <==> time == 1 && exists|i: int|
                0 <= i < list.len() && (#[trigger] list[i]).txid == txid && list[i].observation
                    is Unconfirmed by {
            if seen_of(list).contains((txid, time)) {
                if seen_of(front).contains((txid, time)) {
                    let i = choose|i: int|
                        0 <= i < front.len() && (#[trigger] front[i]).txid == txid
                            && front[i].observation is Unconfirmed;
                    assert(list[i] == front[i]);
                } else {
                    assert(list[list.len() - 1].txid == txid);
                }
            }
            if time == 1 && exists|i: int|
                0 <= i < list.len() && (#[trigger] list[i]).txid == txid && list[i].observation
                    is Unconfirmed {
                let i = choose|i: int|
                    0 <= i < list.len() && (#[trigger] list[i]).txid == txid
                        && list[i].observation is Unconfirmed;
                if i < front.len() {
                    assert(front[i].txid == txid && front[i].observation is Unconfirmed);
                    assert(seen_of(front).contains((txid, time)));
                }
            }
        }
    }
}

/// Nothing is wrong with transactions where every block that they were seen in stands above the
/// first and not above the tip; else something is.
pub proof fn lemma_heights_below_tip(list: Seq<Sight>, tip: u32)
    ensures
        height_fault(list, tip) is None <==> forall|i: int|
            0 <= i < list.len() ==> ((#[trigger] list[i]).observation
                matches BdkTxObservation::Confirmed { height } ==> 1 <= height <= tip),
    decreases list.len(),
{
    if list.len() > 0 {
        let rest = list.skip(1);
        lemma_heights_below_tip(rest, tip);
        assert forall|i: int| 0 <= i < rest.len() implies rest[i] == #[trigger] list[i + 1] by {}
        if height_fault(list, tip) is None {
            assert forall|i: int| 0 <= i < list.len() implies ((#[trigger] list[i]).observation
                matches BdkTxObservation::Confirmed { height } ==> 1 <= height <= tip) by {
                if i > 0 {
                    assert(rest[i - 1] == list[i]);
                }
            }
        } else if forall|i: int|
            0 <= i < list.len() ==> ((#[trigger] list[i]).observation
                matches BdkTxObservation::Confirmed { height } ==> 1 <= height <= tip) {
            assert(list[0].observation matches BdkTxObservation::Confirmed { height } ==> 1
                <= height <= tip);
            assert forall|i: int| 0 <= i < rest.len() implies ((#[trigger] rest[i]).observation
                matches BdkTxObservation::Confirmed { height } ==> 1 <= height <= tip) by {
                assert(rest[i] == list[i + 1]);
            }
        }
    }
}

/// The blocks of an update begin with the first block of the network and end with the tip, and hold
/// the block of every transaction that was seen in one.
pub proof fn lemma_update_blocks(
    update: &bdk_wallet::Update,
    network: Network,
    tip: u32,
    list: Seq<Sight>,
    txs: Seq<TxData>,
    external: Option<u32>,
    internal: Option<u32>,
)
    requires
        tells_of(update, network, tip, list, txs, external, internal),
        height_fault(list, tip) is None,
        tip > 0,
    ensures
        update_blocks(update).len() >= 2,
        update_blocks(update)[0] == (0u32, genesis_hash(network)),
        update_blocks(update).last().0 == tip,
        forall|i: int, j: int|
            0 <= i < j < update_blocks(update).len() ==> (#[trigger] update_blocks(update)[i]).0 < (
            #[trigger] update_blocks(update)[j]).0,
        forall|txid: Seq<char>, height: u32, hash: Seq<u8>, time: u64| #[trigger]
            update_anchors(update).contains((txid, height, hash, time)) ==> update_blocks(
                update,
            ).contains((height, hash)),
        update_txs(update) == txs,
        forall|i: int|
            0 <= i < list.len() ==> match (#[trigger] list[i]).observation {
                BdkTxObservation::Confirmed { height } => update_anchors(update).contains(
                    (list[i].txid, height, block_hash(network, height), 1),
                ),
                BdkTxObservation::Unconfirmed => update_seen(update).contains((list[i].txid, 1)),
            },
{
    lemma_anchors(network, list);
    lemma_seen(list);
    lemma_heights_below_tip(list, tip);
    let heights = choose|heights: Seq<u32>| #[trigger]
        are_heights(heights, list, tip) && update_blocks(update) == blocks_at(network, heights);
    let blocks = update_blocks(update);
    assert(heights.contains(0) && heights.contains(tip));
    let first = choose|i: int| 0 <= i < heights.len() && heights[i] == 0;
    let last = choose|i: int| 0 <= i < heights.len() && heights[i] == tip;
    assert(first == 0) by {
        if first > 0 {
            assert(heights[0] < heights[first]);
        }
    }
    assert(last == heights.len() - 1) by {
        if last < heights.len() - 1 {
            let top = heights[heights.len() - 1];
            assert(heights[last] < top);
            assert(heights.contains(top));
            assert(seen_at_height(list, top));
        }
    }
    assert forall|txid: Seq<char>, height: u32, hash: Seq<u8>, time: u64| #[trigger]
        update_anchors(update).contains((txid, height, hash, time)) implies blocks.contains(
        (height, hash),
    ) by {
        assert(anchors_of(network, list).contains((txid, height, hash, time)));
        let i = choose|i: int|
            0 <= i < list.len() && (#[trigger] list[i]).txid == txid && list[i].observation == (
            BdkTxObservation::Confirmed { height });
        assert(seen_at_height(list, height));
        assert(heights.contains(height));
        let k = choose|k: int| 0 <= k < heights.len() && heights[k] == height;
        assert(blocks[k] == (height, hash));
    }
    assert forall|i: int| 0 <= i < list.len() implies match (#[trigger] list[i]).observation {
        BdkTxObservation::Confirmed { height } => update_anchors(update).contains(
            (list[i].txid, height, block_hash(network, height), 1),
        ),
        BdkTxObservation::Unconfirmed => update_seen(update).contains((list[i].txid, 1)),
    } by {
        match list[i].observation {
            BdkTxObservation::Confirmed { height } => {
                assert(anchors_of(network, list).contains(
                    (list[i].txid, height, block_hash(network, height), 1),
                ));
            },
            BdkTxObservation::Unconfirmed => {
                assert(seen_of(list).contains((list[i].txid, 1)));
            },
        }
    }
}

/// The addresses in use that an update names are those of the two chains, each under its own.
pub proof fn lemma_active(external: Option<u32>, internal: Option<u32>)
    ensures
        active_of(external, internal).dom().contains(false) <==> external is Some,
        active_of(external, internal).dom().contains(true) <==> internal is Some,
        external is Some ==> active_of(external, internal)[false] == external->0,
        internal is Some ==> active_of(external, internal)[true] == internal->0,
{
}

} // verus!
