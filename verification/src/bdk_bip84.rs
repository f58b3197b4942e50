//! BIP-84 wallet that `bdk_wallet` keeps, for watching alone: it knows descriptors, not keys.

use vstd::prelude::*;
use vstd::string::StringExecFns;

use crate::bdk_sync::{BdkSyncSpendFailure, BDK_PRODUCT_SIGN_GAP_CAP};
use crate::bdk_update::{
    copy_update, empty_update, nothing_in, update_active, update_anchors, update_blocks,
    update_seen, update_txs,
};
use crate::error::{onchain_error, WalletError};
use crate::network::Network;
use crate::text::{debug_text, decimal, decimal_text, has_prefix, same};
use crate::wallet_types::{
    balance_from_utxos, balance_of, lemma_balance_is_of_all_coins, utxos_view, whole_amount,
    OutPointRef, Snapshot, Utxo, WalletBalance, WalletSyncSnapshot, WalletUtxo,
};

verus! {

/// Outside type: a wallet as `bdk_wallet` keeps it.
#[verifier::external_type_specification]
#[verifier::external_body]
pub struct ExWallet(bdk_wallet::Wallet);

/// Coin of a `bdk_wallet` wallet.
pub struct BdkCoin {
    pub txid: String,
    pub vout: u32,
    pub amount_sats: u64,
    pub script: Vec<u8>,
    /// Height of the block of the coin, where it is in one.
    pub height: Option<u32>,
    pub is_change: bool,
}

/// Model of [`BdkCoin`].
pub struct Coin {
    pub txid: Seq<char>,
    pub vout: u32,
    pub amount_sats: u64,
    pub script: Seq<u8>,
    pub height: Option<u32>,
    pub is_change: bool,
}

impl View for BdkCoin {
    type V = Coin;

    open spec fn view(&self) -> Coin {
        Coin {
            txid: self.txid@,
            vout: self.vout,
            amount_sats: self.amount_sats,
            script: self.script@,
            height: self.height,
            is_change: self.is_change,
        }
    }
}

/// The descriptors that a wallet was made with, that of receive addresses first.
pub uninterp spec fn wallet_made_with(wallet: &bdk_wallet::Wallet) -> Seq<Seq<char>>;

/// The network of a wallet.
pub uninterp spec fn wallet_network(wallet: &bdk_wallet::Wallet) -> Network;

/// The unspent coins of a wallet.
pub uninterp spec fn wallet_coins(wallet: &bdk_wallet::Wallet) -> Seq<Coin>;

/// The height of the tip that a wallet knows.
pub uninterp spec fn wallet_tip(wallet: &bdk_wallet::Wallet) -> u32;

/// The next address of a chain of a wallet that was not given out.
pub uninterp spec fn wallet_next(wallet: &bdk_wallet::Wallet, change: bool) -> u32;

/// The last address of a chain of a wallet that was given out.
pub uninterp spec fn wallet_last(wallet: &bdk_wallet::Wallet, change: bool) -> Option<u32>;

/// The script of an address of a descriptor.
pub uninterp spec fn descriptor_script(descriptor: Seq<char>, index: u32) -> Seq<u8>;

/// Why `bdk_wallet` makes no wallet of two descriptors for a network.
pub uninterp spec fn wallet_refused(
    receive: Seq<char>,
    change: Seq<char>,
    network: Network,
) -> Option<Seq<char>>;

/// Descriptors of addresses that pay to the hash of a key, as BIP-84 has them.
pub open spec fn segwit_descriptors(descriptors: Seq<Seq<char>>) -> bool {
    descriptors.len() == 2 && has_prefix(descriptors[0], "wpkh("@) && has_prefix(
        descriptors[1],
        "wpkh("@,
    )
}

/// A wallet to which nothing happened yet.
pub open spec fn fresh_wallet(wallet: &bdk_wallet::Wallet) -> bool {
    &&& wallet_coins(wallet).len() == 0
    &&& wallet_tip(wallet) == 0
    &&& wallet_next(wallet, false) == 0
    &&& wallet_next(wallet, true) == 0
    &&& wallet_last(wallet, false) is None
    &&& wallet_last(wallet, true) is None
}

/// Calls `bdk_wallet::Wallet::create` and `create_wallet_no_persist`: a fresh wallet of these
/// descriptors and this network, or the text of the error, which depends on them alone.
#[verifier::external_body]
fn create_wallet(receive: &str, change: &str, network: Network) -> (r: Result<
    bdk_wallet::Wallet,
    String,
>)
    ensures
        wallet_refused(receive@, change@, network) == match r {
            Ok(_) => None,
            Err(e) => Some(e@),
        },
        r matches Ok(w) ==> wallet_made_with(&w) == seq![receive@, change@] && wallet_network(&w)
            == network && fresh_wallet(&w),
{
    let network = match network {
        Network::Bitcoin => bitcoin::Network::Bitcoin,
        Network::Testnet => bitcoin::Network::Testnet,
        Network::Testnet4 => bitcoin::Network::Testnet4,
        Network::Signet => bitcoin::Network::Signet,
        Network::Regtest => bitcoin::Network::Regtest,
    };
    let params = bdk_wallet::Wallet::create(receive.to_owned(), change.to_owned());
    match params.network(network).create_wallet_no_persist() {
        Ok(wallet) => Ok(wallet),
        Err(e) => Err(e.to_string()),
    }
}

/// Calls `bdk_wallet::Wallet::network`.
#[verifier::external_body]
fn network_of(wallet: &bdk_wallet::Wallet) -> (network: Network)
    ensures
        network == wallet_network(wallet),
{
    match wallet.network() {
        bitcoin::Network::Bitcoin => Network::Bitcoin,
        bitcoin::Network::Testnet => Network::Testnet,
        bitcoin::Network::Testnet4 => Network::Testnet4,
        bitcoin::Network::Signet => Network::Signet,
        bitcoin::Network::Regtest => Network::Regtest,
    }
}

/// Calls `bdk_wallet::Wallet::list_unspent`: the unspent coins, each as plain values.
#[verifier::external_body]
fn list_coins(wallet: &bdk_wallet::Wallet) -> (coins: Vec<BdkCoin>)
    ensures
        Seq::new(coins@.len(), |i: int| coins@[i]@) == wallet_coins(wallet),
{
    let coin = |o: bdk_wallet::LocalOutput| BdkCoin {
        txid: o.outpoint.txid.to_string(),
        vout: o.outpoint.vout,
        amount_sats: o.txout.value.to_sat(),
        script: o.txout.script_pubkey.to_bytes(),
        height: o.chain_position.confirmation_height_upper_bound(),
        is_change: matches!(o.keychain, bdk_wallet::KeychainKind::Internal),
    };
    wallet.list_unspent().map(coin).collect()
}

/// Calls `bdk_wallet::Wallet::latest_checkpoint`: the height of the tip.
#[verifier::external_body]
fn tip_of(wallet: &bdk_wallet::Wallet) -> (height: u32)
    ensures
        height == wallet_tip(wallet),
{
    wallet.latest_checkpoint().height()
}

/// Calls `bdk_wallet::Wallet::next_derivation_index`, which stays within the indices of BIP-32.
#[verifier::external_body]
fn next_of(wallet: &bdk_wallet::Wallet, change: bool) -> (index: u32)
    ensures
        index == wallet_next(wallet, change),
        index <= 0x7fff_ffff,
{
    match change {
        true => wallet.next_derivation_index(bdk_wallet::KeychainKind::Internal),
        false => wallet.next_derivation_index(bdk_wallet::KeychainKind::External),
    }
}

/// Calls `bdk_wallet::Wallet::derivation_index`.
#[verifier::external_body]
fn last_of(wallet: &bdk_wallet::Wallet, change: bool) -> (index: Option<u32>)
    ensures
        index == wallet_last(wallet, change),
{
    match change {
        true => wallet.derivation_index(bdk_wallet::KeychainKind::Internal),
        false => wallet.derivation_index(bdk_wallet::KeychainKind::External),
    }
}

/// The address that pays to a script on a network, or why there is none.
pub uninterp spec fn script_address(script: Seq<u8>, network: Network) -> Result<
    Seq<char>,
    Seq<char>,
>;

/// Calls `bdk_wallet::Wallet::peek_address`: the script of an address, and the address, which is
/// the one that pays to the script. The index is one of BIP-32, and the descriptors pay to the hash
/// of a key, so that there is an address.
#[verifier::external_body]
fn peek(wallet: &bdk_wallet::Wallet, change: bool, index: u32) -> (peeked: (Vec<u8>, String))
    requires
        index <= 0x7fff_ffff,
        segwit_descriptors(wallet_made_with(wallet)),
    ensures
        peeked.0@ == descriptor_script(wallet_made_with(wallet)[if change {
            1
        } else {
            0
        }], index),
        script_address(peeked.0@, wallet_network(wallet)) matches Ok(address) && address
            == peeked.1@,
{
    let keychain = match change {
        true => bdk_wallet::KeychainKind::Internal,
        false => bdk_wallet::KeychainKind::External,
    };
    let address = wallet.peek_address(keychain, index).address;
    (address.script_pubkey().to_bytes(), address.to_string())
}

/// Calls `bitcoin::Address::from_script`: the address, or the text of the error. Both depend on the
/// script and the network alone.
#[verifier::external_body]
fn address_of(script: &Vec<u8>, network: Network) -> (r: Result<String, String>)
    ensures
        script_address(script@, network) == match r {
            Ok(address) => Ok(address@),
            Err(e) => Err(e@),
        },
{
    let network = match network {
        Network::Bitcoin => bitcoin::Network::Bitcoin,
        Network::Testnet => bitcoin::Network::Testnet,
        Network::Testnet4 => bitcoin::Network::Testnet4,
        Network::Signet => bitcoin::Network::Signet,
        Network::Regtest => bitcoin::Network::Regtest,
    };
    match bitcoin::Address::from_script(bitcoin::Script::from_bytes(script), network) {
        Ok(address) => Ok(address.to_string()),
        Err(e) => Err(e.to_string()),
    }
}

/// What of a wallet no update changes.
pub open spec fn same_keys(a: &bdk_wallet::Wallet, b: &bdk_wallet::Wallet) -> bool {
    &&& wallet_made_with(a) == wallet_made_with(b)
    &&& wallet_network(a) == wallet_network(b)
}

/// What a wallet holds: its unspent coins, the height of its tip, and of each chain the next address
/// and the last one that was given out.
pub struct WalletState {
    pub coins: Seq<Coin>,
    pub tip: u32,
    pub next_receive: u32,
    pub next_change: u32,
    pub last_receive: Option<u32>,
    pub last_change: Option<u32>,
}

/// What a wallet holds.
pub open spec fn state_of(wallet: &bdk_wallet::Wallet) -> WalletState {
    WalletState {
        coins: wallet_coins(wallet),
        tip: wallet_tip(wallet),
        next_receive: wallet_next(wallet, false),
        next_change: wallet_next(wallet, true),
        last_receive: wallet_last(wallet, false),
        last_change: wallet_last(wallet, true),
    }
}

/// What a wallet holds after an update, or why it refuses the update.
pub uninterp spec fn wallet_updated(
    wallet: &bdk_wallet::Wallet,
    update: &bdk_wallet::Update,
) -> Result<WalletState, Seq<char>>;

/// Calls `bdk_wallet::Wallet::apply_update`. What the wallet then holds, or the text of the error,
/// follows from the wallet and the update alone. Its keys stay; where the update is refused all
/// stays; addresses that were given out stay so.
#[verifier::external_body]
fn update_wallet(wallet: &mut bdk_wallet::Wallet, update: bdk_wallet::Update) -> (r: Result<
    (),
    String,
>)
    ensures
        wallet_updated(old(wallet), &update) == match r {
            Ok(()) => Ok(state_of(final(wallet))),
            Err(e) => Err(e@),
        },
        same_keys(old(wallet), final(wallet)),
        r is Err ==> state_of(final(wallet)) == state_of(old(wallet)),
        wallet_next(old(wallet), false) <= wallet_next(final(wallet), false),
        wallet_next(old(wallet), true) <= wallet_next(final(wallet), true),
{
    match wallet.apply_update(update) {
        Ok(()) => Ok(()),
        Err(e) => Err(e.to_string()),
    }
}

/// The descriptor of a chain of a wallet.
pub open spec fn chain_descriptor(wallet: &bdk_wallet::Wallet, change: bool) -> Seq<char> {
    wallet_made_with(wallet)[if change {
        1
    } else {
        0
    }]
}

/// The address of a chain of a wallet, or why there is none.
pub open spec fn chain_address(wallet: &bdk_wallet::Wallet, change: bool, index: u32) -> Result<
    Seq<char>,
    Seq<char>,
> {
    script_address(
        descriptor_script(chain_descriptor(wallet, change), index),
        wallet_network(wallet),
    )
}

/// The number of blocks from one to the tip, both counted.
pub open spec fn depth(tip: u32, height: u32) -> u32 {
    if height >= tip {
        1
    } else if tip - height == u32::MAX {
        u32::MAX
    } else {
        (tip - height + 1) as u32
    }
}

/// A coin as the wallet shows it, or why its script has no address.
pub open spec fn utxo_of(coin: Coin, tip: u32, network: Network) -> Result<Utxo, Seq<char>> {
    match script_address(coin.script, network) {
        Err(e) => Err(
            "bdk utxo script is not a standard address for "@ + network.debug_name() + ": "@ + e,
        ),
        Ok(address) => Ok(
            Utxo {
                txid: coin.txid,
                vout: coin.vout,
                amount_sats: coin.amount_sats,
                address,
                confirmations: match coin.height {
                    Some(height) => depth(tip, height),
                    None => 0,
                },
                is_change: coin.is_change,
            },
        ),
    }
}

/// Coins as the wallet shows them, or why the first without an address has none.
pub open spec fn utxos_of(coins: Seq<Coin>, tip: u32, network: Network) -> Result<
    Seq<Utxo>,
    Seq<char>,
>
    decreases coins.len(),
{
    if coins.len() == 0 {
        Ok(Seq::empty())
    } else {
        match utxos_of(coins.drop_last(), tip, network) {
            Err(e) => Err(e),
            Ok(list) => match utxo_of(coins.last(), tip, network) {
                Err(e) => Err(e),
                Ok(u) => Ok(list.push(u)),
            },
        }
    }
}

/// The coins of a wallet as it shows them.
pub open spec fn wallet_utxos(wallet: &bdk_wallet::Wallet) -> Result<Seq<Utxo>, Seq<char>> {
    utxos_of(wallet_coins(wallet), wallet_tip(wallet), wallet_network(wallet))
}

/// The balance of a wallet.
pub open spec fn wallet_balance(wallet: &bdk_wallet::Wallet) -> Result<WalletBalance, Seq<char>> {
    match wallet_utxos(wallet) {
        Err(e) => Err(e),
        Ok(list) => match balance_of(list) {
            Some(balance) => Ok(balance),
            None => Err("wallet balance overflows"@),
        },
    }
}

/// The first index from `from` on, and below `to`, whose address is this one.
pub open spec fn index_from(
    wallet: &bdk_wallet::Wallet,
    change: bool,
    address: Seq<char>,
    from: int,
    to: int,
) -> Option<u32>
    decreases to - from,
{
    if from >= to {
        None
    } else if chain_address(wallet, change, from as u32) == Ok::<Seq<char>, Seq<char>>(address) {
        Some(from as u32)
    } else {
        index_from(wallet, change, address, from + 1, to)
    }
}

/// One more than the last index that is searched for an address: a few beyond those given out.
pub open spec fn search_end(wallet: &bdk_wallet::Wallet, change: bool) -> int {
    let next = wallet_next(wallet, change);
    let end = if next == 0 {
        9
    } else {
        next + 8
    };
    if end > 0x8000_0000 {
        0x8000_0000
    } else {
        end
    }
}

/// The index of an address of a wallet.
pub open spec fn address_index(
    wallet: &bdk_wallet::Wallet,
    change: bool,
    address: Seq<char>,
) -> Option<u32> {
    index_from(wallet, change, address, 0, search_end(wallet, change))
}

/// The larger of two numbers that may be missing.
pub open spec fn larger(a: Option<u32>, b: Option<u32>) -> Option<u32> {
    match (a, b) {
        (Some(x), Some(y)) => Some(
            if x >= y {
                x
            } else {
                y
            },
        ),
        (Some(x), None) => a,
        (None, _) => b,
    }
}

/// The highest index of a chain that one of these coins pays to.
pub open spec fn highest_used(
    wallet: &bdk_wallet::Wallet,
    list: Seq<Utxo>,
    change: bool,
) -> Option<u32>
    decreases list.len(),
{
    if list.len() == 0 {
        None
    } else if list.last().is_change == change {
        larger(
            highest_used(wallet, list.drop_last(), change),
            address_index(wallet, change, list.last().address),
        )
    } else {
        highest_used(wallet, list.drop_last(), change)
    }
}

/// A number, at least one.
pub open spec fn one_at_least(n: u32) -> u32 {
    if n == 0 {
        1
    } else {
        n
    }
}

/// What a wallet holds.
pub open spec fn snapshot_of(
    wallet: &bdk_wallet::Wallet,
    extended_receive_by: u32,
    extended_change_by: u32,
) -> Result<Snapshot, Seq<char>> {
    match (wallet_utxos(wallet), wallet_balance(wallet)) {
        (Err(e), _) => Err(e),
        (_, Err(e)) => Err(e),
        (Ok(utxos), Ok(balance)) => Ok(
            Snapshot {
                utxos,
                balance,
                receive_gap: one_at_least(wallet_next(wallet, false)),
                change_gap: one_at_least(wallet_next(wallet, true)),
                highest_used_receive: highest_used(wallet, utxos, false),
                highest_used_change: highest_used(wallet, utxos, true),
                extended_receive_by,
                extended_change_by,
                hit_max_gap: false,
            },
        ),
    }
}

/// What a function that looks at a wallet returns.
pub open spec fn is_snapshot(
    r: Result<WalletSyncSnapshot, WalletError>,
    expected: Result<Snapshot, Seq<char>>,
) -> bool {
    match expected {
        Ok(snap) => r matches Ok(s) && s@ == snap,
        Err(message) => onchain_error(r, message),
    }
}

/// BIP-84 wallet.
pub struct BdkBip84Wallet {
    inner: bdk_wallet::Wallet,
    receive_descriptor: String,
    change_descriptor: String,
}

impl BdkBip84Wallet {
    /// The wallet as `bdk_wallet` keeps it.
    pub closed spec fn bdk(&self) -> bdk_wallet::Wallet {
        self.inner
    }

    /// The descriptors are those that the wallet was made with.
    pub closed spec fn consistent(&self) -> bool {
        wallet_made_with(&self.inner) == seq![self.receive_descriptor@, self.change_descriptor@]
    }

    /// The descriptors are those that the wallet was made with, and pay to the hash of a key, so
    /// that there are addresses.
    pub open spec fn wf(&self) -> bool {
        self.consistent() && segwit_descriptors(wallet_made_with(&self.bdk()))
    }

    /// A wallet of two descriptors. Those of BIP-84 pay to the hash of a key.
    pub fn from_descriptors(
        receive_descriptor: &str,
        change_descriptor: &str,
        network: Network,
    ) -> (r: Result<BdkBip84Wallet, WalletError>)
        ensures
            match wallet_refused(receive_descriptor@, change_descriptor@, network) {
                Some(e) => onchain_error(r, "bdk_wallet create failed: "@ + e),
                None => r matches Ok(w) && w.consistent() && wallet_network(&w.bdk()) == network
                    && wallet_made_with(&w.bdk()) == seq![
                    receive_descriptor@,
                    change_descriptor@,
                ] && fresh_wallet(&w.bdk()),
            },
    {
        match create_wallet(receive_descriptor, change_descriptor, network) {
            Ok(inner) => Ok(
                BdkBip84Wallet {
                    inner,
                    receive_descriptor: receive_descriptor.to_owned(),
                    change_descriptor: change_descriptor.to_owned(),
                },
            ),
            Err(e) => {
                let mut message = "bdk_wallet create failed: ".to_owned();
                message.append(e.as_str());
                Err(WalletError::Onchain(message))
            },
        }
    }

    /// The network.
    pub fn network(&self) -> (network: Network)
        ensures
            network == wallet_network(&self.bdk()),
    {
        network_of(&self.inner)
    }

    /// The descriptor of receive addresses.
    pub fn receive_descriptor(&self) -> (text: &str)
        requires
            self.consistent(),
        ensures
            text@ == chain_descriptor(&self.bdk(), false),
    {
        self.receive_descriptor.as_str()
    }

    /// The descriptor of change addresses.
    pub fn change_descriptor(&self) -> (text: &str)
        requires
            self.consistent(),
        ensures
            text@ == chain_descriptor(&self.bdk(), true),
    {
        self.change_descriptor.as_str()
    }

    /// The wallet as `bdk_wallet` keeps it.
    pub fn inner(&self) -> (wallet: &bdk_wallet::Wallet)
        ensures
            *wallet == self.bdk(),
    {
        &self.inner
    }

    /// The wallet as `bdk_wallet` keeps it, to be changed. The descriptors have to stay.
    pub fn inner_mut(&mut self) -> (wallet: &mut bdk_wallet::Wallet)
        ensures
            *wallet == old(self).bdk(),
            final(self).bdk() == *final(wallet),
            old(self).consistent() && same_keys(&old(self).bdk(), final(wallet))
                ==> final(self).consistent(),
    {
        &mut self.inner
    }

    /// The number of receive addresses that were given out.
    pub fn revealed_external_count(&self) -> (n: u32)
        ensures
            n == wallet_next(&self.bdk(), false),
            n <= 0x7fff_ffff,
    {
        next_of(&self.inner, false)
    }

    /// The number of change addresses that were given out.
    pub fn revealed_internal_count(&self) -> (n: u32)
        ensures
            n == wallet_next(&self.bdk(), true),
            n <= 0x7fff_ffff,
    {
        next_of(&self.inner, true)
    }

    /// The receive address of an index, whether it was given out or not.
    pub fn peek_receive_address(&self, index: u32) -> (address: String)
        requires
            self.wf(),
            index <= 0x7fff_ffff,
        ensures
            chain_address(&self.bdk(), false, index) matches Ok(a) && a == address@,
    {
        peek(&self.inner, false, index).1
    }

    /// The change address of an index, whether it was given out or not.
    pub fn peek_change_address(&self, index: u32) -> (address: String)
        requires
            self.wf(),
            index <= 0x7fff_ffff,
        ensures
            chain_address(&self.bdk(), true, index) matches Ok(a) && a == address@,
    {
        peek(&self.inner, true, index).1
    }

    /// The script of the receive address of an index.
    pub fn receive_script_pubkey(&self, index: u32) -> (script: Vec<u8>)
        requires
            self.wf(),
            index <= 0x7fff_ffff,
        ensures
            script@ == descriptor_script(chain_descriptor(&self.bdk(), false), index),
    {
        peek(&self.inner, false, index).0
    }

    /// The script of the change address of an index.
    pub fn change_script_pubkey(&self, index: u32) -> (script: Vec<u8>)
        requires
            self.wf(),
            index <= 0x7fff_ffff,
        ensures
            script@ == descriptor_script(chain_descriptor(&self.bdk(), true), index),
    {
        peek(&self.inner, true, index).0
    }

    /// Tells the wallet of what a scan found. Where the wallet refuses it, nothing changes.
    pub fn apply_update(&mut self, update: bdk_wallet::Update) -> (r: Result<(), WalletError>)
        ensures
            old(self).consistent() ==> final(self).consistent(),
            same_keys(&old(self).bdk(), &final(self).bdk()),
            wallet_next(&old(self).bdk(), false) <= wallet_next(&final(self).bdk(), false),
            wallet_next(&old(self).bdk(), true) <= wallet_next(&final(self).bdk(), true),
            match wallet_updated(&old(self).bdk(), &update) {
                Ok(state) => r is Ok && state_of(&final(self).bdk()) == state,
                Err(e) => onchain_error(r, "bdk_wallet apply_update failed: "@ + e) && state_of(
                    &final(self).bdk(),
                ) == state_of(&old(self).bdk()),
            },
    {
        match update_wallet(&mut self.inner, update) {
            Ok(()) => Ok(()),
            Err(e) => {
                let mut message = "bdk_wallet apply_update failed: ".to_owned();
                message.append(e.as_str());
                Err(WalletError::Onchain(message))
            },
        }
    }

    /// The coins, each with its address and its depth below the tip.
    pub fn list_wallet_utxos(&self) -> (r: Result<Vec<WalletUtxo>, WalletError>)
        ensures
            match wallet_utxos(&self.bdk()) {
                Ok(list) => r matches Ok(v) && utxos_view(v@) == list,
                Err(message) => onchain_error(r, message),
            },
    {
        let tip: u32 = tip_of(&self.inner);
        let network = network_of(&self.inner);
        let coins = list_coins(&self.inner);
        let ghost all = wallet_coins(&self.inner);
        let mut list: Vec<WalletUtxo> = Vec::new();
        assert(utxos_view(list@) =~= Seq::empty());
        assert(all.take(0) =~= Seq::empty());
        for i in 0..coins.len()
            invariant
                all == Seq::new(coins@.len(), |k: int| coins@[k]@),
                all == wallet_coins(&self.inner),
                tip == wallet_tip(&self.inner),
                network == wallet_network(&self.inner),
                utxos_of(all.take(i as int), tip, network) == Ok::<Seq<Utxo>, Seq<char>>(
                    utxos_view(list@),
                ),
        {
            proof {
                assert(all.take(i + 1).drop_last() =~= all.take(i as int));
                assert(all.take(i + 1).last() == coins@[i as int]@);
            }
            match local_output_to_wallet_utxo(&coins[i], tip, network) {
                Ok(u) => {
                    let ghost before = utxos_view(list@);
                    list.push(u);
                    assert(utxos_view(list@) =~= before.push(u@));
                },
                Err(e) => {
                    proof {
                        lemma_fault_stays(all, tip, network, i + 1);
                    }
                    return Err(e);
                },
            }
        }
        assert(all.take(all.len() as int) =~= all);
        Ok(list)
    }

    /// The balance.
    pub fn balance(&self) -> (r: Result<WalletBalance, WalletError>)
        ensures
            match wallet_balance(&self.bdk()) {
                Ok(balance) => r == Ok::<WalletBalance, WalletError>(balance),
                Err(message) => onchain_error(r, message),
            },
    {
        match self.list_wallet_utxos() {
            Ok(list) => balance_from_utxos(&list),
            Err(e) => Err(e),
        }
    }

    /// The index of an address of one chain, searched for a little beyond those given out.
    pub fn index_of_address(&self, change: bool, address: &str) -> (index: Option<u32>)
        requires
            self.wf(),
        ensures
            index == address_index(&self.bdk(), change, address@),
    {
        let next: u32 = next_of(&self.inner, change);
        let end: u32 = if next == 0 {
            9
        } else {
            next + 8
        };
        let end: u32 = if end > 0x8000_0000 {
            0x8000_0000
        } else {
            end
        };
        let mut i: u32 = 0;
        while i < end
            invariant
                self.wf(),
                i <= end <= 0x8000_0000,
                end == search_end(&self.inner, change),
                address_index(&self.inner, change, address@) == index_from(
                    &self.inner,
                    change,
                    address@,
                    i as int,
                    end as int,
                ),
            decreases end - i,
        {
            let peeked = peek(&self.inner, change, i);
            if same(peeked.1.as_str(), address) {
                return Some(i);
            }
            i += 1;
        }
        None
    }

    /// The highest index of a chain that one of these coins pays to.
    fn highest_index(&self, list: &Vec<WalletUtxo>, change: bool) -> (index: Option<u32>)
        requires
            self.wf(),
        ensures
            index == highest_used(&self.bdk(), utxos_view(list@), change),
    {
        let ghost all = utxos_view(list@);
        let mut highest: Option<u32> = None;
        for i in 0..list.len()
            invariant
                self.wf(),
                all == utxos_view(list@),
                highest == highest_used(&self.inner, all.take(i as int), change),
        {
            assert(all.take(i + 1).drop_last() =~= all.take(i as int));
            assert(all.take(i + 1).last() == list@[i as int]@);
            if list[i].is_change == change {
                let found: Option<u32> = self.index_of_address(change, list[i].address.as_str());
                highest = match (highest, found) {
                    (Some(x), Some(y)) => if x >= y {
                        Some(x)
                    } else {
                        Some(y)
                    },
                    (Some(x), None) => Some(x),
                    (None, y) => y,
                };
            }
        }
        assert(all.take(all.len() as int) =~= all);
        highest
    }

    /// What the wallet holds.
    pub fn snapshot(&self, extended_receive_by: u32, extended_change_by: u32) -> (r: Result<
        WalletSyncSnapshot,
        WalletError,
    >)
        requires
            self.wf(),
        ensures
            is_snapshot(r, snapshot_of(&self.bdk(), extended_receive_by, extended_change_by)),
    {
        let utxos = match self.list_wallet_utxos() {
            Ok(utxos) => utxos,
            Err(e) => return Err(e),
        };
        let balance = match balance_from_utxos(&utxos) {
            Ok(balance) => balance,
            Err(e) => return Err(e),
        };
        let receive: u32 = self.revealed_external_count();
        let change: u32 = self.revealed_internal_count();
        let highest_used_receive: Option<u32> = self.highest_index(&utxos, false);
        let highest_used_change: Option<u32> = self.highest_index(&utxos, true);
        Ok(
            WalletSyncSnapshot {
                utxos,
                balance,
                receive_gap: if receive == 0 {
                    1
                } else {
                    receive
                },
                change_gap: if change == 0 {
                    1
                } else {
                    change
                },
                highest_used_receive,
                highest_used_change,
                extended_receive_by,
                extended_change_by,
                hit_max_gap: false,
            },
        )
    }

    /// The wallet, as it is printed for a developer: never its descriptors.
    pub fn debug_text(&self) -> (text: String)
        ensures
            text@ == "BdkBip84Wallet { network: "@ + wallet_network(&self.bdk()).debug_name()
                + ", receive_descriptor: \"[descriptor redacted]\", change_descriptor: \"[descriptor redacted]\", external_index: "@
                + index_shown(wallet_last(&self.bdk(), false)) + ", internal_index: "@
                + index_shown(wallet_last(&self.bdk(), true)) + " }"@,
    {
        let mut text = "BdkBip84Wallet { network: ".to_owned();
        text.append(network_of(&self.inner).debug_text());
        text.append(
            ", receive_descriptor: \"[descriptor redacted]\", change_descriptor: \"[descriptor redacted]\", external_index: ",
        );
        text.append(index_text(last_of(&self.inner, false)).as_str());
        text.append(", internal_index: ");
        text.append(index_text(last_of(&self.inner, true)).as_str());
        text.append(" }");
        text
    }
}

/// A number that may be missing, as it is printed for a developer.
pub open spec fn index_shown(index: Option<u32>) -> Seq<char> {
    match index {
        Some(i) => "Some("@ + decimal(i as nat) + ")"@,
        None => "None"@,
    }
}

/// A number that may be missing, as it is printed for a developer.
fn index_text(index: Option<u32>) -> (text: String)
    ensures
        text@ == index_shown(index),
{
    match index {
        Some(i) => {
            let mut text = "Some(".to_owned();
            text.append(decimal_text(i as u64).as_str());
            text.append(")");
            text
        },
        None => "None".to_owned(),
    }
}

/// Coins behind one without an address do not give it one.
proof fn lemma_fault_stays(coins: Seq<Coin>, tip: u32, network: Network, k: int)
    requires
        0 <= k <= coins.len(),
        utxos_of(coins.take(k), tip, network) is Err,
    ensures
        utxos_of(coins, tip, network) == utxos_of(coins.take(k), tip, network),
    decreases coins.len(),
{
    if k == coins.len() {
        assert(coins.take(k) =~= coins);
    } else {
        assert(coins.drop_last().take(k) =~= coins.take(k));
        lemma_fault_stays(coins.drop_last(), tip, network, k);
    }
}

/// A coin as the wallet shows it.
fn local_output_to_wallet_utxo(coin: &BdkCoin, tip_height: u32, network: Network) -> (r: Result<
    WalletUtxo,
    WalletError,
>)
    ensures
        match utxo_of(coin@, tip_height, network) {
            Ok(u) => r matches Ok(v) && v@ == u,
            Err(message) => onchain_error(r, message),
        },
{
    match address_of(&coin.script, network) {
        Ok(address) => {
            let confirmations: u32 = match coin.height {
                Some(height) => if height >= tip_height {
                    1
                } else if tip_height - height == u32::MAX {
                    u32::MAX
                } else {
                    tip_height - height + 1
                },
                None => 0,
            };
            Ok(
                WalletUtxo {
                    outpoint: OutPointRef { txid: coin.txid.clone(), vout: coin.vout },
                    amount_sats: coin.amount_sats,
                    address,
                    confirmations,
                    is_change: coin.is_change,
                },
            )
        },
        Err(e) => {
            let mut message = "bdk utxo script is not a standard address for ".to_owned();
            message.append(network.debug_text());
            message.append(": ");
            message.append(e.as_str());
            Err(WalletError::Onchain(message))
        },
    }
}

/// A way to scan the chain, for its users to provide: the update that tells a wallet of what is
/// there, or why the scan failed.
pub trait BdkUpdateSource {
    /// Scans the chain for a wallet.
    fn full_scan_update(&self, wallet: &BdkBip84Wallet) -> Result<bdk_wallet::Update, WalletError>
        requires
            wallet.wf(),
    ;
}

/// An update that was made before.
pub struct MockBdkUpdateSource {
    update: bdk_wallet::Update,
}

/// Two updates with the same in them.
pub open spec fn same_update(a: &bdk_wallet::Update, b: &bdk_wallet::Update) -> bool {
    &&& update_blocks(a) == update_blocks(b)
    &&& update_txs(a) == update_txs(b)
    &&& update_anchors(a) == update_anchors(b)
    &&& update_seen(a) == update_seen(b)
    &&& update_active(a) == update_active(b)
}

impl MockBdkUpdateSource {
    /// The update.
    pub closed spec fn update(&self) -> bdk_wallet::Update {
        self.update
    }

    /// An update with nothing in it.
    pub fn new() -> (source: MockBdkUpdateSource)
        ensures
            nothing_in(&source.update()),
    {
        MockBdkUpdateSource { update: empty_update() }
    }

    /// This update.
    pub fn with_update(update: bdk_wallet::Update) -> (source: MockBdkUpdateSource)
        ensures
            source.update() == update,
    {
        MockBdkUpdateSource { update }
    }
}

impl BdkUpdateSource for MockBdkUpdateSource {
    fn full_scan_update(&self, _wallet: &BdkBip84Wallet) -> (r: Result<
        bdk_wallet::Update,
        WalletError,
    >)
        ensures
            r matches Ok(u) && same_update(&u, &self.update()),
    {
        Ok(copy_update(&self.update))
    }
}

/// A scan that always fails.
pub struct FailingBdkUpdateSource {
    message: String,
}

impl FailingBdkUpdateSource {
    /// Why it fails.
    pub closed spec fn why(&self) -> Seq<char> {
        self.message@
    }

    /// A scan that always fails like this.
    pub fn new(message: &str) -> (source: FailingBdkUpdateSource)
        ensures
            source.why() == message@,
    {
        FailingBdkUpdateSource { message: message.to_owned() }
    }
}

impl BdkUpdateSource for FailingBdkUpdateSource {
    fn full_scan_update(&self, _wallet: &BdkBip84Wallet) -> (r: Result<
        bdk_wallet::Update,
        WalletError,
    >)
        ensures
            onchain_error(r, self.why()),
    {
        Err(WalletError::Onchain(self.message.clone()))
    }
}

/// What comes of a synchronization: of a failed scan its error, of an update that the wallet
/// refuses another, and the wallet as it was; else what the wallet then holds.
pub open spec fn synced(
    before: &bdk_wallet::Wallet,
    after: &bdk_wallet::Wallet,
    scan: Result<bdk_wallet::Update, WalletError>,
    r: Result<WalletSyncSnapshot, WalletError>,
) -> bool {
    match scan {
        Err(e) => r == Err::<WalletSyncSnapshot, WalletError>(e) && *after == *before,
        Ok(update) => match wallet_updated(before, &update) {
            Err(e) => onchain_error(r, "bdk_wallet apply_update failed: "@ + e) && state_of(after)
                == state_of(before),
            Ok(state) => state_of(after) == state && is_snapshot(
                r,
                snapshot_of(
                    after,
                    (wallet_next(after, false) - wallet_next(before, false)) as u32,
                    (wallet_next(after, true) - wallet_next(before, true)) as u32,
                ),
            ),
        },
    }
}

/// Whether a synchronization may come out like this, by what the scan may return.
pub open spec fn may_sync<S: BdkUpdateSource>(
    source: &S,
    before: BdkBip84Wallet,
    after: &bdk_wallet::Wallet,
    r: Result<WalletSyncSnapshot, WalletError>,
) -> bool {
    exists|scan: Result<bdk_wallet::Update, WalletError>| #[trigger]
        call_ensures(S::full_scan_update, (source, &before), scan) && synced(
            &before.bdk(),
            after,
            scan,
            r,
        )
}

/// Scans the chain, tells the wallet of what is there, and looks at what it then holds.
pub fn list_bip84_utxos_with_bdk_sync<S: BdkUpdateSource>(
    wallet: &mut BdkBip84Wallet,
    source: &S,
) -> (r: Result<WalletSyncSnapshot, WalletError>)
    requires
        old(wallet).wf(),
    ensures
        final(wallet).wf(),
        same_keys(&old(wallet).bdk(), &final(wallet).bdk()),
        may_sync(source, *old(wallet), &final(wallet).bdk(), r),
{
    wallet.sync_with_source(source)
}

impl BdkBip84Wallet {
    /// Scans the chain, tells the wallet of what is there, and looks at what it then holds.
    pub fn sync_with_source<S: BdkUpdateSource>(&mut self, source: &S) -> (r: Result<
        WalletSyncSnapshot,
        WalletError,
    >)
        requires
            old(self).wf(),
        ensures
            final(self).wf(),
            same_keys(&old(self).bdk(), &final(self).bdk()),
            may_sync(source, *old(self), &final(self).bdk(), r),
    {
        let ghost before = *self;
        let before_ext: u32 = self.revealed_external_count();
        let before_int: u32 = self.revealed_internal_count();
        let scan = source.full_scan_update(self);
        let ghost found = scan;
        assert(call_ensures(S::full_scan_update, (source, &before), found));
        let update = match scan {
            Ok(update) => update,
            Err(e) => return Err(e),
        };
        match self.apply_update(update) {
            Ok(()) => {},
            Err(e) => return Err(e),
        }
        let after_ext: u32 = self.revealed_external_count();
        let after_int: u32 = self.revealed_internal_count();
        let r = self.snapshot(after_ext - before_ext, after_int - before_int);
        assert(synced(&before.bdk(), &self.bdk(), found, r));
        r
    }
}

/// What is said of a coin whose index is too high to be signed for.
pub open spec fn beyond_gap(index: u32, sign_gap: u32) -> Seq<char> {
    "bdk UTXO at derivation index "@ + decimal(index as nat) + " exceeds product sign gap cap "@
        + decimal(sign_gap as nat)
        + " (BDK_PRODUCT_SIGN_GAP_CAP / MAX_ADDRESS_GAP); refusing silent drop \u{2014} raise cap only with an explicit product decision"@
}

/// What is said of a coin whose index is not found.
pub open spec fn unmapped(utxo: Utxo, sign_gap: u32) -> Seq<char> {
    "bdk snapshot UTXO address could not be mapped to a derivation index within sign gap "@
        + decimal(sign_gap as nat) + " (chain="@ + (if utxo.is_change {
        "Internal"@
    } else {
        "External"@
    }) + ", addr="@ + utxo.address + ")"@
}

/// Why a coin cannot be signed for.
pub open spec fn coin_fault(wallet: &bdk_wallet::Wallet, utxo: Utxo, sign_gap: u32) -> Option<
    Seq<char>,
> {
    match address_index(wallet, utxo.is_change, utxo.address) {
        Some(i) => if i < sign_gap {
            None
        } else {
            Some(beyond_gap(i, sign_gap))
        },
        None => Some(unmapped(utxo, sign_gap)),
    }
}

/// Why the first coin that cannot be signed for cannot.
pub open spec fn gap_fault(wallet: &bdk_wallet::Wallet, list: Seq<Utxo>, sign_gap: u32) -> Option<
    Seq<char>,
>
    decreases list.len(),
{
    if list.len() == 0 {
        None
    } else {
        match coin_fault(wallet, list[0], sign_gap) {
            Some(message) => Some(message),
            None => gap_fault(wallet, list.skip(1), sign_gap),
        }
    }
}

/// The number of addresses that a payment is signed for.
pub open spec fn sign_gap_of(wallet: &bdk_wallet::Wallet, snap: Snapshot) -> u32 {
    let a = wallet_next(wallet, false);
    let b = wallet_next(wallet, true);
    let c = if a >= b {
        a
    } else {
        b
    };
    let d = if c >= snap.receive_gap {
        c
    } else {
        snap.receive_gap
    };
    let e = if d >= snap.change_gap {
        d
    } else {
        snap.change_gap
    };
    if e == 0 {
        1
    } else if e > BDK_PRODUCT_SIGN_GAP_CAP {
        BDK_PRODUCT_SIGN_GAP_CAP
    } else {
        e
    }
}

/// The larger of two numbers.
fn larger_of(a: u32, b: u32) -> (n: u32)
    ensures
        n == if a >= b {
            a
        } else {
            b
        },
{
    if a >= b {
        a
    } else {
        b
    }
}

/// Checks that every coin can be signed for: none is left out in silence.
pub fn assert_snapshot_utxos_within_sign_gap(
    bdk: &BdkBip84Wallet,
    utxos: &Vec<WalletUtxo>,
    sign_gap: u32,
) -> (r: Result<(), WalletError>)
    requires
        bdk.wf(),
    ensures
        match gap_fault(&bdk.bdk(), utxos_view(utxos@), sign_gap) {
            Some(message) => onchain_error(r, message),
            None => r is Ok,
        },
{
    let ghost list = utxos_view(utxos@);
    assert(list.skip(0) =~= list);
    for i in 0..utxos.len()
        invariant
            bdk.wf(),
            list == utxos_view(utxos@),
            gap_fault(&bdk.bdk(), list, sign_gap) == gap_fault(
                &bdk.bdk(),
                list.skip(i as int),
                sign_gap,
            ),
    {
        let utxo = &utxos[i];
        assert(list.skip(i as int)[0] == utxo@);
        assert(list.skip(i as int).skip(1) =~= list.skip(i + 1));
        match bdk.index_of_address(utxo.is_change, utxo.address.as_str()) {
            Some(index) => {
                if index >= sign_gap {
                    let mut message = "bdk UTXO at derivation index ".to_owned();
                    message.append(decimal_text(index as u64).as_str());
                    message.append(" exceeds product sign gap cap ");
                    message.append(decimal_text(sign_gap as u64).as_str());
                    message.append(
                        " (BDK_PRODUCT_SIGN_GAP_CAP / MAX_ADDRESS_GAP); refusing silent drop \u{2014} raise cap only with an explicit product decision",
                    );
                    return Err(WalletError::Onchain(message));
                }
            },
            None => {
                let mut message =
                    "bdk snapshot UTXO address could not be mapped to a derivation index within sign gap ".to_owned();
                message.append(decimal_text(sign_gap as u64).as_str());
                message.append(" (chain=");
                let chain = if utxo.is_change {
                    "Internal"
                } else {
                    "External"
                };
                message.append(chain);
                message.append(", addr=");
                message.append(utxo.address.as_str());
                message.append(")");
                return Err(WalletError::Onchain(message));
            },
        }
    }
    assert(list.skip(list.len() as int) =~= Seq::empty());
    Ok(())
}

/// A prepared payment, and what the synchronization before it found.
pub struct GapSyncedPreparedSpend<P> {
    pub prepared: P,
    pub sync: WalletSyncSnapshot,
}

/// Whether preparing a payment after a synchronization may come out like this.
pub open spec fn may_prepare<
    W,
    P,
    O: Fn(u32) -> Result<W, WalletError>,
    F: Fn(&W, &WalletSyncSnapshot, u32) -> Result<P, WalletError>,
>(
    open: O,
    prepare: F,
    sync: WalletSyncSnapshot,
    gap: u32,
    r: Result<GapSyncedPreparedSpend<P>, BdkSyncSpendFailure>,
) -> bool {
    exists|opened: Result<W, WalletError>| #[trigger]
        call_ensures(open, (gap,), opened) && match opened {
            Err(e) => r == Err::<GapSyncedPreparedSpend<P>, BdkSyncSpendFailure>(
                BdkSyncSpendFailure::AfterSync { sync, cause: e },
            ),
            Ok(w) => exists|made: Result<P, WalletError>| #[trigger]
                call_ensures(prepare, (&w, &sync, gap), made) && match made {
                    Ok(prepared) => r == Ok::<GapSyncedPreparedSpend<P>, BdkSyncSpendFailure>(
                        GapSyncedPreparedSpend { prepared, sync },
                    ),
                    Err(cause) => r == Err::<GapSyncedPreparedSpend<P>, BdkSyncSpendFailure>(
                        BdkSyncSpendFailure::AfterSync { sync, cause },
                    ),
                },
        }
}

/// Whether a payment may come out like this after a synchronization that came out like that.
pub open spec fn may_spend<
    W,
    P,
    O: Fn(u32) -> Result<W, WalletError>,
    F: Fn(&W, &WalletSyncSnapshot, u32) -> Result<P, WalletError>,
>(
    after: &bdk_wallet::Wallet,
    open: O,
    prepare: F,
    found: Result<WalletSyncSnapshot, WalletError>,
    r: Result<GapSyncedPreparedSpend<P>, BdkSyncSpendFailure>,
) -> bool {
    match found {
        Err(e) => r == Err::<GapSyncedPreparedSpend<P>, BdkSyncSpendFailure>(
            BdkSyncSpendFailure::Sync(e),
        ),
        Ok(sync) => {
            let gap = sign_gap_of(after, sync@);
            match gap_fault(after, sync@.utxos, gap) {
                Some(message) => r matches Err(BdkSyncSpendFailure::AfterSync { sync: s, cause })
                    && s == sync && (cause matches WalletError::Onchain(text) && text@ == message),
                None => may_prepare(open, prepare, sync, gap, r),
            }
        },
    }
}

/// Whether a payment may come out like this, by what the scan may return.
pub open spec fn may_sync_and_spend<
    S: BdkUpdateSource,
    W,
    P,
    O: Fn(u32) -> Result<W, WalletError>,
    F: Fn(&W, &WalletSyncSnapshot, u32) -> Result<P, WalletError>,
>(
    source: &S,
    before: BdkBip84Wallet,
    after: &bdk_wallet::Wallet,
    open: O,
    prepare: F,
    r: Result<GapSyncedPreparedSpend<P>, BdkSyncSpendFailure>,
) -> bool {
    exists|found: Result<WalletSyncSnapshot, WalletError>| #[trigger]
        may_sync(source, before, after, found) && may_spend(after, open, prepare, found, r)
}

/// Synchronizes the wallet and prepares a payment from the coins that it then holds. `open` makes
/// the wallet that signs, for so many addresses; `prepare` chooses coins and signs. Whatever fails
/// after the synchronization is reported together with what that found.
pub fn select_and_prepare_bip84_spend_with_bdk_sync<
    S: BdkUpdateSource,
    W,
    P,
    O: Fn(u32) -> Result<W, WalletError>,
    F: Fn(&W, &WalletSyncSnapshot, u32) -> Result<P, WalletError>,
>(
    bdk: &mut BdkBip84Wallet,
    source: &S,
    fee_rate_sat_vb: u64,
    open: O,
    prepare: F,
) -> (r: Result<GapSyncedPreparedSpend<P>, BdkSyncSpendFailure>)
    requires
        old(bdk).wf(),
        forall|gap: u32| #[trigger] call_requires(open, (gap,)),
        forall|w: &W, sync: &WalletSyncSnapshot, gap: u32| #[trigger]
            call_requires(prepare, (w, sync, gap)),
    ensures
        final(bdk).wf(),
        same_keys(&old(bdk).bdk(), &final(bdk).bdk()),
        if fee_rate_sat_vb == 0 {
            &&& r matches Err(BdkSyncSpendFailure::Sync(e)) && (e matches WalletError::Onchain(text)
                && text@ == "fee rate must be > 0 sat/vB for product spend"@)
            &&& *final(bdk) == *old(bdk)
        } else {
            may_sync_and_spend(source, *old(bdk), &final(bdk).bdk(), open, prepare, r)
        },
{
    let ghost before = *bdk;
    if fee_rate_sat_vb == 0 {
        return Err(
            BdkSyncSpendFailure::Sync(
                WalletError::Onchain("fee rate must be > 0 sat/vB for product spend".to_owned()),
            ),
        );
    }
    let found = bdk.sync_with_source(source);
    let ghost result = found;
    assert(may_sync(source, before, &bdk.bdk(), result));
    let sync = match found {
        Ok(sync) => sync,
        Err(e) => {
            let r = Err(BdkSyncSpendFailure::Sync(e));
            assert(may_spend(&bdk.bdk(), open, prepare, result, r));
            return r;
        },
    };
    let given: u32 = larger_of(bdk.revealed_external_count(), bdk.revealed_internal_count());
    let raw_gap: u32 = larger_of(larger_of(given, sync.receive_gap), sync.change_gap);
    let gap: u32 = if raw_gap == 0 {
        1
    } else if raw_gap > BDK_PRODUCT_SIGN_GAP_CAP {
        BDK_PRODUCT_SIGN_GAP_CAP
    } else {
        raw_gap
    };
    if let Err(cause) = assert_snapshot_utxos_within_sign_gap(bdk, &sync.utxos, gap) {
        let r = Err(BdkSyncSpendFailure::AfterSync { sync, cause });
        assert(may_spend(&bdk.bdk(), open, prepare, result, r));
        return r;
    }
    let opened = open(gap);
    let ghost tried = opened;
    let ghost found_sync = sync;
    let signer = match opened {
        Ok(signer) => signer,
        Err(e) => {
            let r = Err(BdkSyncSpendFailure::AfterSync { sync, cause: e });
            assert(call_ensures(open, (gap,), tried));
            assert(may_prepare(open, prepare, found_sync, gap, r));
            assert(may_spend(&bdk.bdk(), open, prepare, result, r));
            return r;
        },
    };
    let made = prepare(&signer, &sync, gap);
    let ghost done = made;
    let r = match made {
        Ok(prepared) => Ok(GapSyncedPreparedSpend { prepared, sync }),
        Err(cause) => Err(BdkSyncSpendFailure::AfterSync { sync, cause }),
    };
    assert(call_ensures(prepare, (&signer, &found_sync, gap), done));
    assert(call_ensures(open, (gap,), tried));
    assert(may_prepare(open, prepare, found_sync, gap, r));
    assert(may_spend(&bdk.bdk(), open, prepare, result, r));
    r
}

/// A payment that fails keeps what the synchronization found, where that came to an end; only a
/// failure without one has none.
pub proof fn lemma_failure_keeps_snapshot<
    W,
    P,
    O: Fn(u32) -> Result<W, WalletError>,
    F: Fn(&W, &WalletSyncSnapshot, u32) -> Result<P, WalletError>,
>(
    after: &bdk_wallet::Wallet,
    open: O,
    prepare: F,
    found: Result<WalletSyncSnapshot, WalletError>,
    failure: BdkSyncSpendFailure,
)
    requires
        may_spend(
            after,
            open,
            prepare,
            found,
            Err::<GapSyncedPreparedSpend<P>, BdkSyncSpendFailure>(failure),
        ),
    ensures
        match found {
            Ok(snapshot) => failure matches BdkSyncSpendFailure::AfterSync { sync, .. } && sync
                == snapshot,
            Err(e) => failure == BdkSyncSpendFailure::Sync(e),
        },
{
}

/// A payment that was prepared was prepared from what the synchronization found, by the wallet that
/// was opened for as many addresses as it takes to sign for every coin.
pub proof fn lemma_prepared_from_sync<
    W,
    P,
    O: Fn(u32) -> Result<W, WalletError>,
    F: Fn(&W, &WalletSyncSnapshot, u32) -> Result<P, WalletError>,
>(
    after: &bdk_wallet::Wallet,
    open: O,
    prepare: F,
    found: Result<WalletSyncSnapshot, WalletError>,
    spend: GapSyncedPreparedSpend<P>,
)
    requires
        may_spend(
            after,
            open,
            prepare,
            found,
            Ok::<GapSyncedPreparedSpend<P>, BdkSyncSpendFailure>(spend),
        ),
    ensures
        found == Ok::<WalletSyncSnapshot, WalletError>(spend.sync),
        exists|gap: u32, w: W|
            #![trigger call_ensures(
                prepare,
                (&w, &spend.sync, gap),
                Ok::<P, WalletError>(spend.prepared),
            )]
            {
                &&& call_ensures(open, (gap,), Ok::<W, WalletError>(w))
                &&& call_ensures(
                    prepare,
                    (&w, &spend.sync, gap),
                    Ok::<P, WalletError>(spend.prepared),
                )
                &&& forall|i: int|
                    0 <= i < spend.sync@.utxos.len() ==> (address_index(
                        after,
                        (#[trigger] spend.sync@.utxos[i]).is_change,
                        spend.sync@.utxos[i].address,
                    ) matches Some(index) && index < gap)
            },
{
    let sync = found->Ok_0;
    let gap = sign_gap_of(after, sync@);
    lemma_no_coin_beyond_gap(after, sync@.utxos, gap);
    let r = Ok::<GapSyncedPreparedSpend<P>, BdkSyncSpendFailure>(spend);
    assert(may_prepare(open, prepare, sync, gap, r));
    let opened = choose|opened: Result<W, WalletError>| #[trigger]
        call_ensures(open, (gap,), opened) && match opened {
            Err(e) => r == Err::<GapSyncedPreparedSpend<P>, BdkSyncSpendFailure>(
                BdkSyncSpendFailure::AfterSync { sync, cause: e },
            ),
            Ok(w) => exists|made: Result<P, WalletError>| #[trigger]
                call_ensures(prepare, (&w, &sync, gap), made) && match made {
                    Ok(prepared) => r == Ok::<GapSyncedPreparedSpend<P>, BdkSyncSpendFailure>(
                        GapSyncedPreparedSpend { prepared, sync },
                    ),
                    Err(cause) => r == Err::<GapSyncedPreparedSpend<P>, BdkSyncSpendFailure>(
                        BdkSyncSpendFailure::AfterSync { sync, cause },
                    ),
                },
        };
    let w = opened->Ok_0;
    let made = choose|made: Result<P, WalletError>| #[trigger]
        call_ensures(prepare, (&w, &sync, gap), made) && match made {
            Ok(prepared) => r == Ok::<GapSyncedPreparedSpend<P>, BdkSyncSpendFailure>(
                GapSyncedPreparedSpend { prepared, sync },
            ),
            Err(cause) => r == Err::<GapSyncedPreparedSpend<P>, BdkSyncSpendFailure>(
                BdkSyncSpendFailure::AfterSync { sync, cause },
            ),
        };
    assert(made == Ok::<P, WalletError>(spend.prepared));
    assert(call_ensures(prepare, (&w, &spend.sync, gap), Ok::<P, WalletError>(spend.prepared)));
}

/// A payment is prepared only where every coin that the synchronization found can be signed for.
pub proof fn lemma_no_coin_beyond_gap(wallet: &bdk_wallet::Wallet, list: Seq<Utxo>, sign_gap: u32)
    requires
        gap_fault(wallet, list, sign_gap) is None,
    ensures
        forall|i: int|
            0 <= i < list.len() ==> (address_index(
                wallet,
                (#[trigger] list[i]).is_change,
                list[i].address,
            ) matches Some(index) && index < sign_gap),
    decreases list.len(),
{
    if list.len() > 0 {
        lemma_no_coin_beyond_gap(wallet, list.skip(1), sign_gap);
        assert forall|i: int| 0 <= i < list.len() implies (address_index(
            wallet,
            (#[trigger] list[i]).is_change,
            list[i].address,
        ) matches Some(index) && index < sign_gap) by {
            if i > 0 {
                assert(list.skip(1)[i - 1] == list[i]);
            }
        }
    }
}

/// The coins that a wallet shows are all of its coins, in their order: each with its output, its
/// amount and its chain, at the address that pays to its script. A coin in a block has as many
/// confirmations as there are blocks from that one to the tip, a coin outside of blocks has none.
pub proof fn lemma_shows_every_coin(coins: Seq<Coin>, tip: u32, network: Network)
    ensures
        utxos_of(coins, tip, network) is Ok <==> forall|i: int|
            0 <= i < coins.len() ==> script_address((#[trigger] coins[i]).script, network) is Ok,
        utxos_of(coins, tip, network) matches Ok(list) ==> list.len() == coins.len() && forall|
            i: int,
        |
            0 <= i < list.len() ==> {
                let shown = #[trigger] list[i];
                &&& shown.txid == coins[i].txid && shown.vout == coins[i].vout
                &&& shown.amount_sats == coins[i].amount_sats
                &&& shown.is_change == coins[i].is_change
                &&& script_address(coins[i].script, network) == Ok::<Seq<char>, Seq<char>>(
                    shown.address,
                )
                &&& shown.confirmations > 0 <==> coins[i].height is Some
                &&& (coins[i].height matches Some(height) ==> height <= tip && tip < u32::MAX
                    ==> shown.confirmations + height == tip + 1)
                &&& (coins[i].height matches Some(height) ==> height > tip ==> shown.confirmations
                    == 1)
            },
    decreases coins.len(),
{
    if coins.len() > 0 {
        let front = coins.drop_last();
        lemma_shows_every_coin(front, tip, network);
        if utxos_of(coins, tip, network) is Ok {
            let list = utxos_of(coins, tip, network)->Ok_0;
            let before = utxos_of(front, tip, network)->Ok_0;
            assert forall|i: int| 0 <= i < coins.len() implies script_address(
                (#[trigger] coins[i]).script,
                network,
            ) is Ok by {
                if i < front.len() {
                    assert(front[i] == coins[i]);
                }
            }
            assert forall|i: int| 0 <= i < front.len() implies #[trigger] list[i] == before[i]
                && front[i] == coins[i] by {}
        } else if forall|i: int|
            0 <= i < coins.len() ==> script_address((#[trigger] coins[i]).script, network) is Ok {
            assert forall|i: int| 0 <= i < front.len() implies script_address(
                (#[trigger] front[i]).script,
                network,
            ) is Ok by {
                assert(front[i] == coins[i]);
            }
            assert(script_address(coins[coins.len() - 1].script, network) is Ok);
        }
    }
}

/// The balance of a wallet is that of the coins that it shows: all of them.
pub proof fn lemma_balance_of_wallet(wallet: &bdk_wallet::Wallet)
    ensures
        wallet_balance(wallet) matches Ok(balance) ==> (wallet_utxos(wallet) matches Ok(list)
            && balance.confirmed_sats + balance.unconfirmed_sats == whole_amount(list)),
        wallet_utxos(wallet) matches Ok(list) ==> whole_amount(list) <= u64::MAX ==> wallet_balance(
            wallet,
        ) is Ok,
{
    if let Ok(list) = wallet_utxos(wallet) {
        lemma_balance_is_of_all_coins(list);
    }
}

/// Where an address is found it is there, and nowhere before; where it is not, it is nowhere.
proof fn lemma_index_from(
    wallet: &bdk_wallet::Wallet,
    change: bool,
    address: Seq<char>,
    from: int,
    to: int,
)
    requires
        0 <= from,
        to <= 0x8000_0000,
    ensures
        match index_from(wallet, change, address, from, to) {
            Some(index) => from <= index < to && chain_address(wallet, change, index) == Ok::<
                Seq<char>,
                Seq<char>,
            >(address) && forall|i: u32|
                from <= i < index ==> #[trigger] chain_address(wallet, change, i) != Ok::<
                    Seq<char>,
                    Seq<char>,
                >(address),
            None => forall|i: u32|
                from <= i < to ==> #[trigger] chain_address(wallet, change, i) != Ok::<
                    Seq<char>,
                    Seq<char>,
                >(address),
        },
    decreases to - from,
{
    if from < to && chain_address(wallet, change, from as u32) != Ok::<Seq<char>, Seq<char>>(
        address,
    ) {
        lemma_index_from(wallet, change, address, from + 1, to);
    }
}

/// The index of an address is the first one that has it, and every address that was given out has
/// one, as have the next eight.
pub proof fn lemma_address_index(
    wallet: &bdk_wallet::Wallet,
    change: bool,
    address: Seq<char>,
    index: u32,
)
    requires
        index < 0x8000_0000,
    ensures
        address_index(wallet, change, address) matches Some(found) ==> chain_address(
            wallet,
            change,
            found,
        ) == Ok::<Seq<char>, Seq<char>>(address),
        chain_address(wallet, change, index) == Ok::<Seq<char>, Seq<char>>(address) && index
            < wallet_next(wallet, change) + 8 ==> (address_index(wallet, change, address)
            matches Some(found) && found <= index),
{
    lemma_index_from(wallet, change, address, 0, search_end(wallet, change));
}

/// The highest index in use of a chain is the index of one of the coins of that chain, and that of
/// none is higher.
pub proof fn lemma_highest_used(wallet: &bdk_wallet::Wallet, list: Seq<Utxo>, change: bool)
    ensures
        forall|i: int|
            #![trigger list[i]]
            0 <= i < list.len() && list[i].is_change == change ==> (address_index(
                wallet,
                change,
                list[i].address,
            ) matches Some(index) ==> (highest_used(wallet, list, change) matches Some(top) && index
                <= top)),
        highest_used(wallet, list, change) matches Some(top) ==> exists|i: int|
            0 <= i < list.len() && (#[trigger] list[i]).is_change == change && address_index(
                wallet,
                change,
                list[i].address,
            ) == Some(top),
    decreases list.len(),
{
    if list.len() > 0 {
        let front = list.drop_last();
        lemma_highest_used(wallet, front, change);
        assert forall|i: int|
            #![trigger list[i]]
            0 <= i < list.len() && list[i].is_change == change implies (address_index(
            wallet,
            change,
            list[i].address,
        ) matches Some(index) ==> (highest_used(wallet, list, change) matches Some(top) && index
            <= top)) by {
            if i < front.len() {
                assert(front[i] == list[i]);
            }
        }
        if let Some(top) = highest_used(wallet, list, change) {
            if highest_used(wallet, front, change) == Some(top) {
                let i = choose|i: int|
                    0 <= i < front.len() && (#[trigger] front[i]).is_change == change
                        && address_index(wallet, change, front[i].address) == Some(top);
                assert(list[i] == front[i]);
            } else {
                assert(list[list.len() - 1].is_change == change);
            }
        }
    }
}

/// What a wallet is said to hold is what it shows and its balance; the windows of addresses reach
/// over all that were given out and are not empty.
pub proof fn lemma_snapshot(wallet: &bdk_wallet::Wallet, receive_by: u32, change_by: u32)
    ensures
        snapshot_of(wallet, receive_by, change_by) matches Ok(snap) ==> {
            &&& wallet_utxos(wallet) == Ok::<Seq<Utxo>, Seq<char>>(snap.utxos)
            &&& snap.balance.confirmed_sats + snap.balance.unconfirmed_sats == whole_amount(
                snap.utxos,
            )
            &&& snap.receive_gap >= 1 && snap.receive_gap >= wallet_next(wallet, false)
            &&& snap.receive_gap > 1 ==> snap.receive_gap == wallet_next(wallet, false)
            &&& snap.change_gap >= 1 && snap.change_gap >= wallet_next(wallet, true)
            &&& snap.change_gap > 1 ==> snap.change_gap == wallet_next(wallet, true)
            &&& snap.extended_receive_by == receive_by && snap.extended_change_by == change_by
            &&& !snap.hit_max_gap
        },
{
    lemma_balance_of_wallet(wallet);
}

/// A synchronization that came to its end tells by how many addresses each chain grew.
pub proof fn lemma_synced_counts(
    before: &bdk_wallet::Wallet,
    after: &bdk_wallet::Wallet,
    scan: Result<bdk_wallet::Update, WalletError>,
    r: Result<WalletSyncSnapshot, WalletError>,
)
    requires
        synced(before, after, scan, r),
        wallet_next(before, false) <= wallet_next(after, false),
        wallet_next(before, true) <= wallet_next(after, true),
    ensures
        scan is Err ==> r is Err && *after == *before,
        r matches Ok(snap) ==> scan is Ok && wallet_next(before, false) + snap@.extended_receive_by
            == wallet_next(after, false) && wallet_next(before, true) + snap@.extended_change_by
            == wallet_next(after, true) && wallet_utxos(after) == Ok::<Seq<Utxo>, Seq<char>>(
            snap@.utxos,
        ),
{
}

/// A payment is signed for as many addresses as the wallet gave out on either chain, but for no
/// more than are ever looked at.
pub proof fn lemma_sign_gap(wallet: &bdk_wallet::Wallet, snap: Snapshot)
    ensures
        1 <= sign_gap_of(wallet, snap) <= 100,
        sign_gap_of(wallet, snap) < 100 ==> {
            &&& wallet_next(wallet, false) <= sign_gap_of(wallet, snap)
            &&& wallet_next(wallet, true) <= sign_gap_of(wallet, snap)
            &&& snap.receive_gap <= sign_gap_of(wallet, snap)
            &&& snap.change_gap <= sign_gap_of(wallet, snap)
        },
        sign_gap_of(wallet, snap) > 1 ==> sign_gap_of(wallet, snap) <= wallet_next(wallet, false)
            || sign_gap_of(wallet, snap) <= wallet_next(wallet, true) || sign_gap_of(wallet, snap)
            <= snap.receive_gap || sign_gap_of(wallet, snap) <= snap.change_gap,
{
}

/// Coins that can all be signed for are not refused.
pub proof fn lemma_coins_within_gap(wallet: &bdk_wallet::Wallet, list: Seq<Utxo>, sign_gap: u32)
    requires
        forall|i: int|
            0 <= i < list.len() ==> (address_index(
                wallet,
                (#[trigger] list[i]).is_change,
                list[i].address,
            ) matches Some(index) && index < sign_gap),
    ensures
        gap_fault(wallet, list, sign_gap) is None,
    decreases list.len(),
{
    if list.len() > 0 {
        assert(list[0] == list[0]);
        let rest = list.skip(1);
        assert forall|i: int| 0 <= i < rest.len() implies (address_index(
            wallet,
            (#[trigger] rest[i]).is_change,
            rest[i].address,
        ) matches Some(index) && index < sign_gap) by {
            assert(rest[i] == list[i + 1]);
        }
        lemma_coins_within_gap(wallet, rest, sign_gap);
    }
}

} // verus!
