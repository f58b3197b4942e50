//! Coins, balances and what a synchronization found.

use vstd::prelude::*;

use crate::error::{onchain_error, WalletError};

verus! {

/// Number of addresses of one chain of a wallet that are ever looked at.
pub const MAX_ADDRESS_GAP: u32 = 100;

/// Output of a transaction, by the id of the transaction and its place in it.
#[derive(PartialEq, Eq, Debug)]
pub struct OutPointRef {
    pub txid: String,
    pub vout: u32,
}

/// Coin of the wallet.
#[derive(PartialEq, Eq, Debug)]
pub struct WalletUtxo {
    pub outpoint: OutPointRef,
    pub amount_sats: u64,
    pub address: String,
    /// Number of blocks from the one of the coin to the tip, none for a coin outside of blocks.
    pub confirmations: u32,
    pub is_change: bool,
}

/// Model of [`WalletUtxo`].
pub struct Utxo {
    pub txid: Seq<char>,
    pub vout: u32,
    pub amount_sats: u64,
    pub address: Seq<char>,
    pub confirmations: u32,
    pub is_change: bool,
}

impl View for WalletUtxo {
    type V = Utxo;

    open spec fn view(&self) -> Utxo {
        Utxo {
            txid: self.outpoint.txid@,
            vout: self.outpoint.vout,
            amount_sats: self.amount_sats,
            address: self.address@,
            confirmations: self.confirmations,
            is_change: self.is_change,
        }
    }
}

/// The models of a list of coins.
pub open spec fn utxos_view(list: Seq<WalletUtxo>) -> Seq<Utxo> {
    Seq::new(list.len(), |i: int| list[i]@)
}

/// Amounts of the coins in blocks and of the others.
#[derive(Clone, Copy, PartialEq, Eq, Structural, Debug)]
pub struct WalletBalance {
    pub confirmed_sats: u64,
    pub unconfirmed_sats: u64,
}

impl WalletBalance {
    /// The amount of all coins, the largest number where it would be larger.
    pub fn total_sats(&self) -> (n: u64)
        ensures
            n == if self.confirmed_sats + self.unconfirmed_sats > u64::MAX {
                u64::MAX as int
            } else {
                self.confirmed_sats + self.unconfirmed_sats
            },
    {
        self.confirmed_sats.saturating_add(self.unconfirmed_sats)
    }
}

/// The amount of the coins that are in blocks, or of those that are not.
pub open spec fn amount_of(list: Seq<Utxo>, confirmed: bool) -> int
    decreases list.len(),
{
    if list.len() == 0 {
        0
    } else {
        amount_of(list.drop_last(), confirmed) + if (list.last().confirmations > 0) == confirmed {
            list.last().amount_sats as int
        } else {
            0
        }
    }
}

/// The amount of more coins is not smaller.
pub proof fn lemma_amount_grows(list: Seq<Utxo>, confirmed: bool, k: int)
    requires
        0 <= k <= list.len(),
    ensures
        0 <= amount_of(list.take(k), confirmed) <= amount_of(list, confirmed),
    decreases list.len(),
{
    if k == list.len() {
        assert(list.take(k) =~= list);
        if k > 0 {
            lemma_amount_grows(list.drop_last(), confirmed, k - 1);
        }
    } else {
        lemma_amount_grows(list.drop_last(), confirmed, k);
        assert(list.drop_last().take(k) =~= list.take(k));
    }
}

/// The amount of coins, each of them counted once.
pub open spec fn whole_amount(list: Seq<Utxo>) -> int {
    list.fold_left(0int, |sum: int, coin: Utxo| sum + coin.amount_sats)
}

/// The coins in blocks and the others are all coins: no coin is left out and none is counted twice.
pub proof fn lemma_amounts_split(list: Seq<Utxo>)
    ensures
        amount_of(list, true) + amount_of(list, false) == whole_amount(list),
    decreases list.len(),
{
    let adding = |sum: int, coin: Utxo| sum + coin.amount_sats;
    if list.len() > 0 {
        lemma_amounts_split(list.drop_last());
        assert(list.fold_left(0int, adding) == adding(
            list.drop_last().fold_left(0int, adding),
            list.last(),
        ));
    }
}

/// A coin counts to the confirmed amount where it has a confirmation, to the other amount where it
/// has none, wherever it stands in the list and whatever else it is.
pub proof fn lemma_amount_of_one_more(list: Seq<Utxo>, place: int, coin: Utxo, confirmed: bool)
    requires
        0 <= place <= list.len(),
    ensures
        amount_of(list.insert(place, coin), confirmed) - amount_of(list, confirmed) == if
            confirmed == (coin.confirmations >= 1) {
            coin.amount_sats as int
        } else {
            0
        },
    decreases list.len(),
{
    let more = list.insert(place, coin);
    if place == list.len() {
        assert(more.drop_last() =~= list);
        assert(more.last() == coin);
    } else {
        lemma_amount_of_one_more(list.drop_last(), place, coin, confirmed);
        assert(more.drop_last() =~= list.drop_last().insert(place, coin));
        assert(more.last() == list.last());
    }
}

/// The two amounts of a balance add up to what all coins hold, and there is a balance for every
/// list of coins that hold no more than a balance can show.
pub proof fn lemma_balance_is_of_all_coins(list: Seq<Utxo>)
    ensures
        whole_amount(list) <= u64::MAX ==> balance_of(list) is Some,
        balance_of(list) matches Some(balance) ==> balance.confirmed_sats
            + balance.unconfirmed_sats == whole_amount(list),
        balance_of(list) matches Some(balance) ==> forall|i: int|
            0 <= i < list.len() ==> (#[trigger] list[i]).amount_sats <= if list[i].confirmations
                == 0 {
                balance.unconfirmed_sats
            } else {
                balance.confirmed_sats
            },
{
    lemma_amounts_split(list);
    lemma_amount_grows(list, true, 0);
    lemma_amount_grows(list, false, 0);
    assert forall|i: int| 0 <= i < list.len() implies (#[trigger] list[i]).amount_sats
        <= amount_of(list, list[i].confirmations >= 1) by {
        let others = list.remove(i);
        assert(others.insert(i, list[i]) =~= list);
        lemma_amount_of_one_more(others, i, list[i], list[i].confirmations >= 1);
        lemma_amount_grows(others, list[i].confirmations >= 1, 0);
    }
}

/// The balance of coins, where it can be counted.
pub open spec fn balance_of(list: Seq<Utxo>) -> Option<WalletBalance> {
    let confirmed = amount_of(list, true);
    let unconfirmed = amount_of(list, false);
    if confirmed <= u64::MAX && unconfirmed <= u64::MAX {
        Some(
            WalletBalance {
                confirmed_sats: confirmed as u64,
                unconfirmed_sats: unconfirmed as u64,
            },
        )
    } else {
        None
    }
}

/// The balance of coins.
pub fn balance_from_utxos(utxos: &Vec<WalletUtxo>) -> (r: Result<WalletBalance, WalletError>)
    ensures
        match balance_of(utxos_view(utxos@)) {
            Some(balance) => r == Ok::<WalletBalance, WalletError>(balance),
            None => onchain_error(r, "wallet balance overflows"@),
        },
{
    let ghost list = utxos_view(utxos@);
    let mut confirmed: u64 = 0;
    let mut unconfirmed: u64 = 0;
    for i in 0..utxos.len()
        invariant
            list == utxos_view(utxos@),
            confirmed == amount_of(list.take(i as int), true),
            unconfirmed == amount_of(list.take(i as int), false),
    {
        let coin = &utxos[i];
        proof {
            assert(list.take(i + 1).drop_last() =~= list.take(i as int));
            assert(list.take(i + 1).last() == coin@);
            lemma_amount_grows(list, true, i + 1);
            lemma_amount_grows(list, false, i + 1);
        }
        if coin.confirmations > 0 {
            match confirmed.checked_add(coin.amount_sats) {
                Some(n) => confirmed = n,
                None => return Err(WalletError::Onchain("wallet balance overflows".to_owned())),
            }
        } else {
            match unconfirmed.checked_add(coin.amount_sats) {
                Some(n) => unconfirmed = n,
                None => return Err(WalletError::Onchain("wallet balance overflows".to_owned())),
            }
        }
    }
    assert(list.take(utxos@.len() as int) =~= list);
    Ok(WalletBalance { confirmed_sats: confirmed, unconfirmed_sats: unconfirmed })
}

/// What a synchronization found.
#[derive(PartialEq, Eq, Debug)]
pub struct WalletSyncSnapshot {
    pub utxos: Vec<WalletUtxo>,
    pub balance: WalletBalance,
    /// Number of receive addresses that are in use or were given out, at least one.
    pub receive_gap: u32,
    /// Number of change addresses that are in use or were given out, at least one.
    pub change_gap: u32,
    pub highest_used_receive: Option<u32>,
    pub highest_used_change: Option<u32>,
    pub extended_receive_by: u32,
    pub extended_change_by: u32,
    pub hit_max_gap: bool,
}

/// Model of [`WalletSyncSnapshot`].
pub struct Snapshot {
    pub utxos: Seq<Utxo>,
    pub balance: WalletBalance,
    pub receive_gap: u32,
    pub change_gap: u32,
    pub highest_used_receive: Option<u32>,
    pub highest_used_change: Option<u32>,
    pub extended_receive_by: u32,
    pub extended_change_by: u32,
    pub hit_max_gap: bool,
}

impl View for WalletSyncSnapshot {
    type V = Snapshot;

    open spec fn view(&self) -> Snapshot {
        Snapshot {
            utxos: utxos_view(self.utxos@),
            balance: self.balance,
            receive_gap: self.receive_gap,
            change_gap: self.change_gap,
            highest_used_receive: self.highest_used_receive,
            highest_used_change: self.highest_used_change,
            extended_receive_by: self.extended_receive_by,
            extended_change_by: self.extended_change_by,
            hit_max_gap: self.hit_max_gap,
        }
    }
}

} // verus!
