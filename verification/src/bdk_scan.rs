//! Scan of the chain for the addresses of a wallet: which history and which transaction to ask for
//! next, by what was seen so far. Whoever runs the scan asks a server and hands the replies back.

use vstd::prelude::*;
use vstd::string::StringExecFns;

use crate::bdk_sync::{
    merge_observation, merged, normalize_stop_gap, BdkTxObservation, BDK_FULL_SCAN_MAX_INDEX,
};
use crate::bdk_update::{
    bodies, chain_update_from_scanned_txs, deserialize_tx_hex, height_fault, sights, tells_of,
    tx_id, tx_of, ScannedTx, Sight, TxData,
};
use crate::chain_select::{
    config_electrum_endpoint, config_esplora_url, validated_electrum_endpoint_from_config,
    validated_esplora_url_from_config, ChainSourceKind, CompiledBackends, ProductChainSourceConfig,
};
use crate::error::{explorer_error, onchain_error, WalletError};
use crate::funding::text_view;
use crate::network::Network;
use crate::text::{
    decimal, decimal_text, is_before, lemma_precedes_irreflexive, lemma_precedes_total,
    lemma_precedes_transitive, precedes, same,
};

verus! {

/// Number of transactions on a full page of an Esplora server.
pub const ESPLORA_TXS_PAGE_SIZE: usize = 25;

/// Number of pages of one address that are ever asked for.
pub const ESPLORA_MAX_TX_PAGES: u32 = 200;

/// Kind of server that a scan asks.
#[derive(Clone, Copy, PartialEq, Eq, Structural, Debug)]
pub enum ScanServer {
    /// History comes in pages.
    Esplora,
    /// History comes at once.
    Electrum,
}

impl ScanServer {
    /// The name in messages.
    pub open spec fn label(self) -> Seq<char> {
        match self {
            ScanServer::Esplora => "bdk Esplora full_scan "@,
            ScanServer::Electrum => "bdk Electrum full_scan "@,
        }
    }

    /// The name in messages.
    fn label_text(self) -> (text: &'static str)
        ensures
            text@ == self.label(),
    {
        match self {
            ScanServer::Esplora => "bdk Esplora full_scan ",
            ScanServer::Electrum => "bdk Electrum full_scan ",
        }
    }
}

/// Transaction in the history of an address, with where it was seen.
pub struct HistoryEntry {
    pub txid: String,
    pub observation: BdkTxObservation,
}

/// The model of a list of entries.
pub open spec fn entries_view(list: Seq<HistoryEntry>) -> Seq<Sight> {
    Seq::new(list.len(), |i: int| Sight { txid: list[i].txid@, observation: list[i].observation })
}

/// What a scan waits for.
#[derive(Clone, Copy, PartialEq, Eq, Structural, Debug)]
pub enum ScanPhase {
    History,
    Txs,
    Done,
}

/// Model of [`FullScan`].
pub struct Scan {
    pub server: ScanServer,
    /// Number of unused addresses in a row after which a chain ends.
    pub stop_gap: u32,
    pub change: bool,
    pub index: u32,
    pub empty_run: u32,
    pub last_external: Option<u32>,
    pub last_internal: Option<u32>,
    /// History of the address, as far as it came.
    pub history: Seq<Sight>,
    /// Last transaction of the last page.
    pub cursor: Option<Seq<char>>,
    pub pages: u32,
    /// Number of entries of the history whose transactions are known.
    pub taken: nat,
    pub phase: ScanPhase,
    /// The transactions that are known, in the order of their ids.
    pub txs: Seq<Sight>,
    /// What these transactions hold.
    pub bodies: Seq<TxData>,
}

/// Scan of the chain for the addresses of a wallet.
pub struct FullScan {
    server: ScanServer,
    stop_gap: u32,
    change: bool,
    index: u32,
    empty_run: u32,
    last_external: Option<u32>,
    last_internal: Option<u32>,
    history: Vec<HistoryEntry>,
    cursor: Option<String>,
    pages: u32,
    taken: usize,
    phase: ScanPhase,
    txs: Vec<ScannedTx>,
}

impl View for FullScan {
    type V = Scan;

    closed spec fn view(&self) -> Scan {
        Scan {
            server: self.server,
            stop_gap: self.stop_gap,
            change: self.change,
            index: self.index,
            empty_run: self.empty_run,
            last_external: self.last_external,
            last_internal: self.last_internal,
            history: entries_view(self.history@),
            cursor: text_view(self.cursor),
            pages: self.pages,
            taken: self.taken as nat,
            phase: self.phase,
            txs: sights(self.txs@),
            bodies: bodies(self.txs@),
        }
    }
}

/// The first place of a transaction in a list from `from` on.
pub open spec fn place_of(list: Seq<Sight>, txid: Seq<char>, from: int) -> Option<int>
    decreases list.len() - from,
{
    if from >= list.len() {
        None
    } else if list[from].txid == txid {
        Some(from)
    } else {
        place_of(list, txid, from + 1)
    }
}

/// Where a transaction belongs in a list that is in the order of the ids: before the first, from
/// `from` on, that does not stand before it.
pub open spec fn place_for(list: Seq<Sight>, txid: Seq<char>, from: int) -> int
    decreases list.len() - from,
{
    if from >= list.len() || !precedes(list[from].txid, txid) {
        from
    } else {
        place_for(list, txid, from + 1)
    }
}

/// A history with the entries of a page behind it that are not in it yet.
pub open spec fn with_page(history: Seq<Sight>, page: Seq<Sight>) -> Seq<Sight>
    decreases page.len(),
{
    if page.len() == 0 {
        history
    } else {
        let before = with_page(history, page.drop_last());
        if place_of(before, page.last().txid, 0) is Some {
            before
        } else {
            before.push(page.last())
        }
    }
}

/// A scan that turns to an address.
pub open spec fn at_address(s: Scan, change: bool, index: u32) -> Scan {
    Scan {
        change,
        index,
        history: Seq::empty(),
        cursor: None,
        pages: 0,
        taken: 0,
        phase: ScanPhase::History,
        ..s
    }
}

/// A scan that is done with an address: it goes on to the next, to the other chain behind a run of
/// unused addresses, or to its end behind that of the second chain.
pub open spec fn after_address(s: Scan) -> Scan {
    if s.empty_run < s.stop_gap && s.index + 1 < BDK_FULL_SCAN_MAX_INDEX {
        at_address(s, s.change, (s.index + 1) as u32)
    } else if !s.change {
        at_address(Scan { empty_run: 0, ..s }, true, 0)
    } else {
        Scan { phase: ScanPhase::Done, ..s }
    }
}

/// A transaction that was seen again.
pub open spec fn seen_again(txs: Seq<Sight>, place: int, o: BdkTxObservation) -> Seq<Sight> {
    txs.update(place, Sight { observation: merged(txs[place].observation, o), ..txs[place] })
}

/// A scan that goes on to the first entry of the history whose transaction is not known.
pub open spec fn to_unknown(s: Scan) -> Scan
    decreases s.history.len() - s.taken,
{
    if s.taken >= s.history.len() {
        after_address(s)
    } else {
        let entry = s.history[s.taken as int];
        match place_of(s.txs, entry.txid, 0) {
            Some(place) => to_unknown(
                Scan {
                    txs: seen_again(s.txs, place, entry.observation),
                    taken: s.taken + 1,
                    ..s
                },
            ),
            None => s,
        }
    }
}

/// A scan that has the whole history of an address: an unused one, or the last one in use so far.
pub open spec fn with_history(s: Scan) -> Scan {
    if s.history.len() == 0 {
        after_address(Scan { empty_run: (s.empty_run + 1) as u32, ..s })
    } else {
        to_unknown(
            Scan {
                empty_run: 0,
                last_external: if s.change {
                    s.last_external
                } else {
                    Some(s.index)
                },
                last_internal: if s.change {
                    Some(s.index)
                } else {
                    s.last_internal
                },
                taken: 0,
                phase: ScanPhase::Txs,
                ..s
            },
        )
    }
}

/// What is said of a history without an end.
pub open spec fn endless(index: u32) -> Seq<char> {
    "bdk Esplora full_scan address history exceeded "@ + decimal(ESPLORA_MAX_TX_PAGES as nat)
        + " pages at index "@ + decimal(index as nat) + " (refusing silent truncate)"@
}

/// A scan to which history came. A full page of an Esplora server calls for the next one.
pub open spec fn on_history(s: Scan, page: Seq<Sight>) -> Result<Scan, Seq<char>> {
    match s.server {
        ScanServer::Electrum => Ok(with_history(Scan { history: page, ..s })),
        ScanServer::Esplora => {
            let next = Scan {
                history: with_page(s.history, page),
                cursor: if page.len() > 0 {
                    Some(page.last().txid)
                } else {
                    s.cursor
                },
                pages: (s.pages + 1) as u32,
                ..s
            };
            if page.len() < ESPLORA_TXS_PAGE_SIZE {
                Ok(with_history(next))
            } else if next.pages >= ESPLORA_MAX_TX_PAGES {
                Err(endless(s.index))
            } else {
                Ok(next)
            }
        },
    }
}

/// History is refused only where its two hundredth page is still full, and then always; an
/// Electrum server sends no pages.
pub proof fn lemma_history_without_end(s: Scan, page: Seq<Sight>)
    requires
        s.pages < 200,
    ensures
        on_history(s, page) is Err <==> s.server is Esplora && page.len() >= 25 && s.pages + 1
            == 200,
{
}

/// A transaction is taken where it is the one that was asked for, and no other is.
pub proof fn lemma_only_the_tx_asked_for(s: Scan, body: Seq<char>)
    requires
        s.phase is Txs,
    ensures
        action_of(s) matches Action::Tx { txid } && (on_tx(s, body) is Ok <==> (tx_of(body)
            matches Ok(data) && tx_id(data) == txid)),
{
}

/// What is said of a transaction that is not the one asked for.
pub open spec fn other_tx(server: ScanServer, expected: Seq<char>, got: Seq<char>) -> Seq<char> {
    server.label() + "tx hex txid mismatch: expected "@ + expected + ", got "@ + got
}

/// A scan to which the transaction came that it asked for.
pub open spec fn on_tx(s: Scan, body: Seq<char>) -> Result<Scan, Seq<char>> {
    let entry = s.history[s.taken as int];
    match tx_of(body) {
        Err(message) => Err(message),
        Ok(data) => if tx_id(data) != entry.txid {
            Err(other_tx(s.server, entry.txid, tx_id(data)))
        } else {
            Ok(
                to_unknown(
                    Scan {
                        txs: s.txs.insert(place_for(s.txs, entry.txid, 0), entry),
                        bodies: s.bodies.insert(place_for(s.txs, entry.txid, 0), data),
                        taken: s.taken + 1,
                        ..s
                    },
                ),
            )
        },
    }
}

/// A scan at its start.
pub open spec fn fresh_scan(server: ScanServer, stop_gap: u32) -> Scan {
    Scan {
        server,
        stop_gap,
        change: false,
        index: 0,
        empty_run: 0,
        last_external: None,
        last_internal: None,
        history: Seq::empty(),
        cursor: None,
        pages: 0,
        taken: 0,
        phase: ScanPhase::History,
        txs: Seq::empty(),
        bodies: Seq::empty(),
    }
}

/// No transaction is in a list twice.
pub open spec fn distinct(list: Seq<Sight>) -> bool {
    forall|i: int, j: int| 0 <= i < j < list.len() ==> list[i].txid != list[j].txid
}

/// The transactions of a list are in the order of their ids, each once.
pub open spec fn ordered(list: Seq<Sight>) -> bool {
    forall|i: int, j: int|
        0 <= i < j < list.len() ==> precedes((#[trigger] list[i]).txid, (#[trigger] list[j]).txid)
}

/// Every transaction is the one that the history named.
pub open spec fn as_named(list: Seq<Sight>, bodies: Seq<TxData>) -> bool {
    list.len() == bodies.len() && forall|i: int|
        0 <= i < list.len() ==> tx_id(bodies[i]) == (#[trigger] list[i]).txid
}

/// What holds of a scan at all times.
pub open spec fn sound(s: Scan) -> bool {
    &&& 0 < s.stop_gap <= BDK_FULL_SCAN_MAX_INDEX
    &&& s.index < BDK_FULL_SCAN_MAX_INDEX
    &&& s.phase !is Done ==> s.empty_run < s.stop_gap
    &&& s.empty_run <= s.stop_gap
    &&& s.phase is History ==> s.pages < ESPLORA_MAX_TX_PAGES
    &&& ordered(s.txs)
    &&& as_named(s.txs, s.bodies)
    &&& s.server is Esplora ==> distinct(s.history)
    &&& s.phase is Txs ==> s.taken < s.history.len() && place_of(
        s.txs,
        s.history[s.taken as int].txid,
        0,
    ) is None
    &&& s.phase is History ==> (s.server is Electrum ==> s.history.len() == 0)
}

/// Where a transaction stands in a list, it is the one that was searched for; where it does not, no
/// entry is.
pub proof fn lemma_place_of(list: Seq<Sight>, txid: Seq<char>, from: int)
    requires
        0 <= from,
    ensures
        place_of(list, txid, from) matches Some(i) ==> from <= i < list.len() && list[i].txid
            == txid,
        place_of(list, txid, from) is None ==> forall|i: int|
            from <= i < list.len() ==> (#[trigger] list[i]).txid != txid,
    decreases list.len() - from,
{
    if from < list.len() && list[from].txid != txid {
        lemma_place_of(list, txid, from + 1);
    }
}

/// All before the place of a transaction stand before it, and what stands at the place does not.
pub proof fn lemma_place_for(list: Seq<Sight>, txid: Seq<char>, from: int)
    requires
        0 <= from <= list.len(),
    ensures
        from <= place_for(list, txid, from) <= list.len(),
        forall|i: int|
            from <= i < place_for(list, txid, from) ==> precedes((#[trigger] list[i]).txid, txid),
        place_for(list, txid, from) < list.len() ==> !precedes(
            list[place_for(list, txid, from)].txid,
            txid,
        ),
    decreases list.len() - from,
{
    if from < list.len() && precedes(list[from].txid, txid) {
        lemma_place_for(list, txid, from + 1);
    }
}

/// A list stays in order with a transaction at its place.
proof fn lemma_insert_ordered(list: Seq<Sight>, entry: Sight)
    requires
        ordered(list),
        forall|i: int| 0 <= i < list.len() ==> (#[trigger] list[i]).txid != entry.txid,
    ensures
        ordered(list.insert(place_for(list, entry.txid, 0), entry)),
{
    let place = place_for(list, entry.txid, 0);
    lemma_place_for(list, entry.txid, 0);
    let all = list.insert(place, entry);
    assert forall|i: int| place <= i < list.len() implies precedes(
        entry.txid,
        (#[trigger] list[i]).txid,
    ) by {
        lemma_precedes_total(list[place].txid, entry.txid);
        if i > place {
            lemma_precedes_transitive(entry.txid, list[place].txid, list[i].txid);
        }
    }
    assert forall|i: int, j: int| 0 <= i < j < all.len() implies precedes(
        (#[trigger] all[i]).txid,
        (#[trigger] all[j]).txid,
    ) by {
        let a = if i < place { i } else { i - 1 };
        let b = if j < place { j } else { j - 1 };
        if i != place {
            assert(all[i] == list[a]);
        }
        if j != place {
            assert(all[j] == list[b]);
        }
    }
}

/// No transaction is twice among those of a scan.
pub proof fn lemma_each_once(s: Scan)
    requires
        sound(s),
    ensures
        distinct(s.txs),
{
    assert forall|i: int, j: int| 0 <= i < j < s.txs.len() implies s.txs[i].txid
        != s.txs[j].txid by {
        lemma_precedes_irreflexive(s.txs[i].txid);
    }
}

/// Each transaction of a scan is the one that its id names, and they stand in the order of the ids.
pub proof fn lemma_txs_are_as_named(s: Scan)
    requires
        sound(s),
    ensures
        s.bodies.len() == s.txs.len(),
        forall|i: int| 0 <= i < s.txs.len() ==> tx_id(#[trigger] s.bodies[i]) == s.txs[i].txid,
        forall|i: int, j: int|
            0 <= i < j < s.txs.len() ==> precedes(
                (#[trigger] s.txs[i]).txid,
                (#[trigger] s.txs[j]).txid,
            ),
{
    assert forall|i: int| 0 <= i < s.txs.len() implies tx_id(#[trigger] s.bodies[i])
        == s.txs[i].txid by {
        assert(s.txs[i] == s.txs[i]);
    }
}

/// Pages add no entry twice.
proof fn lemma_with_page_distinct(history: Seq<Sight>, page: Seq<Sight>)
    requires
        distinct(history),
    ensures
        distinct(with_page(history, page)),
    decreases page.len(),
{
    if page.len() > 0 {
        lemma_with_page_distinct(history, page.drop_last());
        lemma_place_of(with_page(history, page.drop_last()), page.last().txid, 0);
    }
}

/// Going on to the next address keeps what holds of a scan.
proof fn lemma_after_address(s: Scan)
    requires
        0 < s.stop_gap <= BDK_FULL_SCAN_MAX_INDEX,
        s.index < BDK_FULL_SCAN_MAX_INDEX,
        s.empty_run <= s.stop_gap,
        ordered(s.txs),
        as_named(s.txs, s.bodies),
        s.server is Esplora ==> distinct(s.history),
    ensures
        sound(after_address(s)),
        after_address(s).txs == s.txs,
        less_left(after_address(s), s.change, s.index),
{
}

/// Less is left of a scan than at this address: it is at a later one, or at its end.
pub open spec fn less_left(s: Scan, change: bool, index: u32) -> bool {
    ||| s.phase is Done
    ||| s.change && !change
    ||| s.change == change && s.index > index
}

/// Going on to the first unknown transaction keeps what holds of a scan.
proof fn lemma_to_unknown(s: Scan)
    requires
        0 < s.stop_gap <= BDK_FULL_SCAN_MAX_INDEX,
        s.index < BDK_FULL_SCAN_MAX_INDEX,
        s.empty_run < s.stop_gap,
        ordered(s.txs),
        as_named(s.txs, s.bodies),
        s.server is Esplora ==> distinct(s.history),
        s.phase is Txs,
    ensures
        sound(to_unknown(s)),
        less_left(to_unknown(s), s.change, s.index) || (to_unknown(s).phase is Txs && to_unknown(
            s,
        ).change == s.change && to_unknown(s).index == s.index && to_unknown(s).history == s.history
            && to_unknown(s).taken >= s.taken),
    decreases s.history.len() - s.taken,
{
    if s.taken >= s.history.len() {
        lemma_after_address(s);
    } else {
        let entry = s.history[s.taken as int];
        lemma_place_of(s.txs, entry.txid, 0);
        if let Some(place) = place_of(s.txs, entry.txid, 0) {
            let t = Scan {
                txs: seen_again(s.txs, place, entry.observation),
                taken: s.taken + 1,
                ..s
            };
            assert forall|i: int, j: int| 0 <= i < j < t.txs.len() implies precedes(
                (#[trigger] t.txs[i]).txid,
                (#[trigger] t.txs[j]).txid,
            ) by {
                assert(t.txs[i].txid == s.txs[i].txid);
                assert(t.txs[j].txid == s.txs[j].txid);
            }
            lemma_to_unknown(t);
        }
    }
}

/// What an accepted reply to a request for history keeps, and that it leaves less to do: a later
/// page, the transactions of the address, a later address, or nothing.
pub proof fn lemma_on_history(s: Scan, page: Seq<Sight>)
    requires
        sound(s),
        s.phase is History,
        on_history(s, page) is Ok,
    ensures
        sound(on_history(s, page)->Ok_0),
        ({
            let t = on_history(s, page)->Ok_0;
            ||| less_left(t, s.change, s.index)
            ||| t.change == s.change && t.index == s.index && t.phase is Txs
            ||| t.change == s.change && t.index == s.index && t.phase is History && t.pages
                == s.pages + 1
        }),
{
    lemma_with_page_distinct(s.history, page);
    let next = match s.server {
        ScanServer::Electrum => Scan { history: page, ..s },
        ScanServer::Esplora => Scan {
            history: with_page(s.history, page),
            cursor: if page.len() > 0 {
                Some(page.last().txid)
            } else {
                s.cursor
            },
            pages: (s.pages + 1) as u32,
            ..s
        },
    };
    if s.server is Electrum || page.len() < ESPLORA_TXS_PAGE_SIZE {
        if next.history.len() == 0 {
            lemma_after_address(Scan { empty_run: (s.empty_run + 1) as u32, ..next });
        } else {
            lemma_to_unknown(
                Scan {
                    empty_run: 0,
                    last_external: if s.change {
                        s.last_external
                    } else {
                        Some(s.index)
                    },
                    last_internal: if s.change {
                        Some(s.index)
                    } else {
                        s.last_internal
                    },
                    taken: 0,
                    phase: ScanPhase::Txs,
                    ..next
                },
            );
        }
    }
}

/// What an accepted transaction keeps, and that it leaves less to do: a later transaction of the
/// address, a later address, or nothing.
pub proof fn lemma_on_tx(s: Scan, body: Seq<char>)
    requires
        sound(s),
        s.phase is Txs,
        on_tx(s, body) is Ok,
    ensures
        sound(on_tx(s, body)->Ok_0),
        ({
            let t = on_tx(s, body)->Ok_0;
            ||| less_left(t, s.change, s.index)
            ||| t.change == s.change && t.index == s.index && t.phase is Txs && t.history
                == s.history && t.taken > s.taken
        }),
{
    let entry = s.history[s.taken as int];
    lemma_place_of(s.txs, entry.txid, 0);
    let place = place_for(s.txs, entry.txid, 0);
    lemma_place_for(s.txs, entry.txid, 0);
    let data = tx_of(body)->Ok_0;
    let t = Scan {
        txs: s.txs.insert(place, entry),
        bodies: s.bodies.insert(place, data),
        taken: s.taken + 1,
        ..s
    };
    lemma_insert_ordered(s.txs, entry);
    assert forall|i: int| 0 <= i < t.txs.len() implies tx_id(t.bodies[i]) == (
    #[trigger] t.txs[i]).txid by {
        if i < place {
            assert(t.txs[i] == s.txs[i] && t.bodies[i] == s.bodies[i]);
        } else if i > place {
            assert(t.txs[i] == s.txs[i - 1] && t.bodies[i] == s.bodies[i - 1]);
        }
    }
    lemma_to_unknown(t);
}

/// A chain ends only behind as many unused addresses in a row as were asked for, or behind the last
/// address that is ever looked at.
pub proof fn lemma_no_early_end(s: Scan)
    requires
        sound(s),
        after_address(s).phase is Done || after_address(s).change != s.change,
    ensures
        s.empty_run == s.stop_gap || s.index + 1 == BDK_FULL_SCAN_MAX_INDEX,
{
}

/// What a scan asks for.
pub enum ScanAction {
    /// The history of an address, from the transaction before it on where there is one.
    History { change: bool, index: u32, cursor: Option<String> },
    /// A transaction.
    Tx { txid: String },
    /// Nothing more.
    Done,
}

/// Model of [`ScanAction`].
pub enum Action {
    History { change: bool, index: u32, cursor: Option<Seq<char>> },
    Tx { txid: Seq<char> },
    Done,
}

impl View for ScanAction {
    type V = Action;

    open spec fn view(&self) -> Action {
        match *self {
            ScanAction::History { change, index, cursor } => Action::History {
                change,
                index,
                cursor: text_view(cursor),
            },
            ScanAction::Tx { txid } => Action::Tx { txid: txid@ },
            ScanAction::Done => Action::Done,
        }
    }
}

/// What a scan asks for.
pub open spec fn action_of(s: Scan) -> Action {
    match s.phase {
        ScanPhase::History => Action::History { change: s.change, index: s.index, cursor: s.cursor },
        ScanPhase::Txs => Action::Tx { txid: s.history[s.taken as int].txid },
        ScanPhase::Done => Action::Done,
    }
}

/// The first place of a transaction among entries.
fn entry_place(list: &Vec<HistoryEntry>, txid: &str) -> (place: Option<usize>)
    ensures
        match place {
            Some(i) => place_of(entries_view(list@), txid@, 0) == Some(i as int),
            None => place_of(entries_view(list@), txid@, 0) is None,
        },
{
    let ghost all = entries_view(list@);
    for i in 0..list.len()
        invariant
            all == entries_view(list@),
            place_of(all, txid@, 0) == place_of(all, txid@, i as int),
    {
        assert(all[i as int].txid == list@[i as int].txid@);
        if same(list[i].txid.as_str(), txid) {
            return Some(i);
        }
    }
    None
}

/// The first place of a transaction among those that are known.
fn tx_place(list: &Vec<ScannedTx>, txid: &str) -> (place: Option<usize>)
    ensures
        match place {
            Some(i) => place_of(sights(list@), txid@, 0) == Some(i as int),
            None => place_of(sights(list@), txid@, 0) is None,
        },
{
    let ghost all = sights(list@);
    for i in 0..list.len()
        invariant
            all == sights(list@),
            place_of(all, txid@, 0) == place_of(all, txid@, i as int),
    {
        assert(all[i as int].txid == list@[i as int].tx.txid());
        if same(list[i].tx.txid_text(), txid) {
            return Some(i);
        }
    }
    None
}

/// Where a transaction belongs among those that are known.
fn tx_place_for(list: &Vec<ScannedTx>, txid: &str) -> (place: usize)
    ensures
        place == place_for(sights(list@), txid@, 0),
        place <= list@.len(),
{
    let ghost all = sights(list@);
    let mut i: usize = 0;
    while i < list.len() && is_before(list[i].tx.txid_text(), txid)
        invariant
            i <= list@.len(),
            all == sights(list@),
            place_for(all, txid@, 0) == place_for(all, txid@, i as int),
        decreases list@.len() - i,
    {
        assert(all[i as int].txid == list@[i as int].tx.txid());
        i += 1;
    }
    if i < list.len() {
        assert(all[i as int].txid == list@[i as int].tx.txid());
    }
    i
}

impl FullScan {
    /// A scan at its start.
    pub fn new(server: ScanServer, stop_gap: u32) -> (r: Result<FullScan, WalletError>)
        ensures
            if stop_gap == 0 {
                onchain_error(r, "bdk full_scan stop_gap must be > 0"@)
            } else {
                r matches Ok(s) && sound(s@) && s@ == fresh_scan(
                    server,
                    (if stop_gap < BDK_FULL_SCAN_MAX_INDEX {
                        stop_gap
                    } else {
                        BDK_FULL_SCAN_MAX_INDEX
                    }),
                )
            },
    {
        let stop_gap: u32 = match normalize_stop_gap(stop_gap) {
            Ok(n) => n,
            Err(e) => return Err(e),
        };
        let scan = FullScan {
            server,
            stop_gap,
            change: false,
            index: 0,
            empty_run: 0,
            last_external: None,
            last_internal: None,
            history: Vec::new(),
            cursor: None,
            pages: 0,
            taken: 0,
            phase: ScanPhase::History,
            txs: Vec::new(),
        };
        assert(scan@.history =~= Seq::empty());
        assert(scan@.txs =~= Seq::empty());
        assert(scan@.bodies =~= Seq::empty());
        Ok(scan)
    }

    /// Number of unused addresses in a row after which a chain ends.
    pub fn stop_gap(&self) -> (n: u32)
        ensures
            n == self@.stop_gap,
    {
        self.stop_gap
    }

    /// What the scan asks for.
    pub fn next(&self) -> (action: ScanAction)
        requires
            sound(self@),
        ensures
            action@ == action_of(self@),
    {
        match self.phase {
            ScanPhase::History => {
                let cursor = match &self.cursor {
                    Some(txid) => Some(txid.clone()),
                    None => None,
                };
                ScanAction::History { change: self.change, index: self.index, cursor }
            },
            ScanPhase::Txs => ScanAction::Tx { txid: self.history[self.taken].txid.clone() },
            ScanPhase::Done => ScanAction::Done,
        }
    }

    /// Turns to an address.
    fn turn_to(&mut self, change: bool, index: u32)
        ensures
            final(self)@ == at_address(old(self)@, change, index),
    {
        self.change = change;
        self.index = index;
        self.history = Vec::new();
        self.cursor = None;
        self.pages = 0;
        self.taken = 0;
        self.phase = ScanPhase::History;
        assert(self@.history =~= Seq::empty());
    }

    /// Goes on to the next address.
    fn leave_address(&mut self)
        requires
            old(self)@.index < BDK_FULL_SCAN_MAX_INDEX,
        ensures
            final(self)@ == after_address(old(self)@),
    {
        if self.empty_run < self.stop_gap && self.index + 1 < BDK_FULL_SCAN_MAX_INDEX {
            self.turn_to(self.change, self.index + 1);
        } else if !self.change {
            self.empty_run = 0;
            self.turn_to(true, 0);
        } else {
            self.phase = ScanPhase::Done;
        }
    }

    /// Goes on to the first entry of the history whose transaction is not known.
    fn skip_known(&mut self)
        requires
            old(self)@.index < BDK_FULL_SCAN_MAX_INDEX,
        ensures
            final(self)@ == to_unknown(old(self)@),
    {
        let ghost start = self@;
        while self.taken < self.history.len()
            invariant_except_break
                to_unknown(self@) == to_unknown(start),
            invariant
                self@.index < BDK_FULL_SCAN_MAX_INDEX,
            ensures
                to_unknown(start) == if self@.taken >= self@.history.len() {
                    after_address(self@)
                } else {
                    self@
                },
            decreases self.history@.len() - self.taken,
        {
            let entry = &self.history[self.taken];
            let observation = entry.observation;
            assert(self@.history[self.taken as int].txid == entry.txid@);
            match tx_place(&self.txs, entry.txid.as_str()) {
                Some(place) => {
                    let ghost before = self@;
                    proof {
                        lemma_place_of(before.txs, before.history[before.taken as int].txid, 0);
                    }
                    let mut known = self.txs.remove(place);
                    known.observation = merge_observation(known.observation, observation);
                    self.txs.insert(place, known);
                    self.taken = self.taken + 1;
                    assert(self@.txs =~= seen_again(before.txs, place as int, observation));
                    assert(self@.bodies =~= before.bodies);
                },
                None => {
                    break;
                },
            }
        }
        if self.taken >= self.history.len() {
            self.leave_address();
        }
    }

    /// Takes the whole history of an address.
    fn finish_history(&mut self)
        requires
            old(self)@.index < BDK_FULL_SCAN_MAX_INDEX,
            old(self)@.empty_run < u32::MAX,
        ensures
            final(self)@ == with_history(old(self)@),
    {
        if self.history.len() == 0 {
            self.empty_run = self.empty_run + 1;
            self.leave_address();
        } else {
            self.empty_run = 0;
            if self.change {
                self.last_internal = Some(self.index);
            } else {
                self.last_external = Some(self.index);
            }
            self.taken = 0;
            self.phase = ScanPhase::Txs;
            self.skip_known();
        }
    }

    /// Hands history to the scan, which refuses it where it has no end.
    pub fn take_history(&mut self, page: Vec<HistoryEntry>) -> (r: Result<(), WalletError>)
        requires
            sound(old(self)@),
            old(self)@.phase is History,
        ensures
            match on_history(old(self)@, entries_view(page@)) {
                Ok(next) => r is Ok && final(self)@ == next && sound(final(self)@),
                Err(message) => onchain_error(r, message) && final(self)@ == old(self)@,
            },
    {
        let ghost start = self@;
        let ghost given = entries_view(page@);
        proof {
            if on_history(start, given) is Ok {
                lemma_on_history(start, given);
            }
        }
        match self.server {
            ScanServer::Electrum => {
                self.history = page;
                self.finish_history();
                Ok(())
            },
            ScanServer::Esplora => {
                let full = page.len() >= ESPLORA_TXS_PAGE_SIZE;
                if full && self.pages + 1 >= ESPLORA_MAX_TX_PAGES {
                    let mut message =
                        "bdk Esplora full_scan address history exceeded ".to_owned();
                    message.append(decimal_text(ESPLORA_MAX_TX_PAGES as u64).as_str());
                    message.append(" pages at index ");
                    message.append(decimal_text(self.index as u64).as_str());
                    message.append(" (refusing silent truncate)");
                    return Err(WalletError::Onchain(message));
                }
                self.add_page(page);
                self.pages = self.pages + 1;
                if !full {
                    self.finish_history();
                }
                Ok(())
            },
        }
    }

    /// Adds the entries of a page to the history.
    fn add_page(&mut self, page: Vec<HistoryEntry>)
        ensures
            final(self)@ == (Scan {
                history: with_page(old(self)@.history, entries_view(page@)),
                cursor: if page@.len() > 0 {
                    Some(entries_view(page@).last().txid)
                } else {
                    old(self)@.cursor
                },
                ..old(self)@
            }),
    {
        let ghost start = self@;
        let ghost all = entries_view(page@);
        assert(all.take(0) =~= Seq::empty());
        let mut i: usize = 0;
        while i < page.len()
            invariant
                i <= page@.len(),
                all == entries_view(page@),
                self@ == (Scan {
                    history: with_page(start.history, all.take(i as int)),
                    cursor: if i > 0 {
                        Some(all[i - 1].txid)
                    } else {
                        start.cursor
                    },
                    ..start
                }),
            decreases page@.len() - i,
        {
            let entry = &page[i];
            proof {
                assert(all.take(i + 1).drop_last() =~= all.take(i as int));
                assert(all.take(i + 1).last() == all[i as int]);
            }
            let known = entry_place(&self.history, entry.txid.as_str()).is_some();
            let ghost before = self@.history;
            if !known {
                self.history.push(
                    HistoryEntry { txid: entry.txid.clone(), observation: entry.observation },
                );
                assert(self@.history =~= before.push(all[i as int]));
            }
            self.cursor = Some(entry.txid.clone());
            i += 1;
        }
        assert(all.take(all.len() as int) =~= all);
    }

    /// Hands the scan the transaction that it asked for.
    pub fn take_tx(&mut self, hex_body: &str) -> (r: Result<(), WalletError>)
        requires
            sound(old(self)@),
            old(self)@.phase is Txs,
        ensures
            match on_tx(old(self)@, hex_body@) {
                Ok(next) => r is Ok && final(self)@ == next && sound(final(self)@),
                Err(message) => onchain_error(r, message) && final(self)@ == old(self)@,
            },
    {
        let ghost start = self@;
        proof {
            if on_tx(start, hex_body@) is Ok {
                lemma_on_tx(start, hex_body@);
            }
        }
        let tx = match deserialize_tx_hex(hex_body) {
            Ok(tx) => tx,
            Err(e) => return Err(e),
        };
        let entry = &self.history[self.taken];
        let observation = entry.observation;
        if !same(tx.txid_text(), entry.txid.as_str()) {
            let mut message = self.server.label_text().to_owned();
            message.append("tx hex txid mismatch: expected ");
            message.append(entry.txid.as_str());
            message.append(", got ");
            message.append(tx.txid_text());
            return Err(WalletError::Onchain(message));
        }
        let total: usize = self.history.len();
        assert(self.taken < total);
        let place = tx_place_for(&self.txs, entry.txid.as_str());
        let ghost old_txs = self.txs@;
        self.txs.insert(place, ScannedTx { tx, observation });
        self.taken = self.taken + 1;
        proof {
            let added = start.history[start.taken as int];
            let data = tx_of(hex_body@)->Ok_0;
            assert(self.txs@ == old_txs.insert(place as int, self.txs@[place as int]));
            assert(self@.txs =~= start.txs.insert(place as int, added));
            assert(self@.bodies =~= start.bodies.insert(place as int, data));
        }
        self.skip_known();
        Ok(())
    }

    /// The update that tells a wallet of what the scan found.
    pub fn finish(&self, network: Network, tip_height: u32) -> (r: Result<
        bdk_wallet::Update,
        WalletError,
    >)
        requires
            self@.phase is Done,
        ensures
            if tip_height == 0 {
                onchain_error(
                    r,
                    "bdk chain update tip_height must be > 0 (genesis reserved for height 0)"@,
                )
            } else {
                match height_fault(self@.txs, tip_height) {
                    Some(message) => onchain_error(r, message),
                    None => r matches Ok(update) && tells_of(
                        &update,
                        network,
                        tip_height,
                        self@.txs,
                        self@.bodies,
                        self@.last_external,
                        self@.last_internal,
                    ),
                }
            },
    {
        chain_update_from_scanned_txs(
            network,
            tip_height,
            &self.txs,
            self.last_external,
            self.last_internal,
        )
    }
}

/// Where asking a server failed.
#[derive(Clone, Copy, PartialEq, Eq, Structural, Debug)]
pub enum ScanFault {
    /// The path of the request could not be written.
    Path,
    /// The server did not reply.
    Transport,
    /// The reply could not be read.
    Parse,
}

/// What is said where the history of an address did not come.
pub open spec fn history_fault(s: Scan, fault: ScanFault, why: Seq<char>) -> Seq<char> {
    let at = " (index "@ + decimal(s.index as nat) + "): "@ + why;
    match (s.server, fault) {
        (ScanServer::Esplora, ScanFault::Path) => if s.cursor is None {
            s.server.label() + "address path: "@ + why
        } else {
            s.server.label() + "chain path: "@ + why
        },
        (ScanServer::Esplora, ScanFault::Transport) => s.server.label()
            + "address txs transport error"@ + at,
        (ScanServer::Esplora, ScanFault::Parse) => s.server.label() + "address txs parse"@ + at,
        (ScanServer::Electrum, ScanFault::Path) => s.server.label() + "get_history path"@ + at,
        (ScanServer::Electrum, ScanFault::Transport) => s.server.label()
            + "get_history transport error"@ + at,
        (ScanServer::Electrum, ScanFault::Parse) => s.server.label() + "get_history parse"@ + at,
    }
}

/// What is said where a transaction did not come.
pub open spec fn tx_fault(
    server: ScanServer,
    fault: ScanFault,
    txid: Seq<char>,
    why: Seq<char>,
) -> Seq<char> {
    let of = " ("@ + txid + "): "@ + why;
    match (server, fault) {
        (ScanServer::Esplora, ScanFault::Path) => server.label() + "tx hex path: "@ + why,
        (ScanServer::Esplora, ScanFault::Transport) => server.label() + "tx hex transport error"@
            + of,
        (ScanServer::Esplora, ScanFault::Parse) => server.label() + "tx hex parse"@ + of,
        (ScanServer::Electrum, ScanFault::Path) => server.label() + "transaction.get path"@ + of,
        (ScanServer::Electrum, ScanFault::Transport) => server.label()
            + "transaction.get transport error"@ + of,
        (ScanServer::Electrum, ScanFault::Parse) => server.label() + "transaction.get parse"@ + of,
    }
}

impl FullScan {
    /// The error where the history of an address did not come. It is never taken for an unused one.
    pub fn history_failed(&self, fault: ScanFault, why: &str) -> (e: WalletError)
        ensures
            e matches WalletError::Onchain(text) && text@ == history_fault(self@, fault, why@),
    {
        let mut message = self.server.label_text().to_owned();
        if let (ScanServer::Esplora, ScanFault::Path) = (self.server, fault) {
            match &self.cursor {
                None => message.append("address path: "),
                Some(_) => message.append("chain path: "),
            }
            message.append(why);
            return WalletError::Onchain(message);
        }
        match (self.server, fault) {
            (ScanServer::Esplora, ScanFault::Transport) => message.append(
                "address txs transport error",
            ),
            (ScanServer::Esplora, _) => message.append("address txs parse"),
            (ScanServer::Electrum, ScanFault::Path) => message.append("get_history path"),
            (ScanServer::Electrum, ScanFault::Transport) => message.append(
                "get_history transport error",
            ),
            (ScanServer::Electrum, ScanFault::Parse) => message.append("get_history parse"),
        }
        let ghost before = message@;
        message.append(" (index ");
        message.append(decimal_text(self.index as u64).as_str());
        message.append("): ");
        message.append(why);
        assert(message@ =~= before + (" (index "@ + decimal(self@.index as nat) + "): "@ + why@));
        WalletError::Onchain(message)
    }

    /// The error where a transaction did not come.
    pub fn tx_failed(&self, fault: ScanFault, why: &str) -> (e: WalletError)
        requires
            sound(self@),
            self@.phase is Txs,
        ensures
            e matches WalletError::Onchain(text) && text@ == tx_fault(
                self@.server,
                fault,
                self@.history[self@.taken as int].txid,
                why@,
            ),
    {
        let txid = self.history[self.taken].txid.as_str();
        let mut message = self.server.label_text().to_owned();
        if let (ScanServer::Esplora, ScanFault::Path) = (self.server, fault) {
            message.append("tx hex path: ");
            message.append(why);
            return WalletError::Onchain(message);
        }
        match (self.server, fault) {
            (ScanServer::Esplora, ScanFault::Transport) => message.append("tx hex transport error"),
            (ScanServer::Esplora, _) => message.append("tx hex parse"),
            (ScanServer::Electrum, ScanFault::Path) => message.append("transaction.get path"),
            (ScanServer::Electrum, ScanFault::Transport) => message.append(
                "transaction.get transport error",
            ),
            (ScanServer::Electrum, ScanFault::Parse) => message.append("transaction.get parse"),
        }
        let ghost before = message@;
        message.append(" (");
        message.append(txid);
        message.append("): ");
        message.append(why);
        assert(message@ =~= before + (" ("@ + txid@ + "): "@ + why@));
        WalletError::Onchain(message)
    }
}

/// What is said where a scan is asked for with a backend that cannot do one.
pub open spec fn no_scan_with_mempool() -> Seq<char> {
    "bdk utxo sync does not support chain source 'mempool' (no full_scan; set GROK_BITCOIN_CHAIN_SOURCE=esplora or electrum, or use GROK_BITCOIN_UTXO_SYNC=gap for default gap-limit ChainSource)"@
}

/// The error where a scan is asked for with a backend that cannot do one.
pub fn bdk_utxo_sync_mempool_unsupported_error() -> (e: WalletError)
    ensures
        e matches WalletError::Onchain(text) && text@ == no_scan_with_mempool(),
{
    WalletError::Onchain(
        "bdk utxo sync does not support chain source 'mempool' (no full_scan; set GROK_BITCOIN_CHAIN_SOURCE=esplora or electrum, or use GROK_BITCOIN_UTXO_SYNC=gap for default gap-limit ChainSource)".to_owned(),
    )
}

/// A server to scan with: everything about it was checked, nothing was connected.
#[derive(PartialEq, Eq, Debug)]
pub enum ScanEndpoint {
    Esplora { base_url: String },
    Electrum { addr: String, tls: bool },
}

/// Opens the server to scan with that a configuration describes. The mempool backend has none.
pub fn open_product_bdk_update_source(
    config: &ProductChainSourceConfig,
    built: CompiledBackends,
) -> (r: Result<ScanEndpoint, WalletError>)
    ensures
        match config.kind {
            ChainSourceKind::Mempool => onchain_error(r, no_scan_with_mempool()),
            ChainSourceKind::Esplora => match config_esplora_url(config@) {
                Err(message) => explorer_error(r, message),
                Ok(url) => if built.esplora {
                    r matches Ok(ScanEndpoint::Esplora { base_url }) && base_url@ == url
                } else {
                    onchain_error(
                        r,
                        "bdk utxo sync with chain source 'esplora' requires feature `esplora` (not compiled into this build; rebuild with --features bdk,esplora, set GROK_BITCOIN_ESPLORA_URL, or use GROK_BITCOIN_UTXO_SYNC=gap for default gap-limit ChainSource)"@,
                    )
                },
            },
            ChainSourceKind::Electrum => match config_electrum_endpoint(config@) {
                Err(message) => explorer_error(r, message),
                Ok((host_port, wants_tls)) => if built.electrum {
                    r matches Ok(ScanEndpoint::Electrum { addr, tls }) && addr@ == host_port && tls
                        == wants_tls
                } else {
                    onchain_error(
                        r,
                        "bdk utxo sync with chain source 'electrum' requires feature `electrum` (not compiled into this build; rebuild with --features bdk,electrum, set GROK_BITCOIN_ELECTRUM_ADDR [and optional GROK_BITCOIN_ELECTRUM_TLS=1 or ssl://host:port for TLS], or use GROK_BITCOIN_UTXO_SYNC=gap for default gap-limit ChainSource)"@,
                    )
                },
            },
        },
{
    match config.kind {
        ChainSourceKind::Mempool => Err(bdk_utxo_sync_mempool_unsupported_error()),
        ChainSourceKind::Esplora => match validated_esplora_url_from_config(config) {
            Err(e) => Err(e),
            Ok(base_url) => if built.esplora {
                Ok(ScanEndpoint::Esplora { base_url })
            } else {
                Err(
                    WalletError::Onchain(
                        "bdk utxo sync with chain source 'esplora' requires feature `esplora` (not compiled into this build; rebuild with --features bdk,esplora, set GROK_BITCOIN_ESPLORA_URL, or use GROK_BITCOIN_UTXO_SYNC=gap for default gap-limit ChainSource)".to_owned(),
                    ),
                )
            },
        },
        ChainSourceKind::Electrum => match validated_electrum_endpoint_from_config(config) {
            Err(e) => Err(e),
            Ok((addr, tls)) => if built.electrum {
                Ok(ScanEndpoint::Electrum { addr, tls })
            } else {
                Err(
                    WalletError::Onchain(
                        "bdk utxo sync with chain source 'electrum' requires feature `electrum` (not compiled into this build; rebuild with --features bdk,electrum, set GROK_BITCOIN_ELECTRUM_ADDR [and optional GROK_BITCOIN_ELECTRUM_TLS=1 or ssl://host:port for TLS], or use GROK_BITCOIN_UTXO_SYNC=gap for default gap-limit ChainSource)".to_owned(),
                    ),
                )
            },
        },
    }
}

} // verus!
