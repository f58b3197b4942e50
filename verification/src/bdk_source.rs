//! Sources of updates that scan the chain with a server. Whoever makes one provides the ways to ask
//! the server: for the height of the tip, for the history of an address, for a transaction.

use vstd::prelude::*;
use vstd::string::StringExecFns;

use crate::bdk_bip84::{
    chain_address, chain_descriptor, descriptor_script, script_address, wallet_made_with,
    wallet_network, BdkBip84Wallet, BdkUpdateSource,
};
use crate::bdk_scan::{
    action_of, after_address, entries_view, fresh_scan, history_fault, lemma_on_history, lemma_on_tx,
    lemma_place_for, lemma_place_of, on_history, on_tx, place_for, place_of, seen_again, sound,
    to_unknown, tx_fault, with_page, Action, FullScan, HistoryEntry, Scan, ScanAction, ScanFault,
    ScanPhase, ScanServer, ESPLORA_MAX_TX_PAGES, ESPLORA_TXS_PAGE_SIZE,
};
use crate::bdk_sync::{
    tip_height_to_u32, BdkTxObservation, BDK_FULL_SCAN_DEFAULT_STOP_GAP, BDK_FULL_SCAN_MAX_INDEX,
};
use crate::bdk_update::{height_fault, tells_of, tx_of, Sight};
use crate::cashu_backend::{start_of, text_start};
use crate::chain_select::{borrowed, str_view};
use crate::error::{onchain_error, WalletError};
use crate::text::{debug_quoted, debug_text, decimal};

verus! {

/// Reply to a request for the history of an address.
pub enum HistoryReply {
    Entries(Vec<HistoryEntry>),
    Failed(ScanFault, String),
}

/// Reply to a request for a transaction.
pub enum TxReply {
    /// Its bytes in hexadecimal.
    Hex(String),
    Failed(ScanFault, String),
}

/// Reply to a request for the height of the tip.
pub enum TipReply {
    Height(u64),
    /// The server did not reply.
    NoReply(String),
    /// The reply that could not be read.
    Unreadable(String),
}

/// Reply that a scan went on with.
pub enum Event {
    History(Seq<Sight>),
    Tx(Seq<char>),
}

/// A scan after one reply.
pub open spec fn step(s: Scan, e: Event) -> Result<Scan, Seq<char>> {
    match (s.phase, e) {
        (ScanPhase::History, Event::History(page)) => on_history(s, page),
        (ScanPhase::Txs, Event::Tx(body)) => on_tx(s, body),
        _ => Err(Seq::empty()),
    }
}

/// A scan after a list of replies, where it took them all.
pub open spec fn replay(s: Scan, log: Seq<Event>) -> Option<Scan>
    decreases log.len(),
{
    if log.len() == 0 {
        Some(s)
    } else {
        match replay(s, log.drop_last()) {
            None => None,
            Some(t) => match step(t, log.last()) {
                Ok(u) => Some(u),
                Err(_) => None,
            },
        }
    }
}

/// Whether a request for history may get this reply.
pub open spec fn may_history<H: Fn(&str, &Vec<u8>, Option<&str>) -> HistoryReply>(
    wallet: BdkBip84Wallet,
    history: H,
    action: Action,
    reply: HistoryReply,
) -> bool {
    exists|address: &str, script: &Vec<u8>, cursor: Option<&str>|
        #![trigger call_ensures(history, (address, script, cursor), reply)]
        action == (Action::History {
            change: action->change,
            index: action->index,
            cursor: str_view(cursor),
        }) && (chain_address(&wallet.bdk(), action->change, action->index) matches Ok(a) && a
            == address@) && script@ == descriptor_script(
            chain_descriptor(&wallet.bdk(), action->change),
            action->index,
        ) && call_ensures(history, (address, script, cursor), reply)
}

/// Whether a request for a transaction may get this reply.
pub open spec fn may_tx<T: Fn(&str) -> TxReply>(tx: T, action: Action, reply: TxReply) -> bool {
    exists|txid: &str|
        #![trigger call_ensures(tx, (txid,), reply)]
        action == (Action::Tx { txid: txid@ }) && call_ensures(tx, (txid,), reply)
}

/// Whether what a scan asks for may be answered like this.
pub open spec fn may_answer<
    H: Fn(&str, &Vec<u8>, Option<&str>) -> HistoryReply,
    T: Fn(&str) -> TxReply,
>(wallet: BdkBip84Wallet, history: H, tx: T, s: Scan, e: Event) -> bool {
    match e {
        Event::History(page) => exists|entries: Vec<HistoryEntry>|
            page == entries_view(entries@) && #[trigger] may_history(
                wallet,
                history,
                action_of(s),
                HistoryReply::Entries(entries),
            ),
        Event::Tx(body) => exists|hex: String|
            body == hex@ && #[trigger] may_tx(tx, action_of(s), TxReply::Hex(hex)),
    }
}

/// A list of replies that a scan may get, from its start on.
pub open spec fn answered<
    H: Fn(&str, &Vec<u8>, Option<&str>) -> HistoryReply,
    T: Fn(&str) -> TxReply,
>(wallet: BdkBip84Wallet, history: H, tx: T, start: Scan, log: Seq<Event>) -> bool
    decreases log.len(),
{
    if log.len() == 0 {
        true
    } else {
        &&& answered(wallet, history, tx, start, log.drop_last())
        &&& replay(start, log.drop_last()) is Some
        &&& may_answer(wallet, history, tx, replay(start, log.drop_last())->0, log.last())
    }
}

/// Whether a scan may fail like this: the server did, or its reply was refused.
pub open spec fn may_fail<
    H: Fn(&str, &Vec<u8>, Option<&str>) -> HistoryReply,
    T: Fn(&str) -> TxReply,
>(wallet: BdkBip84Wallet, history: H, tx: T, s: Scan, message: Seq<char>) -> bool {
    ||| exists|fault: ScanFault, why: String|
        message == history_fault(s, fault, why@) && #[trigger] may_history(
            wallet,
            history,
            action_of(s),
            HistoryReply::Failed(fault, why),
        )
    ||| exists|fault: ScanFault, why: String|
        s.phase is Txs && message == tx_fault(
            s.server,
            fault,
            s.history[s.taken as int].txid,
            why@,
        ) && #[trigger] may_tx(tx, action_of(s), TxReply::Failed(fault, why))
    ||| exists|e: Event|
        #[trigger] step(s, e) == Err::<Scan, Seq<char>>(message) && may_answer(
            wallet,
            history,
            tx,
            s,
            e,
        )
}

/// Whether a scan may come to its end in this state.
pub open spec fn may_end<
    H: Fn(&str, &Vec<u8>, Option<&str>) -> HistoryReply,
    T: Fn(&str) -> TxReply,
>(wallet: BdkBip84Wallet, history: H, tx: T, start: Scan, end: Scan) -> bool {
    exists|log: Seq<Event>| #[trigger]
        answered(wallet, history, tx, start, log) && replay(start, log) == Some(end)
}

/// What a scan comes to.
pub open spec fn scan_outcome<
    H: Fn(&str, &Vec<u8>, Option<&str>) -> HistoryReply,
    T: Fn(&str) -> TxReply,
>(
    wallet: BdkBip84Wallet,
    history: H,
    tx: T,
    start: Scan,
    r: Result<FullScan, WalletError>,
) -> bool {
    match r {
        Ok(scan) => scan@.phase is Done && may_end(wallet, history, tx, start, scan@),
        Err(e) => exists|s: Scan|
            #[trigger] may_end(wallet, history, tx, start, s) && (e matches WalletError::Onchain(
                text,
            ) && may_fail(wallet, history, tx, s, text@)),
    }
}

/// A reply with history answered a request for the history of this address.
pub open spec fn asked_at(start: Scan, log: Seq<Event>, k: int, change: bool, index: int) -> bool {
    &&& 0 <= k < log.len()
    &&& log[k] is History
    &&& replay(start, log.take(k)) is Some
    &&& action_of(replay(start, log.take(k))->0) is History
    &&& action_of(replay(start, log.take(k))->0)->change == change
    &&& action_of(replay(start, log.take(k))->0)->index == index
}

/// The server was asked for the history of this address.
#[verifier::opaque]
pub open spec fn looked_at(start: Scan, log: Seq<Event>, change: bool, index: int) -> bool {
    exists|k: int| #[trigger] asked_at(start, log, k, change, index)
}

/// The server had history of this address.
#[verifier::opaque]
pub open spec fn in_use(start: Scan, log: Seq<Event>, change: bool, index: int) -> bool {
    exists|k: int| #[trigger]
        asked_at(start, log, k, change, index) && log[k]->History_0.len() > 0
}

/// A reply with history named this transaction.
#[verifier::opaque]
pub open spec fn told(log: Seq<Event>, sight: Sight) -> bool {
    exists|k: int, m: int|
        0 <= k < log.len() && log[k] is History && 0 <= m < log[k]->History_0.len() && sight
            == #[trigger] log[k]->History_0[m]
}

/// A sight of a transaction tells at least as much as another: a block, where the other names one,
/// and no higher one.
pub open spec fn as_good(a: BdkTxObservation, b: BdkTxObservation) -> bool {
    match b {
        BdkTxObservation::Unconfirmed => true,
        BdkTxObservation::Confirmed { height: theirs } => a matches BdkTxObservation::Confirmed {
            height,
        } && height <= theirs,
    }
}

/// A list names the transaction of a sight, and where it is strict tells as much of it.
#[verifier::opaque]
pub open spec fn covers(list: Seq<Sight>, from: int, sight: Sight, strict: bool) -> bool {
    exists|j: int|
        from <= j < list.len() && (#[trigger] list[j]).txid == sight.txid && (strict ==> as_good(
            list[j].observation,
            sight.observation,
        ))
}

/// What one more reply adds to the addresses that were looked at.
proof fn lemma_one_more_reply(start: Scan, log: Seq<Event>, e: Event, s: Scan)
    requires
        replay(start, log) == Some(s),
    ensures
        forall|change: bool, index: int| #[trigger]
            looked_at(start, log.push(e), change, index) <==> looked_at(start, log, change, index)
                || (e is History && s.phase is History && s.change == change && s.index == index),
        forall|change: bool, index: int| #[trigger]
            in_use(start, log.push(e), change, index) <==> in_use(start, log, change, index) || (
            e is History && e->History_0.len() > 0 && s.phase is History && s.change == change
                && s.index == index),
        forall|sight: Sight| #[trigger]
            told(log.push(e), sight) <==> told(log, sight) || (e is History
                && e->History_0.contains(sight)),
{
    reveal(looked_at);
    reveal(in_use);
    reveal(told);
    let more = log.push(e);
    let last = log.len() as int;
    assert(more.take(last) =~= log);
    assert forall|k: int, change: bool, index: int| 0 <= k < last implies (#[trigger] asked_at(
        start,
        more,
        k,
        change,
        index,
    ) <==> asked_at(start, log, k, change, index)) by {
        assert(more.take(k) =~= log.take(k));
    }
    assert forall|change: bool, index: int|
        #[trigger] asked_at(start, more, last, change, index) <==> (e is History && s.phase
            is History && s.change == change && s.index == index) by {}
    assert forall|change: bool, index: int| #[trigger]
        looked_at(start, more, change, index) <==> looked_at(start, log, change, index) || (
        e is History && s.phase is History && s.change == change && s.index == index) by {
        if looked_at(start, more, change, index) {
            let k = choose|k: int| #[trigger] asked_at(start, more, k, change, index);
            if k < last {
                assert(asked_at(start, log, k, change, index));
            }
        }
        if looked_at(start, log, change, index) {
            let k = choose|k: int| #[trigger] asked_at(start, log, k, change, index);
            assert(asked_at(start, more, k, change, index));
        }
        if e is History && s.phase is History && s.change == change && s.index == index {
            assert(asked_at(start, more, last, change, index));
        }
    }
    assert forall|change: bool, index: int| #[trigger]
        in_use(start, more, change, index) <==> in_use(start, log, change, index) || (e is History
            && e->History_0.len() > 0 && s.phase is History && s.change == change && s.index
            == index) by {
        if in_use(start, more, change, index) {
            let k = choose|k: int| #[trigger]
                asked_at(start, more, k, change, index) && more[k]->History_0.len() > 0;
            if k < last {
                assert(asked_at(start, log, k, change, index));
            }
        }
        if in_use(start, log, change, index) {
            let k = choose|k: int| #[trigger]
                asked_at(start, log, k, change, index) && log[k]->History_0.len() > 0;
            assert(asked_at(start, more, k, change, index));
        }
        if e is History && e->History_0.len() > 0 && s.phase is History && s.change == change
            && s.index == index {
            assert(asked_at(start, more, last, change, index));
        }
    }
    assert forall|sight: Sight| #[trigger]
        told(more, sight) <==> told(log, sight) || (e is History && e->History_0.contains(
            sight,
        )) by {
        if told(more, sight) {
            let (k, m) = choose|k: int, m: int|
                0 <= k < more.len() && more[k] is History && 0 <= m < more[k]->History_0.len()
                    && sight == #[trigger] more[k]->History_0[m];
            if k < last {
                assert(log[k]->History_0[m] == sight);
            }
        }
        if told(log, sight) {
            let (k, m) = choose|k: int, m: int|
                0 <= k < log.len() && log[k] is History && 0 <= m < log[k]->History_0.len()
                    && sight == #[trigger] log[k]->History_0[m];
            assert(more[k]->History_0[m] == sight);
        }
        if e is History && e->History_0.contains(sight) {
            let m = choose|m: int|
                0 <= m < e->History_0.len() && e->History_0[m] == sight;
            assert(more[last]->History_0[m] == sight);
        }
    }
}

/// A chain that was looked at to its end: every address within the gap of the start or of an
/// address in use, and no other.
#[verifier::opaque]
spec fn whole_chain(start: Scan, log: Seq<Event>, change: bool, gap: int) -> bool {
    &&& forall|index: int|
        0 <= index < gap && index < BDK_FULL_SCAN_MAX_INDEX ==> #[trigger] looked_at(
            start,
            log,
            change,
            index,
        )
    &&& forall|used: int, index: int|
        #![trigger in_use(start, log, change, used), looked_at(start, log, change, index)]
        in_use(start, log, change, used) && used < index <= used + gap && index
            < BDK_FULL_SCAN_MAX_INDEX ==> looked_at(start, log, change, index)
    &&& no_idle_look(start, log, change, gap)
}

/// No address is looked at that is not within the gap of the start or of an address in use.
#[verifier::opaque]
spec fn no_idle_look(start: Scan, log: Seq<Event>, change: bool, gap: int) -> bool {
    forall|index: int| #[trigger]
        looked_at(start, log, change, index) ==> 0 <= index < BDK_FULL_SCAN_MAX_INDEX && (index
            < gap || exists|used: int|
            index - gap <= used < index && #[trigger] in_use(start, log, change, used))
}

/// The last address of a chain that is in use; at the address that is being looked at the answer is
/// still open.
spec fn last_in_use(
    start: Scan,
    log: Seq<Event>,
    change: bool,
    open: Option<int>,
    last: Option<u32>,
) -> bool {
    match last {
        Some(u) => in_use(start, log, change, u as int) && forall|index: int| #[trigger]
            in_use(start, log, change, index) && open != Some(index) ==> index <= u,
        None => forall|index: int| #[trigger]
            in_use(start, log, change, index) ==> open == Some(index),
    }
}

/// What the replies so far say of the state of a scan.
spec fn traced(start: Scan, log: Seq<Event>, s: Scan) -> bool {
    let at = s.index as int;
    let run = s.empty_run as int;
    let gap = s.stop_gap as int;
    let strict = s.server is Electrum;
    let open = if s.phase is History {
        Some(at)
    } else {
        None
    };
    // Addresses of the chain that is being looked at.
    &&& forall|index: int| 0 <= index < at ==> #[trigger] looked_at(start, log, s.change, index)
    &&& s.phase !is History ==> looked_at(start, log, s.change, at)
    &&& forall|index: int| #[trigger] looked_at(start, log, s.change, index) ==> 0 <= index <= at
    &&& !s.change ==> forall|index: int| !#[trigger] looked_at(start, log, true, index)
    &&& forall|change: bool, index: int| #[trigger]
        in_use(start, log, change, index) ==> looked_at(start, log, change, index)
    // The run of unused addresses before it.
    &&& s.phase is History ==> {
        &&& 0 <= run <= at
        &&& run < at ==> in_use(start, log, s.change, at - run - 1)
        &&& forall|index: int|
            at - run <= index < at ==> !#[trigger] in_use(start, log, s.change, index)
        &&& in_use(start, log, s.change, at) <==> s.history.len() > 0
    }
    &&& s.phase is Txs ==> run == 0 && in_use(start, log, s.change, at)
    &&& no_idle_look(start, log, s.change, gap)
    // Chains that are done.
    &&& s.change ==> whole_chain(start, log, false, gap)
    &&& s.phase is Done ==> s.change && whole_chain(start, log, true, gap)
    &&& last_in_use(
        start,
        log,
        false,
        if s.change {
            None
        } else {
            open
        },
        s.last_external,
    )
    &&& last_in_use(
        start,
        log,
        true,
        if s.change {
            open
        } else {
            None
        },
        s.last_internal,
    )
    // Transactions.
    &&& forall|sight: Sight| #[trigger]
        told(log, sight) ==> covers(s.txs, 0, sight, strict) || (s.phase is History && covers(
            s.history,
            0,
            sight,
            strict,
        )) || (s.phase is Txs && covers(s.history, s.taken as int, sight, strict))
    &&& forall|j: int| 0 <= j < s.txs.len() ==> told(log, #[trigger] s.txs[j])
    &&& s.phase !is Done ==> forall|j: int|
        0 <= j < s.history.len() ==> told(log, #[trigger] s.history[j])
}

/// A page adds its entries to a history, and nothing else.
proof fn lemma_with_page_covers(history: Seq<Sight>, page: Seq<Sight>)
    ensures
        forall|i: int|
            0 <= i < history.len() ==> covers(
                with_page(history, page),
                0,
                #[trigger] history[i],
                false,
            ),
        forall|i: int|
            0 <= i < page.len() ==> covers(with_page(history, page), 0, #[trigger] page[i], false),
        forall|j: int|
            0 <= j < with_page(history, page).len() ==> history.contains(
                #[trigger] with_page(history, page)[j],
            ) || page.contains(with_page(history, page)[j]),
        with_page(history, page).len() >= history.len(),
    decreases page.len(),
{
    if page.len() == 0 {
        assert forall|i: int| 0 <= i < history.len() implies covers(
            history,
            0,
            #[trigger] history[i],
            false,
        ) by {
            reveal(covers);
            assert(history[i].txid == history[i].txid);
        }
    } else {
        let front = page.drop_last();
        lemma_with_page_covers(history, front);
        let before = with_page(history, front);
        let now = with_page(history, page);
        lemma_place_of(before, page.last().txid, 0);
        assert forall|x: Sight| #[trigger] covers(before, 0, x, false) implies covers(
            now,
            0,
            x,
            false,
        ) by {
            reveal(covers);
            let j = choose|j: int|
                0 <= j < before.len() && (#[trigger] before[j]).txid == x.txid;
            assert(now[j].txid == x.txid);
        }
        assert forall|i: int| 0 <= i < page.len() implies covers(
            now,
            0,
            #[trigger] page[i],
            false,
        ) by {
            if i < front.len() {
                assert(front[i] == page[i]);
                assert(covers(before, 0, front[i], false));
            } else {
                reveal(covers);
                if let Some(j) = place_of(before, page.last().txid, 0) {
                    assert(now[j].txid == page[i].txid);
                } else {
                    assert(now[now.len() - 1].txid == page[i].txid);
                }
            }
        }
        assert forall|j: int| 0 <= j < now.len() implies history.contains(#[trigger] now[j])
            || page.contains(now[j]) by {
            if j < before.len() {
                assert(now[j] == before[j]);
                if front.contains(before[j]) {
                    let i = choose|i: int| 0 <= i < front.len() && front[i] == before[j];
                    assert(page[i] == before[j]);
                }
            } else {
                assert(page[page.len() - 1] == now[j]);
            }
        }
    }
}

/// Going on to the first unknown transaction changes the transactions alone, unless the scan leaves
/// the address; it covers what it passes and invents nothing.
proof fn lemma_passes(s: Scan, log: Seq<Event>, strict: bool) -> (out: Scan)
    requires
        forall|j: int| 0 <= j < s.txs.len() ==> told(log, #[trigger] s.txs[j]),
        forall|j: int| 0 <= j < s.history.len() ==> told(log, #[trigger] s.history[j]),
    ensures
        out == (Scan { txs: out.txs, taken: out.taken, ..s }),
        s.taken <= out.taken,
        to_unknown(s) == (if out.taken >= out.history.len() {
            after_address(out)
        } else {
            out
        }),
        forall|x: Sight| #[trigger]
            covers(s.txs, 0, x, strict) ==> covers(out.txs, 0, x, strict),
        forall|j: int|
            s.taken <= j < out.taken && j < s.history.len() ==> covers(
                out.txs,
                0,
                #[trigger] s.history[j],
                strict,
            ),
        forall|j: int| 0 <= j < out.txs.len() ==> told(log, #[trigger] out.txs[j]),
    decreases s.history.len() - s.taken,
{
    reveal(covers);
    if s.taken >= s.history.len() {
        s
    } else {
        let entry = s.history[s.taken as int];
        lemma_place_of(s.txs, entry.txid, 0);
        match place_of(s.txs, entry.txid, 0) {
            Some(place) => {
                let t = Scan {
                    txs: seen_again(s.txs, place, entry.observation),
                    taken: s.taken + 1,
                    ..s
                };
                assert(told(log, s.txs[place]) && told(log, entry));
                assert forall|j: int| 0 <= j < t.txs.len() implies told(
                    log,
                    #[trigger] t.txs[j],
                ) by {
                    if j == place {
                        assert(t.txs[j] == s.txs[place] || t.txs[j] == entry);
                    } else {
                        assert(t.txs[j] == s.txs[j]);
                    }
                }
                assert forall|x: Sight| #[trigger] covers(s.txs, 0, x, strict) implies covers(
                    t.txs,
                    0,
                    x,
                    strict,
                ) by {
                    let j = choose|j: int|
                        0 <= j < s.txs.len() && (#[trigger] s.txs[j]).txid == x.txid && (strict
                            ==> as_good(s.txs[j].observation, x.observation));
                    assert(t.txs[j].txid == x.txid);
                    assert(strict ==> as_good(t.txs[j].observation, x.observation));
                }
                assert(covers(t.txs, 0, entry, strict)) by {
                    assert(t.txs[place].txid == entry.txid);
                    assert(as_good(t.txs[place].observation, entry.observation));
                }
                let out = lemma_passes(t, log, strict);
                assert forall|j: int|
                    s.taken <= j < out.taken && j < s.history.len() implies covers(
                    out.txs,
                    0,
                    #[trigger] s.history[j],
                    strict,
                ) by {
                    if j > s.taken {
                        assert(t.history[j] == s.history[j]);
                    }
                }
                out
            },
            None => s,
        }
    }
}

/// What the replies so far say of a scan that is done with an address.
spec fn settled(start: Scan, log: Seq<Event>, s: Scan) -> bool {
    let at = s.index as int;
    let run = s.empty_run as int;
    &&& forall|index: int| 0 <= index <= at ==> #[trigger] looked_at(start, log, s.change, index)
    &&& forall|index: int| #[trigger] looked_at(start, log, s.change, index) ==> 0 <= index <= at
    &&& !s.change ==> forall|index: int| !#[trigger] looked_at(start, log, true, index)
    &&& forall|change: bool, index: int| #[trigger]
        in_use(start, log, change, index) ==> looked_at(start, log, change, index)
    &&& 0 <= run <= at + 1
    &&& run <= at ==> in_use(start, log, s.change, at - run)
    &&& forall|index: int|
        at - run < index <= at ==> !#[trigger] in_use(start, log, s.change, index)
    &&& no_idle_look(start, log, s.change, s.stop_gap as int)
    &&& s.change ==> whole_chain(start, log, false, s.stop_gap as int)
    &&& last_in_use(start, log, false, None, s.last_external)
    &&& last_in_use(start, log, true, None, s.last_internal)
    &&& forall|sight: Sight| #[trigger]
        told(log, sight) ==> covers(s.txs, 0, sight, s.server is Electrum)
    &&& forall|j: int| 0 <= j < s.txs.len() ==> told(log, #[trigger] s.txs[j])
}

/// A scan that is done with an address goes on, or is done with the chain.
proof fn lemma_settled(start: Scan, log: Seq<Event>, s: Scan)
    requires
        settled(start, log, s),
        s.index < BDK_FULL_SCAN_MAX_INDEX,
        0 < s.stop_gap <= BDK_FULL_SCAN_MAX_INDEX,
    ensures
        traced(start, log, after_address(s)),
{
    let at = s.index as int;
    let run = s.empty_run as int;
    let gap = s.stop_gap as int;
    let t = after_address(s);
    if !(s.empty_run < s.stop_gap && s.index + 1 < BDK_FULL_SCAN_MAX_INDEX) {
        assert forall|index: int|
            0 <= index < gap && index < BDK_FULL_SCAN_MAX_INDEX implies #[trigger] looked_at(
            start,
            log,
            s.change,
            index,
        ) by {
            assert(index <= at);
        }
        assert forall|used: int, index: int|
            #![trigger in_use(start, log, s.change, used), looked_at(start, log, s.change, index)]
            in_use(start, log, s.change, used) && used < index <= used + gap && index
                < BDK_FULL_SCAN_MAX_INDEX implies looked_at(start, log, s.change, index) by {
            assert(looked_at(start, log, s.change, used));
            if index > at {
                assert(at - run < used <= at);
            }
        }
        assert(whole_chain(start, log, s.change, gap)) by {
            reveal(whole_chain);
        }
        if !s.change {
            assert forall|index: int| !#[trigger] in_use(start, log, true, index) by {
                if in_use(start, log, true, index) {
                    assert(looked_at(start, log, true, index));
                }
            }
            assert(no_idle_look(start, log, true, gap)) by {
                reveal(no_idle_look);
            }
        }
    } else {
        assert(!in_use(start, log, s.change, at + 1)) by {
            if in_use(start, log, s.change, at + 1) {
                assert(looked_at(start, log, s.change, at + 1));
            }
        }
    }
}

/// What covers an entry covers what the entry covers.
proof fn lemma_covers_through(
    history: Seq<Sight>,
    from: int,
    taken: int,
    txs: Seq<Sight>,
    x: Sight,
    strict: bool,
)
    requires
        covers(history, from, x, strict),
        forall|j: int|
            from <= j < taken && j < history.len() ==> covers(
                txs,
                0,
                #[trigger] history[j],
                strict,
            ),
    ensures
        covers(txs, 0, x, strict) || covers(history, taken, x, strict),
{
    reveal(covers);
    let j = choose|j: int|
        from <= j < history.len() && (#[trigger] history[j]).txid == x.txid && (strict ==> as_good(
            history[j].observation,
            x.observation,
        ));
    if j < taken {
        assert(covers(txs, 0, history[j], strict));
        let l = choose|l: int|
            0 <= l < txs.len() && (#[trigger] txs[l]).txid == history[j].txid && (strict
                ==> as_good(txs[l].observation, history[j].observation));
        assert(txs[l].txid == x.txid);
    } else {
        assert(history[j].txid == x.txid);
    }
}

/// One more transaction takes nothing away.
proof fn lemma_covers_inserted(
    txs: Seq<Sight>,
    place: int,
    entry: Sight,
    x: Sight,
    strict: bool,
)
    requires
        0 <= place <= txs.len(),
        covers(txs, 0, x, strict),
    ensures
        covers(txs.insert(place, entry), 0, x, strict),
{
    reveal(covers);
    let more = txs.insert(place, entry);
    let j = choose|j: int|
        0 <= j < txs.len() && (#[trigger] txs[j]).txid == x.txid && (strict ==> as_good(
            txs[j].observation,
            x.observation,
        ));
    if j < place {
        assert(more[j] == txs[j]);
    } else {
        assert(more[j + 1] == txs[j]);
    }
}

/// A scan at the transactions of an address, and what becomes of it.
proof fn lemma_traced_txs(start: Scan, log: Seq<Event>, s: Scan)
    requires
        s.phase is Txs,
        s.index < BDK_FULL_SCAN_MAX_INDEX,
        0 < s.stop_gap <= BDK_FULL_SCAN_MAX_INDEX,
        s.taken <= s.history.len(),
        traced(start, log, s),
    ensures
        traced(start, log, to_unknown(s)),
{
    let strict = s.server is Electrum;
    let out = lemma_passes(s, log, strict);
    assert forall|sight: Sight| #[trigger] told(log, sight) implies covers(
        out.txs,
        0,
        sight,
        strict,
    ) || covers(out.history, out.taken as int, sight, strict) by {
        if !covers(s.txs, 0, sight, strict) {
            lemma_covers_through(
                s.history,
                s.taken as int,
                out.taken as int,
                out.txs,
                sight,
                strict,
            );
        }
    }
    if out.taken >= out.history.len() {
        assert forall|sight: Sight| #[trigger] told(log, sight) implies covers(
            out.txs,
            0,
            sight,
            strict,
        ) by {
            assert(!covers(out.history, out.taken as int, sight, strict)) by {
                reveal(covers);
            }
        }
        assert(settled(start, log, out));
        lemma_settled(start, log, out);
    }
}

/// What a reply with history leaves of what the replies say of a scan.
proof fn lemma_traced_history(start: Scan, log: Seq<Event>, s: Scan, page: Seq<Sight>)
    requires
        replay(start, log) == Some(s),
        sound(s),
        s.phase is History,
        traced(start, log, s),
        on_history(s, page) is Ok,
    ensures
        traced(start, log.push(Event::History(page)), on_history(s, page)->Ok_0),
{
    let e = Event::History(page);
    let more = log.push(e);
    let at = s.index as int;
    let run = s.empty_run as int;
    let gap = s.stop_gap as int;
    let strict = s.server is Electrum;
    lemma_one_more_reply(start, log, e, s);
    lemma_with_page_covers(s.history, page);
    assert(looked_at(start, more, s.change, at));
    lemma_no_idle_look_stays(
        start,
        log,
        more,
        s.change,
        gap,
        at,
        if run < at {
            Some(at - run - 1)
        } else {
            None
        },
    );
    if s.change {
        lemma_whole_chain_stays(start, log, more, gap);
    }
    let next = match s.server {
        ScanServer::Electrum => Scan { history: page, ..s },
        ScanServer::Esplora => Scan {
            history: with_page(s.history, page),
            cursor: if page.len() > 0 {
                Some(page.last().txid)
            } else {
                s.cursor
            },
            pages: (s.pages + 1) as u32,
            ..s
        },
    };
    assert forall|sight: Sight| #[trigger] told(more, sight) implies covers(
        next.txs,
        0,
        sight,
        strict,
    ) || covers(next.history, 0, sight, strict) by {
        if page.contains(sight) {
            let m = choose|m: int| 0 <= m < page.len() && page[m] == sight;
            if strict {
                assert(covers(next.history, 0, sight, strict)) by {
                    reveal(covers);
                    assert(next.history[m].txid == sight.txid);
                }
            } else {
                assert(covers(next.history, 0, page[m], false));
            }
        } else {
            assert(told(log, sight));
            if !covers(s.txs, 0, sight, strict) {
                assert(!strict) by {
                    reveal(covers);
                }
                lemma_covers_through(
                    s.history,
                    0,
                    s.history.len() as int,
                    next.history,
                    sight,
                    strict,
                );
                assert(!covers(s.history, s.history.len() as int, sight, strict)) by {
                    reveal(covers);
                }
            }
        }
    }
    assert forall|j: int| 0 <= j < next.history.len() implies told(
        more,
        #[trigger] next.history[j],
    ) by {
        if page.contains(next.history[j]) {
        } else {
            assert(s.history.contains(next.history[j]));
            let i = choose|i: int| 0 <= i < s.history.len() && s.history[i] == next.history[j];
            assert(told(log, s.history[i]));
        }
    }
    assert(next.history.len() == 0 <==> s.history.len() == 0 && page.len() == 0) by {
        if page.len() > 0 && s.server is Esplora {
            assert(covers(next.history, 0, page[0], false));
            reveal(covers);
        }
    }
    assert forall|index: int| index != at implies (#[trigger] in_use(start, more, s.change, index)
        <==> in_use(start, log, s.change, index)) by {}
    assert(in_use(start, more, s.change, at) <==> next.history.len() > 0);
    if s.server is Electrum || page.len() < ESPLORA_TXS_PAGE_SIZE {
        if next.history.len() == 0 {
            let t = Scan { empty_run: (s.empty_run + 1) as u32, ..next };
            assert forall|sight: Sight| #[trigger] told(more, sight) implies covers(
                next.txs,
                0,
                sight,
                strict,
            ) by {
                assert(!covers(next.history, 0, sight, strict)) by {
                    reveal(covers);
                }
            }
            assert(settled(start, more, t));
            lemma_settled(start, more, t);
        } else {
            let t = Scan {
                empty_run: 0,
                last_external: if s.change {
                    s.last_external
                } else {
                    Some(s.index)
                },
                last_internal: if s.change {
                    Some(s.index)
                } else {
                    s.last_internal
                },
                taken: 0,
                phase: ScanPhase::Txs,
                ..next
            };
            assert(traced(start, more, t));
            lemma_traced_txs(start, more, t);
        }
    } else {
        assert(traced(start, more, next));
    }
}

/// One more address that is looked at is within the gap too, where an address in use is near enough
/// before it.
proof fn lemma_no_idle_look_stays(
    start: Scan,
    log: Seq<Event>,
    more: Seq<Event>,
    change: bool,
    gap: int,
    at: int,
    near: Option<int>,
)
    requires
        no_idle_look(start, log, change, gap),
        forall|index: int| #[trigger]
            looked_at(start, more, change, index) ==> looked_at(start, log, change, index)
                || index == at,
        forall|index: int| #[trigger]
            in_use(start, log, change, index) ==> in_use(start, more, change, index),
        at < BDK_FULL_SCAN_MAX_INDEX,
        looked_at(start, more, change, at) ==> at >= 0 && (at < gap || (near matches Some(used)
            && at - gap <= used < at && in_use(start, log, change, used))),
    ensures
        no_idle_look(start, more, change, gap),
{
    reveal(no_idle_look);
    assert forall|index: int| #[trigger] looked_at(start, more, change, index) implies 0 <= index
        < BDK_FULL_SCAN_MAX_INDEX && (index < gap || exists|used: int|
        index - gap <= used < index && #[trigger] in_use(start, more, change, used)) by {
        if looked_at(start, log, change, index) {
            if index >= gap {
                let used = choose|used: int|
                    index - gap <= used < index && #[trigger] in_use(start, log, change, used);
                assert(in_use(start, more, change, used));
            }
        } else if index >= gap {
            assert(in_use(start, more, change, near->0));
        }
    }
}

/// What it says of a chain that it was looked at to its end.
proof fn lemma_whole_chain(start: Scan, log: Seq<Event>, change: bool, gap: int)
    requires
        whole_chain(start, log, change, gap),
    ensures
        forall|index: int|
            0 <= index < gap && index < 100 ==> #[trigger] looked_at(start, log, change, index),
        forall|used: int, index: int|
            #![trigger in_use(start, log, change, used), looked_at(start, log, change, index)]
            in_use(start, log, change, used) && used < index <= used + gap && index < 100
                ==> looked_at(start, log, change, index),
        forall|index: int| #[trigger]
            looked_at(start, log, change, index) ==> 0 <= index < 100 && (index < gap
                || exists|used: int|
                index - gap <= used < index && #[trigger] in_use(start, log, change, used)),
{
    reveal(whole_chain);
    reveal(no_idle_look);
}

/// What was found of a chain that is done stays, where more replies do not concern it.
proof fn lemma_whole_chain_stays(start: Scan, log: Seq<Event>, more: Seq<Event>, gap: int)
    requires
        whole_chain(start, log, false, gap),
        forall|index: int| #[trigger]
            looked_at(start, more, false, index) <==> looked_at(start, log, false, index),
        forall|index: int| #[trigger]
            in_use(start, more, false, index) <==> in_use(start, log, false, index),
    ensures
        whole_chain(start, more, false, gap),
{
    reveal(whole_chain);
    reveal(no_idle_look);
    assert forall|index: int| #[trigger] looked_at(start, more, false, index) implies 0 <= index
        < BDK_FULL_SCAN_MAX_INDEX && (index < gap || exists|used: int|
        index - gap <= used < index && #[trigger] in_use(start, more, false, used)) by {
        assert(looked_at(start, log, false, index));
        if index >= gap {
            let used = choose|used: int|
                index - gap <= used < index && #[trigger] in_use(start, log, false, used);
            assert(in_use(start, more, false, used));
        }
    }
    assert forall|used: int, index: int|
        #![trigger in_use(start, more, false, used), looked_at(start, more, false, index)]
        in_use(start, more, false, used) && used < index <= used + gap && index
            < BDK_FULL_SCAN_MAX_INDEX implies looked_at(start, more, false, index) by {
        assert(in_use(start, log, false, used));
        assert(looked_at(start, log, false, index));
    }
}

/// What a transaction leaves of what the replies say of a scan.
proof fn lemma_traced_tx(start: Scan, log: Seq<Event>, s: Scan, body: Seq<char>)
    requires
        replay(start, log) == Some(s),
        sound(s),
        s.phase is Txs,
        traced(start, log, s),
        on_tx(s, body) is Ok,
    ensures
        traced(start, log.push(Event::Tx(body)), on_tx(s, body)->Ok_0),
{
    let e = Event::Tx(body);
    let more = log.push(e);
    let gap = s.stop_gap as int;
    let strict = s.server is Electrum;
    lemma_one_more_reply(start, log, e, s);
    let entry = s.history[s.taken as int];
    lemma_place_for(s.txs, entry.txid, 0);
    let place = place_for(s.txs, entry.txid, 0);
    let t = Scan {
        txs: s.txs.insert(place, entry),
        bodies: s.bodies.insert(place, tx_of(body)->Ok_0),
        taken: s.taken + 1,
        ..s
    };
    if s.change {
        lemma_whole_chain_stays(start, log, more, gap);
    }
    lemma_no_idle_look_stays(start, log, more, s.change, gap, -1, None);
    assert(told(log, entry));
    assert forall|j: int| 0 <= j < t.txs.len() implies told(more, #[trigger] t.txs[j]) by {
        if j < place {
            assert(t.txs[j] == s.txs[j]);
        } else if j > place {
            assert(t.txs[j] == s.txs[j - 1]);
        }
    }
    assert forall|x: Sight| #[trigger] told(more, x) implies covers(t.txs, 0, x, strict) || covers(
        t.history,
        t.taken as int,
        x,
        strict,
    ) by {
        assert(told(log, x));
        if covers(s.txs, 0, x, strict) {
            lemma_covers_inserted(s.txs, place, entry, x, strict);
        } else {
            assert(covers(t.txs, 0, entry, strict)) by {
                reveal(covers);
                assert(t.txs[place] == entry);
            }
            lemma_covers_through(
                s.history,
                s.taken as int,
                t.taken as int,
                t.txs,
                x,
                strict,
            );
        }
    }
    assert(traced(start, more, t));
    lemma_traced_txs(start, more, t);
}

/// A scan is what the replies say of it.
proof fn lemma_traced(server: ScanServer, gap: u32, log: Seq<Event>)
    requires
        0 < gap <= BDK_FULL_SCAN_MAX_INDEX,
        replay(fresh_scan(server, gap), log) is Some,
    ensures
        traced(fresh_scan(server, gap), log, replay(fresh_scan(server, gap), log)->0),
        sound(replay(fresh_scan(server, gap), log)->0),
        replay(fresh_scan(server, gap), log)->0.stop_gap == gap,
        replay(fresh_scan(server, gap), log)->0.server == server,
    decreases log.len(),
{
    let start = fresh_scan(server, gap);
    if log.len() == 0 {
        reveal(looked_at);
        reveal(in_use);
        reveal(told);
        reveal(no_idle_look);
        assert forall|change: bool, index: int| !#[trigger]
            looked_at(start, log, change, index) by {}
        assert forall|change: bool, index: int| !#[trigger] in_use(start, log, change, index) by {}
        assert forall|sight: Sight| !#[trigger] told(log, sight) by {}
    } else {
        let front = log.drop_last();
        lemma_traced(server, gap, front);
        let s = replay(start, front)->0;
        assert(front.push(log.last()) =~= log);
        match log.last() {
            Event::History(page) => {
                lemma_traced_history(start, front, s, page);
                lemma_on_history(s, page);
                lemma_same_scan_history(s, page);
            },
            Event::Tx(body) => {
                lemma_traced_tx(start, front, s, body);
                lemma_on_tx(s, body);
                lemma_same_scan_tx(s, body);
            },
        }
    }
}

/// A scan keeps its server and its gap.
proof fn lemma_same_scan_unknown(s: Scan)
    ensures
        to_unknown(s).server == s.server,
        to_unknown(s).stop_gap == s.stop_gap,
    decreases s.history.len() - s.taken,
{
    if s.taken < s.history.len() {
        if let Some(place) = place_of(s.txs, s.history[s.taken as int].txid, 0) {
            lemma_same_scan_unknown(
                Scan {
                    txs: seen_again(s.txs, place, s.history[s.taken as int].observation),
                    taken: s.taken + 1,
                    ..s
                },
            );
        }
    }
}

/// A scan keeps its server and its gap.
proof fn lemma_same_scan_history(s: Scan, page: Seq<Sight>)
    requires
        on_history(s, page) is Ok,
    ensures
        on_history(s, page)->Ok_0.server == s.server,
        on_history(s, page)->Ok_0.stop_gap == s.stop_gap,
{
    let next = match s.server {
        ScanServer::Electrum => Scan { history: page, ..s },
        ScanServer::Esplora => Scan {
            history: with_page(s.history, page),
            cursor: if page.len() > 0 {
                Some(page.last().txid)
            } else {
                s.cursor
            },
            pages: (s.pages + 1) as u32,
            ..s
        },
    };
    lemma_same_scan_unknown(
        Scan {
            empty_run: 0,
            last_external: if s.change {
                s.last_external
            } else {
                Some(s.index)
            },
            last_internal: if s.change {
                Some(s.index)
            } else {
                s.last_internal
            },
            taken: 0,
            phase: ScanPhase::Txs,
            ..next
        },
    );
}

/// A scan keeps its server and its gap.
proof fn lemma_same_scan_tx(s: Scan, body: Seq<char>)
    requires
        on_tx(s, body) is Ok,
    ensures
        on_tx(s, body)->Ok_0.server == s.server,
        on_tx(s, body)->Ok_0.stop_gap == s.stop_gap,
{
    let entry = s.history[s.taken as int];
    lemma_same_scan_unknown(
        Scan {
            txs: s.txs.insert(place_for(s.txs, entry.txid, 0), entry),
            bodies: s.bodies.insert(place_for(s.txs, entry.txid, 0), tx_of(body)->Ok_0),
            taken: s.taken + 1,
            ..s
        },
    );
}

/// A scan that came to its end has asked the server for every address of both chains up to a whole
/// gap of unused ones behind the start and behind every address in use, and for no other.
pub proof fn lemma_scan_looks_far_enough(server: ScanServer, gap: u32, log: Seq<Event>)
    requires
        0 < gap <= BDK_FULL_SCAN_MAX_INDEX,
        replay(fresh_scan(server, gap), log) is Some,
        replay(fresh_scan(server, gap), log)->0.phase is Done,
    ensures
        forall|change: bool, index: int|
            0 <= index < gap && index < 100 ==> #[trigger] looked_at(
                fresh_scan(server, gap),
                log,
                change,
                index,
            ),
        forall|change: bool, used: int, index: int|
            #![trigger in_use(fresh_scan(server, gap), log, change, used), looked_at(fresh_scan(server, gap), log, change, index)]
            in_use(fresh_scan(server, gap), log, change, used) && used < index <= used + gap
                && index < 100 ==> looked_at(fresh_scan(server, gap), log, change, index),
        forall|change: bool, index: int| #[trigger]
            looked_at(fresh_scan(server, gap), log, change, index) ==> 0 <= index < 100 && (index
                < gap || exists|used: int|
                index - gap <= used < index && #[trigger] in_use(
                    fresh_scan(server, gap),
                    log,
                    change,
                    used,
                )),
{
    lemma_traced(server, gap, log);
    let start = fresh_scan(server, gap);
    lemma_whole_chain(start, log, false, gap as int);
    lemma_whole_chain(start, log, true, gap as int);
    assert forall|change: bool, index: int| 0 <= index < gap && index < 100 implies #[trigger]
        looked_at(start, log, change, index) by {
        if change {
            assert(looked_at(start, log, true, index));
        } else {
            assert(looked_at(start, log, false, index));
        }
    }
    assert forall|change: bool, used: int, index: int|
        #![trigger in_use(start, log, change, used), looked_at(start, log, change, index)]
        in_use(start, log, change, used) && used < index <= used + gap && index < 100 implies
        looked_at(start, log, change, index) by {
        if change {
            assert(in_use(start, log, true, used));
            assert(looked_at(start, log, true, index));
        } else {
            assert(in_use(start, log, false, used));
            assert(looked_at(start, log, false, index));
        }
    }
}

/// The last addresses in use that a scan comes to are the last ones of which the server had
/// history.
pub proof fn lemma_scan_finds_last_in_use(server: ScanServer, gap: u32, log: Seq<Event>)
    requires
        0 < gap <= BDK_FULL_SCAN_MAX_INDEX,
        replay(fresh_scan(server, gap), log) is Some,
        replay(fresh_scan(server, gap), log)->0.phase is Done,
    ensures
        ({
            let start = fresh_scan(server, gap);
            let end = replay(start, log)->0;
            &&& end.last_external is None ==> forall|index: int| !#[trigger]
                in_use(start, log, false, index)
            &&& end.last_internal is None ==> forall|index: int| !#[trigger]
                in_use(start, log, true, index)
            &&& (end.last_external matches Some(last) ==> in_use(start, log, false, last as int)
                && forall|index: int| #[trigger]
                in_use(start, log, false, index) ==> index <= last)
            &&& (end.last_internal matches Some(last) ==> in_use(start, log, true, last as int)
                && forall|index: int| #[trigger] in_use(start, log, true, index) ==> index <= last)
        }),
{
    lemma_traced(server, gap, log);
}

/// Every transaction that a reply named is among those that a scan comes to, and every one of those
/// was named so. With an Electrum server it stands in the lowest block that was named.
pub proof fn lemma_scan_finds_all_txs(server: ScanServer, gap: u32, log: Seq<Event>)
    requires
        0 < gap <= BDK_FULL_SCAN_MAX_INDEX,
        replay(fresh_scan(server, gap), log) is Some,
        replay(fresh_scan(server, gap), log)->0.phase is Done,
    ensures
        ({
            let txs = replay(fresh_scan(server, gap), log)->0.txs;
            &&& forall|sight: Sight| #[trigger]
                told(log, sight) ==> exists|j: int|
                    0 <= j < txs.len() && (#[trigger] txs[j]).txid == sight.txid && (server
                        is Electrum ==> as_good(txs[j].observation, sight.observation))
            &&& forall|j: int| 0 <= j < txs.len() ==> told(log, #[trigger] txs[j])
        }),
{
    lemma_traced(server, gap, log);
    let txs = replay(fresh_scan(server, gap), log)->0.txs;
    assert forall|sight: Sight| #[trigger] told(log, sight) implies exists|j: int|
        0 <= j < txs.len() && (#[trigger] txs[j]).txid == sight.txid && (server is Electrum
            ==> as_good(txs[j].observation, sight.observation)) by {
        assert(covers(txs, 0, sight, server is Electrum));
        reveal(covers);
    }
}

/// Scans the chain: asks for what the scan needs until it needs nothing more.
pub fn run_scan<
    H: Fn(&str, &Vec<u8>, Option<&str>) -> HistoryReply,
    T: Fn(&str) -> TxReply,
>(wallet: &BdkBip84Wallet, scan: FullScan, history: &H, tx: &T) -> (r: Result<
    FullScan,
    WalletError,
>)
    requires
        wallet.wf(),
        sound(scan@),
        forall|address: &str, script: &Vec<u8>, cursor: Option<&str>| #[trigger]
            call_requires(*history, (address, script, cursor)),
        forall|txid: &str| #[trigger] call_requires(*tx, (txid,)),
    ensures
        scan_outcome(*wallet, *history, *tx, scan@, r),
{
    let ghost start = scan@;
    let mut state = scan;
    let ghost mut log: Seq<Event> = Seq::empty();
    loop
        invariant
            start == scan@,
            wallet.wf(),
            sound(state@),
            forall|address: &str, script: &Vec<u8>, cursor: Option<&str>| #[trigger]
                call_requires(*history, (address, script, cursor)),
            forall|txid: &str| #[trigger] call_requires(*tx, (txid,)),
            replay(start, log) == Some(state@),
            answered(*wallet, *history, *tx, start, log),
        decreases
            (if state@.phase is Done {
                0int
            } else if state@.change {
                1
            } else {
                2
            }),
            BDK_FULL_SCAN_MAX_INDEX - state@.index,
            (if state@.phase is History {
                ESPLORA_MAX_TX_PAGES - state@.pages
            } else {
                0
            }),
            state@.history.len() - state@.taken,
    {
        let ghost before = state@;
        let ghost so_far = log;
        assert(may_end(*wallet, *history, *tx, start, before));
        match state.next() {
            ScanAction::Done => {
                return Ok(state);
            },
            ScanAction::History { change, index, cursor } => {
                let address = if change {
                    wallet.peek_change_address(index)
                } else {
                    wallet.peek_receive_address(index)
                };
                let script = if change {
                    wallet.change_script_pubkey(index)
                } else {
                    wallet.receive_script_pubkey(index)
                };
                let reply = (*history)(address.as_str(), &script, borrowed(&cursor));
                assert(may_history(*wallet, *history, action_of(before), reply));
                match reply {
                    HistoryReply::Failed(fault, why) => {
                        let e = state.history_failed(fault, why.as_str());
                        assert(may_fail(*wallet, *history, *tx, before, e->Onchain_0@));
                        return Err(e);
                    },
                    HistoryReply::Entries(entries) => {
                        let ghost page = entries_view(entries@);
                        let ghost event = Event::History(page);
                        assert(may_answer(*wallet, *history, *tx, before, event));
                        match state.take_history(entries) {
                            Ok(()) => {
                                proof {
                                    lemma_on_history(before, page);
                                    log = so_far.push(event);
                                    assert(log.drop_last() =~= so_far);
                                }
                            },
                            Err(e) => {
                                assert(step(before, event) == Err::<Scan, Seq<char>>(
                                    e->Onchain_0@,
                                ));
                                return Err(e);
                            },
                        }
                    },
                }
            },
            ScanAction::Tx { txid } => {
                let reply = (*tx)(txid.as_str());
                assert(may_tx(*tx, action_of(before), reply));
                match reply {
                    TxReply::Failed(fault, why) => {
                        let e = state.tx_failed(fault, why.as_str());
                        assert(may_fail(*wallet, *history, *tx, before, e->Onchain_0@));
                        return Err(e);
                    },
                    TxReply::Hex(hex) => {
                        let ghost event = Event::Tx(hex@);
                        assert(may_answer(*wallet, *history, *tx, before, event));
                        match state.take_tx(hex.as_str()) {
                            Ok(()) => {
                                proof {
                                    lemma_on_tx(before, hex@);
                                    log = so_far.push(event);
                                    assert(log.drop_last() =~= so_far);
                                }
                            },
                            Err(e) => {
                                assert(step(before, event) == Err::<Scan, Seq<char>>(
                                    e->Onchain_0@,
                                ));
                                return Err(e);
                            },
                        }
                    },
                }
            },
        }
    }
}

/// The height of the tip in a reply, or what is wrong with it.
pub open spec fn tip_in(server: ScanServer, reply: TipReply) -> Result<u32, Seq<char>> {
    match reply {
        TipReply::NoReply(why) => match server {
            ScanServer::Esplora => Err(
                "bdk Esplora full_scan tip height transport error: "@ + why@,
            ),
            ScanServer::Electrum => Err(
                "bdk Electrum full_scan headers.subscribe transport error: "@ + why@,
            ),
        },
        TipReply::Unreadable(body) => match server {
            ScanServer::Esplora => Err(
                "bdk Esplora full_scan tip height unparseable: "@ + debug_quoted(
                    start_of(body@, 40),
                ),
            ),
            ScanServer::Electrum => Err(
                "bdk Electrum full_scan tip height unparseable: "@ + body@,
            ),
        },
        TipReply::Height(tip) => if tip == 0 {
            Err("bdk full_scan tip_height must be > 0 (genesis reserved)"@)
        } else if tip > u32::MAX {
            Err("bdk full_scan tip_height "@ + decimal(tip as nat) + " exceeds u32"@)
        } else {
            Ok(tip as u32)
        },
    }
}

/// The height of the tip in a reply.
pub fn tip_from_reply(server: ScanServer, reply: &TipReply) -> (r: Result<u32, WalletError>)
    ensures
        match tip_in(server, *reply) {
            Ok(tip) => r == Ok::<u32, WalletError>(tip),
            Err(message) => onchain_error(r, message),
        },
{
    match reply {
        TipReply::Height(tip) => tip_height_to_u32(*tip),
        TipReply::NoReply(why) => {
            let mut message = match server {
                ScanServer::Esplora => "bdk Esplora full_scan tip height transport error: ".to_owned(),
                ScanServer::Electrum => {
                    "bdk Electrum full_scan headers.subscribe transport error: ".to_owned()
                },
            };
            message.append(why.as_str());
            Err(WalletError::Onchain(message))
        },
        TipReply::Unreadable(body) => {
            let message = match server {
                ScanServer::Esplora => {
                    let mut message = "bdk Esplora full_scan tip height unparseable: ".to_owned();
                    message.append(debug_text(text_start(body.as_str(), 40)).as_str());
                    message
                },
                ScanServer::Electrum => {
                    let mut message = "bdk Electrum full_scan tip height unparseable: ".to_owned();
                    message.append(body.as_str());
                    message
                },
            };
            Err(WalletError::Onchain(message))
        },
    }
}

/// The number of unused addresses in a row after which a scan ends.
pub open spec fn used_gap(stop_gap: u32) -> u32 {
    if stop_gap < BDK_FULL_SCAN_MAX_INDEX {
        stop_gap
    } else {
        BDK_FULL_SCAN_MAX_INDEX
    }
}

/// The update that a scan to its end leads to.
pub open spec fn update_outcome(
    wallet: BdkBip84Wallet,
    tip: u32,
    scanned: Result<FullScan, WalletError>,
    r: Result<bdk_wallet::Update, WalletError>,
) -> bool {
    match scanned {
        Err(e) => r == Err::<bdk_wallet::Update, WalletError>(e),
        Ok(scan) => match height_fault(scan@.txs, tip) {
            Some(message) => onchain_error(r, message),
            None => r matches Ok(update) && tells_of(
                &update,
                wallet_network(&wallet.bdk()),
                tip,
                scan@.txs,
                scan@.bodies,
                scan@.last_external,
                scan@.last_internal,
            ),
        },
    }
}

/// Whether a scan below this tip may lead to this update.
pub open spec fn may_update<
    H: Fn(&str, &Vec<u8>, Option<&str>) -> HistoryReply,
    T: Fn(&str) -> TxReply,
>(
    wallet: BdkBip84Wallet,
    history: H,
    tx: T,
    start: Scan,
    tip: u32,
    r: Result<bdk_wallet::Update, WalletError>,
) -> bool {
    exists|scanned: Result<FullScan, WalletError>| #[trigger]
        scan_outcome(wallet, history, tx, start, scanned) && update_outcome(
            wallet,
            tip,
            scanned,
            r,
        )
}

/// Whether a source may return this: it asks for the tip first, then scans.
pub open spec fn source_outcome<
    P: Fn() -> TipReply,
    H: Fn(&str, &Vec<u8>, Option<&str>) -> HistoryReply,
    T: Fn(&str) -> TxReply,
>(
    server: ScanServer,
    stop_gap: u32,
    wallet: BdkBip84Wallet,
    tip: P,
    history: H,
    tx: T,
    r: Result<bdk_wallet::Update, WalletError>,
) -> bool {
    if stop_gap == 0 {
        onchain_error(r, "bdk full_scan stop_gap must be > 0"@)
    } else {
        exists|reply: TipReply| #[trigger]
            call_ensures(tip, (), reply) && match tip_in(server, reply) {
                Err(message) => onchain_error(r, message),
                Ok(height) => may_update(
                    wallet,
                    history,
                    tx,
                    fresh_scan(server, used_gap(stop_gap)),
                    height,
                    r,
                ),
            }
    }
}

/// Asks for the tip and scans the chain.
fn scan_for_update<
    P: Fn() -> TipReply,
    H: Fn(&str, &Vec<u8>, Option<&str>) -> HistoryReply,
    T: Fn(&str) -> TxReply,
>(
    server: ScanServer,
    stop_gap: u32,
    wallet: &BdkBip84Wallet,
    tip: &P,
    history: &H,
    tx: &T,
) -> (r: Result<bdk_wallet::Update, WalletError>)
    requires
        wallet.wf(),
        call_requires(*tip, ()),
        forall|address: &str, script: &Vec<u8>, cursor: Option<&str>| #[trigger]
            call_requires(*history, (address, script, cursor)),
        forall|txid: &str| #[trigger] call_requires(*tx, (txid,)),
    ensures
        source_outcome(server, stop_gap, *wallet, *tip, *history, *tx, r),
{
    let scan = match FullScan::new(server, stop_gap) {
        Ok(scan) => scan,
        Err(e) => return Err(e),
    };
    let reply = (*tip)();
    assert(call_ensures(*tip, (), reply));
    let height: u32 = match tip_from_reply(server, &reply) {
        Ok(height) => height,
        Err(e) => return Err(e),
    };
    let ghost start = scan@;
    let scanned = run_scan(wallet, scan, history, tx);
    assert(scan_outcome(*wallet, *history, *tx, start, scanned));
    let ghost found = scanned;
    let r = match scanned {
        Ok(done) => done.finish(wallet.network(), height),
        Err(e) => Err(e),
    };
    assert(update_outcome(*wallet, height, found, r));
    assert(may_update(*wallet, *history, *tx, start, height, r));
    r
}

/// Scan with an Esplora server, whose history comes in pages.
pub struct EsploraBdkUpdateSource<
    P: Fn() -> TipReply,
    H: Fn(&str, &Vec<u8>, Option<&str>) -> HistoryReply,
    T: Fn(&str) -> TxReply,
> {
    tip: P,
    history: H,
    tx: T,
    stop_gap: u32,
}

impl<
    P: Fn() -> TipReply,
    H: Fn(&str, &Vec<u8>, Option<&str>) -> HistoryReply,
    T: Fn(&str) -> TxReply,
> EsploraBdkUpdateSource<P, H, T> {
    #[verifier::type_invariant]
    closed spec fn callable(&self) -> bool {
        &&& call_requires(self.tip, ())
        &&& forall|address: &str, script: &Vec<u8>, cursor: Option<&str>| #[trigger]
            call_requires(self.history, (address, script, cursor))
        &&& forall|txid: &str| #[trigger] call_requires(self.tx, (txid,))
    }

    /// The way to ask for the height of the tip.
    pub closed spec fn tip_fn(&self) -> P {
        self.tip
    }

    /// The way to ask for the history of an address.
    pub closed spec fn history_fn(&self) -> H {
        self.history
    }

    /// The way to ask for a transaction.
    pub closed spec fn tx_fn(&self) -> T {
        self.tx
    }

    /// Number of unused addresses in a row after which a chain ends.
    pub closed spec fn gap(&self) -> u32 {
        self.stop_gap
    }

    /// A source with the usual number of unused addresses in a row.
    pub fn new(tip: P, history: H, tx: T) -> (source: EsploraBdkUpdateSource<P, H, T>)
        requires
            call_requires(tip, ()),
            forall|address: &str, script: &Vec<u8>, cursor: Option<&str>| #[trigger]
                call_requires(history, (address, script, cursor)),
            forall|txid: &str| #[trigger] call_requires(tx, (txid,)),
        ensures
            source.gap() == BDK_FULL_SCAN_DEFAULT_STOP_GAP,
            source.tip_fn() == tip,
            source.history_fn() == history,
            source.tx_fn() == tx,
    {
        EsploraBdkUpdateSource { tip, history, tx, stop_gap: BDK_FULL_SCAN_DEFAULT_STOP_GAP }
    }

    /// A source with this number of unused addresses in a row; a scan with zero fails.
    pub fn with_stop_gap(tip: P, history: H, tx: T, stop_gap: u32) -> (source:
        EsploraBdkUpdateSource<P, H, T>)
        requires
            call_requires(tip, ()),
            forall|address: &str, script: &Vec<u8>, cursor: Option<&str>| #[trigger]
                call_requires(history, (address, script, cursor)),
            forall|txid: &str| #[trigger] call_requires(tx, (txid,)),
        ensures
            source.gap() == stop_gap,
            source.tip_fn() == tip,
            source.history_fn() == history,
            source.tx_fn() == tx,
    {
        EsploraBdkUpdateSource { tip, history, tx, stop_gap }
    }

    /// Number of unused addresses in a row after which a chain ends.
    pub fn stop_gap(&self) -> (n: u32)
        ensures
            n == self.gap(),
    {
        self.stop_gap
    }
}

impl<
    P: Fn() -> TipReply,
    H: Fn(&str, &Vec<u8>, Option<&str>) -> HistoryReply,
    T: Fn(&str) -> TxReply,
> BdkUpdateSource for EsploraBdkUpdateSource<P, H, T> {
    fn full_scan_update(&self, wallet: &BdkBip84Wallet) -> (r: Result<
        bdk_wallet::Update,
        WalletError,
    >)
        ensures
            source_outcome(
                ScanServer::Esplora,
                self.gap(),
                *wallet,
                self.tip_fn(),
                self.history_fn(),
                self.tx_fn(),
                r,
            ),
    {
        proof {
            use_type_invariant(self);
        }
        scan_for_update(
            ScanServer::Esplora,
            self.stop_gap,
            wallet,
            &self.tip,
            &self.history,
            &self.tx,
        )
    }
}

/// Scan with an Electrum server, whose history comes at once.
pub struct ElectrumBdkUpdateSource<
    P: Fn() -> TipReply,
    H: Fn(&str, &Vec<u8>, Option<&str>) -> HistoryReply,
    T: Fn(&str) -> TxReply,
> {
    tip: P,
    history: H,
    tx: T,
    stop_gap: u32,
}

impl<
    P: Fn() -> TipReply,
    H: Fn(&str, &Vec<u8>, Option<&str>) -> HistoryReply,
    T: Fn(&str) -> TxReply,
> ElectrumBdkUpdateSource<P, H, T> {
    #[verifier::type_invariant]
    closed spec fn callable(&self) -> bool {
        &&& call_requires(self.tip, ())
        &&& forall|address: &str, script: &Vec<u8>, cursor: Option<&str>| #[trigger]
            call_requires(self.history, (address, script, cursor))
        &&& forall|txid: &str| #[trigger] call_requires(self.tx, (txid,))
    }

    /// The way to ask for the height of the tip.
    pub closed spec fn tip_fn(&self) -> P {
        self.tip
    }

    /// The way to ask for the history of an address.
    pub closed spec fn history_fn(&self) -> H {
        self.history
    }

    /// The way to ask for a transaction.
    pub closed spec fn tx_fn(&self) -> T {
        self.tx
    }

    /// Number of unused addresses in a row after which a chain ends.
    pub closed spec fn gap(&self) -> u32 {
        self.stop_gap
    }

    /// A source with the usual number of unused addresses in a row.
    pub fn new(tip: P, history: H, tx: T) -> (source: ElectrumBdkUpdateSource<P, H, T>)
        requires
            call_requires(tip, ()),
            forall|address: &str, script: &Vec<u8>, cursor: Option<&str>| #[trigger]
                call_requires(history, (address, script, cursor)),
            forall|txid: &str| #[trigger] call_requires(tx, (txid,)),
        ensures
            source.gap() == BDK_FULL_SCAN_DEFAULT_STOP_GAP,
            source.tip_fn() == tip,
            source.history_fn() == history,
            source.tx_fn() == tx,
    {
        ElectrumBdkUpdateSource { tip, history, tx, stop_gap: BDK_FULL_SCAN_DEFAULT_STOP_GAP }
    }

    /// A source with this number of unused addresses in a row; a scan with zero fails.
    pub fn with_stop_gap(tip: P, history: H, tx: T, stop_gap: u32) -> (source:
        ElectrumBdkUpdateSource<P, H, T>)
        requires
            call_requires(tip, ()),
            forall|address: &str, script: &Vec<u8>, cursor: Option<&str>| #[trigger]
                call_requires(history, (address, script, cursor)),
            forall|txid: &str| #[trigger] call_requires(tx, (txid,)),
        ensures
            source.gap() == stop_gap,
            source.tip_fn() == tip,
            source.history_fn() == history,
            source.tx_fn() == tx,
    {
        ElectrumBdkUpdateSource { tip, history, tx, stop_gap }
    }

    /// Number of unused addresses in a row after which a chain ends.
    pub fn stop_gap(&self) -> (n: u32)
        ensures
            n == self.gap(),
    {
        self.stop_gap
    }
}

impl<
    P: Fn() -> TipReply,
    H: Fn(&str, &Vec<u8>, Option<&str>) -> HistoryReply,
    T: Fn(&str) -> TxReply,
> BdkUpdateSource for ElectrumBdkUpdateSource<P, H, T> {
    fn full_scan_update(&self, wallet: &BdkBip84Wallet) -> (r: Result<
        bdk_wallet::Update,
        WalletError,
    >)
        ensures
            source_outcome(
                ScanServer::Electrum,
                self.gap(),
                *wallet,
                self.tip_fn(),
                self.history_fn(),
                self.tx_fn(),
                r,
            ),
    {
        proof {
            use_type_invariant(self);
        }
        scan_for_update(
            ScanServer::Electrum,
            self.stop_gap,
            wallet,
            &self.tip,
            &self.history,
            &self.tx,
        )
    }
}

/// A full page of an Esplora server is followed by a request for the page behind its last
/// transaction, at the same address; behind any other page the address is done, and the next one is
/// asked for from its start.
pub proof fn lemma_pages(s: Scan, page: Seq<Sight>)
    requires
        sound(s),
        s.phase is History,
        on_history(s, page) is Ok,
    ensures
        ({
            let next = on_history(s, page)->Ok_0;
            if s.server is Esplora && page.len() >= 25 {
                action_of(next) == (Action::History {
                    change: s.change,
                    index: s.index,
                    cursor: Some(page.last().txid),
                })
            } else {
                next.phase is History ==> (next.change != s.change || next.index == s.index + 1)
                    && action_of(next) == (Action::History {
                    change: next.change,
                    index: next.index,
                    cursor: None,
                })
            }
        }),
{
    if !(s.server is Esplora && page.len() >= 25) {
        let next = match s.server {
            ScanServer::Electrum => Scan { history: page, ..s },
            ScanServer::Esplora => Scan {
                history: with_page(s.history, page),
                cursor: if page.len() > 0 {
                    Some(page.last().txid)
                } else {
                    s.cursor
                },
                pages: (s.pages + 1) as u32,
                ..s
            },
        };
        if next.history.len() > 0 {
            lemma_leaves_or_waits(
                Scan {
                    empty_run: 0,
                    last_external: if s.change {
                        s.last_external
                    } else {
                        Some(s.index)
                    },
                    last_internal: if s.change {
                        Some(s.index)
                    } else {
                        s.last_internal
                    },
                    taken: 0,
                    phase: ScanPhase::Txs,
                    ..next
                },
            );
        }
    }
}

/// A scan at the transactions of an address waits for one, or turns to another address from its
/// start.
proof fn lemma_leaves_or_waits(s: Scan)
    requires
        s.phase is Txs,
        s.index < BDK_FULL_SCAN_MAX_INDEX,
    ensures
        to_unknown(s).phase is History ==> to_unknown(s).cursor is None && (to_unknown(s).change
            != s.change || to_unknown(s).index == s.index + 1),
    decreases s.history.len() - s.taken,
{
    if s.taken < s.history.len() {
        if let Some(place) = place_of(s.txs, s.history[s.taken as int].txid, 0) {
            lemma_leaves_or_waits(
                Scan {
                    txs: seen_again(s.txs, place, s.history[s.taken as int].observation),
                    taken: s.taken + 1,
                    ..s
                },
            );
        }
    }
}

/// What a scan comes to is what the server said: every reply that it took was the answer to its own
/// question at that time, from the first to the last, and it asked until nothing was left.
pub proof fn lemma_scan_is_answered<
    H: Fn(&str, &Vec<u8>, Option<&str>) -> HistoryReply,
    T: Fn(&str) -> TxReply,
>(wallet: BdkBip84Wallet, history: H, tx: T, start: Scan, scan: FullScan)
    requires
        scan_outcome(wallet, history, tx, start, Ok(scan)),
    ensures
        scan@.phase is Done,
        exists|log: Seq<Event>|
            #![trigger replay(start, log)]
            replay(start, log) == Some(scan@) && forall|k: int|
                0 <= k < log.len() ==> replay(start, #[trigger] log.take(k)) is Some && may_answer(
                    wallet,
                    history,
                    tx,
                    replay(start, log.take(k))->0,
                    log[k],
                ),
{
    let log = choose|log: Seq<Event>| #[trigger]
        answered(wallet, history, tx, start, log) && replay(start, log) == Some(scan@);
    lemma_each_was_answered(wallet, history, tx, start, log);
}

proof fn lemma_each_was_answered<
    H: Fn(&str, &Vec<u8>, Option<&str>) -> HistoryReply,
    T: Fn(&str) -> TxReply,
>(wallet: BdkBip84Wallet, history: H, tx: T, start: Scan, log: Seq<Event>)
    requires
        answered(wallet, history, tx, start, log),
    ensures
        forall|k: int|
            0 <= k < log.len() ==> replay(start, #[trigger] log.take(k)) is Some && may_answer(
                wallet,
                history,
                tx,
                replay(start, log.take(k))->0,
                log[k],
            ),
    decreases log.len(),
{
    if log.len() > 0 {
        let front = log.drop_last();
        lemma_each_was_answered(wallet, history, tx, start, front);
        assert forall|k: int| 0 <= k < log.len() implies replay(start, #[trigger] log.take(k))
            is Some && may_answer(
            wallet,
            history,
            tx,
            replay(start, log.take(k))->0,
            log[k],
        ) by {
            if k < front.len() {
                assert(front.take(k) =~= log.take(k));
                assert(front[k] == log[k]);
            } else {
                assert(log.take(k) =~= front);
            }
        }
    }
}

/// History is asked for by the address and the script of the index and the chain at which the scan
/// stands: receive addresses are those of the first descriptor, change addresses those of the
/// second. Where pages came before, it is asked for from the last transaction on.
pub proof fn lemma_history_is_of_own_address<
    H: Fn(&str, &Vec<u8>, Option<&str>) -> HistoryReply,
    T: Fn(&str) -> TxReply,
>(wallet: BdkBip84Wallet, history: H, tx: T, s: Scan, page: Seq<Sight>)
    requires
        may_answer(wallet, history, tx, s, Event::History(page)),
        s.phase is History,
    ensures
        exists|
            address: &str,
            script: &Vec<u8>,
            cursor: Option<&str>,
            entries: Vec<HistoryEntry>,
        |
            #![trigger call_ensures(
                history,
                (address, script, cursor),
                HistoryReply::Entries(entries),
            )]
            {
                let descriptor = wallet_made_with(&wallet.bdk())[if s.change {
                    1int
                } else {
                    0int
                }];
                &&& script@ == descriptor_script(descriptor, s.index)
                &&& script_address(script@, wallet_network(&wallet.bdk())) == Ok::<
                    Seq<char>,
                    Seq<char>,
                >(address@)
                &&& str_view(cursor) == s.cursor
                &&& page == entries_view(entries@)
                &&& call_ensures(
                    history,
                    (address, script, cursor),
                    HistoryReply::Entries(entries),
                )
            },
{
    let entries = choose|entries: Vec<HistoryEntry>|
        page == entries_view(entries@) && #[trigger] may_history(
            wallet,
            history,
            action_of(s),
            HistoryReply::Entries(entries),
        );
    let action = action_of(s);
    let reply = HistoryReply::Entries(entries);
    let (address, script, cursor) = choose|address: &str, script: &Vec<u8>, cursor: Option<&str>|
        #![trigger call_ensures(history, (address, script, cursor), reply)]
        action == (Action::History {
            change: action->change,
            index: action->index,
            cursor: str_view(cursor),
        }) && (chain_address(&wallet.bdk(), action->change, action->index) matches Ok(a) && a
            == address@) && script@ == descriptor_script(
            chain_descriptor(&wallet.bdk(), action->change),
            action->index,
        ) && call_ensures(history, (address, script, cursor), reply);
    assert(call_ensures(history, (address, script, cursor), HistoryReply::Entries(entries)));
}

/// A scan waits for as many unused addresses in a row as it was told to, as far as there are so
/// many addresses that are ever looked at.
pub proof fn lemma_used_gap(stop_gap: u32)
    ensures
        stop_gap <= 100 ==> used_gap(stop_gap) == stop_gap,
        stop_gap > 100 ==> used_gap(stop_gap) == 100,
{
}

/// The height of the tip is the one in the reply, where it is one.
pub proof fn lemma_tip(server: ScanServer, reply: TipReply)
    ensures
        tip_in(server, reply) matches Ok(tip) ==> reply == TipReply::Height(tip as u64) && tip > 0,
        reply matches TipReply::Height(tip) ==> 0 < tip <= u32::MAX ==> tip_in(server, reply)
            is Ok,
{
}

} // verus!
