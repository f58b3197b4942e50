//! Synchronization of a BIP-84 wallet that `bdk_wallet` keeps: what a scan of the chain found, the
//! update that tells the wallet, and the coins that the wallet then holds.

use vstd::prelude::*;
use vstd::string::StringExecFns;

use crate::error::{onchain_error, WalletError};
use crate::text::{decimal, decimal_text, has_part, lemma_part_between, texts};
use crate::wallet_types::{WalletSyncSnapshot, MAX_ADDRESS_GAP};

verus! {

/// Whether this build can synchronize with `bdk_wallet`.
pub const BDK_SYNC_AVAILABLE: bool = true;

/// Number of addresses of one chain that a payment is ever signed for.
pub const BDK_PRODUCT_SIGN_GAP_CAP: u32 = MAX_ADDRESS_GAP;

/// Number of unused addresses in a row after which a scan ends.
pub const BDK_FULL_SCAN_DEFAULT_STOP_GAP: u32 = 20;

/// Number of addresses of one chain that a scan ever looks at.
pub const BDK_FULL_SCAN_MAX_INDEX: u32 = BDK_PRODUCT_SIGN_GAP_CAP;

/// Where a transaction was seen.
#[derive(Clone, Copy, PartialEq, Eq, Structural, Debug)]
pub enum BdkTxObservation {
    /// In the block of this height, above zero.
    Confirmed { height: u32 },
    /// Outside of blocks.
    Unconfirmed,
}

/// Where a transaction was seen by the height that an Esplora server gives.
pub open spec fn esplora_observation(block_height: Option<u32>) -> BdkTxObservation {
    match block_height {
        Some(height) => if height > 0 {
            BdkTxObservation::Confirmed { height }
        } else {
            BdkTxObservation::Unconfirmed
        },
        None => BdkTxObservation::Unconfirmed,
    }
}

/// Where a transaction was seen by the height that an Esplora server gives.
pub fn observation_from_esplora_height(block_height: Option<u32>) -> (o: BdkTxObservation)
    ensures
        o == esplora_observation(block_height),
{
    match block_height {
        Some(height) => if height > 0 {
            BdkTxObservation::Confirmed { height }
        } else {
            BdkTxObservation::Unconfirmed
        },
        None => BdkTxObservation::Unconfirmed,
    }
}

/// Where a transaction was seen by the height that an Electrum server gives: zero or less outside
/// of blocks.
pub open spec fn electrum_observation(height: i64) -> BdkTxObservation {
    if 0 < height <= u32::MAX {
        BdkTxObservation::Confirmed { height: height as u32 }
    } else {
        BdkTxObservation::Unconfirmed
    }
}

/// Where a transaction was seen by the height that an Electrum server gives.
pub fn observation_from_electrum_height(height: i64) -> (o: BdkTxObservation)
    ensures
        o == electrum_observation(height),
{
    if 0 < height && height <= u32::MAX as i64 {
        BdkTxObservation::Confirmed { height: height as u32 }
    } else {
        BdkTxObservation::Unconfirmed
    }
}

/// Two sights of one transaction: in a block where one of them was, in the lower one where both
/// were.
pub open spec fn merged(a: BdkTxObservation, b: BdkTxObservation) -> BdkTxObservation {
    match (a, b) {
        (
            BdkTxObservation::Confirmed { height: h },
            BdkTxObservation::Confirmed { height: k },
        ) => BdkTxObservation::Confirmed {
            height: if h <= k {
                h
            } else {
                k
            },
        },
        (BdkTxObservation::Confirmed { height }, BdkTxObservation::Unconfirmed) => a,
        (BdkTxObservation::Unconfirmed, _) => b,
    }
}

/// Two sights of one transaction.
pub fn merge_observation(a: BdkTxObservation, b: BdkTxObservation) -> (o: BdkTxObservation)
    ensures
        o == merged(a, b),
{
    match (a, b) {
        (
            BdkTxObservation::Confirmed { height: h },
            BdkTxObservation::Confirmed { height: k },
        ) => BdkTxObservation::Confirmed {
            height: if h <= k {
                h
            } else {
                k
            },
        },
        (BdkTxObservation::Confirmed { height: _ }, BdkTxObservation::Unconfirmed) => a,
        (BdkTxObservation::Unconfirmed, _) => b,
    }
}

/// The order of sights does not matter, a sight outside of blocks adds nothing, and a transaction
/// that was seen in a block stays in one.
pub proof fn lemma_merge_observation(
    a: BdkTxObservation,
    b: BdkTxObservation,
    c: BdkTxObservation,
)
    ensures
        merged(a, b) == merged(b, a),
        merged(merged(a, b), c) == merged(a, merged(b, c)),
        merged(a, a) == a,
        merged(a, BdkTxObservation::Unconfirmed) == a,
        merged(a, b) is Confirmed <==> a is Confirmed || b is Confirmed,
        merged(a, b) == a || merged(a, b) == b,
        a is Confirmed && b is Confirmed ==> merged(a, b)->height <= a->height && merged(
            a,
            b,
        )->height <= b->height,
{
}

/// A height that a server gives is the height of the block, where it is one: above zero. Both kinds
/// of server mean the same by it.
pub proof fn lemma_heights_of_servers(height: u32, other: i64)
    ensures
        height > 0 ==> esplora_observation(Some(height)) == (BdkTxObservation::Confirmed {
            height,
        }),
        esplora_observation(Some(0)) is Unconfirmed,
        esplora_observation(None) is Unconfirmed,
        electrum_observation(height as i64) == esplora_observation(Some(height)),
        other <= 0 ==> electrum_observation(other) is Unconfirmed,
{
}

/// The number of unused addresses in a row after which a scan ends: not zero, and no more than are
/// ever looked at.
pub fn normalize_stop_gap(stop_gap: u32) -> (r: Result<u32, WalletError>)
    ensures
        if stop_gap == 0 {
            onchain_error(r, "bdk full_scan stop_gap must be > 0"@)
        } else if stop_gap < BDK_FULL_SCAN_MAX_INDEX {
            r == Ok::<u32, WalletError>(stop_gap)
        } else {
            r == Ok::<u32, WalletError>(BDK_FULL_SCAN_MAX_INDEX)
        },
{
    if stop_gap == 0 {
        return Err(WalletError::Onchain("bdk full_scan stop_gap must be > 0".to_owned()));
    }
    if stop_gap < BDK_FULL_SCAN_MAX_INDEX {
        Ok(stop_gap)
    } else {
        Ok(BDK_FULL_SCAN_MAX_INDEX)
    }
}

/// The height of the tip, as blocks count it.
pub fn tip_height_to_u32(tip: u64) -> (r: Result<u32, WalletError>)
    ensures
        if tip == 0 {
            onchain_error(r, "bdk full_scan tip_height must be > 0 (genesis reserved)"@)
        } else if tip > u32::MAX {
            onchain_error(
                r,
                "bdk full_scan tip_height "@ + decimal(tip as nat) + " exceeds u32"@,
            )
        } else {
            r == Ok::<u32, WalletError>(tip as u32)
        },
{
    if tip == 0 {
        return Err(
            WalletError::Onchain(
                "bdk full_scan tip_height must be > 0 (genesis reserved)".to_owned(),
            ),
        );
    }
    if tip > u32::MAX as u64 {
        let mut message = "bdk full_scan tip_height ".to_owned();
        message.append(decimal_text(tip).as_str());
        message.append(" exceeds u32");
        return Err(WalletError::Onchain(message));
    }
    Ok(tip as u32)
}

/// The hash that stands for the block of a height: the height in four bytes, the lowest first, and
/// a mark behind it.
pub open spec fn stand_in_hash(height: u32) -> Seq<u8> {
    seq![
        (height % 256) as u8,
        (height / 256 % 256) as u8,
        (height / 65536 % 256) as u8,
        (height / 16777216) as u8,
        0xbd,
        0x6b,
    ] + Seq::new(26, |i: int| 0u8)
}

/// The hash that stands for the block of a height.
pub fn synthetic_block_hash(height: u32) -> (hash: [u8; 32])
    ensures
        hash@ == stand_in_hash(height),
{
    let mut hash: [u8; 32] = [0u8;32];
    hash[0] = (height % 256) as u8;
    hash[1] = (height / 256 % 256) as u8;
    hash[2] = (height / 65536 % 256) as u8;
    hash[3] = (height / 16777216) as u8;
    hash[4] = 0xbd;
    hash[5] = 0x6b;
    assert(hash@ =~= stand_in_hash(height));
    hash
}

/// Different heights have different stand-ins.
pub proof fn lemma_stand_ins_differ(a: u32, b: u32)
    requires
        stand_in_hash(a) == stand_in_hash(b),
    ensures
        a == b,
{
    let x = stand_in_hash(a);
    let y = stand_in_hash(b);
    assert(x[0] == (a % 256) as u8 && y[0] == (b % 256) as u8);
    assert(x[1] == (a / 256 % 256) as u8 && y[1] == (b / 256 % 256) as u8);
    assert(x[2] == (a / 65536 % 256) as u8 && y[2] == (b / 65536 % 256) as u8);
    assert(x[3] == (a / 16777216) as u8 && y[3] == (b / 16777216) as u8);
    lemma_height_bytes(a);
    lemma_height_bytes(b);
}

/// A height in its four bytes.
proof fn lemma_height_bytes(n: u32)
    ensures
        n == n % 256 + 256 * (n / 256 % 256) + 65536 * (n / 65536 % 256) + 16777216 * (n
            / 16777216),
        n / 16777216 < 256,
{
    let second = n / 256;
    let third = second / 256;
    assert(third == n / 65536);
    assert(third / 256 == n / 16777216);
}

/// What a person is told of a synchronization.
pub open spec fn notices(snap: WalletSyncSnapshot) -> Seq<Seq<char>> {
    let first =
        "bdk_wallet auto-sync (spent-tx history + keychain index); not gap-limit ChainSource."@;
    if snap.extended_receive_by > 0 || snap.extended_change_by > 0 {
        seq![
            first,
            "BDK keychain advanced during sync (receive +"@ + decimal(
                snap.extended_receive_by as nat,
            ) + ", change +"@ + decimal(snap.extended_change_by as nat) + "; windows receive="@
                + decimal(snap.receive_gap as nat) + ", change="@ + decimal(snap.change_gap as nat)
                + ")."@,
        ]
    } else {
        seq![first]
    }
}

/// Where the synchronization found addresses in use beyond the known ones, a line says how many on
/// each chain and how far the wallet now looks; else there is no such line.
pub proof fn lemma_notices(snap: WalletSyncSnapshot)
    ensures
        notices(snap).len() == 2 <==> snap.extended_receive_by >= 1 || snap.extended_change_by >= 1,
        notices(snap).len() == 1 || notices(snap).len() == 2,
        notices(snap).len() == 2 ==> {
            let line = notices(snap)[1];
            &&& has_part(line, "receive +"@ + decimal(snap.extended_receive_by as nat))
            &&& has_part(line, "change +"@ + decimal(snap.extended_change_by as nat))
            &&& has_part(line, "receive="@ + decimal(snap.receive_gap as nat))
            &&& has_part(line, "change="@ + decimal(snap.change_gap as nat))
        },
{
    if notices(snap).len() == 2 {
        let line = notices(snap)[1];
        let a = decimal(snap.extended_receive_by as nat);
        let b = decimal(snap.extended_change_by as nat);
        let c = decimal(snap.receive_gap as nat);
        let d = decimal(snap.change_gap as nat);
        reveal_strlit("BDK keychain advanced during sync (receive +");
        reveal_strlit("BDK keychain advanced during sync (");
        reveal_strlit("receive +");
        reveal_strlit(", change +");
        reveal_strlit("change +");
        reveal_strlit("; windows receive=");
        reveal_strlit("; windows ");
        reveal_strlit("receive=");
        reveal_strlit(", change=");
        reveal_strlit("change=");
        reveal_strlit(", ");
        let first = "BDK keychain advanced during sync ("@;
        let all = "BDK keychain advanced during sync (receive +"@ + a + ", change +"@ + b
            + "; windows receive="@ + c + ", change="@ + d + ")."@;
        assert(line == all);
        assert("BDK keychain advanced during sync (receive +"@ =~= first + "receive +"@);
        assert(", change +"@ =~= ", "@ + "change +"@);
        assert("; windows receive="@ =~= "; windows "@ + "receive="@);
        assert(", change="@ =~= ", "@ + "change="@);
        let p1 = "receive +"@ + a;
        let p2 = "change +"@ + b;
        let p3 = "receive="@ + c;
        let p4 = "change="@ + d;
        let r4 = ")."@;
        let r3 = ", "@ + p4 + r4;
        let r2 = "; windows "@ + p3 + r3;
        let r1 = ", "@ + p2 + r2;
        assert(all =~= first + p1 + r1);
        lemma_part_between(first, p1, r1);
        assert(all =~= (first + p1 + ", "@) + p2 + r2);
        lemma_part_between(first + p1 + ", "@, p2, r2);
        assert(all =~= (first + p1 + ", "@ + p2 + "; windows "@) + p3 + r3);
        lemma_part_between(first + p1 + ", "@ + p2 + "; windows "@, p3, r3);
        assert(all =~= (first + p1 + ", "@ + p2 + "; windows "@ + p3 + ", "@) + p4 + r4);
        lemma_part_between(first + p1 + ", "@ + p2 + "; windows "@ + p3 + ", "@, p4, r4);
    }
}

/// What a person is told of a synchronization.
pub fn bdk_sync_notice_lines(snap: &WalletSyncSnapshot) -> (lines: Vec<String>)
    ensures
        texts(lines@) == notices(*snap),
{
    let mut lines: Vec<String> = Vec::new();
    lines.push(
        "bdk_wallet auto-sync (spent-tx history + keychain index); not gap-limit ChainSource.".to_owned(),
    );
    if snap.extended_receive_by > 0 || snap.extended_change_by > 0 {
        let mut line = "BDK keychain advanced during sync (receive +".to_owned();
        line.append(decimal_text(snap.extended_receive_by as u64).as_str());
        line.append(", change +");
        line.append(decimal_text(snap.extended_change_by as u64).as_str());
        line.append("; windows receive=");
        line.append(decimal_text(snap.receive_gap as u64).as_str());
        line.append(", change=");
        line.append(decimal_text(snap.change_gap as u64).as_str());
        line.append(").");
        lines.push(line);
    }
    assert(texts(lines@) =~= notices(*snap));
    lines
}

/// Why no payment was prepared: before the wallet was synchronized, or after.
#[derive(PartialEq, Eq, Debug)]
pub enum BdkSyncSpendFailure {
    Sync(WalletError),
    AfterSync { sync: WalletSyncSnapshot, cause: WalletError },
}

impl BdkSyncSpendFailure {
    /// The reason.
    pub open spec fn reason(self) -> WalletError {
        match self {
            BdkSyncSpendFailure::Sync(e) => e,
            BdkSyncSpendFailure::AfterSync { sync, cause } => cause,
        }
    }

    /// The reason.
    pub fn cause(&self) -> (e: &WalletError)
        ensures
            *e == self.reason(),
    {
        match self {
            BdkSyncSpendFailure::Sync(e) => e,
            BdkSyncSpendFailure::AfterSync { sync: _, cause } => cause,
        }
    }

    /// What the synchronization found, where there was one.
    pub fn sync_snapshot(&self) -> (snap: Option<&WalletSyncSnapshot>)
        ensures
            match *self {
                BdkSyncSpendFailure::Sync(_) => snap is None,
                BdkSyncSpendFailure::AfterSync { sync, cause } => snap == Some(&sync),
            },
    {
        match self {
            BdkSyncSpendFailure::Sync(_) => None,
            BdkSyncSpendFailure::AfterSync { sync, cause: _ } => Some(sync),
        }
    }

    /// What a person is told of the synchronization, where there was one.
    pub open spec fn notices(self) -> Seq<Seq<char>> {
        match self {
            BdkSyncSpendFailure::Sync(_) => Seq::empty(),
            BdkSyncSpendFailure::AfterSync { sync, cause } => notices(sync),
        }
    }

    /// What a person is told of the synchronization, where there was one.
    pub fn notice_lines(&self) -> (lines: Vec<String>)
        ensures
            texts(lines@) == self.notices(),
    {
        match self {
            BdkSyncSpendFailure::Sync(_) => {
                let lines: Vec<String> = Vec::new();
                assert(texts(lines@) =~= Seq::empty());
                lines
            },
            BdkSyncSpendFailure::AfterSync { sync, cause: _ } => bdk_sync_notice_lines(sync),
        }
    }

    /// The reason, and what a person is told of the synchronization.
    pub fn display_lines(&self) -> (lines: Vec<String>)
        ensures
            texts(lines@) == seq![self.reason().message()] + self.notices(),
    {
        let mut lines: Vec<String> = Vec::new();
        lines.push(self.cause().to_string());
        let mut more = self.notice_lines();
        let ghost added = more@;
        lines.append(&mut more);
        assert(texts(lines@) =~= seq![self.reason().message()] + texts(added));
        lines
    }

    /// Whether the wallet had been synchronized.
    pub fn is_after_sync(&self) -> (b: bool)
        ensures
            b == self is AfterSync,
    {
        match self {
            BdkSyncSpendFailure::Sync(_) => false,
            BdkSyncSpendFailure::AfterSync { sync: _, cause: _ } => true,
        }
    }

    /// The reason alone.
    pub fn into_cause(self) -> (e: WalletError)
        ensures
            e == self.reason(),
    {
        match self {
            BdkSyncSpendFailure::Sync(e) => e,
            BdkSyncSpendFailure::AfterSync { sync: _, cause } => cause,
        }
    }

    /// What a person reads.
    pub fn to_string(&self) -> (text: String)
        ensures
            text@ == self.reason().message(),
    {
        self.cause().to_string()
    }
}

} // verus!
