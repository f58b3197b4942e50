//! The way from a deposit to inference credit, step by step.

use vstd::prelude::*;

use crate::error::{onchain_error, WalletError};
use crate::text::{lower, lowered, same, trim, trimmed};

verus! {

/// Step of the funding wizard.
#[derive(Clone, Copy, PartialEq, Eq, Structural, Hash, Debug)]
pub enum FundingStep {
    NeedWallet,
    ShowAddress,
    WatchingTx,
    OpenChannel,
    AcquireCashu,
    ReadyForInference,
    RefundOptional,
}

/// The step that a stored name stands for, white space around it and letter case aside.
pub open spec fn step_named(s: Seq<char>) -> Option<FundingStep> {
    let name = lowered(trimmed(s));
    if name == "need_wallet"@ {
        Some(FundingStep::NeedWallet)
    } else if name == "show_address"@ {
        Some(FundingStep::ShowAddress)
    } else if name == "watching_tx"@ {
        Some(FundingStep::WatchingTx)
    } else if name == "open_channel"@ {
        Some(FundingStep::OpenChannel)
    } else if name == "acquire_cashu"@ {
        Some(FundingStep::AcquireCashu)
    } else if name == "ready_for_inference"@ {
        Some(FundingStep::ReadyForInference)
    } else if name == "refund_optional"@ {
        Some(FundingStep::RefundOptional)
    } else {
        None
    }
}

impl FundingStep {
    /// What a person reads.
    pub open spec fn label(self) -> Seq<char> {
        match self {
            FundingStep::NeedWallet => "need wallet"@,
            FundingStep::ShowAddress => "showing receive address"@,
            FundingStep::WatchingTx => "watching transaction"@,
            FundingStep::OpenChannel => "open channel"@,
            FundingStep::AcquireCashu => "acquire Cashu"@,
            FundingStep::ReadyForInference => "ready for inference"@,
            FundingStep::RefundOptional => "refund optional"@,
        }
    }

    /// What a person reads.
    pub fn user_label(self) -> (label: &'static str)
        ensures
            label@ == self.label(),
    {
        match self {
            FundingStep::NeedWallet => "need wallet",
            FundingStep::ShowAddress => "showing receive address",
            FundingStep::WatchingTx => "watching transaction",
            FundingStep::OpenChannel => "open channel",
            FundingStep::AcquireCashu => "acquire Cashu",
            FundingStep::ReadyForInference => "ready for inference",
            FundingStep::RefundOptional => "refund optional",
        }
    }

    /// The name under which a step is stored.
    pub open spec fn wire_name(self) -> Seq<char> {
        match self {
            FundingStep::NeedWallet => "need_wallet"@,
            FundingStep::ShowAddress => "show_address"@,
            FundingStep::WatchingTx => "watching_tx"@,
            FundingStep::OpenChannel => "open_channel"@,
            FundingStep::AcquireCashu => "acquire_cashu"@,
            FundingStep::ReadyForInference => "ready_for_inference"@,
            FundingStep::RefundOptional => "refund_optional"@,
        }
    }

    /// The name under which a step is stored.
    pub fn as_wire_str(self) -> (name: &'static str)
        ensures
            name@ == self.wire_name(),
    {
        match self {
            FundingStep::NeedWallet => "need_wallet",
            FundingStep::ShowAddress => "show_address",
            FundingStep::WatchingTx => "watching_tx",
            FundingStep::OpenChannel => "open_channel",
            FundingStep::AcquireCashu => "acquire_cashu",
            FundingStep::ReadyForInference => "ready_for_inference",
            FundingStep::RefundOptional => "refund_optional",
        }
    }

    /// Reads a stored name.
    pub fn from_wire_str(s: &str) -> (step: Option<FundingStep>)
        ensures
            step == step_named(s@),
    {
        let name = lower(trim(s));
        let name = name.as_str();
        if same(name, "need_wallet") {
            Some(FundingStep::NeedWallet)
        } else if same(name, "show_address") {
            Some(FundingStep::ShowAddress)
        } else if same(name, "watching_tx") {
            Some(FundingStep::WatchingTx)
        } else if same(name, "open_channel") {
            Some(FundingStep::OpenChannel)
        } else if same(name, "acquire_cashu") {
            Some(FundingStep::AcquireCashu)
        } else if same(name, "ready_for_inference") {
            Some(FundingStep::ReadyForInference)
        } else if same(name, "refund_optional") {
            Some(FundingStep::RefundOptional)
        } else {
            None
        }
    }
}

/// A step is read back from its stored name.
pub proof fn lemma_step_name_round_trip(step: FundingStep)
    ensures
        step_named(step.wire_name()) == Some(step),
{
    reveal_strlit("need_wallet");
    reveal_strlit("show_address");
    reveal_strlit("watching_tx");
    reveal_strlit("open_channel");
    reveal_strlit("acquire_cashu");
    reveal_strlit("ready_for_inference");
    reveal_strlit("refund_optional");
    let name = step.wire_name();
    assert(trimmed(name) == name);
    assert(lowered(name) =~= name);
    assert("watching_tx"@[0] != "need_wallet"@[0]);
    assert("open_channel"@[0] != "show_address"@[0]);
}

/// Whether the recovery words were shown and entered again. Only this module sets it.
#[derive(PartialEq, Eq, Debug)]
pub struct BackupMark {
    confirmed: bool,
}

impl BackupMark {
    /// The recovery words were shown and entered again.
    pub closed spec fn set(&self) -> bool {
        self.confirmed
    }
}

/// Progress through the funding steps.
#[derive(PartialEq, Eq, Debug)]
pub struct FundingWizard {
    pub step: FundingStep,
    pub receive_address: Option<String>,
    pub watched_txid: Option<String>,
    pub confirmations: u32,
    pub required_confirmations: u32,
    pub backup: BackupMark,
}

/// Model of [`FundingWizard`].
pub struct Wizard {
    pub step: FundingStep,
    pub receive_address: Option<Seq<char>>,
    pub watched_txid: Option<Seq<char>>,
    pub confirmations: u32,
    pub required_confirmations: u32,
    pub backup_confirmed: bool,
}

/// The characters of an optional text.
pub open spec fn text_view(text: Option<String>) -> Option<Seq<char>> {
    match text {
        Some(t) => Some(t@),
        None => None,
    }
}

impl View for FundingWizard {
    type V = Wizard;

    open spec fn view(&self) -> Wizard {
        Wizard {
            step: self.step,
            receive_address: text_view(self.receive_address),
            watched_txid: text_view(self.watched_txid),
            confirmations: self.confirmations,
            required_confirmations: self.required_confirmations,
            backup_confirmed: self.backup.set(),
        }
    }
}

/// Before the recovery words are confirmed the wizard stands at its first step, and there is no
/// address, no transaction and no confirmation of one.
pub open spec fn guarded(w: Wizard) -> bool {
    !w.backup_confirmed ==> {
        &&& w.step == FundingStep::NeedWallet
        &&& w.receive_address is None
        &&& w.watched_txid is None
        &&& w.confirmations == 0
    }
}

/// What a wizard can be asked for.
pub enum WizardMove {
    ShowAddress { address: Seq<char> },
    /// `confirmed` is what the record of the words says.
    ShowGated { address: Seq<char>, confirmed: bool },
    WatchTx { txid: Seq<char> },
    SetConfirmations { n: u32 },
    ChannelOpened,
    CashuAcquired,
    BeginRefund,
    SkipChannel,
}

/// A wizard after it was moved from one step to another; it stays where it does not stand at the
/// first.
pub open spec fn stepped(w: Wizard, from: FundingStep, to: FundingStep) -> Wizard {
    if w.step == from {
        Wizard { step: to, ..w }
    } else {
        w
    }
}

/// A wizard after it was asked for something, also where it refused.
pub open spec fn after_move(w: Wizard, m: WizardMove) -> Wizard {
    match m {
        WizardMove::ShowAddress { address } => if w.backup_confirmed && w.step
            == FundingStep::NeedWallet {
            Wizard { step: FundingStep::ShowAddress, receive_address: Some(address), ..w }
        } else {
            w
        },
        WizardMove::ShowGated { address, confirmed } => if !confirmed {
            w
        } else if w.step == FundingStep::NeedWallet {
            Wizard {
                step: FundingStep::ShowAddress,
                receive_address: Some(address),
                backup_confirmed: true,
                ..w
            }
        } else {
            Wizard { backup_confirmed: true, ..w }
        },
        WizardMove::WatchTx { txid } => if w.step == FundingStep::ShowAddress {
            Wizard {
                step: FundingStep::WatchingTx,
                watched_txid: Some(txid),
                confirmations: 0,
                ..w
            }
        } else {
            w
        },
        WizardMove::SetConfirmations { n } => if w.step == FundingStep::WatchingTx {
            Wizard {
                step: if n >= w.required_confirmations {
                    FundingStep::OpenChannel
                } else {
                    FundingStep::WatchingTx
                },
                confirmations: n,
                ..w
            }
        } else {
            w
        },
        WizardMove::ChannelOpened => stepped(
            w,
            FundingStep::OpenChannel,
            FundingStep::AcquireCashu,
        ),
        WizardMove::CashuAcquired => stepped(
            w,
            FundingStep::AcquireCashu,
            FundingStep::ReadyForInference,
        ),
        WizardMove::BeginRefund => stepped(
            w,
            FundingStep::ReadyForInference,
            FundingStep::RefundOptional,
        ),
        WizardMove::SkipChannel => if before_cashu(w.step) {
            Wizard { step: FundingStep::AcquireCashu, ..w }
        } else {
            w
        },
    }
}

/// A wizard after it was asked for one thing after the other.
pub open spec fn after_moves(w: Wizard, moves: Seq<WizardMove>) -> Wizard
    decreases moves.len(),
{
    if moves.len() == 0 {
        w
    } else {
        after_move(after_moves(w, moves.drop_last()), moves.last())
    }
}

/// Whatever a wizard is asked for, there is no address, transaction or confirmation of one before
/// the recovery words are confirmed, and their confirmation is never taken back.
pub proof fn lemma_backup_first(w: Wizard, moves: Seq<WizardMove>)
    requires
        guarded(w),
    ensures
        guarded(after_moves(w, moves)),
        w.backup_confirmed ==> after_moves(w, moves).backup_confirmed,
    decreases moves.len(),
{
    if moves.len() > 0 {
        lemma_backup_first(w, moves.drop_last());
    }
}

/// A wizard that nobody showed a record of confirmed words never goes anywhere.
pub proof fn lemma_nothing_without_backup(moves: Seq<WizardMove>)
    requires
        forall|i: int|
            0 <= i < moves.len() ==> !((#[trigger] moves[i]) matches WizardMove::ShowGated {
                confirmed,
                ..
            } && confirmed),
    ensures
        after_moves(fresh_wizard(), moves) == fresh_wizard(),
    decreases moves.len(),
{
    if moves.len() > 0 {
        assert forall|i: int| 0 <= i < moves.drop_last().len() implies !((
        #[trigger] moves.drop_last()[i]) matches WizardMove::ShowGated { confirmed, .. }
            && confirmed) by {
            assert(moves.drop_last()[i] == moves[i]);
        }
        lemma_nothing_without_backup(moves.drop_last());
        assert(moves.last() == moves[moves.len() - 1]);
    }
}

/// A wizard that has gone nowhere yet.
pub open spec fn fresh_wizard() -> Wizard {
    Wizard {
        step: FundingStep::NeedWallet,
        receive_address: None,
        watched_txid: None,
        confirmations: 0,
        required_confirmations: 3,
        backup_confirmed: false,
    }
}

/// How far along a step is.
pub open spec fn place(step: FundingStep) -> int {
    match step {
        FundingStep::NeedWallet => 0,
        FundingStep::ShowAddress => 1,
        FundingStep::WatchingTx => 2,
        FundingStep::OpenChannel => 3,
        FundingStep::AcquireCashu => 4,
        FundingStep::ReadyForInference => 5,
        FundingStep::RefundOptional => 6,
    }
}

/// A wizard never goes back and passes by no step but those before the token, which are left out
/// together. Nothing changes the number of confirmations that it waits for; only the address that
/// is shown, the transaction that is watched and the confirmations that are counted change what it
/// knows of them.
pub proof fn lemma_no_step_back(w: Wizard, m: WizardMove)
    ensures
        place(after_move(w, m).step) >= place(w.step),
        place(after_move(w, m).step) <= place(w.step) + 1 || m is SkipChannel && after_move(w, m).step
            == FundingStep::AcquireCashu,
        after_move(w, m).required_confirmations == w.required_confirmations,
        !(m is ShowAddress) && !(m is ShowGated) ==> after_move(w, m).receive_address
            == w.receive_address,
        !(m is WatchTx) ==> after_move(w, m).watched_txid == w.watched_txid,
        !(m is WatchTx) && !(m is SetConfirmations) ==> after_move(w, m).confirmations
            == w.confirmations,
        !(m is ShowGated) ==> after_move(w, m).backup_confirmed == w.backup_confirmed,
{
}

/// A wizard that watches a transaction goes on with the first count that is large enough, and not
/// before; the last count is the one that it knows.
pub proof fn lemma_enough_confirmations(w: Wizard, n: u32, later: u32)
    requires
        w.step == FundingStep::WatchingTx,
    ensures
        ({
            let after = after_move(w, WizardMove::SetConfirmations { n });
            &&& after.confirmations == n
            &&& after.step == FundingStep::OpenChannel <==> n >= w.required_confirmations
            &&& after.step == FundingStep::WatchingTx <==> n < w.required_confirmations
            &&& n < w.required_confirmations ==> after_move(
                after,
                WizardMove::SetConfirmations { n: later },
            ) == after_move(w, WizardMove::SetConfirmations { n: later })
            &&& n >= w.required_confirmations ==> after_move(
                after,
                WizardMove::SetConfirmations { n: later },
            ) == after
        }),
{
}

/// The whole way: the address once the words are confirmed, the transaction, its confirmations,
/// three of them, the channel, the token, and what is paid back. Each move is made at its own step
/// and at no other.
pub proof fn lemma_whole_way(address: Seq<char>, txid: Seq<char>, n: u32)
    ensures
        ({
            let start = fresh_wizard();
            let shown = after_move(start, WizardMove::ShowGated { address, confirmed: true });
            let watched = after_move(shown, WizardMove::WatchTx { txid });
            let counted = after_move(watched, WizardMove::SetConfirmations { n });
            let opened = after_move(counted, WizardMove::ChannelOpened);
            let acquired = after_move(opened, WizardMove::CashuAcquired);
            let refunded = after_move(acquired, WizardMove::BeginRefund);
            &&& start.step == FundingStep::NeedWallet
            &&& shown.step == FundingStep::ShowAddress && shown.receive_address == Some(address)
            &&& shown.backup_confirmed
            &&& watched.step == FundingStep::WatchingTx && watched.watched_txid == Some(txid)
            &&& watched.confirmations == 0
            &&& n < 3 ==> counted.step == FundingStep::WatchingTx && opened == counted
            &&& n >= 3 ==> {
                &&& counted.step == FundingStep::OpenChannel
                &&& opened.step == FundingStep::AcquireCashu
                &&& acquired.step == FundingStep::ReadyForInference
                &&& refunded.step == FundingStep::RefundOptional
            }
            &&& refunded.receive_address == Some(address)
            &&& refunded.watched_txid == Some(txid)
            &&& refunded.confirmations == n
            &&& after_move(shown, WizardMove::SkipChannel).step == FundingStep::AcquireCashu
            &&& after_move(watched, WizardMove::SkipChannel).step == FundingStep::AcquireCashu
            &&& after_move(counted, WizardMove::SkipChannel).step == FundingStep::AcquireCashu
            &&& after_move(start, WizardMove::SkipChannel) == start
            &&& after_move(start, WizardMove::WatchTx { txid }) == start
            &&& after_move(shown, WizardMove::ChannelOpened) == shown
        }),
{
}

/// The call was refused because the current step does not lead to `to`.
pub open spec fn refused(r: Result<(), WalletError>, from: FundingStep, to: FundingStep) -> bool {
    r == Err::<(), WalletError>(WalletError::InvalidTransition { from, to })
}

/// The larger of a number and one.
pub open spec fn at_least_one(n: u32) -> u32 {
    if n == 0 {
        1
    } else {
        n
    }
}

/// A wizard waits for the number of confirmations that it was given, and for one where that is
/// none.
pub proof fn lemma_at_least_one(n: u32)
    ensures
        at_least_one(n) >= 1,
        n >= 1 ==> at_least_one(n) == n,
        at_least_one(n) <= n + 1,
{
}

/// Record of the recovery words: shown once, then entered again in full.
#[derive(PartialEq, Eq)]
pub struct MnemonicBackupGate {
    shown: Option<String>,
    confirmed: bool,
}

impl MnemonicBackupGate {
    /// The words that were shown.
    pub closed spec fn shown_words(&self) -> Option<Seq<char>> {
        text_view(self.shown)
    }

    /// The words were entered again.
    pub closed spec fn confirmed(&self) -> bool {
        self.confirmed
    }

    /// Nothing shown yet.
    pub fn new() -> (gate: MnemonicBackupGate)
        ensures
            gate.shown_words() is None,
            !gate.confirmed(),
    {
        MnemonicBackupGate { shown: None, confirmed: false }
    }

    /// Whether the words were shown and entered again.
    pub fn is_confirmed(&self) -> (b: bool)
        ensures
            b == self.confirmed(),
    {
        self.confirmed
    }

    /// Shows the words, which it does once.
    pub fn show_once(&mut self, words: &str) -> (r: Result<String, WalletError>)
        ensures
            old(self).shown_words() is None ==> {
                &&& r matches Ok(text) && text@ == words@
                &&& final(self).shown_words() == Some(words@)
                &&& !final(self).confirmed()
            },
            old(self).shown_words() is Some ==> {
                &&& r == Err::<String, WalletError>(WalletError::BackupNotConfirmed)
                &&& *final(self) == *old(self)
            },
            r is Ok <==> old(self).shown_words() is None,
            r matches Ok(text) ==> final(self).shown_words() == Some(text@) && text@ == words@,
    {
        if self.shown.is_some() {
            return Err(WalletError::BackupNotConfirmed);
        }
        self.shown = Some(words.to_owned());
        self.confirmed = false;
        Ok(words.to_owned())
    }

    /// Takes the words as they were entered again; white space around them does not count.
    pub fn confirm_reentry(&mut self, words: &str) -> (r: Result<(), WalletError>)
        ensures
            final(self).shown_words() == old(self).shown_words(),
            (old(self).shown_words() matches Some(w) && trimmed(w) == trimmed(words@)) ==> {
                &&& r is Ok
                &&& final(self).confirmed()
            },
            !(old(self).shown_words() matches Some(w) && trimmed(w) == trimmed(words@)) ==> {
                &&& r == Err::<(), WalletError>(WalletError::BackupNotConfirmed)
                &&& *final(self) == *old(self)
            },
            r is Ok <==> old(self).shown_words() is Some && trimmed(old(self).shown_words()->0)
                == trimmed(words@),
            final(self).confirmed() <==> old(self).confirmed() || r is Ok,
    {
        let matched = match &self.shown {
            Some(shown) => same(trim(shown.as_str()), trim(words)),
            None => false,
        };
        if matched {
            self.confirmed = true;
            Ok(())
        } else {
            Err(WalletError::BackupNotConfirmed)
        }
    }
}

impl Default for FundingWizard {
    fn default() -> (w: FundingWizard)
        ensures
            w@ == fresh_wizard(),
    {
        FundingWizard::new()
    }
}

impl FundingWizard {
    /// A wizard that has gone nowhere yet.
    pub fn new() -> (w: FundingWizard)
        ensures
            w@ == fresh_wizard(),
            guarded(w@),
    {
        FundingWizard {
            step: FundingStep::NeedWallet,
            receive_address: None,
            watched_txid: None,
            confirmations: 0,
            required_confirmations: 3,
            backup: BackupMark { confirmed: false },
        }
    }

    /// Whether the recovery words were shown and entered again.
    pub fn backup_confirmed(&self) -> (b: bool)
        ensures
            b == self@.backup_confirmed,
    {
        self.backup.confirmed
    }

    /// Goes on at the address after the words were confirmed and the address was shown elsewhere.
    pub fn for_watch_after_fund(address: &str, required_confirmations: u32) -> (w: FundingWizard)
        ensures
            w@ == (Wizard {
                step: FundingStep::ShowAddress,
                receive_address: Some(address@),
                watched_txid: None,
                confirmations: 0,
                required_confirmations: at_least_one(required_confirmations),
                backup_confirmed: true,
            }),
            guarded(w@),
            w@.receive_address == Some(address@),
            w@.required_confirmations >= 1,
            required_confirmations > 0 ==> w@.required_confirmations == required_confirmations,
    {
        FundingWizard {
            step: FundingStep::ShowAddress,
            receive_address: Some(address.to_owned()),
            watched_txid: None,
            confirmations: 0,
            required_confirmations: if required_confirmations == 0 {
                1
            } else {
                required_confirmations
            },
            backup: BackupMark { confirmed: true },
        }
    }

    /// Goes on after a restart. A wizard that still needs its wallet cannot be resumed: that would
    /// pass by the confirmation of the words.
    pub fn resume_watch(
        address: &str,
        required_confirmations: u32,
        step: FundingStep,
        watched_txid: Option<String>,
        confirmations: u32,
    ) -> (r: Result<FundingWizard, WalletError>)
        ensures
            step == FundingStep::NeedWallet ==> onchain_error(
                r,
                "cannot resume watch at need_wallet (backup gate not skippable)"@,
            ),
            step != FundingStep::NeedWallet ==> (r matches Ok(w) && w@ == (Wizard {
                step,
                receive_address: Some(address@),
                watched_txid: text_view(watched_txid),
                confirmations,
                required_confirmations: at_least_one(required_confirmations),
                backup_confirmed: true,
            }) && guarded(w@)),
            r is Ok <==> step != FundingStep::NeedWallet,
            r matches Ok(w) ==> w@.step == step && w@.receive_address == Some(address@)
                && w@.watched_txid == text_view(watched_txid) && w@.confirmations == confirmations
                && (required_confirmations > 0 ==> w@.required_confirmations
                == required_confirmations),
    {
        if step == FundingStep::NeedWallet {
            return Err(
                WalletError::Onchain(
                    "cannot resume watch at need_wallet (backup gate not skippable)".to_owned(),
                ),
            );
        }
        Ok(
            FundingWizard {
                step,
                receive_address: Some(address.to_owned()),
                watched_txid,
                confirmations,
                required_confirmations: if required_confirmations == 0 {
                    1
                } else {
                    required_confirmations
                },
                backup: BackupMark { confirmed: true },
            },
        )
    }

    /// Shows the address, once the words are confirmed.
    pub fn show_address(&mut self, address: &str) -> (r: Result<(), WalletError>)
        ensures
            final(self)@ == after_move(old(self)@, WizardMove::ShowAddress { address: address@ }),
            guarded(old(self)@) ==> guarded(final(self)@),
            !old(self)@.backup_confirmed ==> {
                &&& r == Err::<(), WalletError>(WalletError::BackupNotConfirmed)
                &&& final(self)@ == old(self)@
            },
            old(self)@.backup_confirmed && old(self)@.step != FundingStep::NeedWallet ==> {
                &&& refused(r, old(self)@.step, FundingStep::ShowAddress)
                &&& final(self)@ == old(self)@
            },
            old(self)@.backup_confirmed && old(self)@.step == FundingStep::NeedWallet ==> {
                &&& r is Ok
                &&& final(self)@ == (Wizard {
                    step: FundingStep::ShowAddress,
                    receive_address: Some(address@),
                    ..old(self)@
                })
            },
    {
        if !self.backup.confirmed {
            return Err(WalletError::BackupNotConfirmed);
        }
        match self.transition(FundingStep::NeedWallet, FundingStep::ShowAddress) {
            Ok(()) => {
                self.receive_address = Some(address.to_owned());
                Ok(())
            },
            Err(e) => Err(e),
        }
    }

    /// Shows the address where `gate` says that the words are confirmed.
    pub fn show_address_with_backup_gate(
        &mut self,
        address: &str,
        gate: &MnemonicBackupGate,
    ) -> (r: Result<(), WalletError>)
        ensures
            final(self)@ == after_move(
                old(self)@,
                WizardMove::ShowGated { address: address@, confirmed: gate.confirmed() },
            ),
            guarded(old(self)@) ==> guarded(final(self)@),
            !gate.confirmed() ==> {
                &&& r == Err::<(), WalletError>(WalletError::BackupNotConfirmed)
                &&& final(self)@ == old(self)@
            },
            gate.confirmed() && old(self)@.step != FundingStep::NeedWallet ==> {
                &&& refused(r, old(self)@.step, FundingStep::ShowAddress)
                &&& final(self)@ == (Wizard { backup_confirmed: true, ..old(self)@ })
            },
            gate.confirmed() && old(self)@.step == FundingStep::NeedWallet ==> {
                &&& r is Ok
                &&& final(self)@ == (Wizard {
                    step: FundingStep::ShowAddress,
                    receive_address: Some(address@),
                    backup_confirmed: true,
                    ..old(self)@
                })
            },
    {
        if !gate.is_confirmed() {
            return Err(WalletError::BackupNotConfirmed);
        }
        self.backup = BackupMark { confirmed: true };
        self.show_address(address)
    }

    /// A transaction that pays the address was seen.
    pub fn watch_tx(&mut self, txid: &str) -> (r: Result<(), WalletError>)
        ensures
            final(self)@ == after_move(old(self)@, WizardMove::WatchTx { txid: txid@ }),
            guarded(old(self)@) ==> guarded(final(self)@),
            old(self)@.step != FundingStep::ShowAddress ==> {
                &&& refused(r, old(self)@.step, FundingStep::WatchingTx)
                &&& final(self)@ == old(self)@
            },
            old(self)@.step == FundingStep::ShowAddress ==> {
                &&& r is Ok
                &&& final(self)@ == (Wizard {
                    step: FundingStep::WatchingTx,
                    watched_txid: Some(txid@),
                    confirmations: 0,
                    ..old(self)@
                })
            },
    {
        match self.transition(FundingStep::ShowAddress, FundingStep::WatchingTx) {
            Ok(()) => {
                self.watched_txid = Some(txid.to_owned());
                self.confirmations = 0;
                Ok(())
            },
            Err(e) => Err(e),
        }
    }

    /// Takes the number of confirmations and goes on once there are enough.
    pub fn set_confirmations(&mut self, n: u32) -> (r: Result<(), WalletError>)
        ensures
            final(self)@ == after_move(old(self)@, WizardMove::SetConfirmations { n }),
            guarded(old(self)@) ==> guarded(final(self)@),
            old(self)@.step != FundingStep::WatchingTx ==> {
                &&& refused(r, old(self)@.step, FundingStep::WatchingTx)
                &&& final(self)@ == old(self)@
            },
            old(self)@.step == FundingStep::WatchingTx ==> {
                &&& r is Ok
                &&& final(self)@ == (Wizard {
                    step: if n >= old(self)@.required_confirmations {
                        FundingStep::OpenChannel
                    } else {
                        FundingStep::WatchingTx
                    },
                    confirmations: n,
                    ..old(self)@
                })
            },
    {
        if self.step != FundingStep::WatchingTx {
            return Err(
                WalletError::InvalidTransition { from: self.step, to: FundingStep::WatchingTx },
            );
        }
        self.confirmations = n;
        if n >= self.required_confirmations {
            self.step = FundingStep::OpenChannel;
        }
        Ok(())
    }

    /// The channel is open.
    pub fn channel_opened(&mut self) -> (r: Result<(), WalletError>)
        ensures
            final(self)@ == after_move(old(self)@, WizardMove::ChannelOpened),
            guarded(old(self)@) ==> guarded(final(self)@),
            moved(old(self)@, final(self)@, r, FundingStep::OpenChannel, FundingStep::AcquireCashu),
    {
        self.transition(FundingStep::OpenChannel, FundingStep::AcquireCashu)
    }

    /// A token was acquired.
    pub fn cashu_acquired(&mut self) -> (r: Result<(), WalletError>)
        ensures
            final(self)@ == after_move(old(self)@, WizardMove::CashuAcquired),
            guarded(old(self)@) ==> guarded(final(self)@),
            moved(
                old(self)@,
                final(self)@,
                r,
                FundingStep::AcquireCashu,
                FundingStep::ReadyForInference,
            ),
    {
        self.transition(FundingStep::AcquireCashu, FundingStep::ReadyForInference)
    }

    /// The rest is to be paid back.
    pub fn begin_refund(&mut self) -> (r: Result<(), WalletError>)
        ensures
            final(self)@ == after_move(old(self)@, WizardMove::BeginRefund),
            guarded(old(self)@) ==> guarded(final(self)@),
            moved(
                old(self)@,
                final(self)@,
                r,
                FundingStep::ReadyForInference,
                FundingStep::RefundOptional,
            ),
    {
        self.transition(FundingStep::ReadyForInference, FundingStep::RefundOptional)
    }

    /// Leaves the channel out: the token is paid for from elsewhere.
    pub fn skip_channel_for_external_cashu(&mut self) -> (r: Result<(), WalletError>)
        ensures
            final(self)@ == after_move(old(self)@, WizardMove::SkipChannel),
            guarded(old(self)@) ==> guarded(final(self)@),
            before_cashu(old(self)@.step) ==> {
                &&& r is Ok
                &&& final(self)@ == (Wizard { step: FundingStep::AcquireCashu, ..old(self)@ })
            },
            !before_cashu(old(self)@.step) ==> {
                &&& refused(r, old(self)@.step, FundingStep::AcquireCashu)
                &&& final(self)@ == old(self)@
            },
    {
        match self.step {
            FundingStep::OpenChannel | FundingStep::WatchingTx | FundingStep::ShowAddress => {
                self.step = FundingStep::AcquireCashu;
                Ok(())
            },
            other => Err(
                WalletError::InvalidTransition { from: other, to: FundingStep::AcquireCashu },
            ),
        }
    }

    fn transition(&mut self, from: FundingStep, to: FundingStep) -> (r: Result<(), WalletError>)
        ensures
            moved(old(self)@, final(self)@, r, from, to),
    {
        if self.step != from {
            return Err(WalletError::InvalidTransition { from: self.step, to });
        }
        self.step = to;
        Ok(())
    }
}

/// The steps from which the channel can be left out.
pub open spec fn before_cashu(step: FundingStep) -> bool {
    step == FundingStep::OpenChannel || step == FundingStep::WatchingTx || step
        == FundingStep::ShowAddress
}

/// A move from one step to another: made where the wizard stands at the first, refused without any
/// change elsewhere.
pub open spec fn moved(
    before: Wizard,
    after: Wizard,
    r: Result<(), WalletError>,
    from: FundingStep,
    to: FundingStep,
) -> bool {
    if before.step == from {
        r is Ok && after == (Wizard { step: to, ..before })
    } else {
        refused(r, before.step, to) && after == before
    }
}

} // verus!
