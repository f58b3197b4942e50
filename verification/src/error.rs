//! Errors of the wallet.

use vstd::prelude::*;
use vstd::string::StringExecFns;

use crate::funding::FundingStep;

verus! {

/// What went wrong.
#[derive(PartialEq, Eq, Debug)]
pub enum WalletError {
    /// Chain data: selection of a backend, explorer replies.
    Explorer(String),
    /// On-chain wallet.
    Onchain(String),
    /// Cashu tokens and mints.
    Cashu(String),
    /// An address was asked for before the recovery words were confirmed.
    BackupNotConfirmed,
    /// A funding step that the current one does not lead to.
    InvalidTransition { from: FundingStep, to: FundingStep },
}

impl WalletError {
    /// What a person reads.
    pub open spec fn message(self) -> Seq<char> {
        match self {
            WalletError::Explorer(text) => text@,
            WalletError::Onchain(text) => text@,
            WalletError::Cashu(text) => text@,
            WalletError::BackupNotConfirmed => "recovery phrase backup is not confirmed"@,
            WalletError::InvalidTransition { from, to } => "invalid funding step: "@ + from.label()
                + " -> "@ + to.label(),
        }
    }

    /// What a person reads.
    pub fn to_string(&self) -> (text: String)
        ensures
            text@ == self.message(),
    {
        match self {
            WalletError::Explorer(text) => text.clone(),
            WalletError::Onchain(text) => text.clone(),
            WalletError::Cashu(text) => text.clone(),
            WalletError::BackupNotConfirmed => "recovery phrase backup is not confirmed".to_owned(),
            WalletError::InvalidTransition { from, to } => {
                let mut text = "invalid funding step: ".to_owned();
                text.append(from.user_label());
                text.append(" -> ");
                text.append(to.user_label());
                text
            },
        }
    }
}

/// The call failed for a reason that concerns chain data.
pub open spec fn explorer_error<T>(r: Result<T, WalletError>, message: Seq<char>) -> bool {
    r matches Err(WalletError::Explorer(text)) && text@ == message
}

/// The call failed for a reason that concerns the on-chain wallet.
pub open spec fn onchain_error<T>(r: Result<T, WalletError>, message: Seq<char>) -> bool {
    r matches Err(WalletError::Onchain(text)) && text@ == message
}

/// The call failed for a reason that concerns Cashu.
pub open spec fn cashu_error<T>(r: Result<T, WalletError>, message: Seq<char>) -> bool {
    r matches Err(WalletError::Cashu(text)) && text@ == message
}

} // verus!
