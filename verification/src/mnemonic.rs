//! Recovery words.

use vstd::prelude::*;
use vstd::string::StringExecFns;

use crate::error::{onchain_error, WalletError};
use crate::secret::{expose_text, hide_text, secret_text, SecretText};
use crate::text::{trim, trimmed};

verus! {

/// What BIP-39 says of recovery words in normalized UTF-8: fine, or what is wrong with them.
pub uninterp spec fn words_parsed(words: Seq<char>) -> Result<(), Seq<char>>;

/// Calls `bip39::Mnemonic::parse_normalized`: whether it accepts the words, or the text of its
/// error. Both depend on the words alone.
#[verifier::external_body]
pub(crate) fn check_words(words: &str) -> (r: Result<(), String>)
    ensures
        words_parsed(words@) == match r {
            Ok(()) => Ok(()),
            Err(e) => Err(e@),
        },
{
    match bip39::Mnemonic::parse_normalized(words) {
        Ok(_) => Ok(()),
        Err(e) => Err(e.to_string()),
    }
}

/// The BIP-39 seed of recovery words with a passphrase.
pub uninterp spec fn bip39_seed(words: Seq<char>, passphrase: Seq<char>) -> Seq<u8>;

/// Calls `bip39::Mnemonic::to_seed` on the words that `parse_normalized` accepts: 64 bytes that
/// depend on the words and the passphrase alone.
#[verifier::external_body]
pub(crate) fn seed_bytes(words: &str, passphrase: &str) -> (seed: Vec<u8>)
    requires
        words_parsed(words@) is Ok,
    ensures
        seed@ == bip39_seed(words@, passphrase@),
        seed@.len() == 64,
{
    match bip39::Mnemonic::parse_normalized(words) {
        Ok(mnemonic) => mnemonic.to_seed(passphrase).to_vec(),
        Err(_) => Vec::new(),
    }
}

/// Recovery words that BIP-39 accepts.
pub struct MnemonicSecret {
    words: SecretText,
}

impl MnemonicSecret {
    #[verifier::type_invariant]
    closed spec fn valid(&self) -> bool {
        words_parsed(secret_text(&self.words)) is Ok
    }

    /// The words.
    pub closed spec fn phrase(&self) -> Seq<char> {
        secret_text(&self.words)
    }

    /// The words.
    pub fn expose(&self) -> (words: &str)
        ensures
            words@ == self.phrase(),
    {
        expose_text(&self.words)
    }

    /// The seed of the words with a passphrase.
    pub fn to_seed(&self, passphrase: &str) -> (seed: Vec<u8>)
        ensures
            seed@ == bip39_seed(self.phrase(), passphrase@),
            seed@.len() == 64,
    {
        proof {
            use_type_invariant(self);
        }
        seed_bytes(expose_text(&self.words), passphrase)
    }
}

/// Takes recovery words, white space around them aside.
pub fn import_mnemonic(words: &str) -> (r: Result<MnemonicSecret, WalletError>)
    ensures
        match words_parsed(trimmed(words@)) {
            Ok(()) => r matches Ok(m) && m.phrase() == trimmed(words@),
            Err(e) => onchain_error(r, "invalid mnemonic: "@ + e),
        },
{
    let words = trim(words);
    match check_words(words) {
        Ok(()) => Ok(MnemonicSecret { words: hide_text(words.to_owned()) }),
        Err(e) => {
            let mut message = "invalid mnemonic: ".to_owned();
            message.append(e.as_str());
            Err(WalletError::Onchain(message))
        },
    }
}

} // verus!
