//! Networks as the node and the chain backends know them.

use vstd::prelude::*;

use crate::address_ux::BitcoinNetwork;

verus! {

/// Chain that a node runs on.
#[derive(Clone, Copy, PartialEq, Eq, Structural, Debug)]
pub enum Network {
    Bitcoin,
    Testnet,
    Testnet4,
    Signet,
    Regtest,
}

impl Network {
    /// The name, as it is printed for a developer.
    pub open spec fn debug_name(self) -> Seq<char> {
        match self {
            Network::Bitcoin => "Bitcoin"@,
            Network::Testnet => "Testnet"@,
            Network::Testnet4 => "Testnet4"@,
            Network::Signet => "Signet"@,
            Network::Regtest => "Regtest"@,
        }
    }

    /// The name, as it is printed for a developer.
    pub fn debug_text(self) -> (name: &'static str)
        ensures
            name@ == self.debug_name(),
    {
        match self {
            Network::Bitcoin => "Bitcoin",
            Network::Testnet => "Testnet",
            Network::Testnet4 => "Testnet4",
            Network::Signet => "Signet",
            Network::Regtest => "Regtest",
        }
    }
}

/// The chain whose addresses an Electrum server is asked for.
pub open spec fn electrum_network(network: BitcoinNetwork) -> Network {
    match network {
        BitcoinNetwork::Mainnet => Network::Bitcoin,
        BitcoinNetwork::Signet => Network::Signet,
        BitcoinNetwork::Testnet | BitcoinNetwork::Testnet4 => Network::Testnet,
    }
}

/// Addresses of the main network and of signet are told from test addresses, and nothing else is
/// asked for.
pub proof fn lemma_electrum_network(network: BitcoinNetwork)
    ensures
        electrum_network(network) == Network::Bitcoin <==> network == BitcoinNetwork::Mainnet,
        electrum_network(network) == Network::Signet <==> network == BitcoinNetwork::Signet,
        electrum_network(network) == Network::Testnet <==> network == BitcoinNetwork::Testnet
            || network == BitcoinNetwork::Testnet4,
{
}

/// The chain whose addresses an Electrum server is asked for. Testnet4 addresses are testnet
/// addresses.
pub fn bitcoin_network_for_electrum(network: BitcoinNetwork) -> (chain: Network)
    ensures
        chain == electrum_network(network),
{
    match network {
        BitcoinNetwork::Mainnet => Network::Bitcoin,
        BitcoinNetwork::Signet => Network::Signet,
        BitcoinNetwork::Testnet => Network::Testnet,
        BitcoinNetwork::Testnet4 => Network::Testnet,
    }
}

} // verus!
