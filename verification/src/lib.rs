//! Pieces of a Bitcoin wallet that funds an account: payment display, chain backends, Cashu mints,
//! wallet synchronisation, leaf script templates, and the two helper programs that hold keys.

pub mod address_ux;
pub mod bdk_bip84;
pub mod bdk_scan;
pub mod bdk_source;
pub mod bdk_sync;
pub mod bdk_update;
pub mod bolt11;
pub mod cashu;
pub mod cashu_backend;
pub mod cashu_cdk_helper;
pub mod chain_select;
pub mod error;
pub mod funding;
pub mod json;
pub mod mint_helper;
pub mod mnemonic;
pub mod network;
pub mod node_helper;
pub mod path;
pub mod secret;
pub mod tapscript;
pub mod text;
pub mod wallet_types;
