//! Nozy: the shielded-note ledger of a privacy-focused wallet.
//!
//! The library keeps an append-only note-commitment tree, a ledger of
//! notes with their spend lifecycle, a family of coin-selection
//! strategies, and the assembly, signing and checking of transfers.
use vstd::prelude::*;

pub mod error;
pub mod config;
pub mod crypto;
pub mod notes;
pub mod hd_wallet;
pub mod transaction_signer;
pub mod storage;
pub mod addresses;
pub mod transactions;
pub mod zebra_integration;
pub mod privacy;
pub mod encrypted_storage;
pub mod wallet;


pub use error::{NozyError, NozyResult};
pub use config::{NozyConfig, PrivacyLevel};
pub use storage::WalletStorage;
pub use notes::{NoteManager, ShieldedNote, NoteType};
pub use addresses::{AddressManager, ZcashAddressWrapper, ZcashAddressType};
pub use transactions::{
    TransactionBuilder, ShieldedTransaction, TransactionInput, TransactionOutput, TransactionStatus,
};
pub use zebra_integration::{ZebraClient, ZebraConfig, ZebraStatus, SyncStatus};
pub use hd_wallet::{HDWallet, AddressType};
pub use wallet::{NozyWallet, WalletStatus};
pub use transaction_signer::{TransactionSigner, ShieldedInput, ShieldedOutput, SignedTransaction};


verus! {

/// The wallet's greeting.
pub fn hello_nozy() -> (r: &'static str)
    ensures
        r@ == "Hello from Nozy wallet!"@,
{
    "Hello from Nozy wallet!"
}

} // verus!
