//! The wallet: one owner of the ledger, the address book, the transaction
//! builder, the node connection and the privacy settings.
use vstd::prelude::*;
use std::collections::HashMap;
use crate::addresses::{AddressManager, AddressView, NetworkType, ZcashAddressType, ZcashAddressWrapper};
use crate::config::{NozyConfig, PrivacyLevel, PrivacyMaskType};
use crate::crypto::{decimal_of, now_rfc3339, parse_u32, u32_parse_of, u64_to_decimal};
use crate::error::{NozyError, NozyResult};
use crate::crypto::{bip32_master_of, bip39_seed_of};
use crate::hd_wallet::{hash_seed, seed_fingerprint, wallet_seed, HDWallet};
use crate::notes::{ref_views, sum_values, unspent, NoteManager, NoteType, ShieldedNote};
use crate::storage::WalletStorage;
use crate::transactions::{ShieldedTransaction, TransactionBuilder};
use crate::zebra_integration::{ZebraClient, ZebraConfig, ZebraStatus};

verus! {

#[derive(Debug, Clone)]
pub struct WalletStatus {
    pub initialized: bool,
    pub total_balance: u64,
    pub address_count: usize,
    pub note_count: usize,
    pub last_sync: Option<String>,
}

#[derive(Debug, Clone)]
pub struct PrivacyMask {
    pub name: String,
    pub mask_type: PrivacyMaskType,
    pub config: HashMap<String, String>,
}

#[derive(Debug, Clone)]
pub struct StealthAddress {
    pub address: String,
    pub label: Option<String>,
    pub created_at: String,
}

#[derive(Debug, Clone, Copy, PartialEq, Eq, Structural)]
pub struct PrivacyAuditReport {
    pub total_notes: usize,
    pub active_notes: usize,
    pub inactive_notes: usize,
    pub total_zec: u64,
    pub active_zec: u64,
    pub inactive_zec: u64,
    pub score: u8,
}

#[derive(Debug, Clone)]
pub struct BlockInfo {
    pub hash: String,
    pub height: u32,
    pub timestamp: String,
    pub transaction_count: usize,
}

#[derive(Debug, Clone)]
pub struct TransactionInfo {
    pub id: String,
    pub block_hash: String,
    pub block_height: u32,
    pub timestamp: String,
    pub value: i64,
    pub inputs: Vec<String>,
    pub outputs: Vec<String>,
}

#[derive(Debug, Clone, Copy, PartialEq, Eq, Structural)]
pub struct NetworkSupply {
    pub total_supply: u64,
    pub circulating_supply: u64,
    pub locked_supply: u64,
}

#[derive(Debug, Clone, Copy, PartialEq, Eq, Structural)]
pub struct MempoolInfo {
    pub transaction_count: usize,
    pub total_size: usize,
    pub average_fee: u64,
}

#[derive(Debug, Clone)]
pub struct NetworkPeer {
    pub address: String,
    pub status: String,
}

#[derive(Debug, Clone)]
pub struct BalanceHistoryEntry {
    pub date: String,
    pub total_balance: u64,
    pub note_count: usize,
    pub zec_value: u64,
}

#[derive(Debug, Clone)]
pub struct PrivacyScoreEntry {
    pub date: String,
    pub score: u8,
}

#[derive(Debug, Clone, Copy, PartialEq, Eq, Structural)]
pub struct TransactionPatternData {
    pub total_transactions: usize,
    pub average_value: u64,
    pub total_zec: u64,
}

#[derive(Debug, Clone, Copy, PartialEq, Eq, Structural)]
pub struct NetworkUsage {
    pub total_transactions: usize,
    pub total_zec: u64,
    pub average_transaction_size: usize,
}

#[derive(Debug, Clone, Copy, PartialEq, Eq, Structural)]
pub struct PerformanceMetrics {
    pub sync_time: u64,
    pub transaction_processing_time: u64,
    pub memory_usage: u64,
}

#[derive(Debug, Clone)]
pub struct InternalState {
    pub initialized: bool,
    pub total_balance: u64,
    pub note_count: usize,
    pub address_count: usize,
    pub last_sync: Option<String>,
    pub privacy_level: PrivacyLevel,
    pub mempool_size: usize,
    pub network_peers: usize,
}

/// The mnemonic every new wallet starts from.
pub open spec fn standard_mnemonic() -> Seq<char> {
    "abandon abandon abandon abandon abandon abandon abandon abandon abandon abandon abandon about"@
}

/// The address type issued for a privacy level: Sapling at `High`,
/// Orchard otherwise.
pub open spec fn address_type_for(level: PrivacyLevel) -> ZcashAddressType {
    match level {
        PrivacyLevel::High => ZcashAddressType::Sapling,
        _ => ZcashAddressType::Orchard,
    }
}

/// The privacy score of a wallet with `n` unspent notes: 100, less 20
/// below five notes and less 10 above a hundred.
pub open spec fn privacy_score_for(n: int) -> u8 {
    if n < 5 {
        80
    } else if n > 100 {
        90
    } else {
        100
    }
}

pub struct NozyWallet {
    config: NozyConfig,
    storage: WalletStorage,
    note_manager: NoteManager,
    address_manager: AddressManager,
    transaction_builder: TransactionBuilder,
    zebra_client: ZebraClient,
    status: WalletStatus,
    privacy_level: PrivacyLevel,
    /// Masks by name; no name occurs twice.
    privacy_masks: Vec<PrivacyMask>,
    stealth_addresses: Vec<StealthAddress>,
    pub hd_wallet: Option<HDWallet>,
    seed_phrase: Option<String>,
    seed_hash: Option<String>,
}

impl NozyWallet {
    pub closed spec fn ledger(&self) -> NoteManager {
        self.note_manager
    }

    pub closed spec fn address_book(&self) -> AddressManager {
        self.address_manager
    }

    pub closed spec fn builder(&self) -> TransactionBuilder {
        self.transaction_builder
    }

    pub closed spec fn client(&self) -> ZebraClient {
        self.zebra_client
    }

    pub closed spec fn status_view(&self) -> WalletStatus {
        self.status
    }

    pub closed spec fn privacy(&self) -> PrivacyLevel {
        self.privacy_level
    }

    /// The names of the privacy masks.
    pub closed spec fn mask_names(&self) -> Seq<Seq<char>> {
        self.privacy_masks@.map_values(|m: PrivacyMask| m.name@)
    }

    pub closed spec fn stealth_count(&self) -> nat {
        self.stealth_addresses@.len()
    }

    pub closed spec fn phrase(&self) -> Option<Seq<char>> {
        match self.seed_phrase {
            Some(p) => Some(p@),
            None => None,
        }
    }

    pub closed spec fn fingerprint(&self) -> Option<Seq<char>> {
        match self.seed_hash {
            Some(h) => Some(h@),
            None => None,
        }
    }

    pub closed spec fn wf(&self) -> bool {
        &&& self.note_manager.wf()
        &&& self.address_manager.wf()
        &&& self.storage.wf()
        &&& forall|i: int, j: int|
            0 <= i < self.privacy_masks@.len() && 0 <= j < self.privacy_masks@.len() && i != j
                ==> self.privacy_masks@[i].name@ != self.privacy_masks@[j].name@
    }

    /// The status counts agree with the ledger and the address book.
    pub open spec fn status_current(&self) -> bool {
        &&& self.status_view().total_balance == sum_values(unspent(self.ledger().notes_view()))
        &&& self.status_view().address_count == self.address_book().addresses_view().len()
        &&& self.status_view().note_count == unspent(self.ledger().notes_view()).len()
    }

    /// A wallet on the standard test mnemonic, with an empty ledger and
    /// address book, on the configured network and privacy level.
    pub fn new(config: NozyConfig) -> (r: NozyResult<Self>)
        ensures
            r is Ok <==> (bip39_seed_of(standard_mnemonic()) matches Some(seed) && bip32_master_of(
                seed,
            ) is Some),
            r matches Ok(w) ==> {
                &&& w.wf()
                &&& w.ledger().notes_view().len() == 0
                &&& w.address_book().addresses_view().len() == 0
                &&& w.privacy() == config.network.default_privacy
                &&& w.builder().current() is None
                &&& !w.client().connected
                &&& !w.status_view().initialized
                &&& w.mask_names().len() == 0
            },
    {
        let zebra_client = ZebraClient::new(ZebraConfig::default());
        let note_manager = match NoteManager::new(&config) {
            Ok(m) => m,
            Err(e) => {
                return Err(e);
            },
        };
        let hd_wallet = match HDWallet::new_from_seed(
            "abandon abandon abandon abandon abandon abandon abandon abandon abandon abandon abandon about",
            "testnet",
        ) {
            Ok(h) => h,
            Err(e) => {
                return Err(e);
            },
        };
        let testnet = String::from_str("testnet");
        let network = if config.network.network == testnet {
            NetworkType::Testnet
        } else {
            NetworkType::Mainnet
        };
        let address_manager = AddressManager::new(hd_wallet, network);
        let privacy_level = config.network.default_privacy;
        let transaction_builder = TransactionBuilder::new(privacy_level);
        let w = NozyWallet {
            config,
            storage: WalletStorage::new(),
            note_manager,
            address_manager,
            transaction_builder,
            zebra_client,
            status: WalletStatus {
                initialized: false,
                total_balance: 0,
                address_count: 0,
                note_count: 0,
                last_sync: None,
            },
            privacy_level,
            privacy_masks: Vec::new(),
            stealth_addresses: Vec::new(),
            hd_wallet: None,
            seed_phrase: None,
            seed_hash: None,
        };
        assert(w.mask_names() =~= Seq::<Seq<char>>::empty());
        Ok(w)
    }

    /// Refreshes the status counts.
    fn update_status(&mut self) -> (r: NozyResult<()>)
        requires
            old(self).wf(),
        ensures
            r is Ok,
            final(self).wf(),
            final(self).status_current(),
            final(self).status_view().initialized == old(self).status_view().initialized,
            final(self).ledger() == old(self).ledger(),
            final(self).address_book() == old(self).address_book(),
            final(self).builder() == old(self).builder(),
            final(self).client() == old(self).client(),
            final(self).privacy() == old(self).privacy(),
            final(self).mask_names() == old(self).mask_names(),
    {
        self.status.total_balance = self.note_manager.get_total_balance();
        let addresses = self.address_manager.get_all_addresses();
        assert(addresses@.map_values(|a: &ZcashAddressWrapper| a@).len() == addresses@.len());
        self.status.address_count = addresses.len();
        let notes = self.note_manager.get_unspent_notes();
        assert(ref_views(notes@).len() == notes@.len());
        self.status.note_count = notes.len();
        Ok(())
    }

    /// Records whether the node answered, and marks the wallet initialized
    /// and synced where it did.
    pub fn initialize(&mut self, node_reachable: bool) -> (r: NozyResult<()>)
        requires
            old(self).wf(),
        ensures
            final(self).wf(),
            r is Ok <==> node_reachable,
            final(self).client().connected == node_reachable,
            r is Ok ==> final(self).status_view().initialized && final(self).status_current(),
    {
        match self.zebra_client.record_connection(node_reachable) {
            Ok(_) => {},
            Err(e) => {
                return Err(e);
            },
        }
        self.status.initialized = true;
        self.status.last_sync = Some(String::from_str("now"));
        self.update_status()
    }

    pub fn get_status(&self) -> (r: &WalletStatus)
        ensures
            *r == self.status_view(),
    {
        &self.status
    }

    /// Issues an address for a privacy level: Sapling at `High`, Orchard
    /// otherwise, with the default password.
    pub fn create_address(&mut self, privacy_level: PrivacyLevel) -> (r: NozyResult<
        ZcashAddressWrapper,
    >)
        requires
            old(self).wf(),
        ensures
            final(self).wf(),
            final(self).ledger() == old(self).ledger(),
            r is Ok <==> wallet_seed(&old(self).address_book().wallet()) is Some && old(
                self,
            ).address_book().count_of(address_type_for(privacy_level)) < u32::MAX,
            r is Err ==> final(self).address_book().addresses_view() == old(
                self,
            ).address_book().addresses_view(),
            r matches Ok(a) ==> a@.address_type == address_type_for(privacy_level),
            r is Ok ==> final(self).status_current(),
            r matches Ok(a) ==> final(self).address_book().addresses_view() == crate::addresses::with_address(
                old(self).address_book().addresses_view(),
                a@,
            ),
    {
        let address = match privacy_level {
            PrivacyLevel::High => self.address_manager.generate_sapling_address("default_password"),
            _ => self.address_manager.generate_orchard_address("default_password"),
        };
        match address {
            Ok(a) => {
                let _ = self.update_status();
                Ok(a)
            },
            Err(e) => Err(e),
        }
    }

    /// Stores a note in the ledger.
    pub fn add_note(&mut self, note: ShieldedNote) -> (r: NozyResult<()>)
        requires
            old(self).wf(),
        ensures
            final(self).wf(),
            r is Ok <==> crate::notes::spend_consistent(note@) && sum_values(
                crate::notes::with_note(old(self).ledger().notes_view(), note@),
            ) <= u64::MAX,
            r is Ok ==> final(self).ledger().notes_view() == crate::notes::with_note(
                old(self).ledger().notes_view(),
                note@,
            ) && final(self).status_current(),
            r is Err ==> final(self).ledger().notes_view() == old(self).ledger().notes_view(),
    {
        match self.note_manager.add_note(note) {
            Ok(_) => self.update_status(),
            Err(e) => Err(e),
        }
    }

    pub fn get_balance(&self) -> (r: u64)
        requires
            self.wf(),
        ensures
            r == sum_values(unspent(self.ledger().notes_view())),
    {
        self.note_manager.get_total_balance()
    }

    pub fn get_balance_by_type(&self, note_type: NoteType) -> (r: u64)
        requires
            self.wf(),
        ensures
            r == sum_values(crate::notes::unspent_of_type(self.ledger().notes_view(), note_type)),
    {
        self.note_manager.get_balance_by_type(note_type)
    }

    pub fn get_addresses(&self) -> (r: Vec<&ZcashAddressWrapper>)
        ensures
            r@.map_values(|a: &ZcashAddressWrapper| a@) == self.address_book().addresses_view(),
    {
        self.address_manager.get_all_addresses()
    }

    /// The unspent notes.
    pub fn get_notes(&self) -> (r: Vec<&ShieldedNote>)
        ensures
            ref_views(r@) == unspent(self.ledger().notes_view()),
    {
        self.note_manager.get_unspent_notes()
    }

    pub fn start_transaction(&mut self, privacy_level: Option<PrivacyLevel>) -> (r: NozyResult<()>)
        requires
            old(self).wf(),
        ensures
            final(self).wf(),
            r is Ok,
            final(self).builder().current() is Some,
            final(self).ledger() == old(self).ledger(),
    {
        self.transaction_builder.start_transaction(privacy_level)
    }

    pub fn add_transaction_input(&mut self, note: ShieldedNote) -> (r: NozyResult<()>)
        requires
            old(self).wf(),
        ensures
            final(self).wf(),
            r is Ok <==> old(self).builder().current() is Some,
            final(self).ledger() == old(self).ledger(),
    {
        self.transaction_builder.add_input(note)
    }

    pub fn add_transaction_output(
        &mut self,
        address: ZcashAddressWrapper,
        amount: u64,
        note_type: NoteType,
    ) -> (r: NozyResult<()>)
        requires
            old(self).wf(),
        ensures
            final(self).wf(),
            r is Ok <==> old(self).builder().current() is Some,
            final(self).ledger() == old(self).ledger(),
    {
        self.transaction_builder.add_output(address, amount, note_type)
    }

    pub fn set_transaction_fee(&mut self, fee: u64) -> (r: NozyResult<()>)
        requires
            old(self).wf(),
        ensures
            final(self).wf(),
            r is Ok <==> old(self).builder().current() is Some,
            final(self).ledger() == old(self).ledger(),
    {
        self.transaction_builder.set_fee(fee)
    }

    pub fn finalize_transaction(&mut self) -> (r: NozyResult<ShieldedTransaction>)
        requires
            old(self).wf(),
        ensures
            final(self).wf(),
            r is Ok <==> old(self).builder().current() is Some,
            final(self).builder().current() is None,
            final(self).ledger() == old(self).ledger(),
    {
        self.transaction_builder.finalize()
    }

    /// Hands a transaction to the node; fails while disconnected. The node
    /// client does not read the payload, so none is encoded.
    pub fn broadcast_transaction(&mut self, transaction: &ShieldedTransaction) -> (r: NozyResult<String>)
        ensures
            r is Ok <==> old(self).client().connected,
    {
        let payload: Vec<u8> = Vec::new();
        self.zebra_client.broadcast_transaction(payload.as_slice())
    }

    /// Records whether the node answered a connection check.
    pub fn check_zebra_connection(&mut self, node_reachable: bool) -> (r: NozyResult<bool>)
        requires
            old(self).wf(),
        ensures
            final(self).wf(),
            final(self).client().connected == node_reachable,
            r is Ok <==> node_reachable,
    {
        self.zebra_client.record_connection(node_reachable)
    }

    /// The node status its reported block count shows.
    pub fn get_zebra_status(&self, blocks: Option<u32>) -> (r: NozyResult<ZebraStatus>)
        ensures
            r is Ok <==> self.client().connected,
    {
        self.zebra_client.status_from_blocks(blocks)
    }

    /// Refreshes the status and stamps the sync.
    pub fn sync_wallet(&mut self) -> (r: NozyResult<()>)
        requires
            old(self).wf(),
        ensures
            r is Ok,
            final(self).wf(),
            final(self).status_current(),
            final(self).status_view().last_sync is Some,
    {
        let _ = self.update_status();
        self.status.last_sync = Some(String::from_str("now"));
        Ok(())
    }

    pub fn set_privacy_level(&mut self, level: PrivacyLevel) -> (r: NozyResult<()>)
        requires
            old(self).wf(),
        ensures
            r is Ok,
            final(self).wf(),
            final(self).privacy() == level,
    {
        self.privacy_level = level;
        Ok(())
    }

    pub fn get_privacy_level(&self) -> (r: PrivacyLevel)
        ensures
            r == self.privacy(),
    {
        self.privacy_level
    }

    /// Counts the unspent notes and their value, and scores the spread.
    pub fn run_privacy_audit(&self) -> (r: NozyResult<PrivacyAuditReport>)
        requires
            self.wf(),
        ensures
            r matches Ok(a) && a == (PrivacyAuditReport {
                total_notes: unspent(self.ledger().notes_view()).len() as usize,
                active_notes: unspent(self.ledger().notes_view()).len() as usize,
                inactive_notes: 0,
                total_zec: sum_values(unspent(self.ledger().notes_view())) as u64,
                active_zec: sum_values(unspent(self.ledger().notes_view())) as u64,
                inactive_zec: 0,
                score: privacy_score_for(unspent(self.ledger().notes_view()).len() as int),
            }),
    {
        let notes = self.note_manager.get_unspent_notes();
        assert(ref_views(notes@).len() == notes@.len());
        let total_notes = notes.len();
        let total_zec = self.note_manager.get_total_balance();
        let score: u8 = if total_notes < 5 {
            80
        } else if total_notes > 100 {
            90
        } else {
            100
        };
        Ok(
            PrivacyAuditReport {
                total_notes,
                active_notes: total_notes,
                inactive_notes: 0,
                total_zec,
                active_zec: total_zec,
                inactive_zec: 0,
                score,
            },
        )
    }

    pub fn get_privacy_score(&self) -> (r: u8)
        requires
            self.wf(),
        ensures
            r == privacy_score_for(unspent(self.ledger().notes_view()).len() as int),
    {
        match self.run_privacy_audit() {
            Ok(a) => a.score,
            Err(_) => 0,
        }
    }

    /// Advice on the wallet's privacy: more notes below five, fewer above
    /// fifty, and the maximum level where another is set.
    pub fn analyze_privacy(&self) -> (r: NozyResult<Vec<String>>)
        ensures
            r matches Ok(v) && v@.len() == (if unspent(self.ledger().notes_view()).len() < 5 {
                1int
            } else {
                0
            }) + (if unspent(self.ledger().notes_view()).len() > 50 {
                1int
            } else {
                0
            }) + (if self.privacy() != PrivacyLevel::Maximum {
                1int
            } else {
                0
            }),
    {
        let mut recommendations: Vec<String> = Vec::new();
        let notes = self.note_manager.get_unspent_notes();
        assert(ref_views(notes@).len() == notes@.len());
        if notes.len() < 5 {
            recommendations.push(
                String::from_str("Consider creating more addresses for better privacy"),
            );
        }
        if notes.len() > 50 {
            recommendations.push(String::from_str("Consider consolidating notes to improve privacy"));
        }
        if self.privacy_level != PrivacyLevel::Maximum {
            recommendations.push(
                String::from_str("Consider using maximum privacy level for sensitive transactions"),
            );
        }
        Ok(recommendations)
    }

    fn mask_index(&self, name: &String) -> (r: Option<usize>)
        requires
            self.wf(),
        ensures
            r is None ==> !self.mask_names().contains(name@),
            r matches Some(i) ==> i < self.mask_names().len() && self.mask_names()[i as int] == name@,
    {
        let mut i: usize = 0;
        while i < self.privacy_masks.len()
            invariant
                i <= self.privacy_masks@.len(),
                forall|j: int| 0 <= j < i ==> (#[trigger] self.privacy_masks@[j]).name@ != name@,
            decreases self.privacy_masks@.len() - i,
        {
            if self.privacy_masks[i].name == *name {
                return Some(i);
            }
            i = i + 1;
        }
        assert forall|j: int| 0 <= j < self.mask_names().len() implies self.mask_names()[j] != name@ by {
            assert(self.privacy_masks@[j].name@ != name@);
        }
        None
    }

    /// Adds a privacy mask, replacing the one with the same name.
    pub fn create_privacy_mask(&mut self, name: String, mask_type: PrivacyMaskType) -> (r: NozyResult<()>)
        requires
            old(self).wf(),
        ensures
            r is Ok,
            final(self).wf(),
            final(self).mask_names().contains(name@),
            final(self).ledger() == old(self).ledger(),
    {
        let ghost n = name@;
        let mask = PrivacyMask { name, mask_type, config: HashMap::new() };
        match self.mask_index(&mask.name) {
            Some(i) => {
                let ghost before = self.privacy_masks@;
                self.privacy_masks.set(i, mask);
                assert(self.mask_names()[i as int] == n);
                assert forall|p: int, q: int|
                    0 <= p < self.privacy_masks@.len() && 0 <= q < self.privacy_masks@.len() && p != q
                        implies self.privacy_masks@[p].name@ != self.privacy_masks@[q].name@ by {
                    assert(before[i as int].name@ == n);
                    if p != i as int {
                        assert(self.privacy_masks@[p] == before[p]);
                    }
                    if q != i as int {
                        assert(self.privacy_masks@[q] == before[q]);
                    }
                }
            },
            None => {
                let ghost before = self.privacy_masks@;
                let ghost names = self.mask_names();
                self.privacy_masks.push(mask);
                assert(self.mask_names()[before.len() as int] == n);
                assert forall|p: int, q: int|
                    0 <= p < self.privacy_masks@.len() && 0 <= q < self.privacy_masks@.len() && p != q
                        implies self.privacy_masks@[p].name@ != self.privacy_masks@[q].name@ by {
                    if p < before.len() {
                        assert(self.privacy_masks@[p] == before[p]);
                        assert(names[p] == before[p].name@);
                    }
                    if q < before.len() {
                        assert(self.privacy_masks@[q] == before[q]);
                        assert(names[q] == before[q].name@);
                    }
                }
            },
        }
        Ok(())
    }

    pub fn get_privacy_masks(&self) -> (r: Vec<&PrivacyMask>)
        ensures
            r@.map_values(|m: &PrivacyMask| m.name@) == self.mask_names(),
    {
        let mut r: Vec<&PrivacyMask> = Vec::new();
        let mut i: usize = 0;
        while i < self.privacy_masks.len()
            invariant
                i <= self.privacy_masks@.len(),
                r@.map_values(|m: &PrivacyMask| m.name@) == self.mask_names().take(i as int),
            decreases self.privacy_masks@.len() - i,
        {
            let ghost before = r@;
            r.push(&self.privacy_masks[i]);
            assert(r@.map_values(|m: &PrivacyMask| m.name@) =~= before.map_values(
                |m: &PrivacyMask| m.name@,
            ).push(self.mask_names()[i as int]));
            assert(self.mask_names().take(i + 1) =~= self.mask_names().take(i as int).push(
                self.mask_names()[i as int],
            ));
            i = i + 1;
        }
        assert(self.mask_names().take(i as int) =~= self.mask_names());
        r
    }

    /// Fails where no mask has the name.
    pub fn apply_privacy_mask(&mut self, mask_name: &str) -> (r: NozyResult<()>)
        requires
            old(self).wf(),
        ensures
            final(self).wf(),
            r is Ok <==> old(self).mask_names().contains(mask_name@),
    {
        let key = String::from_str(mask_name);
        match self.mask_index(&key) {
            Some(_) => Ok(()),
            None => Err(NozyError::InvalidOperation(String::from_str("Privacy mask not found"))),
        }
    }

    /// Removes the mask with the name; fails where there is none.
    pub fn delete_privacy_mask(&mut self, mask_name: &str) -> (r: NozyResult<()>)
        requires
            old(self).wf(),
        ensures
            final(self).wf(),
            r is Ok <==> old(self).mask_names().contains(mask_name@),
            !final(self).mask_names().contains(mask_name@),
    {
        let key = String::from_str(mask_name);
        match self.mask_index(&key) {
            Some(i) => {
                let ghost before = self.privacy_masks@;
                let ghost names = self.mask_names();
                self.privacy_masks.remove(i);
                assert forall|p: int, q: int|
                    0 <= p < self.privacy_masks@.len() && 0 <= q < self.privacy_masks@.len() && p != q
                        implies self.privacy_masks@[p].name@ != self.privacy_masks@[q].name@ by {
                    let op = if p < i { p } else { p + 1 };
                    let oq = if q < i { q } else { q + 1 };
                    assert(self.privacy_masks@[p] == before[op]);
                    assert(self.privacy_masks@[q] == before[oq]);
                }
                assert forall|j: int| 0 <= j < self.mask_names().len() implies self.mask_names()[j]
                    != mask_name@ by {
                    let oj = if j < i { j } else { j + 1 };
                    assert(self.privacy_masks@[j] == before[oj]);
                    assert(names[oj] == before[oj].name@);
                    assert(oj != i as int);
                }
                Ok(())
            },
            None => Err(NozyError::InvalidOperation(String::from_str("Privacy mask not found"))),
        }
    }

    /// A new stealth address, numbered by how many there are.
    pub fn generate_stealth_address(&mut self, label: Option<String>) -> (r: NozyResult<
        StealthAddress,
    >)
        requires
            old(self).wf(),
        ensures
            final(self).wf(),
            final(self).stealth_count() == old(self).stealth_count() + 1,
            r matches Ok(s) && s.address@ == "stealth_"@ + crate::crypto::decimal_of(
                old(self).stealth_count(),
            ),
    {
        let n = self.stealth_addresses.len();
        let address = String::from_str("stealth_").concat(
            crate::crypto::u64_to_decimal(n as u64).as_str(),
        );
        let created_at = now_rfc3339();
        let stealth = StealthAddress { address: address.clone(), label: label.clone(), created_at: created_at.clone() };
        self.stealth_addresses.push(stealth);
        Ok(StealthAddress { address, label, created_at })
    }

    pub fn get_stealth_addresses(&self) -> (r: Vec<&StealthAddress>)
        ensures
            r@.len() == self.stealth_count(),
    {
        let mut r: Vec<&StealthAddress> = Vec::new();
        let mut i: usize = 0;
        while i < self.stealth_addresses.len()
            invariant
                i <= self.stealth_addresses@.len(),
                r@.len() == i,
            decreases self.stealth_addresses@.len() - i,
        {
            r.push(&self.stealth_addresses[i]);
            i = i + 1;
        }
        r
    }

    pub fn get_seed_phrase(&self) -> (r: Option<&String>)
        ensures
            match r {
                Some(p) => self.phrase() == Some(p@),
                None => self.phrase() is None,
            },
    {
        self.seed_phrase.as_ref()
    }

    /// Whether the phrase is the one whose fingerprint the wallet keeps.
    pub fn verify_seed_phrase(&self, seed_phrase: &str) -> (r: bool)
        ensures
            r == (self.fingerprint() == Some(seed_fingerprint(seed_phrase@))),
    {
        match &self.seed_hash {
            Some(stored) => {
                let input = hash_seed(seed_phrase);
                *stored == input
            },
            None => false,
        }
    }

    /// A fresh mnemonic, kept with its fingerprint and the wallet it
    /// restores.
    pub fn generate_seed_phrase(&mut self) -> (r: NozyResult<String>)
        requires
            old(self).wf(),
        ensures
            final(self).wf(),
            r matches Ok(p) ==> final(self).phrase() == Some(p@) && final(self).fingerprint()
                == Some(seed_fingerprint(p@)),
    {
        let phrase = match HDWallet::generate_seed() {
            Ok(p) => p,
            Err(e) => {
                return Err(e);
            },
        };
        let wallet = match HDWallet::new_from_seed(phrase.as_str(), "testnet") {
            Ok(w) => w,
            Err(e) => {
                return Err(e);
            },
        };
        self.seed_phrase = Some(phrase.clone());
        self.seed_hash = Some(hash_seed(phrase.as_str()));
        self.hd_wallet = Some(wallet);
        Ok(phrase)
    }

    /// Restores the wallet from its phrase; fails where the phrase does not
    /// match the kept fingerprint.
    pub fn recover_from_seed(&mut self, seed_phrase: &str) -> (r: NozyResult<()>)
        requires
            old(self).wf(),
        ensures
            final(self).wf(),
            !(old(self).fingerprint() == Some(seed_fingerprint(seed_phrase@))) ==> r is Err,
            r is Ok ==> final(self).phrase() == Some(seed_phrase@) && final(self).status_view().initialized,
    {
        if !self.verify_seed_phrase(seed_phrase) {
            return Err(NozyError::InvalidOperation(String::from_str("Invalid seed phrase")));
        }
        self.seed_phrase = Some(String::from_str(seed_phrase));
        let wallet = match HDWallet::new_from_seed(seed_phrase, "testnet") {
            Ok(w) => w,
            Err(e) => {
                return Err(e);
            },
        };
        self.hd_wallet = Some(wallet);
        self.status.initialized = true;
        Ok(())
    }

    /// The number of notes a consolidation round reports.
    pub fn consolidate_notes(&mut self, force: bool) -> (r: NozyResult<usize>)
        ensures
            r matches Ok(n) && n == (if force { 5usize } else { 3usize }),
    {
        Ok(if force { 5 } else { 3 })
    }

    pub fn mix_notes(&mut self, rounds: u32) -> (r: NozyResult<()>)
        ensures
            r is Ok,
    {
        Ok(())
    }

    pub fn send_to_stealth_address(&mut self, address: &str, amount: u64) -> (r: NozyResult<()>)
        ensures
            r is Ok,
    {
        Ok(())
    }

    /// The chain height the wallet assumes.
    pub fn get_block_height(&self) -> (r: NozyResult<u32>)
        ensures
            r matches Ok(h) && h == 822400,
    {
        Ok(822400)
    }

    /// What the wallet reports of a block: its identifier as hash and, where
    /// the identifier is a number, as height.
    pub fn get_block_info(&self, identifier: &str) -> (r: NozyResult<BlockInfo>)
        ensures
            r matches Ok(b) && b.hash@ == "block_"@ + identifier@ && b.height == (match u32_parse_of(
                identifier@,
            ) {
                Some(h) => h,
                None => 0,
            }) && b.transaction_count == 100,
    {
        let height = match parse_u32(identifier) {
            Some(h) => h,
            None => 0,
        };
        Ok(
            BlockInfo {
                hash: String::from_str("block_").concat(identifier),
                height,
                timestamp: now_rfc3339(),
                transaction_count: 100,
            },
        )
    }

    pub fn get_transaction_info(&self, txid: &str) -> (r: NozyResult<TransactionInfo>)
        ensures
            r matches Ok(t) && t.id@ == txid@ && t.block_height == 822400 && t.value == 1000000,
    {
        let mut inputs: Vec<String> = Vec::new();
        inputs.push(String::from_str("input1"));
        let mut outputs: Vec<String> = Vec::new();
        outputs.push(String::from_str("output1"));
        Ok(
            TransactionInfo {
                id: String::from_str(txid),
                block_hash: String::from_str("block_hash"),
                block_height: 822400,
                timestamp: now_rfc3339(),
                value: 1000000,
                inputs,
                outputs,
            },
        )
    }

    pub fn get_network_supply(&self) -> (r: NozyResult<NetworkSupply>)
        ensures
            r matches Ok(s) && s == (NetworkSupply {
                total_supply: 21_000_000_000_000_000,
                circulating_supply: 20_000_000_000_000_000,
                locked_supply: 1_000_000_000_000_000,
            }),
    {
        Ok(
            NetworkSupply {
                total_supply: 21_000_000_000_000_000,
                circulating_supply: 20_000_000_000_000_000,
                locked_supply: 1_000_000_000_000_000,
            },
        )
    }

    pub fn get_mempool_info(&self) -> (r: NozyResult<MempoolInfo>)
        ensures
            r matches Ok(m) && m == (MempoolInfo {
                transaction_count: 150,
                total_size: 1048576,
                average_fee: 1000,
            }),
    {
        Ok(MempoolInfo { transaction_count: 150, total_size: 1048576, average_fee: 1000 })
    }

    pub fn get_network_peers(&self) -> (r: NozyResult<Vec<NetworkPeer>>)
        ensures
            r matches Ok(v) && v@.len() == 1 && v@[0].address@ == "127.0.0.1:18233"@,
    {
        let mut peers: Vec<NetworkPeer> = Vec::new();
        peers.push(
            NetworkPeer {
                address: String::from_str("127.0.0.1:18233"),
                status: String::from_str("Connected"),
            },
        );
        Ok(peers)
    }

    /// One entry: the current balance and unspent-note count.
    pub fn get_balance_history(&self, period: &str) -> (r: NozyResult<Vec<BalanceHistoryEntry>>)
        requires
            self.wf(),
        ensures
            r matches Ok(v) && v@.len() == 1 && v@[0].total_balance == sum_values(
                unspent(self.ledger().notes_view()),
            ) && v@[0].zec_value == v@[0].total_balance && v@[0].note_count == unspent(
                self.ledger().notes_view(),
            ).len(),
    {
        let balance = self.note_manager.get_total_balance();
        let notes = self.note_manager.get_unspent_notes();
        assert(ref_views(notes@).len() == notes@.len());
        let mut v: Vec<BalanceHistoryEntry> = Vec::new();
        v.push(
            BalanceHistoryEntry {
                date: now_rfc3339(),
                total_balance: balance,
                note_count: notes.len(),
                zec_value: balance,
            },
        );
        Ok(v)
    }

    /// One entry: the current privacy score.
    pub fn get_privacy_score_history(&self, period: &str) -> (r: NozyResult<Vec<PrivacyScoreEntry>>)
        requires
            self.wf(),
        ensures
            r matches Ok(v) && v@.len() == 1 && v@[0].score == privacy_score_for(
                unspent(self.ledger().notes_view()).len() as int,
            ),
    {
        let mut v: Vec<PrivacyScoreEntry> = Vec::new();
        v.push(PrivacyScoreEntry { date: now_rfc3339(), score: self.get_privacy_score() });
        Ok(v)
    }

    pub fn get_transaction_patterns(&self) -> (r: NozyResult<HashMap<String, TransactionPatternData>>)
        ensures
            r is Ok,
    {
        let mut patterns: HashMap<String, TransactionPatternData> = HashMap::new();
        patterns.insert(
            String::from_str("Daily"),
            TransactionPatternData { total_transactions: 5, average_value: 1000000, total_zec: 5000000 },
        );
        Ok(patterns)
    }

    pub fn get_network_usage(&self) -> (r: NozyResult<NetworkUsage>)
        ensures
            r matches Ok(u) && u == (NetworkUsage {
                total_transactions: 10,
                total_zec: 10000000,
                average_transaction_size: 1024,
            }),
    {
        Ok(NetworkUsage { total_transactions: 10, total_zec: 10000000, average_transaction_size: 1024 })
    }

    pub fn get_performance_metrics(&self) -> (r: NozyResult<PerformanceMetrics>)
        ensures
            r matches Ok(m) && m == (PerformanceMetrics {
                sync_time: 1000,
                transaction_processing_time: 500,
                memory_usage: 50,
            }),
    {
        Ok(PerformanceMetrics { sync_time: 1000, transaction_processing_time: 500, memory_usage: 50 })
    }

    /// An identifier for a simulated transfer: "sim_tx_" and the time.
    pub fn simulate_transaction(&mut self, to: &str, amount: u64) -> (r: NozyResult<String>)
        ensures
            r matches Ok(t) && exists|ts: int| t@ == "sim_tx_"@ + #[trigger] crate::crypto::signed_decimal_of(ts),
    {
        let ts = crate::crypto::unix_timestamp_now();
        let digits = crate::crypto::i64_to_decimal(ts);
        let id = String::from_str("sim_tx_").concat(digits.as_str());
        assert(id@ == "sim_tx_"@ + crate::crypto::signed_decimal_of(ts as int));
        Ok(id)
    }

    /// The identifiers "stress_tx_0" up to `count` of them.
    pub fn run_stress_test(&mut self, count: u32) -> (r: NozyResult<Vec<String>>)
        ensures
            r matches Ok(v) && v@.len() == count && forall|i: int|
                0 <= i < count ==> (#[trigger] v@[i])@ == "stress_tx_"@ + decimal_of(i as nat),
    {
        let mut ids: Vec<String> = Vec::new();
        let mut i: u32 = 0;
        while i < count
            invariant
                i <= count,
                ids@.len() == i,
                forall|j: int| 0 <= j < i ==> (#[trigger] ids@[j])@ == "stress_tx_"@ + decimal_of(j as nat),
            decreases count - i,
        {
            ids.push(String::from_str("stress_tx_").concat(u64_to_decimal(i as u64).as_str()));
            i = i + 1;
        }
        Ok(ids)
    }

    pub fn debug_note_issues(&mut self) -> (r: NozyResult<Vec<String>>)
        ensures
            r matches Ok(v) && v@.len() == 1 && v@[0]@ == "No issues found"@,
    {
        let mut v: Vec<String> = Vec::new();
        v.push(String::from_str("No issues found"));
        Ok(v)
    }

    pub fn run_performance_benchmark(&mut self) -> (r: NozyResult<PerformanceMetrics>)
        ensures
            r matches Ok(m) && m == (PerformanceMetrics {
                sync_time: 800,
                transaction_processing_time: 400,
                memory_usage: 45,
            }),
    {
        Ok(PerformanceMetrics { sync_time: 800, transaction_processing_time: 400, memory_usage: 45 })
    }

    pub fn get_debug_logs(&self) -> (r: NozyResult<Vec<String>>)
        ensures
            r matches Ok(v) && v@.len() == 2,
    {
        let mut v: Vec<String> = Vec::new();
        v.push(String::from_str("Debug log entry 1"));
        v.push(String::from_str("Debug log entry 2"));
        Ok(v)
    }

    /// The status, privacy level and the assumed node figures.
    pub fn get_internal_state(&self) -> (r: NozyResult<InternalState>)
        ensures
            r matches Ok(s) && s.initialized == self.status_view().initialized && s.total_balance
                == self.status_view().total_balance && s.note_count == self.status_view().note_count
                && s.address_count == self.status_view().address_count && s.privacy_level
                == self.privacy() && s.mempool_size == 150 && s.network_peers == 1,
    {
        Ok(
            InternalState {
                initialized: self.status.initialized,
                total_balance: self.status.total_balance,
                note_count: self.status.note_count,
                address_count: self.status.address_count,
                last_sync: match &self.status.last_sync {
                    Some(t) => Some(t.clone()),
                    None => None,
                },
                privacy_level: self.privacy_level,
                mempool_size: 150,
                network_peers: 1,
            },
        )
    }
}

} // verus!
