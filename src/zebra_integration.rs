//! The wallet's view of a Zebra node: its configuration, the connection
//! state, and what the wallet concludes from the node's answers. The
//! requests themselves are sent by the caller.
use vstd::prelude::*;
use vstd::utf8::encode_utf8;
use crate::crypto::{
    blake2b_64, blake2b_short_digest, decimal_of, hex_decode, hex_decoded, hex_encode, hex_of,
    is_hex_text, u64_to_decimal,
};
use crate::error::{NozyError, NozyResult};
use crate::notes::{byte_seqs, NoteType, NoteView, ShieldedNote};

verus! {

#[derive(Debug, Clone)]
pub struct ZebraConfig {
    pub rpc_endpoint: String,
    pub indexer_endpoint: String,
    pub network: String,
    pub timeout: u64,
}

impl Default for ZebraConfig {
    fn default() -> (r: Self)
        ensures
            r.rpc_endpoint@ == "http://127.0.0.1:18232"@,
            r.indexer_endpoint@ == "http://127.0.0.1:19067"@,
            r.network@ == "testnet"@,
            r.timeout == 30,
    {
        ZebraConfig {
            rpc_endpoint: String::from_str("http://127.0.0.1:18232"),
            indexer_endpoint: String::from_str("http://127.0.0.1:19067"),
            network: String::from_str("testnet"),
            timeout: 30,
        }
    }
}

#[derive(Debug, Clone)]
pub struct ZebraStatus {
    pub connected: bool,
    pub block_height: Option<u32>,
    pub sync_status: SyncStatus,
    pub network: String,
}

#[derive(Debug, Clone, Copy, PartialEq, Eq, Structural)]
pub enum SyncStatus {
    NotSyncing,
    Syncing,
    Synced,
    Error,
}

#[derive(Debug, Clone)]
pub struct ZebraClient {
    pub config: ZebraConfig,
    pub connected: bool,
}

/// The error of a request made while disconnected.
pub open spec fn is_not_connected(e: NozyError) -> bool {
    e matches NozyError::Network(m) && m@ == "Not connected to Zebra"@
}

/// The sync state a reported block count shows: synced past genesis,
/// syncing at genesis, an error where the node reported none.
pub open spec fn sync_status_of(blocks: Option<u32>) -> SyncStatus {
    match blocks {
        Some(b) => if b > 0 {
            SyncStatus::Synced
        } else {
            SyncStatus::Syncing
        },
        None => SyncStatus::Error,
    }
}

fn not_connected() -> (e: NozyError)
    ensures
        is_not_connected(e),
{
    NozyError::Network(String::from_str("Not connected to Zebra"))
}

impl ZebraClient {
    pub fn new(config: ZebraConfig) -> (r: Self)
        ensures
            r.config == config,
            !r.connected,
    {
        ZebraClient { config, connected: false }
    }

    /// Records the outcome of a connection check: whether the node answered
    /// with a success status.
    pub fn record_connection(&mut self, success: bool) -> (r: NozyResult<bool>)
        ensures
            final(self).config == old(self).config,
            final(self).connected == success,
            r is Ok <==> success,
            r matches Ok(b) ==> b,
    {
        self.connected = success;
        if success {
            Ok(true)
        } else {
            Err(NozyError::Network(String::from_str("Zebra RPC returned error status")))
        }
    }

    /// The status the node's reported block count shows.
    pub fn status_from_blocks(&self, blocks: Option<u32>) -> (r: NozyResult<ZebraStatus>)
        ensures
            r is Ok <==> self.connected,
            r matches Err(e) ==> is_not_connected(e),
            r matches Ok(s) ==> s.connected && s.block_height == blocks && s.sync_status
                == sync_status_of(blocks) && s.network@ == self.config.network@,
    {
        if !self.connected {
            return Err(not_connected());
        }
        let sync_status = match blocks {
            Some(b) => if b > 0 {
                SyncStatus::Synced
            } else {
                SyncStatus::Syncing
            },
            None => SyncStatus::Error,
        };
        Ok(
            ZebraStatus {
                connected: self.connected,
                block_height: blocks,
                sync_status,
                network: self.config.network.clone(),
            },
        )
    }

    pub fn get_block_by_height(&self, height: u32) -> (r: NozyResult<Option<String>>)
        ensures
            r is Ok <==> self.connected,
            r matches Err(e) ==> is_not_connected(e),
            r matches Ok(b) ==> b matches Some(s) && s@ == "block_"@ + decimal_of(height as nat),
    {
        if !self.connected {
            return Err(not_connected());
        }
        Ok(Some(String::from_str("block_").concat(u64_to_decimal(height as u64).as_str())))
    }

    pub fn get_transaction(&self, txid: &str) -> (r: NozyResult<Option<String>>)
        ensures
            r is Ok <==> self.connected,
            r matches Err(e) ==> is_not_connected(e),
            r matches Ok(t) ==> t matches Some(s) && s@ == "tx_"@ + txid@,
    {
        if !self.connected {
            return Err(not_connected());
        }
        Ok(Some(String::from_str("tx_").concat(txid)))
    }

    pub fn broadcast_transaction(&self, transaction_data: &[u8]) -> (r: NozyResult<String>)
        ensures
            r is Ok <==> self.connected,
            r matches Err(e) ==> is_not_connected(e),
            r matches Ok(s) ==> s@ == "broadcast_success"@,
    {
        if !self.connected {
            return Err(not_connected());
        }
        Ok(String::from_str("broadcast_success"))
    }

    pub fn estimate_fees(&self, transaction_size: usize) -> (r: NozyResult<u64>)
        ensures
            r is Ok <==> self.connected,
            r matches Err(e) ==> is_not_connected(e),
            r matches Ok(f) ==> f == 1000,
    {
        if !self.connected {
            return Err(not_connected());
        }
        Ok(1000)
    }

    pub fn wait_for_confirmation(&self, txid: &str, confirmations: u32) -> (r: NozyResult<bool>)
        ensures
            r is Ok <==> self.connected,
            r matches Err(e) ==> is_not_connected(e),
            r matches Ok(b) ==> b,
    {
        if !self.connected {
            return Err(not_connected());
        }
        Ok(true)
    }

    pub fn get_network_status(&self) -> (r: NozyResult<String>)
        ensures
            r is Ok <==> self.connected,
            r matches Err(e) ==> is_not_connected(e),
            r matches Ok(s) ==> s@ == "Network operational"@,
    {
        if !self.connected {
            return Err(not_connected());
        }
        Ok(String::from_str("Network operational"))
    }

    pub fn get_mempool_info(&self) -> (r: NozyResult<String>)
        ensures
            r is Ok <==> self.connected,
            r matches Err(e) ==> is_not_connected(e),
            r matches Ok(s) ==> s@ == "Mempool status: normal"@,
    {
        if !self.connected {
            return Err(not_connected());
        }
        Ok(String::from_str("Mempool status: normal"))
    }
}


// ---------------------------------------------------------------------
// Notes reported by the indexer
// ---------------------------------------------------------------------

/// The fields of one note in an indexer answer, as far as they are present
/// with the expected JSON type.
#[derive(Debug, Clone)]
pub struct IndexerNote {
    pub pool: Option<String>,
    pub value: Option<u64>,
    pub commitment: Option<String>,
    pub nullifier: Option<String>,
    pub memo: Option<String>,
    pub txid: Option<String>,
    pub height: Option<u64>,
    pub position: Option<u64>,
    /// The string entries of the reported path.
    pub merkle_path: Option<Vec<String>>,
}

/// The bytes of a hex field, where it is present and decodes.
pub open spec fn hex_field(f: Option<String>) -> Option<Seq<u8>> {
    match f {
        Some(s) => if is_hex_text(encode_utf8(s@)) {
            Some(hex_decoded(encode_utf8(s@)))
        } else {
            None
        },
        None => None,
    }
}

/// The decoded entries of a reported path; entries that do not decode are
/// dropped.
pub open spec fn decoded_path(items: Seq<String>) -> Seq<Seq<u8>>
    decreases items.len(),
{
    if items.len() == 0 {
        Seq::empty()
    } else {
        let rest = decoded_path(items.drop_last());
        match hex_field(Some(items.last())) {
            Some(b) => rest.push(b),
            None => rest,
        }
    }
}

/// The note an indexer entry describes.
pub open spec fn indexer_note_view(f: IndexerNote) -> NoteView {
    let commitment = match hex_field(f.commitment) {
        Some(c) => c,
        None => Seq::empty(),
    };
    NoteView {
        id: "note_"@ + hex_of(blake2b_64(commitment)),
        note_type: if f.pool matches Some(p) && p@ == "orchard"@ {
            NoteType::Orchard
        } else {
            NoteType::Sapling
        },
        value: f.value->Some_0,
        commitment,
        nullifier: hex_field(f.nullifier),
        recipient_address: Seq::empty(),
        memo: match f.memo {
            Some(m) => Some(encode_utf8(m@)),
            None => None,
        },
        randomness: Seq::new(32, |i: int| 0u8),
        created_at_height: match f.height {
            Some(h) => h as u32,
            None => 0,
        },
        spent_at_height: None,
        tx_hash: hex_field(f.txid),
        merkle_path: match f.merkle_path {
            Some(items) => Some(decoded_path(items@)),
            None => None,
        },
        position: f.position,
    }
}

fn decode_field(f: &Option<String>) -> (r: Option<Vec<u8>>)
    ensures
        match r {
            Some(b) => hex_field(*f) == Some(b@),
            None => hex_field(*f) is None,
        },
{
    match f {
        Some(s) => hex_decode(s.as_str().as_bytes()),
        None => None,
    }
}

fn utf8_of(s: &String) -> (r: Vec<u8>)
    ensures
        r@ == encode_utf8(s@),
{
    let mut r: Vec<u8> = Vec::new();
    crate::crypto::append_bytes(&mut r, s.as_str().as_bytes());
    r
}

impl ZebraClient {
    /// The note an indexer entry describes; fails where the entry has no
    /// value.
    pub fn parse_note_from_indexer(&self, note_data: &IndexerNote) -> (r: NozyResult<
        Option<ShieldedNote>,
    >)
        ensures
            r is Ok <==> note_data.value is Some,
            r matches Ok(n) ==> n matches Some(note) && note@ == indexer_note_view(*note_data),
            r matches Err(e) ==> e is Network,
    {
        let is_orchard = match &note_data.pool {
            Some(p) => {
                let orchard = String::from_str("orchard");
                *p == orchard
            },
            None => false,
        };
        let note_type = if is_orchard {
            NoteType::Orchard
        } else {
            NoteType::Sapling
        };
        let value = match note_data.value {
            Some(v) => v,
            None => {
                return Err(NozyError::Network(String::from_str("Missing note value")));
            },
        };
        let commitment = match decode_field(&note_data.commitment) {
            Some(c) => c,
            None => Vec::new(),
        };
        let nullifier = decode_field(&note_data.nullifier);
        let memo = match &note_data.memo {
            Some(m) => Some(utf8_of(m)),
            None => None,
        };
        let tx_hash = decode_field(&note_data.txid);
        let created_at_height: u32 = match note_data.height {
            Some(h) => h as u32,
            None => 0,
        };
        let merkle_path = match &note_data.merkle_path {
            Some(items) => {
                let mut path: Vec<Vec<u8>> = Vec::new();
                let mut k: usize = 0;
                while k < items.len()
                    invariant
                        k <= items@.len(),
                        byte_seqs(path@) == decoded_path(items@.take(k as int)),
                    decreases items@.len() - k,
                {
                    assert(items@.take(k + 1).drop_last() =~= items@.take(k as int));
                    let ghost before = path@;
                    let item = Some(items[k].clone());
                    match decode_field(&item) {
                        Some(b) => {
                            path.push(b);
                            assert(byte_seqs(path@) =~= byte_seqs(before).push(b@));
                        },
                        None => {},
                    }
                    k = k + 1;
                }
                assert(items@.take(k as int) =~= items@);
                Some(path)
            },
            None => None,
        };
        let mut randomness: Vec<u8> = Vec::new();
        let mut i: usize = 0;
        while i < 32
            invariant
                i <= 32,
                randomness@ == Seq::new(i as nat, |j: int| 0u8),
            decreases 32 - i,
        {
            randomness.push(0u8);
            i = i + 1;
            assert(randomness@ =~= Seq::new(i as nat, |j: int| 0u8));
        }
        let digest = blake2b_short_digest(commitment.as_slice());
        let id = String::from_str("note_").concat(hex_encode(digest.as_slice()).as_str());
        let note = ShieldedNote {
            id,
            note_type,
            value,
            commitment,
            nullifier,
            recipient_address: String::new(),
            memo,
            randomness,
            created_at_height,
            spent_at_height: None,
            tx_hash,
            merkle_path,
            position: note_data.position,
        };
        Ok(Some(note))
    }
}

} // verus!
