//! A step-by-step builder for shielded transactions.
use vstd::prelude::*;
use crate::addresses::{AddressView, ZcashAddressWrapper};
use crate::config::PrivacyLevel;
use crate::crypto::{i64_to_decimal, signed_decimal_of, unix_timestamp_now};
use crate::error::{NozyError, NozyResult};
use crate::notes::{NoteType, NoteView, ShieldedNote};

verus! {

#[derive(Debug, Clone)]
pub struct TransactionInput {
    pub note: ShieldedNote,
    pub nullifier: String,
    pub witness: String,
}

#[derive(Debug, Clone)]
pub struct TransactionOutput {
    pub address: ZcashAddressWrapper,
    pub amount: u64,
    pub note_type: NoteType,
    pub memo: Option<String>,
}

#[derive(Debug, Clone)]
pub struct ShieldedTransaction {
    pub txid: String,
    pub inputs: Vec<TransactionInput>,
    pub outputs: Vec<TransactionOutput>,
    pub fee: u64,
    pub privacy_level: PrivacyLevel,
    pub status: TransactionStatus,
}

#[derive(Debug, Clone, Copy, PartialEq, Eq, Structural)]
pub enum TransactionStatus {
    Building,
    Ready,
    Broadcast,
    Confirmed,
    Failed,
}

/// Holds at most one transaction under construction.
#[derive(Debug, Clone)]
pub struct TransactionBuilder {
    current_transaction: Option<ShieldedTransaction>,
    default_privacy: PrivacyLevel,
}

pub struct TxInputView {
    pub note: NoteView,
    pub nullifier: Seq<char>,
    pub witness: Seq<char>,
}

pub struct TxOutputView {
    pub address: AddressView,
    pub amount: u64,
    pub note_type: NoteType,
    pub memo: Option<Seq<char>>,
}

pub struct ShieldedTransactionView {
    pub txid: Seq<char>,
    pub inputs: Seq<TxInputView>,
    pub outputs: Seq<TxOutputView>,
    pub fee: u64,
    pub privacy_level: PrivacyLevel,
    pub status: TransactionStatus,
}

impl View for TransactionInput {
    type V = TxInputView;

    open spec fn view(&self) -> TxInputView {
        TxInputView { note: self.note@, nullifier: self.nullifier@, witness: self.witness@ }
    }
}

impl View for TransactionOutput {
    type V = TxOutputView;

    open spec fn view(&self) -> TxOutputView {
        TxOutputView {
            address: self.address@,
            amount: self.amount,
            note_type: self.note_type,
            memo: match self.memo {
                Some(m) => Some(m@),
                None => None,
            },
        }
    }
}

impl View for ShieldedTransaction {
    type V = ShieldedTransactionView;

    open spec fn view(&self) -> ShieldedTransactionView {
        ShieldedTransactionView {
            txid: self.txid@,
            inputs: self.inputs@.map_values(|i: TransactionInput| i@),
            outputs: self.outputs@.map_values(|o: TransactionOutput| o@),
            fee: self.fee,
            privacy_level: self.privacy_level,
            status: self.status,
        }
    }
}

impl TransactionBuilder {
    /// The transaction under construction, if any.
    pub closed spec fn current(&self) -> Option<ShieldedTransactionView> {
        match self.current_transaction {
            Some(t) => Some(t@),
            None => None,
        }
    }

    pub closed spec fn default_privacy_level(&self) -> PrivacyLevel {
        self.default_privacy
    }

    pub fn new(default_privacy: PrivacyLevel) -> (r: Self)
        ensures
            r.current() is None,
            r.default_privacy_level() == default_privacy,
    {
        TransactionBuilder { current_transaction: None, default_privacy }
    }

    /// Starts an empty transaction, replacing any under construction. Its
    /// identifier is "tx_" and the current Unix time.
    pub fn start_transaction(&mut self, privacy_level: Option<PrivacyLevel>) -> (r: NozyResult<()>)
        ensures
            r is Ok,
            final(self).default_privacy_level() == old(self).default_privacy_level(),
            final(self).current() matches Some(t) && t.inputs.len() == 0 && t.outputs.len() == 0
                && t.fee == 0 && t.status == TransactionStatus::Building && t.privacy_level == (
            match privacy_level {
                Some(p) => p,
                None => old(self).default_privacy_level(),
            }) && exists|ts: int| t.txid == "tx_"@ + #[trigger] signed_decimal_of(ts),
    {
        let privacy = match privacy_level {
            Some(p) => p,
            None => self.default_privacy,
        };
        let ts = unix_timestamp_now();
        let digits = i64_to_decimal(ts);
        let txid = String::from_str("tx_").concat(digits.as_str());
        let tx = ShieldedTransaction {
            txid,
            inputs: Vec::new(),
            outputs: Vec::new(),
            fee: 0,
            privacy_level: privacy,
            status: TransactionStatus::Building,
        };
        assert(tx@.inputs =~= Seq::<TxInputView>::empty());
        assert(tx@.outputs =~= Seq::<TxOutputView>::empty());
        assert(tx@.txid == "tx_"@ + signed_decimal_of(ts as int));
        self.current_transaction = Some(tx);
        Ok(())
    }

    /// Adds `note` as an input of the transaction under construction, with
    /// nullifier "null_" and witness "witness_" followed by the note's id.
    /// Fails where no transaction is under construction.
    pub fn add_input(&mut self, note: ShieldedNote) -> (r: NozyResult<()>)
        ensures
            final(self).default_privacy_level() == old(self).default_privacy_level(),
            r is Ok <==> old(self).current() is Some,
            r matches Err(e) ==> e is InvalidOperation,
            r is Err ==> final(self).current() == old(self).current(),
            r is Ok ==> final(self).current() == Some(
                ShieldedTransactionView {
                    inputs: old(self).current()->Some_0.inputs.push(
                        TxInputView {
                            note: note@,
                            nullifier: "null_"@ + note@.id,
                            witness: "witness_"@ + note@.id,
                        },
                    ),
                    ..old(self).current()->Some_0
                },
            ),
    {
        match &mut self.current_transaction {
            Some(tx) => {
                let ghost before = tx@;
                let nullifier = String::from_str("null_").concat(note.id.as_str());
                let witness = String::from_str("witness_").concat(note.id.as_str());
                let input = TransactionInput { note, nullifier, witness };
                tx.inputs.push(input);
                assert(tx@.inputs =~= before.inputs.push(input@));
                Ok(())
            },
            None => Err(NozyError::InvalidOperation(String::from_str("No transaction in progress"))),
        }
    }

    /// Adds a payment of `amount` to `address`, without a memo. Fails where
    /// no transaction is under construction.
    pub fn add_output(
        &mut self,
        address: ZcashAddressWrapper,
        amount: u64,
        note_type: NoteType,
    ) -> (r: NozyResult<()>)
        ensures
            final(self).default_privacy_level() == old(self).default_privacy_level(),
            r is Ok <==> old(self).current() is Some,
            r matches Err(e) ==> e is InvalidOperation,
            r is Err ==> final(self).current() == old(self).current(),
            r is Ok ==> final(self).current() == Some(
                ShieldedTransactionView {
                    outputs: old(self).current()->Some_0.outputs.push(
                        TxOutputView { address: address@, amount, note_type, memo: None },
                    ),
                    ..old(self).current()->Some_0
                },
            ),
    {
        match &mut self.current_transaction {
            Some(tx) => {
                let ghost before = tx@;
                let output = TransactionOutput { address, amount, note_type, memo: None };
                tx.outputs.push(output);
                assert(tx@.outputs =~= before.outputs.push(output@));
                Ok(())
            },
            None => Err(NozyError::InvalidOperation(String::from_str("No transaction in progress"))),
        }
    }

    /// Sets the fee of the transaction under construction. Fails where no
    /// transaction is under construction.
    pub fn set_fee(&mut self, fee: u64) -> (r: NozyResult<()>)
        ensures
            final(self).default_privacy_level() == old(self).default_privacy_level(),
            r is Ok <==> old(self).current() is Some,
            r matches Err(e) ==> e is InvalidOperation,
            r is Err ==> final(self).current() == old(self).current(),
            r is Ok ==> final(self).current() == Some(
                ShieldedTransactionView { fee, ..old(self).current()->Some_0 },
            ),
    {
        match &mut self.current_transaction {
            Some(tx) => {
                tx.fee = fee;
                Ok(())
            },
            None => Err(NozyError::InvalidOperation(String::from_str("No transaction in progress"))),
        }
    }

    pub fn get_current_transaction(&self) -> (r: Option<&ShieldedTransaction>)
        ensures
            (r is Some) <==> (self.current() is Some),
            r matches Some(t) ==> self.current() == Some(t@),
    {
        self.current_transaction.as_ref()
    }

    /// Hands out the transaction under construction, marked ready, and
    /// clears the builder. Fails where no transaction is under construction.
    pub fn finalize(&mut self) -> (r: NozyResult<ShieldedTransaction>)
        ensures
            final(self).default_privacy_level() == old(self).default_privacy_level(),
            r is Ok <==> old(self).current() is Some,
            r matches Err(e) ==> e is InvalidOperation,
            (final(self).current() is None),
            r matches Ok(t) ==> t@ == (ShieldedTransactionView {
                status: TransactionStatus::Ready,
                ..old(self).current()->Some_0
            }),
    {
        match self.current_transaction.take() {
            Some(tx) => {
                let mut tx = tx;
                tx.status = TransactionStatus::Ready;
                Ok(tx)
            },
            None => Err(NozyError::InvalidOperation(String::from_str("No transaction in progress"))),
        }
    }
}

} // verus!
