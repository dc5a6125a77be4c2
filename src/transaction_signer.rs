//! Assembly, digest, signing and checking of shielded transfers.
use vstd::prelude::*;
use vstd::utf8::encode_utf8;
use crate::crypto::{
    append_bytes, blake2b_256, blake2b_digest, decimal_of, ed25519_accepts, ed25519_public_key,
    ed25519_public_of, ed25519_sign, ed25519_signature_of, ed25519_verify, le_bytes,
    u64_le_bytes, u64_to_decimal,
};
use crate::error::{NozyError, NozyResult};
use crate::crypto::{bip32_master_key, bip32_master_of};
use crate::hd_wallet::{change_address, opened_key, AddressType, HDWallet};
use crate::notes::{
    byte_seqs, clone_byte_seqs, clone_bytes, is_selection, lemma_prefix_sum_bound,
    lemma_sum_push, mark_all, note_ids, opt_bytes, ref_views, strategy_or, sum_values, unspent,
    NoteManager, NoteSelectionStrategy, NoteType, NoteView, ShieldedNote,
};

verus! {

/// A note being spent, with its place in the commitment tree.
#[derive(Debug, Clone)]
pub struct ShieldedInput {
    pub note: ShieldedNote,
    pub merkle_path: Vec<Vec<u8>>,
    pub position: u64,
}

/// A payment made by a transfer.
#[derive(Debug, Clone)]
pub struct ShieldedOutput {
    pub address: String,
    pub value: u64,
    pub memo: Option<Vec<u8>>,
    pub address_type: AddressType,
}

/// The signature of one input over the transfer digest.
#[derive(Debug, Clone)]
pub struct TransactionSignature {
    pub signature: Vec<u8>,
    pub public_key: Vec<u8>,
    pub algorithm: SignatureAlgorithm,
    pub tx_hash: Vec<u8>,
}

#[derive(Debug, Clone, Copy, PartialEq, Eq, Structural)]
pub enum SignatureAlgorithm {
    RedPallas,
    RedJubjub,
    EdDSA,
}

/// A transfer: unsigned while `signatures` is empty.
#[derive(Debug, Clone)]
pub struct SignedTransaction {
    pub inputs: Vec<ShieldedInput>,
    pub outputs: Vec<ShieldedOutput>,
    pub fee: u64,
    pub signatures: Vec<TransactionSignature>,
    pub tx_hash: Vec<u8>,
    pub expiry_height: u64,
    pub version: u32,
    pub change_output: Option<ShieldedOutput>,
}

/// A signing key supplied for a derivation path.
#[derive(Debug, Clone)]
pub struct SigningKeyEntry {
    pub path: String,
    /// The 32-byte Ed25519 secret key.
    pub secret: Vec<u8>,
}

pub struct InputView {
    pub note: NoteView,
    pub merkle_path: Seq<Seq<u8>>,
    pub position: u64,
}

pub struct OutputView {
    pub address: Seq<char>,
    pub value: u64,
    pub memo: Option<Seq<u8>>,
    pub address_type: AddressType,
}

pub struct SignatureView {
    pub signature: Seq<u8>,
    pub public_key: Seq<u8>,
    pub algorithm: SignatureAlgorithm,
    pub tx_hash: Seq<u8>,
}

pub struct TransactionView {
    pub inputs: Seq<InputView>,
    pub outputs: Seq<OutputView>,
    pub fee: u64,
    pub signatures: Seq<SignatureView>,
    pub tx_hash: Seq<u8>,
    pub expiry_height: u64,
    pub version: u32,
    pub change_output: Option<OutputView>,
}

pub struct KeyView {
    pub path: Seq<char>,
    pub secret: Seq<u8>,
}

impl View for ShieldedInput {
    type V = InputView;

    open spec fn view(&self) -> InputView {
        InputView {
            note: self.note@,
            merkle_path: byte_seqs(self.merkle_path@),
            position: self.position,
        }
    }
}

impl View for ShieldedOutput {
    type V = OutputView;

    open spec fn view(&self) -> OutputView {
        OutputView {
            address: self.address@,
            value: self.value,
            memo: opt_bytes(self.memo),
            address_type: self.address_type,
        }
    }
}

impl View for TransactionSignature {
    type V = SignatureView;

    open spec fn view(&self) -> SignatureView {
        SignatureView {
            signature: self.signature@,
            public_key: self.public_key@,
            algorithm: self.algorithm,
            tx_hash: self.tx_hash@,
        }
    }
}

impl View for SignedTransaction {
    type V = TransactionView;

    open spec fn view(&self) -> TransactionView {
        TransactionView {
            inputs: self.inputs@.map_values(|i: ShieldedInput| i@),
            outputs: self.outputs@.map_values(|o: ShieldedOutput| o@),
            fee: self.fee,
            signatures: self.signatures@.map_values(|s: TransactionSignature| s@),
            tx_hash: self.tx_hash@,
            expiry_height: self.expiry_height,
            version: self.version,
            change_output: match self.change_output {
                Some(o) => Some(o@),
                None => None,
            },
        }
    }
}

impl View for SigningKeyEntry {
    type V = KeyView;

    open spec fn view(&self) -> KeyView {
        KeyView { path: self.path@, secret: self.secret@ }
    }
}

// ---------------------------------------------------------------------
// The transfer digest
// ---------------------------------------------------------------------

/// Each input's commitment followed by its position (eight little-endian
/// bytes), in order.
pub open spec fn inputs_bytes(inputs: Seq<InputView>) -> Seq<u8>
    decreases inputs.len(),
{
    if inputs.len() == 0 {
        Seq::empty()
    } else {
        let i = inputs.last();
        inputs_bytes(inputs.drop_last()) + i.note.commitment + le_bytes(i.position as nat, 8)
    }
}

pub open spec fn memo_bytes(memo: Option<Seq<u8>>) -> Seq<u8> {
    match memo {
        Some(m) => m,
        None => Seq::empty(),
    }
}

/// Each output's address (UTF-8), value (eight little-endian bytes) and
/// memo, in order.
pub open spec fn outputs_bytes(outputs: Seq<OutputView>) -> Seq<u8>
    decreases outputs.len(),
{
    if outputs.len() == 0 {
        Seq::empty()
    } else {
        let o = outputs.last();
        outputs_bytes(outputs.drop_last()) + encode_utf8(o.address) + le_bytes(o.value as nat, 8)
            + memo_bytes(o.memo)
    }
}

/// The transfer digest over inputs, outputs, fee and expiry height.
pub open spec fn transaction_digest(
    inputs: Seq<InputView>,
    outputs: Seq<OutputView>,
    fee: u64,
    expiry_height: u64,
) -> Seq<u8> {
    blake2b_256(
        inputs_bytes(inputs) + outputs_bytes(outputs) + le_bytes(fee as nat, 8) + le_bytes(
            expiry_height as nat,
            8,
        ),
    )
}

fn calculate_transaction_hash(
    inputs: &Vec<ShieldedInput>,
    outputs: &Vec<ShieldedOutput>,
    fee: u64,
    expiry_height: u64,
) -> (r: Vec<u8>)
    ensures
        r@ == transaction_digest(
            inputs@.map_values(|i: ShieldedInput| i@),
            outputs@.map_values(|o: ShieldedOutput| o@),
            fee,
            expiry_height,
        ),
{
    let ghost iv = inputs@.map_values(|i: ShieldedInput| i@);
    let ghost ov = outputs@.map_values(|o: ShieldedOutput| o@);
    let mut msg: Vec<u8> = Vec::new();
    let mut k: usize = 0;
    while k < inputs.len()
        invariant
            iv == inputs@.map_values(|i: ShieldedInput| i@),
            k <= inputs@.len(),
            msg@ == inputs_bytes(iv.take(k as int)),
        decreases inputs@.len() - k,
    {
        assert(iv.take(k + 1).drop_last() =~= iv.take(k as int));
        append_bytes(&mut msg, inputs[k].note.commitment.as_slice());
        append_bytes(&mut msg, u64_le_bytes(inputs[k].position).as_slice());
        k = k + 1;
        assert(msg@ =~= inputs_bytes(iv.take(k as int)));
    }
    assert(iv.take(inputs@.len() as int) =~= iv);
    let ghost head = msg@;
    let mut k: usize = 0;
    while k < outputs.len()
        invariant
            ov == outputs@.map_values(|o: ShieldedOutput| o@),
            k <= outputs@.len(),
            msg@ == head + outputs_bytes(ov.take(k as int)),
        decreases outputs@.len() - k,
    {
        assert(ov.take(k + 1).drop_last() =~= ov.take(k as int));
        let o = &outputs[k];
        append_bytes(&mut msg, o.address.as_str().as_bytes());
        append_bytes(&mut msg, u64_le_bytes(o.value).as_slice());
        match &o.memo {
            Some(m) => append_bytes(&mut msg, m.as_slice()),
            None => {},
        }
        k = k + 1;
        assert(msg@ =~= head + outputs_bytes(ov.take(k as int)));
    }
    assert(ov.take(outputs@.len() as int) =~= ov);
    append_bytes(&mut msg, u64_le_bytes(fee).as_slice());
    append_bytes(&mut msg, u64_le_bytes(expiry_height).as_slice());
    assert(msg@ =~= inputs_bytes(iv) + outputs_bytes(ov) + le_bytes(fee as nat, 8) + le_bytes(
        expiry_height as nat,
        8,
    ));
    blake2b_digest(msg.as_slice())
}


// ---------------------------------------------------------------------
// Keys and derivation paths
// ---------------------------------------------------------------------

/// The derivation path of the key that spends a note: the family's account
/// branch followed by the note's position (zero where it has none).
pub open spec fn derivation_path_of(n: NoteView) -> Seq<char> {
    let position = match n.position {
        Some(p) => p,
        None => 0,
    };
    match n.note_type {
        NoteType::Orchard => "m/44'/133'/0'/0/"@ + decimal_of(position as nat),
        NoteType::Sapling => "m/44'/133'/0'/1/"@ + decimal_of(position as nat),
    }
}

/// The first 32-byte secret supplied for `path`.
pub open spec fn key_lookup(keys: Seq<KeyView>, path: Seq<char>) -> Option<Seq<u8>>
    decreases keys.len(),
{
    if keys.len() == 0 {
        None
    } else if keys[0].path == path && keys[0].secret.len() == 32 {
        Some(keys[0].secret)
    } else {
        key_lookup(keys.subrange(1, keys.len() as int), path)
    }
}

pub open spec fn key_views(keys: Seq<SigningKeyEntry>) -> Seq<KeyView> {
    keys.map_values(|k: SigningKeyEntry| k@)
}

/// Every input has a key.
pub open spec fn keys_cover(tx: TransactionView, keys: Seq<KeyView>) -> bool {
    forall|i: int|
        0 <= i < tx.inputs.len() ==> #[trigger] key_lookup(
            keys,
            derivation_path_of(tx.inputs[i].note),
        ) is Some
}

/// `t` is `tx` with, for each input in order, the Ed25519 signature of the
/// transfer digest under the input's key and that key's public key.
pub open spec fn signed_with(tx: TransactionView, keys: Seq<KeyView>, t: TransactionView) -> bool {
    &&& t == TransactionView { signatures: t.signatures, ..tx }
    &&& t.signatures.len() == tx.inputs.len()
    &&& forall|i: int|
        0 <= i < tx.inputs.len() ==> {
            let secret = key_lookup(keys, derivation_path_of(tx.inputs[i].note))->Some_0;
            #[trigger] t.signatures[i] == SignatureView {
                signature: ed25519_signature_of(secret, tx.tx_hash),
                public_key: ed25519_public_of(secret),
                algorithm: SignatureAlgorithm::EdDSA,
                tx_hash: tx.tx_hash,
            }
        }
}

/// A transfer verifies: one signature per input, each well formed and
/// accepted under its public key over the transfer digest.
pub open spec fn transfer_verifies(tx: TransactionView) -> bool {
    &&& tx.signatures.len() == tx.inputs.len()
    &&& forall|i: int|
        0 <= i < tx.signatures.len() ==> {
            let s = #[trigger] tx.signatures[i];
            &&& s.public_key.len() == 32
            &&& s.signature.len() == 64
            &&& ed25519_accepts(s.public_key, tx.tx_hash, s.signature)
        }
}

/// A key found is 32 bytes long.
pub proof fn lemma_key_lookup_len(keys: Seq<KeyView>, path: Seq<char>)
    ensures
        key_lookup(keys, path) matches Some(s) ==> s.len() == 32,
    decreases keys.len(),
{
    if keys.len() > 0 {
        lemma_key_lookup_len(keys.subrange(1, keys.len() as int), path);
    }
}

/// Adding a key keeps every key found before, and finds the new one.
pub proof fn lemma_key_lookup_push(keys: Seq<KeyView>, entry: KeyView, path: Seq<char>)
    requires
        entry.secret.len() == 32,
    ensures
        key_lookup(keys, path) is Some ==> key_lookup(keys.push(entry), path) == key_lookup(keys, path),
        key_lookup(keys, path) is None ==> key_lookup(keys.push(entry), path) == (if entry.path == path {
            Some(entry.secret)
        } else {
            None
        }),
        entry.path == path ==> key_lookup(keys.push(entry), path) is Some,
    decreases keys.len(),
{
    if keys.len() > 0 {
        assert(keys.push(entry).subrange(1, (keys.len() + 1) as int) =~= keys.subrange(1, keys.len() as int).push(entry));
        lemma_key_lookup_push(keys.subrange(1, keys.len() as int), entry, path);
    } else {
        let one = keys.push(entry);
        assert(one.subrange(1, 1) =~= Seq::<KeyView>::empty());
        assert(key_lookup(one.subrange(1, 1), path) is None);
        assert(one[0] == entry);
    }
}

fn lookup_key<'a>(keys: &'a Vec<SigningKeyEntry>, path: &String) -> (r: Option<&'a Vec<u8>>)
    ensures
        r matches Some(k) ==> key_lookup(key_views(keys@), path@) == Some(k@),
        r is None ==> key_lookup(key_views(keys@), path@) is None,
{
    let ghost kv = key_views(keys@);
    let mut i: usize = 0;
    assert(kv.subrange(0, kv.len() as int) =~= kv);
    while i < keys.len()
        invariant
            kv == key_views(keys@),
            i <= keys@.len(),
            key_lookup(kv, path@) == key_lookup(kv.subrange(i as int, kv.len() as int), path@),
        decreases keys@.len() - i,
    {
        let ghost rest = kv.subrange(i as int, kv.len() as int);
        assert(rest.subrange(1, rest.len() as int) =~= kv.subrange(i + 1, kv.len() as int));
        if keys[i].path == *path && keys[i].secret.len() == 32 {
            return Some(&keys[i].secret);
        }
        i = i + 1;
    }
    None
}

// ---------------------------------------------------------------------
// The signer
// ---------------------------------------------------------------------

/// The change output of a transfer that takes `total_input` in.
pub open spec fn change_of(total_input: int, amount: u64, fee: u64) -> int {
    total_input - amount - fee
}

/// The signing key a wallet derives with `password`: the BIP-32 master
/// key of its opened master key material.
pub open spec fn derived_key(w: HDWallet, password: Seq<char>) -> Option<Seq<u8>> {
    match w.encrypted_master_key {
        Some(k) => match opened_key(k, password) {
            Some(m) => bip32_master_of(m),
            None => None,
        },
        None => None,
    }
}

/// The key for a derivation path: the one kept for it, or else the one
/// the wallet derives with `password`.
pub open spec fn key_for(
    cache: Seq<KeyView>,
    w: HDWallet,
    password: Seq<char>,
    path: Seq<char>,
) -> Option<Seq<u8>> {
    match key_lookup(cache, path) {
        Some(k) => Some(k),
        None => derived_key(w, password),
    }
}

/// Every input of `tx` has a key.
pub open spec fn keys_derivable(
    tx: TransactionView,
    cache: Seq<KeyView>,
    w: HDWallet,
    password: Seq<char>,
) -> bool {
    forall|i: int|
        0 <= i < tx.inputs.len() ==> #[trigger] key_for(
            cache,
            w,
            password,
            derivation_path_of(tx.inputs[i].note),
        ) is Some
}

/// `t` is `tx` with, for each input in order, the Ed25519 signature of the
/// transfer digest under the key for the input's derivation path, and
/// that key's public key.
pub open spec fn signed_by(
    tx: TransactionView,
    cache: Seq<KeyView>,
    w: HDWallet,
    password: Seq<char>,
    t: TransactionView,
) -> bool {
    &&& t == TransactionView { signatures: t.signatures, ..tx }
    &&& t.signatures.len() == tx.inputs.len()
    &&& forall|i: int|
        0 <= i < tx.inputs.len() ==> {
            let secret = key_for(cache, w, password, derivation_path_of(tx.inputs[i].note))->Some_0;
            #[trigger] t.signatures[i] == SignatureView {
                signature: ed25519_signature_of(secret, tx.tx_hash),
                public_key: ed25519_public_of(secret),
                algorithm: SignatureAlgorithm::EdDSA,
                tx_hash: tx.tx_hash,
            }
        }
}

/// Keeping a freshly derived key changes no path's key.
pub proof fn lemma_key_for_push(
    cache: Seq<KeyView>,
    w: HDWallet,
    password: Seq<char>,
    entry: KeyView,
)
    requires
        entry.secret.len() == 32,
        key_lookup(cache, entry.path) is None,
        derived_key(w, password) == Some(entry.secret),
    ensures
        forall|p: Seq<char>|
            #[trigger] key_for(cache.push(entry), w, password, p) == key_for(cache, w, password, p),
{
    assert forall|p: Seq<char>|
        #[trigger] key_for(cache.push(entry), w, password, p) == key_for(cache, w, password, p) by {
        lemma_key_lookup_push(cache, entry, p);
    }
}

/// Where every supplied key is the key for its path, a key found for a
/// path is the key for that path.
pub proof fn lemma_lookup_agrees(
    keys: Seq<KeyView>,
    cache: Seq<KeyView>,
    w: HDWallet,
    password: Seq<char>,
    path: Seq<char>,
)
    requires
        forall|j: int|
            0 <= j < keys.len() ==> key_for(cache, w, password, (#[trigger] keys[j]).path) == Some(
                keys[j].secret,
            ),
    ensures
        key_lookup(keys, path) matches Some(s) ==> key_for(cache, w, password, path) == Some(s),
    decreases keys.len(),
{
    if keys.len() > 0 {
        let rest = keys.subrange(1, keys.len() as int);
        assert forall|j: int| 0 <= j < rest.len() implies key_for(
            cache,
            w,
            password,
            (#[trigger] rest[j]).path,
        ) == Some(rest[j].secret) by {
            assert(rest[j] == keys[j + 1]);
        }
        assert(key_for(cache, w, password, keys[0].path) == Some(keys[0].secret));
        lemma_lookup_agrees(rest, cache, w, password, path);
    }
}

/// Builds, signs and checks transfers over a ledger it owns.
pub struct TransactionSigner {
    hd_wallet: HDWallet,
    /// Keys derived so far, by derivation path.
    signing_keys: Vec<SigningKeyEntry>,
    note_manager: NoteManager,
}

impl TransactionSigner {
    pub closed spec fn manager(&self) -> NoteManager {
        self.note_manager
    }

    pub closed spec fn wallet(&self) -> HDWallet {
        self.hd_wallet
    }

    /// The keys derived so far.
    pub closed spec fn key_cache(&self) -> Seq<KeyView> {
        key_views(self.signing_keys@)
    }

    pub open spec fn wf(&self) -> bool {
        self.manager().wf()
    }

    pub fn new(hd_wallet: HDWallet, note_manager: NoteManager) -> (r: Self)
        ensures
            r.manager() == note_manager,
            r.wallet() == hd_wallet,
            r.key_cache().len() == 0,
    {
        let r = TransactionSigner { hd_wallet, signing_keys: Vec::new(), note_manager };
        assert(r.key_cache() =~= Seq::<KeyView>::empty());
        r
    }

    /// The signing key for a derivation path: the one derived before for
    /// that path, or else the key the wallet derives with `password`, which
    /// is then kept. Fails where the wallet cannot derive it.
    pub fn derive_signing_key(&mut self, derivation_path: &str, password: &str) -> (r: NozyResult<
        Vec<u8>,
    >)
        ensures
            final(self).manager() == old(self).manager(),
            final(self).wallet() == old(self).wallet(),
            r matches Ok(k) ==> k@.len() == 32,
            r is Ok <==> key_for(
                old(self).key_cache(),
                old(self).wallet(),
                password@,
                derivation_path@,
            ) is Some,
            r matches Ok(k) ==> key_for(
                old(self).key_cache(),
                old(self).wallet(),
                password@,
                derivation_path@,
            ) == Some(k@),
            r matches Ok(k) ==> key_lookup(final(self).key_cache(), derivation_path@) == Some(k@),
            (r is Err || key_lookup(old(self).key_cache(), derivation_path@) is Some)
                ==> final(self).key_cache() == old(self).key_cache(),
            r matches Ok(k) ==> (key_lookup(old(self).key_cache(), derivation_path@) is None
                ==> final(self).key_cache() == old(self).key_cache().push(
                KeyView { path: derivation_path@, secret: k@ },
            )),
            r matches Err(e) ==> e is InvalidOperation,
    {
        let path = String::from_str(derivation_path);
        proof {
            lemma_key_lookup_len(self.key_cache(), derivation_path@);
        }
        match lookup_key(&self.signing_keys, &path) {
            Some(k) => {
                return Ok(clone_bytes(k));
            },
            None => {},
        }
        let material = match self.hd_wallet.master_key_bytes(password) {
            Ok(m) => m,
            Err(e) => {
                return Err(e);
            },
        };
        let key = match bip32_master_key(material.as_slice()) {
            Some(k) => k,
            None => {
                return Err(NozyError::InvalidOperation(String::from_str("invalid master key")));
            },
        };
        let ghost before = self.key_cache();
        self.signing_keys.push(SigningKeyEntry { path, secret: clone_bytes(&key) });
        proof {
            let e = KeyView { path: derivation_path@, secret: key@ };
            assert(self.key_cache() =~= before.push(e));
            lemma_key_lookup_push(before, e, derivation_path@);
        }
        Ok(key)
    }

    pub fn get_note_manager(&self) -> (r: &NoteManager)
        ensures
            *r == self.manager(),
    {
        &self.note_manager
    }

    /// The ledger, for changes through its own methods.
    pub fn get_note_manager_mut(&mut self) -> (r: &mut NoteManager)
        ensures
            *r == old(self).manager(),
            final(self).manager() == *final(r),
            final(self).wallet() == old(self).wallet(),
            final(self).key_cache() == old(self).key_cache(),
    {
        &mut self.note_manager
    }

    /// The derivation path of the key that spends `note`.
    pub fn get_derivation_path_for_note(&self, note: &ShieldedNote) -> (r: NozyResult<String>)
        ensures
            r matches Ok(p) && p@ == derivation_path_of(note@),
    {
        let position = match note.position {
            Some(p) => p,
            None => 0,
        };
        let base = match note.note_type {
            NoteType::Orchard => String::from_str("m/44'/133'/0'/0/"),
            NoteType::Sapling => String::from_str("m/44'/133'/0'/1/"),
        };
        let digits = u64_to_decimal(position);
        Ok(base.concat(digits.as_str()))
    }
}


/// The notes that a transfer spends, in order.
pub open spec fn input_notes(inputs: Seq<InputView>) -> Seq<NoteView> {
    inputs.map_values(|i: InputView| i.note)
}

/// The recorded path of a note, empty where it has none.
pub open spec fn path_or_empty(n: NoteView) -> Seq<Seq<u8>> {
    match n.merkle_path {
        Some(p) => p,
        None => Seq::empty(),
    }
}

/// The recorded position of a note, zero where it has none.
pub open spec fn position_or_zero(n: NoteView) -> u64 {
    match n.position {
        Some(p) => p,
        None => 0,
    }
}

/// `tx` is the unsigned transfer that pays `amount` to `recipient` with
/// `fee`: its inputs are the greedy selection of `amount + fee` out of the
/// unspent notes `u` under `st`, its first output is the payment, a second
/// output returns any change to the change address, and its digest covers
/// inputs, outputs, fee and expiry height.
pub open spec fn built_from(
    tx: TransactionView,
    u: Seq<NoteView>,
    st: NoteSelectionStrategy,
    recipient: Seq<char>,
    amount: u64,
    fee: u64,
    memo: Option<Seq<u8>>,
    expiry_height: u64,
) -> bool {
    let ins = input_notes(tx.inputs);
    let change = change_of(sum_values(ins), amount, fee);
    let pay = OutputView {
        address: recipient,
        value: amount,
        memo,
        address_type: AddressType::Orchard,
    };
    let change_out = OutputView {
        address: change_address(),
        value: change as u64,
        memo: None,
        address_type: AddressType::Orchard,
    };
    &&& is_selection(u, st, amount + fee, ins)
    &&& forall|i: int|
        0 <= i < tx.inputs.len() ==> (#[trigger] tx.inputs[i]).merkle_path == path_or_empty(
            ins[i],
        ) && tx.inputs[i].position == position_or_zero(ins[i])
    &&& change >= 0
    &&& change > 0 ==> tx.outputs == seq![pay, change_out] && tx.change_output == Some(change_out)
    &&& change == 0 ==> tx.outputs == seq![pay] && tx.change_output is None
    &&& tx.fee == fee
    &&& tx.expiry_height == expiry_height
    &&& tx.version == 5
    &&& tx.signatures.len() == 0
    &&& tx.tx_hash == transaction_digest(tx.inputs, tx.outputs, fee, expiry_height)
}

/// The estimated fee for a transfer with `n` inputs: a base of 1000, 500
/// per input and 1000 for two outputs, saturating at `u64::MAX`.
pub open spec fn fee_for_inputs(n: int) -> int {
    if 2000 + 500 * n <= u64::MAX {
        2000 + 500 * n
    } else {
        u64::MAX as int
    }
}

fn copy_output(o: &ShieldedOutput) -> (r: ShieldedOutput)
    ensures
        r@ == o@,
{
    ShieldedOutput {
        address: o.address.clone(),
        value: o.value,
        memo: match &o.memo {
            Some(m) => Some(clone_bytes(m)),
            None => None,
        },
        address_type: o.address_type,
    }
}

impl TransactionSigner {
    /// Builds the unsigned transfer that pays `amount` to
    /// `recipient_address` with `fee`, spending the notes that selection
    /// picks for `amount + fee`. Fails with `InsufficientFunds` where the
    /// unspent notes do not cover `amount + fee`, and with
    /// `InvalidOperation` where that sum passes `u64::MAX`.
    pub fn build_transaction_with_notes(
        &self,
        recipient_address: String,
        amount: u64,
        fee: u64,
        memo: Option<Vec<u8>>,
        expiry_height: u64,
        strategy: Option<NoteSelectionStrategy>,
    ) -> (r: NozyResult<SignedTransaction>)
        requires
            self.wf(),
        ensures
            ({
                let u = unspent(self.manager().notes_view());
                let st = strategy_or(strategy, self.manager().config_view().default_strategy);
                let needed = amount + fee;
                &&& r is Ok <==> needed <= u64::MAX && sum_values(u) >= needed
                &&& r matches Err(e) ==> (needed <= u64::MAX ==> e == (
                NozyError::InsufficientFunds {
                    required: needed as u64,
                    available: sum_values(u) as u64,
                }))
                &&& r matches Ok(tx) ==> built_from(
                    tx@,
                    u,
                    st,
                    recipient_address@,
                    amount,
                    fee,
                    opt_bytes(memo),
                    expiry_height,
                )
            }),
    {
        if amount > u64::MAX - fee {
            return Err(NozyError::InvalidOperation(String::from_str("amount and fee overflow")));
        }
        let total_needed = amount + fee;
        let selected = match self.note_manager.select_notes_for_spending(total_needed, strategy) {
            Ok(sel) => sel,
            Err(e) => {
                return Err(e);
            },
        };
        let ghost sel = ref_views(selected@);
        let ghost u = unspent(self.manager().notes_view());
        proof {
            crate::notes::lemma_sum_unspent(self.manager().notes_view(), NoteType::Orchard);
            self.note_manager.lemma_wf_bounds();
        }
        let mut inputs: Vec<ShieldedInput> = Vec::new();
        let mut total_input: u64 = 0;
        let mut k: usize = 0;
        while k < selected.len()
            invariant
                sel == ref_views(selected@),
                sum_values(sel) <= u64::MAX,
                k <= selected@.len(),
                inputs@.len() == k,
                total_input == sum_values(sel.take(k as int)),
                forall|i: int|
                    0 <= i < k ==> (#[trigger] inputs@[i])@.note == sel[i] && inputs@[i]@.merkle_path
                        == path_or_empty(sel[i]) && inputs@[i]@.position == position_or_zero(sel[i]),
            decreases selected@.len() - k,
        {
            let note = selected[k];
            proof {
                assert(sel.take(k + 1) =~= sel.take(k as int).push(sel[k as int]));
                lemma_sum_push(sel.take(k as int), sel[k as int]);
                lemma_prefix_sum_bound(sel, k + 1);
            }
            let merkle_path = match &note.merkle_path {
                Some(p) => clone_byte_seqs(p),
                None => Vec::new(),
            };
            assert(byte_seqs(merkle_path@) =~= path_or_empty(sel[k as int]));
            let position = match note.position {
                Some(p) => p,
                None => 0,
            };
            inputs.push(ShieldedInput { note: note.duplicate(), merkle_path, position });
            total_input = total_input + note.value;
            k = k + 1;
        }
        assert(sel.take(k as int) =~= sel);
        let ghost iv = inputs@.map_values(|i: ShieldedInput| i@);
        assert(input_notes(iv) =~= sel);
        let change_amount = total_input - total_needed;
        let mut outputs: Vec<ShieldedOutput> = Vec::new();
        outputs.push(
            ShieldedOutput {
                address: recipient_address,
                value: amount,
                memo,
                address_type: AddressType::Orchard,
            },
        );
        let change_output = if change_amount > 0 {
            let address = match self.hd_wallet.get_change_address() {
                Ok(a) => a,
                Err(e) => {
                    return Err(e);
                },
            };
            let change = ShieldedOutput {
                address,
                value: change_amount,
                memo: None,
                address_type: AddressType::Orchard,
            };
            outputs.push(copy_output(&change));
            Some(change)
        } else {
            None
        };
        let tx_hash = calculate_transaction_hash(&inputs, &outputs, fee, expiry_height);
        let transaction = SignedTransaction {
            inputs,
            outputs,
            fee,
            signatures: Vec::new(),
            tx_hash,
            expiry_height,
            version: 5,
            change_output,
        };
        proof {
            let t = transaction@;
            assert(t.inputs == iv);
            if change_amount > 0 {
                assert(t.outputs =~= seq![t.outputs[0], t.outputs[1]]);
            } else {
                assert(t.outputs =~= seq![t.outputs[0]]);
            }
            assert(t.signatures =~= Seq::<SignatureView>::empty());
        }
        Ok(transaction)
    }

    /// Signs every input of `transaction` over its digest with the key
    /// supplied for the input's derivation path. All or nothing: fails with
    /// `KeyUnavailable` where some input has no key.
    pub fn sign_with_keys(
        &self,
        transaction: SignedTransaction,
        keys: &Vec<SigningKeyEntry>,
    ) -> (r: NozyResult<SignedTransaction>)
        ensures
            r is Ok <==> keys_cover(transaction@, key_views(keys@)),
            r matches Err(e) ==> e is KeyUnavailable,
            r matches Ok(t) ==> signed_with(transaction@, key_views(keys@), t@),
            r matches Ok(t) ==> transfer_verifies(t@),
    {
        let ghost tv = transaction@;
        let ghost kv = key_views(keys@);
        let mut signatures: Vec<TransactionSignature> = Vec::new();
        let mut k: usize = 0;
        while k < transaction.inputs.len()
            invariant
                tv == transaction@,
                kv == key_views(keys@),
                k <= tv.inputs.len(),
                signatures@.len() == k,
                forall|i: int|
                    0 <= i < k ==> key_lookup(kv, derivation_path_of(#[trigger] tv.inputs[i].note))
                        is Some,
                forall|i: int|
                    0 <= i < k ==> {
                        let secret = key_lookup(kv, derivation_path_of(tv.inputs[i].note))->Some_0;
                        (#[trigger] signatures@[i])@ == SignatureView {
                            signature: ed25519_signature_of(secret, tv.tx_hash),
                            public_key: ed25519_public_of(secret),
                            algorithm: SignatureAlgorithm::EdDSA,
                            tx_hash: tv.tx_hash,
                        } && ed25519_accepts(
                            ed25519_public_of(secret),
                            tv.tx_hash,
                            ed25519_signature_of(secret, tv.tx_hash),
                        ) && ed25519_public_of(secret).len() == 32 && ed25519_signature_of(
                            secret,
                            tv.tx_hash,
                        ).len() == 64
                    },
            decreases tv.inputs.len() - k,
        {
            assert(tv.inputs[k as int] == transaction.inputs@[k as int]@);
            let path = match self.get_derivation_path_for_note(&transaction.inputs[k].note) {
                Ok(p) => p,
                Err(e) => {
                    return Err(e);
                },
            };
            assert(path@ == derivation_path_of(tv.inputs[k as int].note));
            let secret = match lookup_key(keys, &path) {
                Some(s) => s,
                None => {
                    assert(!(key_lookup(kv, derivation_path_of(tv.inputs[k as int].note)) is Some));
                    assert(!keys_cover(tv, kv));
                    return Err(NozyError::KeyUnavailable(path));
                },
            };
            proof {
                lemma_key_lookup_len(kv, path@);
            }
            let signature = ed25519_sign(secret.as_slice(), transaction.tx_hash.as_slice());
            let public_key = ed25519_public_key(secret.as_slice());
            signatures.push(
                TransactionSignature {
                    signature,
                    public_key,
                    algorithm: SignatureAlgorithm::EdDSA,
                    tx_hash: clone_bytes(&transaction.tx_hash),
                },
            );
            k = k + 1;
        }
        let mut signed = transaction;
        signed.signatures = signatures;
        proof {
            let t = signed@;
            assert(t == TransactionView { signatures: t.signatures, ..tv });
            assert forall|i: int| 0 <= i < t.signatures.len() implies {
                let s = #[trigger] t.signatures[i];
                &&& s.public_key.len() == 32
                &&& s.signature.len() == 64
                &&& ed25519_accepts(s.public_key, t.tx_hash, s.signature)
            } by {
                assert(t.signatures[i] == signatures@[i]@);
            }
        }
        Ok(signed)
    }

    /// Signs every input of `transaction` over its digest with the key for
    /// the input's derivation path: the one kept for that path, or else the
    /// one the wallet derives with `password`, which is then kept. All or
    /// nothing: fails with `KeyUnavailable` where some input has no key.
    pub fn sign_transaction_with_notes(
        &mut self,
        transaction: SignedTransaction,
        password: &str,
    ) -> (r: NozyResult<SignedTransaction>)
        requires
            old(self).wf(),
        ensures
            final(self).wf(),
            final(self).manager() == old(self).manager(),
            final(self).wallet() == old(self).wallet(),
            r is Ok <==> keys_derivable(
                transaction@,
                old(self).key_cache(),
                old(self).wallet(),
                password@,
            ),
            r matches Err(e) ==> e is KeyUnavailable,
            r matches Ok(t) ==> signed_by(
                transaction@,
                old(self).key_cache(),
                old(self).wallet(),
                password@,
                t@,
            ),
            r matches Ok(t) ==> transfer_verifies(t@),
            old(self).key_cache().len() <= final(self).key_cache().len(),
            final(self).key_cache().subrange(0, old(self).key_cache().len() as int) == old(
                self,
            ).key_cache(),
            forall|p: Seq<char>|
                #[trigger] key_for(final(self).key_cache(), old(self).wallet(), password@, p)
                    == key_for(old(self).key_cache(), old(self).wallet(), password@, p),
    {
        let ghost tv = transaction@;
        let ghost w = self.wallet();
        let ghost c0 = self.key_cache();
        let ghost pw = password@;
        let mut keys: Vec<SigningKeyEntry> = Vec::new();
        let mut k: usize = 0;
        assert(c0.subrange(0, c0.len() as int) =~= c0);
        while k < transaction.inputs.len()
            invariant
                tv == transaction@,
                pw == password@,
                self.manager() == old(self).manager(),
                self.wallet() == w,
                w == old(self).wallet(),
                c0 == old(self).key_cache(),
                self.wf(),
                k <= tv.inputs.len(),
                c0.len() <= self.key_cache().len(),
                self.key_cache().subrange(0, c0.len() as int) == c0,
                forall|p: Seq<char>|
                    #[trigger] key_for(self.key_cache(), w, pw, p) == key_for(c0, w, pw, p),
                forall|j: int|
                    0 <= j < keys@.len() ==> key_for(c0, w, pw, (#[trigger] key_views(keys@)[j]).path)
                        == Some(key_views(keys@)[j].secret) && key_views(keys@)[j].secret.len() == 32,
                forall|q: int|
                    0 <= q < k ==> #[trigger] key_lookup(
                        key_views(keys@),
                        derivation_path_of(tv.inputs[q].note),
                    ) is Some,
                forall|q: int|
                    0 <= q < k ==> #[trigger] key_for(c0, w, pw, derivation_path_of(tv.inputs[q].note))
                        is Some,
            decreases tv.inputs.len() - k,
        {
            assert(tv.inputs[k as int] == transaction.inputs@[k as int]@);
            let path = match self.get_derivation_path_for_note(&transaction.inputs[k].note) {
                Ok(p) => p,
                Err(e) => {
                    return Err(NozyError::KeyUnavailable(String::new()));
                },
            };
            let ghost cur = self.key_cache();
            let secret = match self.derive_signing_key(path.as_str(), password) {
                Ok(s) => s,
                Err(_) => {
                    assert(key_for(cur, w, pw, path@) is None);
                    assert(key_for(c0, w, pw, derivation_path_of(tv.inputs[k as int].note)) is None);
                    assert(!keys_derivable(tv, c0, w, pw));
                    return Err(NozyError::KeyUnavailable(path));
                },
            };
            proof {
                if key_lookup(cur, path@) is None {
                    let e = KeyView { path: path@, secret: secret@ };
                    lemma_key_for_push(cur, w, pw, e);
                    assert(self.key_cache().subrange(0, c0.len() as int) =~= cur.subrange(
                        0,
                        c0.len() as int,
                    ));
                }
            }
            let ghost before = key_views(keys@);
            let ghost entry = KeyView { path: path@, secret: secret@ };
            keys.push(SigningKeyEntry { path, secret });
            proof {
                assert(key_views(keys@) =~= before.push(entry));
                assert forall|q: int| 0 <= q <= k implies #[trigger] key_lookup(
                    key_views(keys@),
                    derivation_path_of(tv.inputs[q].note),
                ) is Some by {
                    lemma_key_lookup_push(before, entry, derivation_path_of(tv.inputs[q].note));
                }
            }
            k = k + 1;
        }
        let ghost kv = key_views(keys@);
        let r = self.sign_with_keys(transaction, &keys);
        match r {
            Ok(t) => {
                proof {
                    assert forall|i: int| 0 <= i < tv.inputs.len() implies {
                        let secret = key_for(c0, w, pw, derivation_path_of(tv.inputs[i].note))->Some_0;
                        #[trigger] t@.signatures[i] == SignatureView {
                            signature: ed25519_signature_of(secret, tv.tx_hash),
                            public_key: ed25519_public_of(secret),
                            algorithm: SignatureAlgorithm::EdDSA,
                            tx_hash: tv.tx_hash,
                        }
                    } by {
                        let p = derivation_path_of(tv.inputs[i].note);
                        lemma_lookup_agrees(kv, c0, w, pw, p);
                        assert(key_lookup(kv, p) is Some);
                    }
                }
                Ok(t)
            },
            Err(e) => {
                assert(keys_cover(tv, kv));
                Err(e)
            },
        }
    }

    /// Whether every input carries a signature that verifies over the
    /// transfer digest; any failure gives `false`, never an error.
    pub fn verify_transaction(&self, transaction: &SignedTransaction) -> (r: NozyResult<bool>)
        ensures
            r matches Ok(b) && b == transfer_verifies(transaction@),
    {
        let ghost tv = transaction@;
        if transaction.signatures.len() != transaction.inputs.len() {
            return Ok(false);
        }
        let mut k: usize = 0;
        while k < transaction.signatures.len()
            invariant
                tv == transaction@,
                tv.signatures.len() == tv.inputs.len(),
                k <= tv.signatures.len(),
                forall|i: int|
                    0 <= i < k ==> {
                        let s = #[trigger] tv.signatures[i];
                        &&& s.public_key.len() == 32
                        &&& s.signature.len() == 64
                        &&& ed25519_accepts(s.public_key, tv.tx_hash, s.signature)
                    },
            decreases tv.signatures.len() - k,
        {
            let s = &transaction.signatures[k];
            assert(tv.signatures[k as int] == s@);
            if s.public_key.len() != 32 || s.signature.len() != 64 {
                return Ok(false);
            }
            if !ed25519_verify(
                s.public_key.as_slice(),
                transaction.tx_hash.as_slice(),
                s.signature.as_slice(),
            ) {
                return Ok(false);
            }
            k = k + 1;
        }
        Ok(true)
    }

    /// The fee a transfer of `amount` would pay, counting the inputs that
    /// selection picks for `amount` alone.
    pub fn estimate_fee_with_notes(
        &self,
        amount: u64,
        strategy: Option<NoteSelectionStrategy>,
    ) -> (r: NozyResult<u64>)
        requires
            self.wf(),
        ensures
            ({
                let u = unspent(self.manager().notes_view());
                let st = strategy_or(strategy, self.manager().config_view().default_strategy);
                &&& r is Ok <==> sum_values(u) >= amount
                &&& r matches Err(e) ==> e == (NozyError::InsufficientFunds {
                    required: amount,
                    available: sum_values(u) as u64,
                })
                &&& r matches Ok(f) ==> exists|sel: Seq<NoteView>|
                    #[trigger] is_selection(u, st, amount as int, sel) && f == fee_for_inputs(
                        sel.len() as int,
                    )
            }),
    {
        let selected = match self.note_manager.select_notes_for_spending(amount, strategy) {
            Ok(sel) => sel,
            Err(e) => {
                return Err(e);
            },
        };
        let ghost sel = ref_views(selected@);
        let n = selected.len() as u64;
        assert(sel.len() == n);
        let fee = if n > (u64::MAX - 2000) / 500 {
            u64::MAX
        } else {
            assert(2000 + 500 * n <= u64::MAX) by (nonlinear_arith)
                requires
                    n <= (u64::MAX - 2000) / 500,
            ;
            2000 + 500 * n
        };
        proof {
            if n > (u64::MAX - 2000) / 500 {
                assert(2000 + 500 * n > u64::MAX) by (nonlinear_arith)
                    requires
                        n > (u64::MAX - 2000) / 500,
                ;
            }
        }
        assert(is_selection(
            unspent(self.manager().notes_view()),
            strategy_or(strategy, self.manager().config_view().default_strategy),
            amount as int,
            sel,
        ));
        Ok(fee)
    }

    /// Marks every input of `transaction` spent at `block_height`, in order.
    pub fn mark_notes_spent(&mut self, transaction: &SignedTransaction, block_height: u32) -> (r:
        NozyResult<()>)
        requires
            old(self).wf(),
        ensures
            r is Ok,
            final(self).wf(),
            final(self).manager().leaves() == old(self).manager().leaves(),
            final(self).manager().notes_view() == mark_all(
                old(self).manager().notes_view(),
                note_ids(input_notes(transaction@.inputs)),
                block_height,
            ),
    {
        let ghost ids = note_ids(input_notes(transaction@.inputs));
        let mut k: usize = 0;
        while k < transaction.inputs.len()
            invariant
                self.wf(),
                ids == note_ids(input_notes(transaction@.inputs)),
                ids.len() == transaction@.inputs.len(),
                k <= ids.len(),
                self.manager().leaves() == old(self).manager().leaves(),
                self.manager().notes_view() == mark_all(
                    old(self).manager().notes_view(),
                    ids.take(k as int),
                    block_height,
                ),
            decreases ids.len() - k,
        {
            assert(ids.take(k + 1).drop_last() =~= ids.take(k as int));
            assert(ids[k as int] == transaction.inputs@[k as int].note.id@);
            let _ = self.note_manager.mark_note_spent(transaction.inputs[k].note.id.as_str(), block_height);
            k = k + 1;
        }
        assert(ids.take(k as int) =~= ids);
        Ok(())
    }
}


// ---------------------------------------------------------------------
// Size estimate
// ---------------------------------------------------------------------

/// Bytes the inputs add: a 32-byte commitment, an 8-byte position and 32
/// bytes per path node for each.
pub open spec fn inputs_size(inputs: Seq<InputView>) -> int
    decreases inputs.len(),
{
    if inputs.len() == 0 {
        0
    } else {
        inputs_size(inputs.drop_last()) + 40 + 32 * inputs.last().merkle_path.len()
    }
}

/// Bytes the outputs add: the address, an 8-byte value and the memo of
/// each.
pub open spec fn outputs_size(outputs: Seq<OutputView>) -> int
    decreases outputs.len(),
{
    if outputs.len() == 0 {
        0
    } else {
        let o = outputs.last();
        outputs_size(outputs.drop_last()) + encode_utf8(o.address).len() + 8 + memo_bytes(
            o.memo,
        ).len()
    }
}

/// The estimated size of a transfer: 100 bytes of overhead, its inputs and
/// outputs, and 96 bytes per signature.
pub open spec fn transaction_size(tx: TransactionView) -> int {
    100 + inputs_size(tx.inputs) + outputs_size(tx.outputs) + 96 * tx.signatures.len()
}

pub proof fn lemma_inputs_size_prefix(s: Seq<InputView>, k: int)
    requires
        0 <= k <= s.len(),
    ensures
        0 <= inputs_size(s.take(k)) <= inputs_size(s),
    decreases s.len() - k,
{
    if k == s.len() {
        assert(s.take(k) =~= s);
        lemma_inputs_size_nonneg(s);
    } else {
        lemma_inputs_size_prefix(s, k + 1);
        assert(s.take(k + 1).drop_last() =~= s.take(k));
        lemma_inputs_size_nonneg(s.take(k));
    }
}

pub proof fn lemma_inputs_size_nonneg(s: Seq<InputView>)
    ensures
        inputs_size(s) >= 0,
    decreases s.len(),
{
    if s.len() > 0 {
        lemma_inputs_size_nonneg(s.drop_last());
    }
}

pub proof fn lemma_outputs_size_prefix(s: Seq<OutputView>, k: int)
    requires
        0 <= k <= s.len(),
    ensures
        0 <= outputs_size(s.take(k)) <= outputs_size(s),
    decreases s.len() - k,
{
    if k == s.len() {
        assert(s.take(k) =~= s);
        lemma_outputs_size_nonneg(s);
    } else {
        lemma_outputs_size_prefix(s, k + 1);
        assert(s.take(k + 1).drop_last() =~= s.take(k));
        lemma_outputs_size_nonneg(s.take(k));
    }
}

pub proof fn lemma_outputs_size_nonneg(s: Seq<OutputView>)
    ensures
        outputs_size(s) >= 0,
    decreases s.len(),
{
    if s.len() > 0 {
        lemma_outputs_size_nonneg(s.drop_last());
    }
}

fn size_overflow() -> (e: NozyError)
    ensures
        e is InvalidOperation,
{
    NozyError::InvalidOperation(String::from_str("transaction size overflow"))
}

impl TransactionSigner {
    /// The estimated serialized size of `transaction`. Fails where it does
    /// not fit in `usize`.
    pub fn estimate_transaction_size(&self, transaction: &SignedTransaction) -> (r: NozyResult<
        usize,
    >)
        ensures
            r is Ok <==> transaction_size(transaction@) <= usize::MAX,
            r matches Ok(n) ==> n == transaction_size(transaction@),
            r matches Err(e) ==> e is InvalidOperation,
    {
        let ghost tv = transaction@;
        proof {
            lemma_inputs_size_nonneg(tv.inputs);
            lemma_outputs_size_nonneg(tv.outputs);
        }
        let mut size: usize = 100;
        let mut k: usize = 0;
        while k < transaction.inputs.len()
            invariant
                tv == transaction@,
                k <= tv.inputs.len(),
                size == 100 + inputs_size(tv.inputs.take(k as int)),
                inputs_size(tv.inputs) >= 0,
                outputs_size(tv.outputs) >= 0,
            decreases tv.inputs.len() - k,
        {
            proof {
                assert(tv.inputs.take(k + 1).drop_last() =~= tv.inputs.take(k as int));
                lemma_inputs_size_prefix(tv.inputs, k + 1);
            }
            assert(tv.inputs[k as int].merkle_path.len() == transaction.inputs@[k as int].merkle_path@.len());
            let path_bytes = match transaction.inputs[k].merkle_path.len().checked_mul(32) {
                Some(p) => p,
                None => {
                    return Err(size_overflow());
                },
            };
            let item = match path_bytes.checked_add(40) {
                Some(i) => i,
                None => {
                    return Err(size_overflow());
                },
            };
            size = match size.checked_add(item) {
                Some(t) => t,
                None => {
                    return Err(size_overflow());
                },
            };
            k = k + 1;
        }
        assert(tv.inputs.take(k as int) =~= tv.inputs);
        let ghost after_inputs = size as int;
        let mut k: usize = 0;
        while k < transaction.outputs.len()
            invariant
                tv == transaction@,
                k <= tv.outputs.len(),
                after_inputs == 100 + inputs_size(tv.inputs),
                size == after_inputs + outputs_size(tv.outputs.take(k as int)),
                outputs_size(tv.outputs) >= 0,
            decreases tv.outputs.len() - k,
        {
            proof {
                assert(tv.outputs.take(k + 1).drop_last() =~= tv.outputs.take(k as int));
                lemma_outputs_size_prefix(tv.outputs, k + 1);
            }
            let o = &transaction.outputs[k];
            assert(tv.outputs[k as int] == o@);
            let memo_len: usize = match &o.memo {
                Some(m) => m.len(),
                None => 0,
            };
            assert(memo_len == memo_bytes(o@.memo).len());
            let address_len = o.address.as_str().as_bytes().len();
            assert(address_len == encode_utf8(o@.address).len());
            let item = match address_len.checked_add(8) {
                Some(a) => match a.checked_add(memo_len) {
                    Some(b) => b,
                    None => {
                        return Err(size_overflow());
                    },
                },
                None => {
                    return Err(size_overflow());
                },
            };
            size = match size.checked_add(item) {
                Some(t) => t,
                None => {
                    return Err(size_overflow());
                },
            };
            k = k + 1;
        }
        assert(tv.outputs.take(k as int) =~= tv.outputs);
        let sig_bytes = match transaction.signatures.len().checked_mul(96) {
            Some(b) => b,
            None => {
                return Err(size_overflow());
            },
        };
        match size.checked_add(sig_bytes) {
            Some(t) => Ok(t),
            None => Err(size_overflow()),
        }
    }
}

} // verus!
