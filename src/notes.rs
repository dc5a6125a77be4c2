//! The note ledger: notes of two shielded families, their spend lifecycle,
//! the append-only commitment tree over their commitments, and coin
//! selection.
use vstd::prelude::*;
use vstd::utf8::encode_utf8;
use crate::config::NozyConfig;
use crate::crypto::{
    append_bytes, blake2b_256, blake2b_digest, hex_encode, hex_of, le_bytes, random_32_bytes,
    sha256_digest, sha256_of, u64_le_bytes,
};
use crate::error::{NozyError, NozyResult};

verus! {

/// The two shielded pools a note can belong to.
#[derive(Debug, Clone, Copy, PartialEq, Eq, Hash, Structural)]
pub enum NoteType {
    Orchard,
    Sapling,
}

/// How coin selection orders the unspent notes before it accumulates them.
#[derive(Debug, Clone, Copy, PartialEq, Eq, Structural)]
pub enum NoteSelectionStrategy {
    /// Orchard notes before Sapling notes.
    PrivacyFirst,
    /// Sapling notes before Orchard notes.
    EfficiencyFirst,
    /// Ledger order.
    Balanced,
    /// Largest value first.
    ValueBased,
    /// Oldest creation height first.
    AgeBased,
}

/// A spendable unit of value.
#[derive(Debug, Clone)]
pub struct ShieldedNote {
    pub id: String,
    pub note_type: NoteType,
    pub value: u64,
    pub commitment: Vec<u8>,
    /// Present exactly when the note has been spent.
    pub nullifier: Option<Vec<u8>>,
    pub recipient_address: String,
    pub memo: Option<Vec<u8>>,
    pub randomness: Vec<u8>,
    pub created_at_height: u32,
    pub spent_at_height: Option<u32>,
    pub tx_hash: Option<Vec<u8>>,
    /// The authentication path recorded when the commitment entered the tree.
    pub merkle_path: Option<Vec<Vec<u8>>>,
    /// The leaf index of the commitment in the tree.
    pub position: Option<u64>,
}

/// The mathematical content of a note.
pub struct NoteView {
    pub id: Seq<char>,
    pub note_type: NoteType,
    pub value: u64,
    pub commitment: Seq<u8>,
    pub nullifier: Option<Seq<u8>>,
    pub recipient_address: Seq<char>,
    pub memo: Option<Seq<u8>>,
    pub randomness: Seq<u8>,
    pub created_at_height: u32,
    pub spent_at_height: Option<u32>,
    pub tx_hash: Option<Seq<u8>>,
    pub merkle_path: Option<Seq<Seq<u8>>>,
    pub position: Option<u64>,
}

pub open spec fn opt_bytes(o: Option<Vec<u8>>) -> Option<Seq<u8>> {
    match o {
        Some(v) => Some(v@),
        None => None,
    }
}

/// The byte strings held by a sequence of vectors.
pub open spec fn byte_seqs(v: Seq<Vec<u8>>) -> Seq<Seq<u8>> {
    v.map_values(|b: Vec<u8>| b@)
}

impl View for ShieldedNote {
    type V = NoteView;

    open spec fn view(&self) -> NoteView {
        NoteView {
            id: self.id@,
            note_type: self.note_type,
            value: self.value,
            commitment: self.commitment@,
            nullifier: opt_bytes(self.nullifier),
            recipient_address: self.recipient_address@,
            memo: opt_bytes(self.memo),
            randomness: self.randomness@,
            created_at_height: self.created_at_height,
            spent_at_height: self.spent_at_height,
            tx_hash: opt_bytes(self.tx_hash),
            merkle_path: match self.merkle_path {
                Some(p) => Some(byte_seqs(p@)),
                None => None,
            },
            position: self.position,
        }
    }
}

/// The views of a sequence of notes.
pub open spec fn note_views(s: Seq<ShieldedNote>) -> Seq<NoteView> {
    s.map_values(|n: ShieldedNote| n@)
}

/// The views of a sequence of borrowed notes.
pub open spec fn ref_views(s: Seq<&ShieldedNote>) -> Seq<NoteView> {
    s.map_values(|n: &ShieldedNote| n@)
}

pub fn clone_bytes(v: &Vec<u8>) -> (r: Vec<u8>)
    ensures
        r@ == v@,
{
    let mut r: Vec<u8> = Vec::new();
    append_bytes(&mut r, v.as_slice());
    r
}

pub fn clone_opt_bytes(o: &Option<Vec<u8>>) -> (r: Option<Vec<u8>>)
    ensures
        opt_bytes(r) == opt_bytes(*o),
{
    match o {
        Some(v) => Some(clone_bytes(v)),
        None => None,
    }
}

pub fn clone_byte_seqs(v: &Vec<Vec<u8>>) -> (r: Vec<Vec<u8>>)
    ensures
        byte_seqs(r@) == byte_seqs(v@),
        r@.len() == v@.len(),
{
    let mut r: Vec<Vec<u8>> = Vec::new();
    let mut i: usize = 0;
    while i < v.len()
        invariant
            i <= v@.len(),
            r@.len() == i,
            forall|j: int| 0 <= j < i ==> (#[trigger] r@[j])@ == v@[j]@,
        decreases v@.len() - i,
    {
        r.push(clone_bytes(&v[i]));
        i = i + 1;
    }
    assert(byte_seqs(r@) =~= byte_seqs(v@));
    r
}

impl ShieldedNote {
    /// A copy of the note with the same content.
    pub fn duplicate(&self) -> (r: ShieldedNote)
        ensures
            r@ == self@,
    {
        ShieldedNote {
            id: self.id.clone(),
            note_type: self.note_type,
            value: self.value,
            commitment: clone_bytes(&self.commitment),
            nullifier: clone_opt_bytes(&self.nullifier),
            recipient_address: self.recipient_address.clone(),
            memo: clone_opt_bytes(&self.memo),
            randomness: clone_bytes(&self.randomness),
            created_at_height: self.created_at_height,
            spent_at_height: self.spent_at_height,
            tx_hash: clone_opt_bytes(&self.tx_hash),
            merkle_path: match &self.merkle_path {
                Some(p) => Some(clone_byte_seqs(p)),
                None => None,
            },
            position: self.position,
        }
    }
}


// ---------------------------------------------------------------------
// The commitment tree
// ---------------------------------------------------------------------

/// The most leaves a tree of depth 32 holds.
pub const MAX_TREE_LEAVES: u64 = 4294967296;

/// The digest of two sibling nodes.
pub open spec fn hash_pair(left: Seq<u8>, right: Seq<u8>) -> Seq<u8> {
    blake2b_256(left + right)
}

/// The level above `level`: nodes are paired left to right, and a last
/// node without a sibling is paired with itself.
pub open spec fn parent_level(level: Seq<Seq<u8>>) -> Seq<Seq<u8>> {
    Seq::new(
        ((level.len() + 1) / 2) as nat,
        |i: int|
            hash_pair(
                level[2 * i],
                if 2 * i + 1 < level.len() {
                    level[2 * i + 1]
                } else {
                    level[2 * i]
                },
            ),
    )
}

/// Thirty-two zero bytes.
pub open spec fn zero_digest() -> Seq<u8> {
    Seq::new(32, |i: int| 0u8)
}

/// The root of the tree over no leaves: the zero digest hashed once.
pub open spec fn empty_root() -> Seq<u8> {
    blake2b_256(zero_digest())
}

/// The root of the tree over a sequence of leaves.
pub open spec fn tree_root(level: Seq<Seq<u8>>) -> Seq<u8>
    decreases level.len(),
{
    if level.len() == 0 {
        empty_root()
    } else if level.len() == 1 {
        level[0]
    } else {
        tree_root(parent_level(level))
    }
}

/// The authentication path of leaf `pos`: at each level the sibling node,
/// or the node itself where it has no sibling, from the leaves up.
pub open spec fn auth_path(level: Seq<Seq<u8>>, pos: int) -> Seq<Seq<u8>>
    decreases level.len(),
{
    if level.len() <= 1 {
        Seq::empty()
    } else {
        let sibling = if pos % 2 == 0 {
            pos + 1
        } else {
            pos - 1
        };
        let node = if sibling < level.len() {
            level[sibling]
        } else {
            level[pos]
        };
        seq![node] + auth_path(parent_level(level), pos / 2)
    }
}

/// The append-only accumulator over note commitments.
#[derive(Debug, Clone)]
pub struct CommitmentTree {
    pub depth: u32,
    pub size: u64,
    pub root: Vec<u8>,
    /// The leaves, in order of insertion.
    pub nodes: Vec<Vec<u8>>,
}

impl CommitmentTree {
    pub open spec fn leaves(&self) -> Seq<Seq<u8>> {
        byte_seqs(self.nodes@)
    }

    /// Size, depth and root agree with the leaves.
    pub open spec fn wf(&self) -> bool {
        &&& self.depth == 32
        &&& self.size == self.nodes@.len()
        &&& self.size <= MAX_TREE_LEAVES
        &&& self.root@ == tree_root(self.leaves())
    }
}

/// The parent level of a level of nodes.
fn compute_parent_level(level: &Vec<Vec<u8>>) -> (r: Vec<Vec<u8>>)
    ensures
        byte_seqs(r@) == parent_level(byte_seqs(level@)),
        r@.len() == (level@.len() + 1) / 2,
{
    let n = level.len();
    let half = n / 2 + n % 2;
    let mut next: Vec<Vec<u8>> = Vec::new();
    let mut k: usize = 0;
    while k < half
        invariant
            n == level@.len(),
            half == (n + 1) / 2,
            k <= half,
            next@.len() == k,
            forall|j: int|
                0 <= j < k ==> (#[trigger] next@[j])@ == parent_level(byte_seqs(level@))[j],
        decreases half - k,
    {
        let left = 2 * k;
        let right = if 2 * k + 1 < n {
            2 * k + 1
        } else {
            2 * k
        };
        let mut msg = clone_bytes(&level[left]);
        append_bytes(&mut msg, level[right].as_slice());
        let h = blake2b_digest(msg.as_slice());
        next.push(h);
        k = k + 1;
    }
    assert(byte_seqs(next@) =~= parent_level(byte_seqs(level@)));
    next
}

/// The root over a level of nodes.
fn compute_root(level: &Vec<Vec<u8>>) -> (r: Vec<u8>)
    ensures
        r@ == tree_root(byte_seqs(level@)),
{
    if level.len() == 0 {
        let mut zeros: Vec<u8> = Vec::new();
        let mut i: usize = 0;
        while i < 32
            invariant
                i <= 32,
                zeros@ == Seq::new(i as nat, |j: int| 0u8),
            decreases 32 - i,
        {
            zeros.push(0u8);
            i = i + 1;
            assert(zeros@ =~= Seq::new(i as nat, |j: int| 0u8));
        }
        return blake2b_digest(zeros.as_slice());
    }
    let mut current = clone_byte_seqs(level);
    while current.len() > 1
        invariant
            current@.len() >= 1,
            tree_root(byte_seqs(current@)) == tree_root(byte_seqs(level@)),
        decreases current@.len(),
    {
        current = compute_parent_level(&current);
    }
    clone_bytes(&current[0])
}

/// The authentication path of leaf `position` over a level of nodes.
fn compute_path(level: &Vec<Vec<u8>>, position: usize) -> (r: Vec<Vec<u8>>)
    requires
        position < level@.len(),
    ensures
        byte_seqs(r@) == auth_path(byte_seqs(level@), position as int),
{
    let mut path: Vec<Vec<u8>> = Vec::new();
    let mut current = clone_byte_seqs(level);
    let mut pos = position;
    while current.len() > 1
        invariant
            pos < current@.len(),
            byte_seqs(path@) + auth_path(byte_seqs(current@), pos as int) == auth_path(
                byte_seqs(level@),
                position as int,
            ),
        decreases current@.len(),
    {
        let ghost before = byte_seqs(path@);
        let ghost old_current = current@;
        let ghost old_pos = pos;
        let sibling = if pos % 2 == 0 {
            pos + 1
        } else {
            pos - 1
        };
        let node = if sibling < current.len() {
            clone_bytes(&current[sibling])
        } else {
            clone_bytes(&current[pos])
        };
        path.push(node);
        assert(byte_seqs(path@) =~= before + seq![node@]);
        current = compute_parent_level(&current);
        pos = pos / 2;
        assert(byte_seqs(path@) + auth_path(byte_seqs(current@), pos as int) =~= before
            + auth_path(byte_seqs(old_current), old_pos as int));
    }
    assert(byte_seqs(path@) =~= byte_seqs(path@) + auth_path(byte_seqs(current@), pos as int));
    path
}


// ---------------------------------------------------------------------
// Digests that bind a note
// ---------------------------------------------------------------------

/// ASCII "orchard" or "sapling": the family tag of a commitment.
pub open spec fn family_tag(t: NoteType) -> Seq<u8> {
    match t {
        NoteType::Orchard => seq![111u8, 114, 99, 104, 97, 114, 100],
        NoteType::Sapling => seq![115u8, 97, 112, 108, 105, 110, 103],
    }
}

/// ASCII "orchard_nullifier" or "sapling_nullifier": the family tag of a
/// nullifier.
pub open spec fn nullifier_tag(t: NoteType) -> Seq<u8> {
    family_tag(t) + seq![95u8, 110, 117, 108, 108, 105, 102, 105, 101, 114]
}

/// The commitment of a note: the digest of its family tag, value (eight
/// little-endian bytes), recipient (UTF-8) and randomness.
pub open spec fn note_commitment(
    value: u64,
    recipient: Seq<char>,
    randomness: Seq<u8>,
    t: NoteType,
) -> Seq<u8> {
    blake2b_256(family_tag(t) + le_bytes(value as nat, 8) + encode_utf8(recipient) + randomness)
}

/// The identifier of a note: hex of the first eight bytes of the SHA-256
/// digest of its commitment followed by its recipient.
pub open spec fn note_id(commitment: Seq<u8>, recipient: Seq<char>) -> Seq<char> {
    hex_of(sha256_of(commitment + encode_utf8(recipient)).subrange(0, 8))
}

/// The nullifier of a note: the digest of its commitment, randomness and
/// nullifier tag.
pub open spec fn note_nullifier(n: NoteView) -> Seq<u8> {
    blake2b_256(n.commitment + n.randomness + nullifier_tag(n.note_type))
}

fn family_tag_bytes(t: NoteType) -> (r: Vec<u8>)
    ensures
        r@ == family_tag(t),
{
    let mut r: Vec<u8> = Vec::new();
    match t {
        NoteType::Orchard => {
            r.push(111u8); r.push(114u8); r.push(99u8); r.push(104u8);
            r.push(97u8); r.push(114u8); r.push(100u8);
        },
        NoteType::Sapling => {
            r.push(115u8); r.push(97u8); r.push(112u8); r.push(108u8);
            r.push(105u8); r.push(110u8); r.push(103u8);
        },
    }
    assert(r@ =~= family_tag(t));
    r
}

fn nullifier_tag_bytes(t: NoteType) -> (r: Vec<u8>)
    ensures
        r@ == nullifier_tag(t),
{
    let mut r = family_tag_bytes(t);
    r.push(95u8); r.push(110u8); r.push(117u8); r.push(108u8); r.push(108u8);
    r.push(105u8); r.push(102u8); r.push(105u8); r.push(101u8); r.push(114u8);
    assert(r@ =~= nullifier_tag(t));
    r
}

/// The first `n` bytes of `v`.
fn prefix_bytes(v: &Vec<u8>, n: usize) -> (r: Vec<u8>)
    requires
        n <= v@.len(),
    ensures
        r@ == v@.subrange(0, n as int),
{
    let mut r: Vec<u8> = Vec::new();
    let mut i: usize = 0;
    while i < n
        invariant
            n <= v@.len(),
            i <= n,
            r@ == v@.subrange(0, i as int),
        decreases n - i,
    {
        r.push(v[i]);
        i = i + 1;
        assert(r@ =~= v@.subrange(0, i as int));
    }
    r
}

/// The UTF-8 bytes of a string.
fn utf8_bytes(s: &String) -> (r: Vec<u8>)
    ensures
        r@ == encode_utf8(s@),
{
    let mut r: Vec<u8> = Vec::new();
    append_bytes(&mut r, s.as_str().as_bytes());
    r
}

fn calculate_note_commitment(
    value: u64,
    recipient_address: &String,
    randomness: &Vec<u8>,
    note_type: NoteType,
) -> (r: Vec<u8>)
    ensures
        r@ == note_commitment(value, recipient_address@, randomness@, note_type),
        r@.len() == 32,
{
    let mut msg = family_tag_bytes(note_type);
    append_bytes(&mut msg, u64_le_bytes(value).as_slice());
    append_bytes(&mut msg, utf8_bytes(recipient_address).as_slice());
    append_bytes(&mut msg, randomness.as_slice());
    blake2b_digest(msg.as_slice())
}

fn generate_note_id(commitment: &Vec<u8>, address: &String) -> (r: String)
    ensures
        r@ == note_id(commitment@, address@),
{
    let mut msg = clone_bytes(commitment);
    append_bytes(&mut msg, utf8_bytes(address).as_slice());
    let digest = sha256_digest(msg.as_slice());
    hex_encode(prefix_bytes(&digest, 8).as_slice())
}

fn generate_note_nullifier(note: &ShieldedNote) -> (r: Vec<u8>)
    ensures
        r@ == note_nullifier(note@),
{
    let mut msg = clone_bytes(&note.commitment);
    append_bytes(&mut msg, note.randomness.as_slice());
    append_bytes(&mut msg, nullifier_tag_bytes(note.note_type).as_slice());
    blake2b_digest(msg.as_slice())
}

// ---------------------------------------------------------------------
// Sums and filters over notes
// ---------------------------------------------------------------------

pub open spec fn seq_sum(s: Seq<int>) -> int
    decreases s.len(),
{
    if s.len() == 0 {
        0
    } else {
        seq_sum(s.drop_last()) + s.last()
    }
}

pub open spec fn values(s: Seq<NoteView>) -> Seq<int> {
    s.map_values(|n: NoteView| n.value as int)
}

/// The total value of a sequence of notes.
pub open spec fn sum_values(s: Seq<NoteView>) -> int {
    seq_sum(values(s))
}

/// The notes without a nullifier, in order.
pub open spec fn unspent(s: Seq<NoteView>) -> Seq<NoteView>
    decreases s.len(),
{
    if s.len() == 0 {
        Seq::empty()
    } else if s.last().nullifier is None {
        unspent(s.drop_last()).push(s.last())
    } else {
        unspent(s.drop_last())
    }
}

/// The notes of family `t` without a nullifier, in order.
pub open spec fn unspent_of_type(s: Seq<NoteView>, t: NoteType) -> Seq<NoteView>
    decreases s.len(),
{
    if s.len() == 0 {
        Seq::empty()
    } else if s.last().nullifier is None && s.last().note_type == t {
        unspent_of_type(s.drop_last(), t).push(s.last())
    } else {
        unspent_of_type(s.drop_last(), t)
    }
}

pub proof fn lemma_sum_push(s: Seq<NoteView>, n: NoteView)
    ensures
        sum_values(s.push(n)) == sum_values(s) + n.value,
{
    assert(values(s.push(n)).drop_last() =~= values(s));
}

pub proof fn lemma_sum_nonneg(s: Seq<NoteView>)
    ensures
        sum_values(s) >= 0,
    decreases s.len(),
{
    if s.len() > 0 {
        assert(values(s).drop_last() =~= values(s.drop_last()));
        lemma_sum_nonneg(s.drop_last());
    }
}

pub proof fn lemma_sum_unspent(s: Seq<NoteView>, t: NoteType)
    ensures
        0 <= sum_values(unspent(s)) <= sum_values(s),
        0 <= sum_values(unspent_of_type(s, t)) <= sum_values(s),
    decreases s.len(),
{
    if s.len() == 0 {
        assert(values(s) =~= Seq::<int>::empty());
        assert(values(unspent(s)) =~= Seq::<int>::empty());
        assert(values(unspent_of_type(s, t)) =~= Seq::<int>::empty());
    } else {
        lemma_sum_unspent(s.drop_last(), t);
        assert(s =~= s.drop_last().push(s.last()));
        lemma_sum_push(s.drop_last(), s.last());
        lemma_sum_push(unspent(s.drop_last()), s.last());
        lemma_sum_push(unspent_of_type(s.drop_last(), t), s.last());
    }
}

pub proof fn lemma_sum_update(s: Seq<NoteView>, i: int, n: NoteView)
    requires
        0 <= i < s.len(),
    ensures
        sum_values(s.update(i, n)) == sum_values(s) - s[i].value + n.value,
    decreases s.len(),
{
    let u = s.update(i, n);
    if i == s.len() - 1 {
        assert(u =~= s.drop_last().push(n));
        assert(s =~= s.drop_last().push(s.last()));
        lemma_sum_push(s.drop_last(), n);
        lemma_sum_push(s.drop_last(), s.last());
    } else {
        lemma_sum_update(s.drop_last(), i, n);
        assert(u =~= s.drop_last().update(i, n).push(s.last()));
        assert(s =~= s.drop_last().push(s.last()));
        lemma_sum_push(s.drop_last().update(i, n), s.last());
        lemma_sum_push(s.drop_last(), s.last());
    }
}


// ---------------------------------------------------------------------
// The ledger
// ---------------------------------------------------------------------

#[derive(Debug, Clone, Copy)]
pub struct NoteManagerConfig {
    pub default_strategy: NoteSelectionStrategy,
    pub enable_consolidation: bool,
    pub min_consolidation_value: u64,
    pub max_consolidation_notes: usize,
    pub enable_note_mixing: bool,
    pub mixing_rounds: u32,
}

/// Owns the notes and the commitment tree over their commitments.
#[derive(Debug, Clone)]
pub struct NoteManager {
    /// The notes in ledger order; no two share an id.
    notes: Vec<ShieldedNote>,
    config: NoteManagerConfig,
    commitment_tree: CommitmentTree,
}

/// No two notes share an identifier.
pub open spec fn ids_unique(s: Seq<NoteView>) -> bool {
    forall|i: int, j: int| 0 <= i < s.len() && 0 <= j < s.len() && i != j ==> s[i].id != s[j].id
}

/// A note holds a nullifier exactly when it holds a spend height.
pub open spec fn spend_consistent(n: NoteView) -> bool {
    (n.nullifier is Some) == (n.spent_at_height is Some)
}

/// Whether some note of `s` has identifier `id`.
pub open spec fn has_id(s: Seq<NoteView>, id: Seq<char>) -> bool {
    exists|i: int| 0 <= i < s.len() && s[i].id == id
}

/// The index of the note with identifier `id`.
pub open spec fn index_of_id(s: Seq<NoteView>, id: Seq<char>) -> int {
    choose|i: int| 0 <= i < s.len() && s[i].id == id
}

/// The notes after storing `n`: it replaces the note with its identifier,
/// or else comes last.
pub open spec fn with_note(s: Seq<NoteView>, n: NoteView) -> Seq<NoteView> {
    if has_id(s, n.id) {
        s.update(index_of_id(s, n.id), n)
    } else {
        s.push(n)
    }
}

/// A note marked spent at height `h`.
pub open spec fn spent_note(n: NoteView, h: u32) -> NoteView {
    NoteView { nullifier: Some(note_nullifier(n)), spent_at_height: Some(h), ..n }
}

/// The notes after marking the note with identifier `id` spent at `h`;
/// unchanged where no note has that identifier.
pub open spec fn mark_spent_view(s: Seq<NoteView>, id: Seq<char>, h: u32) -> Seq<NoteView> {
    if has_id(s, id) {
        let i = index_of_id(s, id);
        s.update(i, spent_note(s[i], h))
    } else {
        s
    }
}

/// The configuration a ledger takes from the wallet configuration.
pub open spec fn config_from(config: NozyConfig) -> NoteManagerConfig {
    NoteManagerConfig {
        default_strategy: NoteSelectionStrategy::PrivacyFirst,
        enable_consolidation: config.privacy.enable_orchard,
        min_consolidation_value: 10_000,
        max_consolidation_notes: 10,
        enable_note_mixing: true,
        mixing_rounds: 3,
    }
}

impl NoteManager {
    /// The notes, in ledger order.
    pub closed spec fn notes_view(&self) -> Seq<NoteView> {
        note_views(self.notes@)
    }

    /// The commitments in the tree, in order of insertion.
    pub closed spec fn leaves(&self) -> Seq<Seq<u8>> {
        self.commitment_tree.leaves()
    }

    pub closed spec fn config_view(&self) -> NoteManagerConfig {
        self.config
    }

    /// The ledger's invariant.
    pub closed spec fn wf(&self) -> bool {
        &&& self.commitment_tree.wf()
        &&& self.config.max_consolidation_notes >= 1
        &&& ids_unique(self.notes_view())
        &&& sum_values(self.notes_view()) <= u64::MAX
        &&& forall|i: int|
            0 <= i < self.notes_view().len() ==> spend_consistent(#[trigger] self.notes_view()[i])
    }

    /// The leaf count stays within the tree's capacity.
    pub proof fn lemma_wf_bounds(&self)
        requires
            self.wf(),
        ensures
            self.leaves().len() <= MAX_TREE_LEAVES,
            ids_unique(self.notes_view()),
            sum_values(self.notes_view()) <= u64::MAX,
            forall|i: int|
                0 <= i < self.notes_view().len() ==> spend_consistent(
                    #[trigger] self.notes_view()[i],
                ),
    {
    }

    /// An empty ledger with an empty tree.
    pub fn new(config: &NozyConfig) -> (r: NozyResult<Self>)
        ensures
            r is Ok,
            r matches Ok(m) ==> {
                &&& m.wf()
                &&& m.notes_view().len() == 0
                &&& m.leaves().len() == 0
                &&& m.config_view() == config_from(*config)
            },
    {
        let nodes: Vec<Vec<u8>> = Vec::new();
        let root = compute_root(&nodes);
        let m = NoteManager {
            notes: Vec::new(),
            config: NoteManagerConfig {
                default_strategy: NoteSelectionStrategy::PrivacyFirst,
                enable_consolidation: config.privacy.enable_orchard,
                min_consolidation_value: 10_000,
                max_consolidation_notes: 10,
                enable_note_mixing: true,
                mixing_rounds: 3,
            },
            commitment_tree: CommitmentTree { depth: 32, size: 0, root, nodes },
        };
        assert(m.notes_view() =~= Seq::<NoteView>::empty());
        assert(values(m.notes_view()) =~= Seq::<int>::empty());
        Ok(m)
    }

    /// The index of the note with identifier `id`, if any.
    fn find_index(&self, id: &String) -> (r: Option<usize>)
        ensures
            r is None ==> !has_id(self.notes_view(), id@),
            r matches Some(i) ==> i < self.notes_view().len() && self.notes_view()[i as int].id
                == id@,
    {
        let mut i: usize = 0;
        while i < self.notes.len()
            invariant
                i <= self.notes@.len(),
                forall|j: int| 0 <= j < i ==> (#[trigger] self.notes_view()[j]).id != id@,
            decreases self.notes@.len() - i,
        {
            if self.notes[i].id == *id {
                return Some(i);
            }
            i = i + 1;
        }
        None
    }

    /// Stores a note, replacing the note with the same identifier. Fails,
    /// leaving the ledger unchanged, where the note holds a nullifier
    /// without a spend height or the other way round, or where the total
    /// value of the notes would pass `u64::MAX`.
    pub fn add_note(&mut self, note: ShieldedNote) -> (r: NozyResult<()>)
        requires
            old(self).wf(),
        ensures
            final(self).wf(),
            final(self).leaves() == old(self).leaves(),
            final(self).config_view() == old(self).config_view(),
            r is Ok <==> spend_consistent(note@) && sum_values(
                with_note(old(self).notes_view(), note@),
            ) <= u64::MAX,
            r is Ok ==> final(self).notes_view() == with_note(old(self).notes_view(), note@),
            r is Err ==> final(self).notes_view() == old(self).notes_view(),
    {
        proof {
            lemma_sum_nonneg(self.notes_view());
        }
        if note.nullifier.is_some() != note.spent_at_height.is_some() {
            return Err(NozyError::InvalidOperation(String::from_str("inconsistent spend state")));
        }
        let ghost s = self.notes_view();
        match self.find_index(&note.id) {
            Some(i) => {
                proof {
                    lemma_sum_update(s, i as int, note@);
                    assert(has_id(s, note@.id));
                    let k = index_of_id(s, note@.id);
                    assert(k == i as int);
                }
                let old_value = self.notes[i].value;
                if note.value > old_value && note.value - old_value > u64::MAX - self.total_all() {
                    return Err(NozyError::InvalidOperation(String::from_str("value overflow")));
                }
                self.notes.set(i, note);
                assert(self.notes_view() =~= s.update(i as int, note@));
            },
            None => {
                proof {
                    lemma_sum_push(s, note@);
                }
                if note.value > u64::MAX - self.total_all() {
                    return Err(NozyError::InvalidOperation(String::from_str("value overflow")));
                }
                self.notes.push(note);
                assert(self.notes_view() =~= s.push(note@));
            },
        }
        Ok(())
    }

    /// The total value of all notes, spent or not.
    fn total_all(&self) -> (r: u64)
        requires
            self.wf(),
        ensures
            r == sum_values(self.notes_view()),
    {
        let mut total: u64 = 0;
        let mut i: usize = 0;
        while i < self.notes.len()
            invariant
                self.wf(),
                i <= self.notes@.len(),
                total == sum_values(self.notes_view().take(i as int)),
            decreases self.notes@.len() - i,
        {
            proof {
                let s = self.notes_view();
                assert(s.take(i + 1) =~= s.take(i as int).push(s[i as int]));
                lemma_sum_push(s.take(i as int), s[i as int]);
                lemma_prefix_sum_bound(s, i + 1);
            }
            total = total + self.notes[i].value;
            i = i + 1;
        }
        assert(self.notes_view().take(i as int) =~= self.notes_view());
        total
    }
}

/// A prefix holds no more value than the whole.
pub proof fn lemma_prefix_sum_bound(s: Seq<NoteView>, k: int)
    requires
        0 <= k <= s.len(),
    ensures
        0 <= sum_values(s.take(k)) <= sum_values(s),
    decreases s.len() - k,
{
    if k == s.len() {
        assert(s.take(k) =~= s);
        lemma_sum_nonneg(s);
    } else {
        lemma_prefix_sum_bound(s, k + 1);
        assert(s.take(k + 1) =~= s.take(k).push(s[k]));
        lemma_sum_push(s.take(k), s[k]);
        lemma_sum_nonneg(s.take(k));
    }
}


impl NoteManager {
    /// The note with identifier `id`, if the ledger holds one.
    pub fn get_note(&self, id: &str) -> (r: Option<&ShieldedNote>)
        requires
            self.wf(),
        ensures
            r is Some <==> has_id(self.notes_view(), id@),
            r matches Some(n) ==> n@ == self.notes_view()[index_of_id(self.notes_view(), id@)],
    {
        let key = String::from_str(id);
        match self.find_index(&key) {
            Some(i) => {
                proof {
                    let s = self.notes_view();
                    assert(has_id(s, id@));
                    assert(index_of_id(s, id@) == i as int);
                }
                Some(&self.notes[i])
            },
            None => None,
        }
    }

    /// The positions in the ledger of the unspent notes of family `t`, or
    /// of every family.
    fn unspent_indices(&self, t: Option<NoteType>) -> (r: Vec<usize>)
        ensures
            t is None ==> r@.len() == unspent(self.notes_view()).len(),
            t matches Some(ty) ==> r@.len() == unspent_of_type(self.notes_view(), ty).len(),
            forall|j: int|
                0 <= j < r@.len() ==> (#[trigger] r@[j]) < self.notes_view().len() && (
                t is None ==> self.notes_view()[r@[j] as int] == unspent(self.notes_view())[j])
                    && (t matches Some(ty) ==> self.notes_view()[r@[j] as int] == unspent_of_type(
                    self.notes_view(),
                    ty,
                )[j]),
    {
        let ghost s = self.notes_view();
        let mut r: Vec<usize> = Vec::new();
        let mut i: usize = 0;
        while i < self.notes.len()
            invariant
                s == self.notes_view(),
                i <= s.len(),
                t is None ==> r@.len() == unspent(s.take(i as int)).len(),
                t matches Some(ty) ==> r@.len() == unspent_of_type(s.take(i as int), ty).len(),
                forall|j: int|
                    0 <= j < r@.len() ==> (#[trigger] r@[j]) < i && (t is None ==> s[r@[j] as int]
                        == unspent(s.take(i as int))[j]) && (t matches Some(ty) ==> s[r@[j] as int]
                        == unspent_of_type(s.take(i as int), ty)[j]),
            decreases s.len() - i,
        {
            assert(s.take(i + 1).drop_last() =~= s.take(i as int));
            let n = &self.notes[i];
            let keep = match t {
                None => n.nullifier.is_none(),
                Some(ty) => n.nullifier.is_none() && n.note_type == ty,
            };
            if keep {
                r.push(i);
            }
            i = i + 1;
        }
        assert(s.take(s.len() as int) =~= s);
        r
    }

    /// The unspent notes, in ledger order.
    pub fn get_unspent_notes(&self) -> (r: Vec<&ShieldedNote>)
        ensures
            ref_views(r@) == unspent(self.notes_view()),
    {
        let idx = self.unspent_indices(None);
        self.notes_at(&idx)
    }

    /// The unspent notes of family `note_type`, in ledger order.
    pub fn get_unspent_notes_by_type(&self, note_type: NoteType) -> (r: Vec<&ShieldedNote>)
        ensures
            ref_views(r@) == unspent_of_type(self.notes_view(), note_type),
    {
        let idx = self.unspent_indices(Some(note_type));
        self.notes_at(&idx)
    }

    fn notes_at(&self, idx: &Vec<usize>) -> (r: Vec<&ShieldedNote>)
        requires
            forall|j: int| 0 <= j < idx@.len() ==> (#[trigger] idx@[j]) < self.notes@.len(),
        ensures
            r@.len() == idx@.len(),
            forall|j: int|
                0 <= j < idx@.len() ==> (#[trigger] r@[j])@ == self.notes_view()[idx@[j] as int],
    {
        let mut r: Vec<&ShieldedNote> = Vec::new();
        let mut k: usize = 0;
        while k < idx.len()
            invariant
                k <= idx@.len(),
                r@.len() == k,
                forall|j: int| 0 <= j < idx@.len() ==> (#[trigger] idx@[j]) < self.notes@.len(),
                forall|j: int|
                    0 <= j < k ==> (#[trigger] r@[j])@ == self.notes_view()[idx@[j] as int],
            decreases idx@.len() - k,
        {
            r.push(&self.notes[idx[k]]);
            k = k + 1;
        }
        r
    }

    fn sum_at(&self, idx: &Vec<usize>, Ghost(target): Ghost<Seq<NoteView>>) -> (r: u64)
        requires
            self.wf(),
            idx@.len() == target.len(),
            sum_values(target) <= u64::MAX,
            forall|j: int|
                0 <= j < idx@.len() ==> (#[trigger] idx@[j]) < self.notes@.len()
                    && self.notes_view()[idx@[j] as int] == target[j],
        ensures
            r == sum_values(target),
    {
        let mut total: u64 = 0;
        let mut k: usize = 0;
        while k < idx.len()
            invariant
                k <= idx@.len(),
                idx@.len() == target.len(),
                sum_values(target) <= u64::MAX,
                forall|j: int|
                    0 <= j < idx@.len() ==> (#[trigger] idx@[j]) < self.notes@.len()
                        && self.notes_view()[idx@[j] as int] == target[j],
                total == sum_values(target.take(k as int)),
            decreases idx@.len() - k,
        {
            proof {
                assert(target.take(k + 1) =~= target.take(k as int).push(target[k as int]));
                lemma_sum_push(target.take(k as int), target[k as int]);
                lemma_prefix_sum_bound(target, k + 1);
            }
            total = total + self.notes[idx[k]].value;
            k = k + 1;
        }
        assert(target.take(k as int) =~= target);
        total
    }

    /// The total value of the unspent notes.
    pub fn get_total_balance(&self) -> (r: u64)
        requires
            self.wf(),
        ensures
            r == sum_values(unspent(self.notes_view())),
    {
        proof {
            lemma_sum_unspent(self.notes_view(), NoteType::Orchard);
        }
        let idx = self.unspent_indices(None);
        self.sum_at(&idx, Ghost(unspent(self.notes_view())))
    }

    /// The total value of the unspent notes of family `note_type`.
    pub fn get_balance_by_type(&self, note_type: NoteType) -> (r: u64)
        requires
            self.wf(),
        ensures
            r == sum_values(unspent_of_type(self.notes_view(), note_type)),
    {
        proof {
            lemma_sum_unspent(self.notes_view(), note_type);
        }
        let idx = self.unspent_indices(Some(note_type));
        self.sum_at(&idx, Ghost(unspent_of_type(self.notes_view(), note_type)))
    }

    /// The root of the commitment tree.
    pub fn get_commitment_tree_root(&self) -> (r: Vec<u8>)
        requires
            self.wf(),
        ensures
            r@ == tree_root(self.leaves()),
    {
        clone_bytes(&self.commitment_tree.root)
    }

    /// The number of leaves in the commitment tree.
    pub fn get_commitment_tree_size(&self) -> (r: u64)
        requires
            self.wf(),
        ensures
            r == self.leaves().len(),
    {
        self.commitment_tree.size
    }

    /// The root recomputed from the leaves.
    fn calculate_tree_root(&self) -> (r: Vec<u8>)
        ensures
            r@ == tree_root(self.leaves()),
    {
        compute_root(&self.commitment_tree.nodes)
    }

    /// The authentication path of the leaf at `position`; fails where the
    /// tree has no such leaf.
    pub fn calculate_merkle_path(&self, position: u64) -> (r: NozyResult<Vec<Vec<u8>>>)
        requires
            self.wf(),
        ensures
            r is Ok <==> position < self.leaves().len(),
            r matches Ok(p) ==> byte_seqs(p@) == auth_path(self.leaves(), position as int),
    {
        if position >= self.commitment_tree.size {
            return Err(NozyError::InvalidOperation(String::from_str("no leaf at this position")));
        }
        Ok(compute_path(&self.commitment_tree.nodes, position as usize))
    }
}


/// Storing a note adds at most its value to the total.
pub proof fn lemma_sum_with_note(s: Seq<NoteView>, n: NoteView)
    ensures
        sum_values(with_note(s, n)) <= sum_values(s) + n.value,
{
    if has_id(s, n.id) {
        let i = index_of_id(s, n.id);
        lemma_sum_update(s, i, n);
    } else {
        lemma_sum_push(s, n);
    }
}

impl NoteManager {
    /// Appends a commitment to the tree and recomputes the root; returns the
    /// new leaf's position and authentication path.
    fn add_note_to_tree(&mut self, commitment: &Vec<u8>) -> (r: (u64, Vec<Vec<u8>>))
        requires
            old(self).wf(),
            old(self).leaves().len() < MAX_TREE_LEAVES,
        ensures
            final(self).wf(),
            final(self).leaves() == old(self).leaves().push(commitment@),
            final(self).notes_view() == old(self).notes_view(),
            final(self).config_view() == old(self).config_view(),
            r.0 == old(self).leaves().len(),
            byte_seqs(r.1@) == auth_path(final(self).leaves(), r.0 as int),
    {
        let ghost before = self.commitment_tree.leaves();
        self.commitment_tree.nodes.push(clone_bytes(commitment));
        self.commitment_tree.size = self.commitment_tree.size + 1;
        assert(self.commitment_tree.leaves() =~= before.push(commitment@));
        self.commitment_tree.root = self.calculate_tree_root();
        let position = self.commitment_tree.size - 1;
        let path = compute_path(&self.commitment_tree.nodes, position as usize);
        (position, path)
    }

    /// Creates a note with fresh randomness, appends its commitment to the
    /// tree, records its position and authentication path, and stores it.
    /// Fails with `TreeFull` when the tree is at capacity, and with
    /// `InvalidOperation` when the ledger's total value would pass
    /// `u64::MAX`; the ledger is then unchanged.
    pub fn create_note(
        &mut self,
        value: u64,
        recipient_address: String,
        memo: Option<Vec<u8>>,
        note_type: NoteType,
        block_height: u32,
        tx_hash: Option<Vec<u8>>,
    ) -> (r: NozyResult<ShieldedNote>)
        requires
            old(self).wf(),
        ensures
            final(self).wf(),
            final(self).config_view() == old(self).config_view(),
            r is Ok <==> old(self).leaves().len() < MAX_TREE_LEAVES && sum_values(
                old(self).notes_view(),
            ) + value <= u64::MAX,
            (r matches Err(e) && e is TreeFull) <==> old(self).leaves().len() >= MAX_TREE_LEAVES,
            r is Err ==> final(self).notes_view() == old(self).notes_view() && final(self).leaves()
                == old(self).leaves(),
            r matches Ok(n) ==> {
                &&& n@.value == value
                &&& n@.recipient_address == recipient_address@
                &&& n@.memo == opt_bytes(memo)
                &&& n@.note_type == note_type
                &&& n@.created_at_height == block_height
                &&& n@.tx_hash == opt_bytes(tx_hash)
                &&& n@.nullifier is None
                &&& n@.spent_at_height is None
                &&& n@.randomness.len() == 32
                &&& n@.commitment == note_commitment(
                    value,
                    recipient_address@,
                    n@.randomness,
                    note_type,
                )
                &&& n@.id == note_id(n@.commitment, recipient_address@)
                &&& n@.position == Some(old(self).leaves().len() as u64)
                &&& final(self).leaves() == old(self).leaves().push(n@.commitment)
                &&& n@.merkle_path == Some(
                    auth_path(final(self).leaves(), old(self).leaves().len() as int),
                )
                &&& final(self).notes_view() == with_note(old(self).notes_view(), n@)
            },
    {
        if self.commitment_tree.size >= MAX_TREE_LEAVES {
            return Err(NozyError::TreeFull);
        }
        let total = self.total_all();
        if value > u64::MAX - total {
            return Err(NozyError::InvalidOperation(String::from_str("value overflow")));
        }
        let randomness = random_32_bytes();
        let commitment = calculate_note_commitment(value, &recipient_address, &randomness, note_type);
        let id = generate_note_id(&commitment, &recipient_address);
        let (position, path) = self.add_note_to_tree(&commitment);
        let note = ShieldedNote {
            id,
            note_type,
            value,
            commitment,
            nullifier: None,
            recipient_address,
            memo,
            randomness,
            created_at_height: block_height,
            spent_at_height: None,
            tx_hash,
            merkle_path: Some(path),
            position: Some(position),
        };
        let stored = note.duplicate();
        proof {
            lemma_sum_with_note(self.notes_view(), note@);
        }
        let added = self.add_note(stored);
        assert(added is Ok);
        Ok(note)
    }

    /// Marks the note with identifier `note_id` spent at `spent_height` and
    /// records its nullifier. An unknown identifier leaves the ledger
    /// unchanged.
    pub fn mark_note_spent(&mut self, note_id: &str, spent_height: u32) -> (r: NozyResult<()>)
        requires
            old(self).wf(),
        ensures
            r is Ok,
            final(self).wf(),
            final(self).leaves() == old(self).leaves(),
            final(self).config_view() == old(self).config_view(),
            final(self).notes_view() == mark_spent_view(
                old(self).notes_view(),
                note_id@,
                spent_height,
            ),
    {
        let key = String::from_str(note_id);
        let ghost s = self.notes_view();
        match self.find_index(&key) {
            None => Ok(()),
            Some(i) => {
                proof {
                    assert(has_id(s, note_id@));
                    assert(index_of_id(s, note_id@) == i as int);
                    lemma_sum_update(s, i as int, spent_note(s[i as int], spent_height));
                }
                let nullifier = generate_note_nullifier(&self.notes[i]);
                let mut note = self.notes[i].duplicate();
                note.nullifier = Some(nullifier);
                note.spent_at_height = Some(spent_height);
                assert(note@ == spent_note(s[i as int], spent_height));
                self.notes.set(i, note);
                assert(self.notes_view() =~= s.update(i as int, spent_note(s[i as int], spent_height)));
                Ok(())
            },
        }
    }
}


// ---------------------------------------------------------------------
// Coin selection
// ---------------------------------------------------------------------

/// The sort key of a note under a strategy: lower keys are spent first.
pub open spec fn selection_key(n: NoteView, st: NoteSelectionStrategy) -> u64 {
    match st {
        NoteSelectionStrategy::PrivacyFirst => if n.note_type == NoteType::Orchard {
            0
        } else {
            1
        },
        NoteSelectionStrategy::EfficiencyFirst => if n.note_type == NoteType::Sapling {
            0
        } else {
            1
        },
        NoteSelectionStrategy::Balanced => 0,
        NoteSelectionStrategy::ValueBased => (u64::MAX - n.value) as u64,
        NoteSelectionStrategy::AgeBased => n.created_at_height as u64,
    }
}

/// The strategy given, or else the default.
pub open spec fn strategy_or(
    strategy: Option<NoteSelectionStrategy>,
    default: NoteSelectionStrategy,
) -> NoteSelectionStrategy {
    match strategy {
        Some(s) => s,
        None => default,
    }
}

/// The sort keys of a sequence of notes.
pub open spec fn strategy_keys(s: Seq<NoteView>, st: NoteSelectionStrategy) -> Seq<u64> {
    s.map_values(|n: NoteView| selection_key(n, st))
}

/// Whether index `i` comes before index `j`: a lower key, or an equal key
/// and an earlier position.
pub open spec fn comes_before(keys: Seq<u64>, i: int, j: int) -> bool {
    keys[i] < keys[j] || (keys[i] == keys[j] && i < j)
}

/// `ord` lists the indices of `keys` in the order of a stable sort by key.
pub open spec fn is_stable_order(keys: Seq<u64>, ord: Seq<usize>) -> bool {
    &&& ord.len() == keys.len()
    &&& forall|k: int| 0 <= k < ord.len() ==> #[trigger] ord[k] < keys.len()
    &&& forall|a: int, b: int|
        0 <= a < b < ord.len() ==> comes_before(keys, #[trigger] ord[a] as int, #[trigger] ord[b] as int)
}

/// The notes of `s` in the order `ord`.
pub open spec fn permuted(s: Seq<NoteView>, ord: Seq<usize>) -> Seq<NoteView> {
    Seq::new(ord.len(), |k: int| s[ord[k] as int])
}

/// `k` is the shortest prefix of `s` whose value reaches `amount`.
pub open spec fn is_greedy_prefix(s: Seq<NoteView>, amount: int, k: int) -> bool {
    &&& 0 <= k <= s.len()
    &&& sum_values(s.take(k)) >= amount
    &&& forall|j: int| 0 <= j < k ==> sum_values(#[trigger] s.take(j)) < amount
}

/// `sel` is what greedy selection under the stable order `ord` takes.
pub open spec fn selection_by(
    u: Seq<NoteView>,
    st: NoteSelectionStrategy,
    amount: int,
    ord: Seq<usize>,
    sel: Seq<NoteView>,
) -> bool {
    &&& is_stable_order(strategy_keys(u, st), ord)
    &&& is_greedy_prefix(permuted(u, ord), amount, sel.len() as int)
    &&& sel == permuted(u, ord).take(sel.len() as int)
}

/// `sel` is the greedy selection of `amount` out of the unspent notes `u`
/// under strategy `st`: the unspent notes stable-sorted by the strategy's
/// key, cut at the shortest prefix whose value reaches `amount`.
pub open spec fn is_selection(
    u: Seq<NoteView>,
    st: NoteSelectionStrategy,
    amount: int,
    sel: Seq<NoteView>,
) -> bool {
    exists|ord: Seq<usize>| #[trigger] selection_by(u, st, amount, ord, sel)
}

pub proof fn lemma_seq_sum_insert(s: Seq<int>, p: int, x: int)
    requires
        0 <= p <= s.len(),
    ensures
        seq_sum(s.insert(p, x)) == seq_sum(s) + x,
    decreases s.len(),
{
    if p == s.len() {
        assert(s.insert(p, x).drop_last() =~= s);
    } else {
        lemma_seq_sum_insert(s.drop_last(), p, x);
        assert(s.insert(p, x).drop_last() =~= s.drop_last().insert(p, x));
    }
}

fn selection_key_of(n: &ShieldedNote, st: NoteSelectionStrategy) -> (k: u64)
    ensures
        k == selection_key(n@, st),
{
    match st {
        NoteSelectionStrategy::PrivacyFirst => if n.note_type == NoteType::Orchard {
            0
        } else {
            1
        },
        NoteSelectionStrategy::EfficiencyFirst => if n.note_type == NoteType::Sapling {
            0
        } else {
            1
        },
        NoteSelectionStrategy::Balanced => 0,
        NoteSelectionStrategy::ValueBased => u64::MAX - n.value,
        NoteSelectionStrategy::AgeBased => n.created_at_height as u64,
    }
}

/// The stable sort order of `keys`; it keeps the total of `weights`.
fn stable_order(keys: &Vec<u64>, Ghost(weights): Ghost<Seq<int>>) -> (ord: Vec<usize>)
    requires
        weights.len() == keys@.len(),
    ensures
        is_stable_order(keys@, ord@),
        seq_sum(Seq::new(ord@.len(), |k: int| weights[ord@[k] as int])) == seq_sum(weights),
{
    let n = keys.len();
    let mut ord: Vec<usize> = Vec::new();
    let mut i: usize = 0;
    while i < n
        invariant
            n == keys@.len(),
            weights.len() == n,
            i <= n,
            ord@.len() == i,
            forall|k: int| 0 <= k < ord@.len() ==> #[trigger] ord@[k] < i,
            forall|a: int, b: int|
                0 <= a < b < ord@.len() ==> comes_before(
                    keys@,
                    #[trigger] ord@[a] as int,
                    #[trigger] ord@[b] as int,
                ),
            seq_sum(Seq::new(ord@.len(), |k: int| weights[ord@[k] as int])) == seq_sum(
                weights.take(i as int),
            ),
        decreases n - i,
    {
        let mut p = ord.len();
        while p > 0 && keys[ord[p - 1]] > keys[i]
            invariant
                n == keys@.len(),
                i < n,
                p <= ord@.len(),
                forall|k: int| 0 <= k < ord@.len() ==> #[trigger] ord@[k] < i,
                forall|q: int| p <= q < ord@.len() ==> keys@[#[trigger] ord@[q] as int] > keys@[i as int],
            decreases p,
        {
            p = p - 1;
        }
        let ghost before = ord@;
        proof {
            let mapped = Seq::new(before.len(), |k: int| weights[before[k] as int]);
            lemma_seq_sum_insert(mapped, p as int, weights[i as int]);
            assert(Seq::new(before.insert(p as int, i).len(), |k: int| weights[before.insert(p as int, i)[k] as int])
                =~= mapped.insert(p as int, weights[i as int]));
            assert(weights.take(i + 1).drop_last() =~= weights.take(i as int));
        }
        ord.insert(p, i);
        assert(ord@ == before.insert(p as int, i));
        assert forall|a: int, b: int| 0 <= a < b < ord@.len() implies comes_before(
            keys@,
            #[trigger] ord@[a] as int,
            #[trigger] ord@[b] as int,
        ) by {
            if b < p {
                assert(ord@[a] == before[a] && ord@[b] == before[b]);
            } else if b == p {
                if a < p - 1 {
                    assert(comes_before(keys@, before[a] as int, before[p - 1] as int));
                }
            } else if a == p {
                assert(ord@[b] == before[b - 1]);
            } else if a < p {
                assert(ord@[b] == before[b - 1]);
                assert(comes_before(keys@, before[a] as int, before[b - 1] as int));
            } else {
                assert(ord@[a] == before[a - 1] && ord@[b] == before[b - 1]);
                assert(comes_before(keys@, before[a - 1] as int, before[b - 1] as int));
            }
        }
        i = i + 1;
    }
    assert(weights.take(n as int) =~= weights);
    ord
}

impl NoteManager {
    /// Chooses unspent notes to cover `amount`: the unspent notes are
    /// stable-sorted by the strategy's key (the ledger's default strategy
    /// where none is given), and taken in that order until their total
    /// first reaches `amount`. Fails with `InsufficientFunds` exactly when
    /// all unspent notes together hold less than `amount`.
    pub fn select_notes_for_spending(
        &self,
        amount: u64,
        strategy: Option<NoteSelectionStrategy>,
    ) -> (r: NozyResult<Vec<&ShieldedNote>>)
        requires
            self.wf(),
        ensures
            ({
                let u = unspent(self.notes_view());
                let st = strategy_or(strategy, self.config_view().default_strategy);
                &&& r is Ok <==> sum_values(u) >= amount
                &&& r matches Ok(sel) ==> is_selection(u, st, amount as int, ref_views(sel@))
                &&& r matches Ok(sel) ==> sum_values(ref_views(sel@)) <= sum_values(u)
                &&& r matches Err(e) ==> e == (NozyError::InsufficientFunds {
                    required: amount,
                    available: sum_values(u) as u64,
                })
            }),
            r matches Ok(sel) ==> sum_values(ref_views(sel@)) >= amount,
    {
        let st = match strategy {
            Some(s) => s,
            None => self.config.default_strategy,
        };
        let ghost u = unspent(self.notes_view());
        proof {
            lemma_sum_unspent(self.notes_view(), NoteType::Orchard);
        }
        let idx = self.unspent_indices(None);
        let mut keys: Vec<u64> = Vec::new();
        let mut j: usize = 0;
        while j < idx.len()
            invariant
                idx@.len() == u.len(),
                forall|q: int|
                    0 <= q < idx@.len() ==> (#[trigger] idx@[q]) < self.notes_view().len()
                        && self.notes_view()[idx@[q] as int] == u[q],
                j <= idx@.len(),
                keys@.len() == j,
                forall|q: int| 0 <= q < j ==> #[trigger] keys@[q] == selection_key(u[q], st),
            decreases idx@.len() - j,
        {
            keys.push(selection_key_of(&self.notes[idx[j]], st));
            j = j + 1;
        }
        assert(keys@ =~= strategy_keys(u, st));
        let ord = stable_order(&keys, Ghost(values(u)));
        let ghost ordered = permuted(u, ord@);
        proof {
            assert(values(ordered) =~= Seq::new(ord@.len(), |k: int| values(u)[ord@[k] as int]));
        }
        let mut selected: Vec<&ShieldedNote> = Vec::new();
        let mut total: u64 = 0;
        let mut k: usize = 0;
        while k < ord.len() && total < amount
            invariant
                self.wf(),
                ordered == permuted(u, ord@),
                sum_values(ordered) == sum_values(u),
                sum_values(u) <= u64::MAX,
                is_stable_order(keys@, ord@),
                keys@.len() == u.len(),
                idx@.len() == u.len(),
                forall|q: int|
                    0 <= q < idx@.len() ==> (#[trigger] idx@[q]) < self.notes_view().len()
                        && self.notes_view()[idx@[q] as int] == u[q],
                k <= ord@.len(),
                total == sum_values(ordered.take(k as int)),
                forall|q: int| 0 <= q < k ==> sum_values(#[trigger] ordered.take(q)) < amount,
                ref_views(selected@) == ordered.take(k as int),
            decreases ord@.len() - k,
        {
            let note = &self.notes[idx[ord[k]]];
            proof {
                assert(ordered.take(k + 1) =~= ordered.take(k as int).push(ordered[k as int]));
                lemma_sum_push(ordered.take(k as int), ordered[k as int]);
                lemma_prefix_sum_bound(ordered, k + 1);
            }
            selected.push(note);
            total = total + note.value;
            assert(ref_views(selected@) =~= ordered.take(k + 1));
            k = k + 1;
        }
        proof {
            lemma_prefix_sum_bound(ordered, k as int);
            if k == ord@.len() {
                assert(ordered.take(k as int) =~= ordered);
            }
        }
        if total < amount {
            let available = self.get_total_balance();
            return Err(NozyError::InsufficientFunds { required: amount, available });
        }
        assert(selected@.len() == k) by {
            assert(ref_views(selected@).len() == selected@.len());
        }
        assert(is_stable_order(strategy_keys(u, st), ord@));
        assert(is_greedy_prefix(permuted(u, ord@), amount as int, selected@.len() as int));
        assert(selection_by(u, st, amount as int, ord@, ref_views(selected@)));
        assert(sum_values(ref_views(selected@)) >= amount);
        Ok(selected)
    }
}


// ---------------------------------------------------------------------
// Laws of the ledger
// ---------------------------------------------------------------------

/// The tree is deterministic: two ledgers whose trees hold the same
/// commitments in the same order have the same root and the same
/// authentication path for every leaf.
pub proof fn lemma_tree_determinism(a: NoteManager, b: NoteManager)
    requires
        a.wf(),
        b.wf(),
        a.leaves() == b.leaves(),
    ensures
        tree_root(a.leaves()) == tree_root(b.leaves()),
        forall|i: int|
            0 <= i < a.leaves().len() ==> #[trigger] auth_path(a.leaves(), i) == auth_path(
                b.leaves(),
                i,
            ),
{
}

/// The root recomputed from a node at `pos` and its authentication path:
/// at each level the node is hashed with the path entry, on the side its
/// index gives.
pub open spec fn root_from_path(node: Seq<u8>, path: Seq<Seq<u8>>, pos: int) -> Seq<u8>
    decreases path.len(),
{
    if path.len() == 0 {
        node
    } else {
        let parent = if pos % 2 == 0 {
            hash_pair(node, path[0])
        } else {
            hash_pair(path[0], node)
        };
        root_from_path(parent, path.subrange(1, path.len() as int), pos / 2)
    }
}

/// Inserting the same commitment into two ledgers whose trees hold the
/// same leaves gives them the same root and the same authentication path
/// for every leaf (`create_note` states how it extends the leaves).
pub proof fn lemma_insert_determinism(a0: NoteManager, a1: NoteManager, b0: NoteManager, b1: NoteManager, c: Seq<u8>)
    requires
        a1.wf(),
        b1.wf(),
        a0.leaves() == b0.leaves(),
        a1.leaves() == a0.leaves().push(c),
        b1.leaves() == b0.leaves().push(c),
    ensures
        tree_root(a1.leaves()) == tree_root(b1.leaves()),
        forall|i: int|
            0 <= i < a1.leaves().len() ==> #[trigger] auth_path(a1.leaves(), i) == auth_path(
                b1.leaves(),
                i,
            ),
{
    lemma_tree_determinism(a1, b1);
}

/// Paths and roots agree: a leaf and its authentication path recompute the
/// root of the tree.
pub proof fn lemma_path_recomputes_root(level: Seq<Seq<u8>>, pos: int)
    requires
        0 <= pos < level.len(),
    ensures
        root_from_path(level[pos], auth_path(level, pos), pos) == tree_root(level),
    decreases level.len(),
{
    if level.len() > 1 {
        let up = parent_level(level);
        let path = auth_path(level, pos);
        assert(path.subrange(1, path.len() as int) =~= auth_path(up, pos / 2));
        if pos % 2 == 0 {
            assert(up[pos / 2] == hash_pair(level[pos], path[0]));
        } else {
            assert(up[pos / 2] == hash_pair(path[0], level[pos]));
        }
        lemma_path_recomputes_root(up, pos / 2);
    }
}

/// The tree is append-only: creating a note (whose identifier is new to
/// the ledger) keeps every earlier commitment at its position, and keeps
/// every stored note, with its recorded position and path, as it was.
pub proof fn lemma_append_only(m0: NoteManager, m1: NoteManager, n: NoteView)
    requires
        m0.wf(),
        m1.leaves() == m0.leaves().push(n.commitment),
        m1.notes_view() == with_note(m0.notes_view(), n),
        !has_id(m0.notes_view(), n.id),
    ensures
        m1.leaves().subrange(0, m0.leaves().len() as int) == m0.leaves(),
        forall|i: int|
            0 <= i < m0.notes_view().len() ==> {
                &&& #[trigger] m1.notes_view()[i] == m0.notes_view()[i]
                &&& m1.notes_view()[i].position == m0.notes_view()[i].position
                &&& m1.notes_view()[i].merkle_path == m0.notes_view()[i].merkle_path
            },
{
    assert(m1.leaves().subrange(0, m0.leaves().len() as int) =~= m0.leaves());
}

/// Marking a note spent twice at the same height gives the same notes, and
/// so the same nullifier, as marking it once.
pub proof fn lemma_spend_idempotent(s: Seq<NoteView>, id: Seq<char>, h: u32)
    requires
        ids_unique(s),
    ensures
        mark_spent_view(mark_spent_view(s, id, h), id, h) == mark_spent_view(s, id, h),
{
    if has_id(s, id) {
        let i = index_of_id(s, id);
        let once = mark_spent_view(s, id, h);
        assert(once[i].id == id);
        assert(has_id(once, id));
        let k = index_of_id(once, id);
        assert(k == i);
        assert(spent_note(once[i], h) == once[i]);
        assert(once.update(i, spent_note(once[i], h)) =~= once);
    }
}

/// In every well-formed ledger a note holds a nullifier exactly when it
/// holds a spend height.
pub proof fn lemma_spend_consistent(m: NoteManager)
    requires
        m.wf(),
    ensures
        forall|i: int|
            0 <= i < m.notes_view().len() ==> ((#[trigger] m.notes_view()[i]).nullifier is Some
                <==> m.notes_view()[i].spent_at_height is Some),
{
    m.lemma_wf_bounds();
    assert forall|i: int| 0 <= i < m.notes_view().len() implies ((
    #[trigger] m.notes_view()[i]).nullifier is Some <==> m.notes_view()[i].spent_at_height is Some) by {
        assert(spend_consistent(m.notes_view()[i]));
    }
}


// ---------------------------------------------------------------------
// Consolidation
// ---------------------------------------------------------------------

/// The unspent notes worth less than `min`, in ledger order.
pub open spec fn small_unspent(s: Seq<NoteView>, min: u64) -> Seq<NoteView>
    decreases s.len(),
{
    if s.len() == 0 {
        Seq::empty()
    } else if s.last().nullifier is None && s.last().value < min {
        small_unspent(s.drop_last(), min).push(s.last())
    } else {
        small_unspent(s.drop_last(), min)
    }
}

pub open spec fn note_ids(s: Seq<NoteView>) -> Seq<Seq<char>> {
    s.map_values(|n: NoteView| n.id)
}

pub open spec fn value_keys(s: Seq<NoteView>) -> Seq<u64> {
    s.map_values(|n: NoteView| n.value)
}

/// The notes after marking each identifier of `ids` spent at `h`, in order.
pub open spec fn mark_all(s: Seq<NoteView>, ids: Seq<Seq<char>>, h: u32) -> Seq<NoteView>
    decreases ids.len(),
{
    if ids.len() == 0 {
        s
    } else {
        mark_spent_view(mark_all(s, ids.drop_last(), h), ids.last(), h)
    }
}

/// What a consolidation that merges the notes `taken`, out of the small
/// notes `small`, does to a ledger and returns.
pub open spec fn consolidation_outcome(
    notes0: Seq<NoteView>,
    leaves0: Seq<Seq<u8>>,
    notes1: Seq<NoteView>,
    leaves1: Seq<Seq<u8>>,
    r: NozyResult<Vec<ShieldedNote>>,
    taken: Seq<NoteView>,
    small: Seq<NoteView>,
) -> bool {
    let total = sum_values(taken);
    &&& r is Ok <==> leaves0.len() < MAX_TREE_LEAVES && sum_values(notes0) + total <= u64::MAX
    &&& r is Err ==> notes1 == notes0 && leaves1 == leaves0
    &&& r matches Ok(v) ==> {
        let n = v@[0]@;
        &&& v@.len() == 1
        &&& n.value == total
        &&& n.recipient_address == taken[0].recipient_address
        &&& n.note_type == NoteType::Orchard
        &&& n.created_at_height == 0
        &&& n.memo is None
        &&& n.tx_hash is None
        &&& n.nullifier is None
        &&& n.spent_at_height is None
        &&& n.commitment == note_commitment(
            n.value,
            n.recipient_address,
            n.randomness,
            NoteType::Orchard,
        )
        &&& n.id == note_id(n.commitment, n.recipient_address)
        &&& n.position == Some(leaves0.len() as u64)
        &&& leaves1 == leaves0.push(n.commitment)
        &&& n.merkle_path == Some(auth_path(leaves1, leaves0.len() as int))
        &&& notes1 == mark_all(with_note(notes0, n), note_ids(small), 0)
    }
}

pub proof fn lemma_sum_small(s: Seq<NoteView>, min: u64)
    ensures
        0 <= sum_values(small_unspent(s, min)) <= sum_values(s),
    decreases s.len(),
{
    if s.len() == 0 {
        assert(values(small_unspent(s, min)) =~= Seq::<int>::empty());
        assert(values(s) =~= Seq::<int>::empty());
    } else {
        lemma_sum_small(s.drop_last(), min);
        assert(s =~= s.drop_last().push(s.last()));
        lemma_sum_push(s.drop_last(), s.last());
        lemma_sum_push(small_unspent(s.drop_last(), min), s.last());
    }
}

impl NoteManager {
    /// The positions in the ledger of the unspent notes worth less than
    /// `min`.
    fn small_indices(&self, min: u64) -> (r: Vec<usize>)
        ensures
            r@.len() == small_unspent(self.notes_view(), min).len(),
            forall|j: int|
                0 <= j < r@.len() ==> (#[trigger] r@[j]) < self.notes_view().len()
                    && self.notes_view()[r@[j] as int] == small_unspent(self.notes_view(), min)[j],
    {
        let ghost s = self.notes_view();
        let mut r: Vec<usize> = Vec::new();
        let mut i: usize = 0;
        while i < self.notes.len()
            invariant
                s == self.notes_view(),
                i <= s.len(),
                r@.len() == small_unspent(s.take(i as int), min).len(),
                forall|j: int|
                    0 <= j < r@.len() ==> (#[trigger] r@[j]) < i && s[r@[j] as int]
                        == small_unspent(s.take(i as int), min)[j],
            decreases s.len() - i,
        {
            assert(s.take(i + 1).drop_last() =~= s.take(i as int));
            if self.notes[i].nullifier.is_none() && self.notes[i].value < min {
                r.push(i);
            }
            i = i + 1;
        }
        assert(s.take(s.len() as int) =~= s);
        r
    }

    /// Merges small unspent notes. Where consolidation is enabled and at
    /// least two unspent notes are worth less than the configured minimum,
    /// the smallest of them (at most the configured count, equal values in
    /// ledger order) are merged into one new Orchard note to the first
    /// one's recipient, and every small note is then marked spent at
    /// height zero. Returns the new note, or nothing where there was
    /// nothing to merge.
    pub fn consolidate_notes(&mut self) -> (r: NozyResult<Vec<ShieldedNote>>)
        requires
            old(self).wf(),
        ensures
            final(self).wf(),
            final(self).config_view() == old(self).config_view(),
            ({
                let cfg = old(self).config_view();
                let small = small_unspent(old(self).notes_view(), cfg.min_consolidation_value);
                let m = if small.len() < cfg.max_consolidation_notes {
                    small.len() as int
                } else {
                    cfg.max_consolidation_notes as int
                };
                &&& (!cfg.enable_consolidation || small.len() < 2) ==> (r matches Ok(v)
                    && v@.len() == 0 && final(self).notes_view() == old(self).notes_view()
                    && final(self).leaves() == old(self).leaves())
                &&& (cfg.enable_consolidation && small.len() >= 2) ==> exists|ord: Seq<usize>|
                    #[trigger] is_stable_order(value_keys(small), ord) && consolidation_outcome(
                        old(self).notes_view(),
                        old(self).leaves(),
                        final(self).notes_view(),
                        final(self).leaves(),
                        r,
                        permuted(small, ord).take(m),
                        small,
                    )
            }),
    {
        if !self.config.enable_consolidation {
            return Ok(Vec::new());
        }
        let min = self.config.min_consolidation_value;
        let ghost s0 = self.notes_view();
        let ghost leaves0 = self.leaves();
        let ghost small = small_unspent(s0, min);
        let idx = self.small_indices(min);
        if idx.len() < 2 {
            return Ok(Vec::new());
        }
        let mut keys: Vec<u64> = Vec::new();
        let mut ids: Vec<String> = Vec::new();
        let mut j: usize = 0;
        while j < idx.len()
            invariant
                s0 == self.notes_view(),
                idx@.len() == small.len(),
                forall|q: int|
                    0 <= q < idx@.len() ==> (#[trigger] idx@[q]) < s0.len() && s0[idx@[q] as int]
                        == small[q],
                j <= idx@.len(),
                keys@.len() == j,
                ids@.len() == j,
                forall|q: int| 0 <= q < j ==> #[trigger] keys@[q] == small[q].value,
                forall|q: int| 0 <= q < j ==> (#[trigger] ids@[q])@ == small[q].id,
            decreases idx@.len() - j,
        {
            keys.push(self.notes[idx[j]].value);
            ids.push(self.notes[idx[j]].id.clone());
            j = j + 1;
        }
        assert(keys@ =~= value_keys(small));
        let ord = stable_order(&keys, Ghost(values(small)));
        let ghost ordered = permuted(small, ord@);
        let max = self.config.max_consolidation_notes;
        let m = if idx.len() < max {
            idx.len()
        } else {
            max
        };
        let ghost taken = ordered.take(m as int);
        proof {
            assert(values(ordered) =~= Seq::new(ord@.len(), |k: int| values(small)[ord@[k] as int]));
            lemma_sum_small(s0, min);
        }
        let mut total: u64 = 0;
        let mut k: usize = 0;
        while k < m
            invariant
                s0 == self.notes_view(),
                ordered == permuted(small, ord@),
                is_stable_order(keys@, ord@),
                keys@.len() == small.len(),
                idx@.len() == small.len(),
                forall|q: int|
                    0 <= q < idx@.len() ==> (#[trigger] idx@[q]) < s0.len() && s0[idx@[q] as int]
                        == small[q],
                sum_values(ordered) == sum_values(small),
                sum_values(small) <= u64::MAX,
                m <= ord@.len(),
                k <= m,
                total == sum_values(ordered.take(k as int)),
            decreases m - k,
        {
            proof {
                assert(ordered.take(k + 1) =~= ordered.take(k as int).push(ordered[k as int]));
                lemma_sum_push(ordered.take(k as int), ordered[k as int]);
                lemma_prefix_sum_bound(ordered, k + 1);
            }
            total = total + self.notes[idx[ord[k]]].value;
            k = k + 1;
        }
        assert(m >= 1);
        let recipient = self.notes[idx[ord[0]]].recipient_address.clone();
        assert(recipient@ == taken[0].recipient_address);
        let consolidated = match self.create_note(total, recipient, None, NoteType::Orchard, 0, None) {
            Ok(n) => n,
            Err(e) => {
                assert(is_stable_order(value_keys(small), ord@));
                return Err(e);
            },
        };
        let ghost n = consolidated@;
        let ghost s1 = self.notes_view();
        let ghost leaves1 = self.leaves();
        let mut q: usize = 0;
        while q < ids.len()
            invariant
                self.wf(),
                self.leaves() == leaves1,
                self.config_view() == old(self).config_view(),
                ids@.len() == small.len(),
                forall|t: int| 0 <= t < ids@.len() ==> (#[trigger] ids@[t])@ == small[t].id,
                q <= ids@.len(),
                self.notes_view() == mark_all(s1, note_ids(small).take(q as int), 0),
            decreases ids@.len() - q,
        {
            assert(note_ids(small).take(q + 1).drop_last() =~= note_ids(small).take(q as int));
            let _ = self.mark_note_spent(ids[q].as_str(), 0);
            q = q + 1;
        }
        assert(note_ids(small).take(ids@.len() as int) =~= note_ids(small));
        let mut out: Vec<ShieldedNote> = Vec::new();
        out.push(consolidated);
        assert(is_stable_order(value_keys(small), ord@));
        Ok(out)
    }
}


/// Selection is sufficient: what greedy selection takes out of the unspent
/// notes holds at least the amount asked for.
pub proof fn lemma_selection_sufficient(
    u: Seq<NoteView>,
    st: NoteSelectionStrategy,
    amount: int,
    sel: Seq<NoteView>,
)
    requires
        is_selection(u, st, amount, sel),
    ensures
        sum_values(sel) >= amount,
{
    let ord = choose|ord: Seq<usize>| #[trigger] selection_by(u, st, amount, ord, sel);
    assert(selection_by(u, st, amount, ord, sel));
}


// ---------------------------------------------------------------------
// Snapshots
// ---------------------------------------------------------------------

/// The full state of a ledger: its notes in order, the tree's leaves in
/// order, and its configuration.
#[derive(Debug, Clone)]
pub struct LedgerSnapshot {
    pub notes: Vec<ShieldedNote>,
    pub leaves: Vec<Vec<u8>>,
    pub config: NoteManagerConfig,
}

/// Whether a snapshot describes a well-formed ledger.
pub open spec fn snapshot_valid(s: LedgerSnapshot) -> bool {
    let nv = note_views(s.notes@);
    &&& ids_unique(nv)
    &&& forall|i: int| 0 <= i < nv.len() ==> spend_consistent(#[trigger] nv[i])
    &&& sum_values(nv) <= u64::MAX
    &&& s.leaves@.len() <= MAX_TREE_LEAVES
    &&& s.config.max_consolidation_notes >= 1
}

fn clone_notes(v: &Vec<ShieldedNote>) -> (r: Vec<ShieldedNote>)
    ensures
        note_views(r@) == note_views(v@),
{
    let mut r: Vec<ShieldedNote> = Vec::new();
    let mut i: usize = 0;
    while i < v.len()
        invariant
            i <= v@.len(),
            r@.len() == i,
            forall|j: int| 0 <= j < i ==> (#[trigger] r@[j])@ == v@[j]@,
        decreases v@.len() - i,
    {
        r.push(v[i].duplicate());
        i = i + 1;
    }
    assert(note_views(r@) =~= note_views(v@));
    r
}

impl NoteManager {
    /// A copy of the ledger's full state.
    pub fn snapshot(&self) -> (r: LedgerSnapshot)
        ensures
            note_views(r.notes@) == self.notes_view(),
            byte_seqs(r.leaves@) == self.leaves(),
            r.config == self.config_view(),
    {
        LedgerSnapshot {
            notes: clone_notes(&self.notes),
            leaves: clone_byte_seqs(&self.commitment_tree.nodes),
            config: self.config,
        }
    }

    /// The ledger a snapshot describes, with its root recomputed. Fails
    /// where the snapshot is not well formed: two notes share an id, a
    /// note's nullifier and spend height disagree, the values overflow, the
    /// tree is over capacity, or the consolidation count is zero.
    pub fn from_snapshot(snapshot: LedgerSnapshot) -> (r: NozyResult<NoteManager>)
        ensures
            r is Ok <==> snapshot_valid(snapshot),
            r matches Ok(m) ==> {
                &&& m.wf()
                &&& m.notes_view() == note_views(snapshot.notes@)
                &&& m.leaves() == byte_seqs(snapshot.leaves@)
                &&& m.config_view() == snapshot.config
            },
    {
        let ghost nv = note_views(snapshot.notes@);
        let n = snapshot.notes.len();
        let mut i: usize = 0;
        let mut total: u64 = 0;
        while i < n
            invariant
                n == nv.len(),
                nv == note_views(snapshot.notes@),
                i <= n,
                forall|a: int, b: int| 0 <= a < i && 0 <= b < n && a != b ==> nv[a].id != nv[b].id,
                forall|a: int| 0 <= a < i ==> spend_consistent(#[trigger] nv[a]),
                total == sum_values(nv.take(i as int)),
            decreases n - i,
        {
            let note = &snapshot.notes[i];
            assert(nv[i as int] == note@);
            let mut j: usize = 0;
            while j < n
                invariant
                    n == nv.len(),
                    nv == note_views(snapshot.notes@),
                    i < n,
                    j <= n,
                    note@ == nv[i as int],
                    forall|b: int| 0 <= b < j && b != i ==> nv[i as int].id != nv[b].id,
                decreases n - j,
            {
                if j != i && snapshot.notes[j].id == note.id {
                    assert(nv[j as int].id == nv[i as int].id);
                    assert(!ids_unique(nv));
                    return Err(NozyError::InvalidOperation(String::from_str("duplicate note id")));
                }
                j = j + 1;
            }
            if note.nullifier.is_some() != note.spent_at_height.is_some() {
                assert(!spend_consistent(nv[i as int]));
                return Err(NozyError::InvalidOperation(String::from_str("inconsistent spend state")));
            }
            proof {
                assert(nv.take(i + 1) =~= nv.take(i as int).push(nv[i as int]));
                lemma_sum_push(nv.take(i as int), nv[i as int]);
            }
            if note.value > u64::MAX - total {
                proof {
                    lemma_prefix_sum_bound(nv, i + 1);
                }
                return Err(NozyError::InvalidOperation(String::from_str("value overflow")));
            }
            total = total + note.value;
            i = i + 1;
        }
        assert(nv.take(n as int) =~= nv);
        if snapshot.leaves.len() as u64 > MAX_TREE_LEAVES {
            return Err(NozyError::TreeFull);
        }
        if snapshot.config.max_consolidation_notes == 0 {
            return Err(NozyError::InvalidOperation(String::from_str("no consolidation count")));
        }
        let root = compute_root(&snapshot.leaves);
        let size = snapshot.leaves.len() as u64;
        let LedgerSnapshot { notes, leaves, config } = snapshot;
        let m = NoteManager {
            notes,
            config,
            commitment_tree: CommitmentTree { depth: 32, size, root, nodes: leaves },
        };
        Ok(m)
    }
}

} // verus!
