//! Shielded addresses and the manager that issues and imports them.
use vstd::prelude::*;
use vstd::utf8::encode_utf8;
use crate::crypto::{
    append_bytes, blake2b_256, blake2b_digest, decimal_of, hex_decode, hex_encode, hex_of,
    is_hex_text, le_bytes, le_bytes_of, u64_to_decimal,
};
use crate::error::{NozyError, NozyResult};
use crate::hd_wallet::{wallet_seed, HDWallet};

verus! {

#[derive(Debug, Clone, Copy, PartialEq, Eq, Hash, Structural)]
pub enum NetworkType {
    Mainnet,
    Testnet,
}

#[derive(Debug, Clone, Copy, PartialEq, Eq, Hash, Structural)]
pub enum ZcashAddressType {
    Orchard,
    Sapling,
    Unified,
}

#[derive(Debug, Clone, PartialEq, Eq, Hash)]
pub struct ZcashAddressWrapper {
    pub address: String,
    pub address_type: ZcashAddressType,
    pub derivation_path: String,
    pub network: NetworkType,
}

pub struct AddressView {
    pub address: Seq<char>,
    pub address_type: ZcashAddressType,
    pub derivation_path: Seq<char>,
    pub network: NetworkType,
}

impl View for ZcashAddressWrapper {
    type V = AddressView;

    open spec fn view(&self) -> AddressView {
        AddressView {
            address: self.address@,
            address_type: self.address_type,
            derivation_path: self.derivation_path@,
            network: self.network,
        }
    }
}

impl ZcashAddressWrapper {
    pub fn new(
        address: String,
        address_type: ZcashAddressType,
        derivation_path: String,
        network: NetworkType,
    ) -> (r: Self)
        ensures
            r@ == (AddressView {
                address: address@,
                address_type,
                derivation_path: derivation_path@,
                network,
            }),
    {
        ZcashAddressWrapper { address, address_type, derivation_path, network }
    }

    /// A copy with the same content.
    pub fn duplicate(&self) -> (r: Self)
        ensures
            r@ == self@,
    {
        ZcashAddressWrapper {
            address: self.address.clone(),
            address_type: self.address_type,
            derivation_path: self.derivation_path.clone(),
            network: self.network,
        }
    }
}


/// The name of a network, as the wallet writes it.
pub open spec fn network_name(n: NetworkType) -> Seq<char> {
    match n {
        NetworkType::Mainnet => "mainnet"@,
        NetworkType::Testnet => "testnet"@,
    }
}

/// The domain tag hashed into an address of each type.
pub open spec fn address_tag(t: ZcashAddressType) -> Seq<char> {
    match t {
        ZcashAddressType::Orchard => "Orchard_Address"@,
        ZcashAddressType::Sapling => "Sapling_Address"@,
        ZcashAddressType::Unified => "Unified_Address"@,
    }
}

/// The leading letter of an address of each type.
pub open spec fn address_prefix(t: ZcashAddressType) -> Seq<char> {
    match t {
        ZcashAddressType::Sapling => "z"@,
        _ => "u"@,
    }
}

/// The address of type `t` numbered `counter` for a seed: its prefix, then
/// hex of the first 28 bytes of the digest of tag, seed, counter (four
/// little-endian bytes) and network name.
pub open spec fn address_text(
    t: ZcashAddressType,
    seed: Seq<u8>,
    counter: u32,
    network: NetworkType,
) -> Seq<char> {
    address_prefix(t) + hex_of(
        blake2b_256(
            encode_utf8(address_tag(t)) + seed + le_bytes(counter as nat, 4) + encode_utf8(
                network_name(network),
            ),
        ).subrange(0, 28),
    )
}

/// Whether the UTF-8 bytes of a text form a well-formed address: 50 to 70
/// bytes, a leading `u` or `z`, and hex text after it.
pub open spec fn valid_address_bytes(b: Seq<u8>) -> bool {
    &&& 50 <= b.len() <= 70
    &&& (b[0] == 117 || b[0] == 122)
    &&& is_hex_text(b.subrange(1, b.len() as int))
}

impl NetworkType {
    /// The network's name, as the wallet writes it.
    pub fn as_str(&self) -> (r: &'static str)
        ensures
            r@ == network_name(*self),
    {
        match self {
            NetworkType::Mainnet => "mainnet",
            NetworkType::Testnet => "testnet",
        }
    }
}

/// Whether `address` is well formed.
pub fn is_valid_address(address: &str) -> (r: bool)
    ensures
        r == valid_address_bytes(encode_utf8(address@)),
{
    let bytes = address.as_bytes();
    let n = bytes.len();
    if n < 50 || n > 70 {
        return false;
    }
    if bytes[0] != 117u8 && bytes[0] != 122u8 {
        return false;
    }
    let mut rest: Vec<u8> = Vec::new();
    let mut i: usize = 1;
    while i < n
        invariant
            n == bytes@.len(),
            1 <= i <= n,
            rest@ == bytes@.subrange(1, i as int),
        decreases n - i,
    {
        rest.push(bytes[i]);
        i = i + 1;
        assert(rest@ =~= bytes@.subrange(1, i as int));
    }
    hex_decode(rest.as_slice()).is_some()
}

impl ZcashAddressWrapper {
    /// Whether `address` is well formed.
    pub fn validate_address(&self, address: &str) -> (r: bool)
        ensures
            r == valid_address_bytes(encode_utf8(address@)),
    {
        is_valid_address(address)
    }
}

/// How many addresses of each type have been issued.
#[derive(Debug, Clone, Copy)]
struct AddressCounters {
    orchard: u32,
    sapling: u32,
    unified: u32,
}

/// The addresses of a type, in order.
pub open spec fn of_type(s: Seq<AddressView>, t: ZcashAddressType) -> Seq<AddressView>
    decreases s.len(),
{
    if s.len() == 0 {
        Seq::empty()
    } else if s.last().address_type == t {
        of_type(s.drop_last(), t).push(s.last())
    } else {
        of_type(s.drop_last(), t)
    }
}

pub open spec fn has_address(s: Seq<AddressView>, a: Seq<char>) -> bool {
    exists|i: int| 0 <= i < s.len() && s[i].address == a
}

pub open spec fn address_index(s: Seq<AddressView>, a: Seq<char>) -> int {
    choose|i: int| 0 <= i < s.len() && s[i].address == a
}

/// The addresses after recording `a`: it replaces the entry with its text,
/// or else comes last.
pub open spec fn with_address(s: Seq<AddressView>, a: AddressView) -> Seq<AddressView> {
    if has_address(s, a.address) {
        s.update(address_index(s, a.address), a)
    } else {
        s.push(a)
    }
}

/// What issuing the next address of type `t` does: it succeeds exactly
/// where the wallet has a valid seed and the type's counter is not
/// exhausted; the address is derived from the seed and the counter,
/// recorded, and only that counter advances. A failure changes nothing.
pub open spec fn issue_outcome(
    m0: AddressManager,
    m1: AddressManager,
    t: ZcashAddressType,
    r: NozyResult<ZcashAddressWrapper>,
) -> bool {
    &&& m1.wallet() == m0.wallet()
    &&& m1.network_view() == m0.network_view()
    &&& r is Ok <==> wallet_seed(&m0.wallet()) is Some && m0.count_of(t) < u32::MAX
    &&& r matches Err(e) ==> e is InvalidOperation
    &&& r is Err ==> m1.addresses_view() == m0.addresses_view()
    &&& r is Err ==> forall|u: ZcashAddressType| #[trigger] m1.count_of(u) == m0.count_of(u)
    &&& r matches Ok(a) ==> {
        &&& a@ == (AddressView {
            address: address_text(t, wallet_seed(&m0.wallet())->Some_0, m0.count_of(t), m0.network_view()),
            address_type: t,
            derivation_path: "m/44'/133'/0'/0/"@ + decimal_of(m0.count_of(t) as nat),
            network: m0.network_view(),
        })
        &&& m1.addresses_view() == with_address(m0.addresses_view(), a@)
        &&& m1.count_of(t) == m0.count_of(t) + 1
        &&& forall|u: ZcashAddressType| u != t ==> #[trigger] m1.count_of(u) == m0.count_of(u)
    }
}

/// Issues addresses from the wallet's seed and keeps those issued or
/// imported, one per address text.
#[derive(Debug, Clone)]
pub struct AddressManager {
    addresses: Vec<ZcashAddressWrapper>,
    counters: AddressCounters,
    hd_wallet: HDWallet,
    network: NetworkType,
}

impl AddressManager {
    /// The recorded addresses, in order of first recording.
    pub closed spec fn addresses_view(&self) -> Seq<AddressView> {
        self.addresses@.map_values(|a: ZcashAddressWrapper| a@)
    }

    /// How many addresses of type `t` have been issued.
    pub closed spec fn count_of(&self, t: ZcashAddressType) -> u32 {
        match t {
            ZcashAddressType::Orchard => self.counters.orchard,
            ZcashAddressType::Sapling => self.counters.sapling,
            ZcashAddressType::Unified => self.counters.unified,
        }
    }

    pub closed spec fn wallet(&self) -> HDWallet {
        self.hd_wallet
    }

    pub closed spec fn network_view(&self) -> NetworkType {
        self.network
    }

    /// No address text is recorded twice.
    pub closed spec fn wf(&self) -> bool {
        forall|i: int, j: int|
            0 <= i < self.addresses@.len() && 0 <= j < self.addresses@.len() && i != j
                ==> self.addresses@[i].address@ != self.addresses@[j].address@
    }

    pub fn new(hd_wallet: HDWallet, network: NetworkType) -> (r: Self)
        ensures
            r.wf(),
            r.addresses_view().len() == 0,
            r.wallet() == hd_wallet,
            r.network_view() == network,
            forall|t: ZcashAddressType| #[trigger] r.count_of(t) == 0,
    {
        AddressManager {
            addresses: Vec::new(),
            counters: AddressCounters { orchard: 0, sapling: 0, unified: 0 },
            hd_wallet,
            network,
        }
    }

    fn find_index(&self, address: &String) -> (r: Option<usize>)
        requires
            self.wf(),
        ensures
            r is None ==> !has_address(self.addresses_view(), address@),
            r matches Some(i) ==> i < self.addresses@.len() && self.addresses_view()[i as int].address
                == address@ && address_index(self.addresses_view(), address@) == i,
    {
        let mut i: usize = 0;
        while i < self.addresses.len()
            invariant
                self.wf(),
                i <= self.addresses@.len(),
                forall|j: int| 0 <= j < i ==> (#[trigger] self.addresses@[j]).address@ != address@,
            decreases self.addresses@.len() - i,
        {
            if self.addresses[i].address == *address {
                let ghost v = self.addresses_view();
                assert(v[i as int].address == address@);
                assert(has_address(v, address@));
                let ghost k = address_index(v, address@);
                assert(self.addresses@[k].address@ == address@);
                return Some(i);
            }
            i = i + 1;
        }
        None
    }

    /// Records `a`, replacing the entry with the same address text.
    fn record(&mut self, a: ZcashAddressWrapper)
        requires
            old(self).wf(),
        ensures
            final(self).wf(),
            final(self).addresses_view() == with_address(old(self).addresses_view(), a@),
            final(self).wallet() == old(self).wallet(),
            final(self).network_view() == old(self).network_view(),
            forall|t: ZcashAddressType| #[trigger] final(self).count_of(t) == old(self).count_of(t),
    {
        let ghost v = self.addresses_view();
        match self.find_index(&a.address) {
            Some(i) => {
                let ghost before = self.addresses@;
                self.addresses.set(i, a);
                assert(self.addresses_view() =~= v.update(i as int, a@));
                assert forall|p: int, q: int|
                    0 <= p < self.addresses@.len() && 0 <= q < self.addresses@.len() && p != q
                        implies self.addresses@[p].address@ != self.addresses@[q].address@ by {
                    assert(before[i as int].address@ == self.addresses@[i as int].address@);
                    if p != i as int {
                        assert(self.addresses@[p] == before[p]);
                    }
                    if q != i as int {
                        assert(self.addresses@[q] == before[q]);
                    }
                }
            },
            None => {
                let ghost before = self.addresses@;
                self.addresses.push(a);
                assert(self.addresses_view() =~= v.push(a@));
                assert forall|p: int, q: int|
                    0 <= p < self.addresses@.len() && 0 <= q < self.addresses@.len() && p != q
                        implies self.addresses@[p].address@ != self.addresses@[q].address@ by {
                    if p < before.len() {
                        assert(self.addresses@[p] == before[p]);
                        assert(v[p].address == before[p].address@);
                    }
                    if q < before.len() {
                        assert(self.addresses@[q] == before[q]);
                        assert(v[q].address == before[q].address@);
                    }
                }
            },
        }
    }

    fn counter(&self, t: ZcashAddressType) -> (r: u32)
        ensures
            r == self.count_of(t),
    {
        match t {
            ZcashAddressType::Orchard => self.counters.orchard,
            ZcashAddressType::Sapling => self.counters.sapling,
            ZcashAddressType::Unified => self.counters.unified,
        }
    }

    /// Issues the next address of type `t`: derived from the wallet's seed
    /// and the type's counter, recorded, and the counter advanced. Fails
    /// where the wallet has no valid seed or the counter is exhausted.
    fn generate_address(&mut self, t: ZcashAddressType, password: &str) -> (r: NozyResult<
        ZcashAddressWrapper,
    >)
        requires
            old(self).wf(),
        ensures
            final(self).wf(),
            issue_outcome(*old(self), *final(self), t, r),
    {
        let counter_value = self.counter(t);
        let seed = match self.hd_wallet.get_seed_bytes(password) {
            Ok(s) => s,
            Err(e) => {
                return Err(e);
            },
        };
        if counter_value == u32::MAX {
            return Err(NozyError::InvalidOperation(String::from_str("address counter exhausted")));
        }
        let derivation_path = String::from_str("m/44'/133'/0'/0/").concat(
            u64_to_decimal(counter_value as u64).as_str(),
        );
        let (tag, prefix) = match t {
            ZcashAddressType::Orchard => ("Orchard_Address", "u"),
            ZcashAddressType::Sapling => ("Sapling_Address", "z"),
            ZcashAddressType::Unified => ("Unified_Address", "u"),
        };
        assert(tag@ == address_tag(t));
        assert(prefix@ == address_prefix(t));
        let mut msg: Vec<u8> = Vec::new();
        append_bytes(&mut msg, tag.as_bytes());
        append_bytes(&mut msg, seed.as_slice());
        append_bytes(&mut msg, le_bytes_of(counter_value as u64, 4).as_slice());
        append_bytes(&mut msg, self.network.as_str().as_bytes());
        let digest = blake2b_digest(msg.as_slice());
        let mut head: Vec<u8> = Vec::new();
        let mut i: usize = 0;
        while i < 28
            invariant
                i <= 28,
                digest@.len() == 32,
                head@ == digest@.subrange(0, i as int),
            decreases 28 - i,
        {
            head.push(digest[i]);
            i = i + 1;
            assert(head@ =~= digest@.subrange(0, i as int));
        }
        let address = String::from_str(prefix).concat(hex_encode(head.as_slice()).as_str());
        assert(msg@ =~= encode_utf8(address_tag(t)) + wallet_seed(&self.hd_wallet)->Some_0 + le_bytes(
            counter_value as nat,
            4,
        ) + encode_utf8(network_name(self.network)));
        assert(address@ == address_text(t, wallet_seed(&self.hd_wallet)->Some_0, counter_value, self.network));
        let wrapper = ZcashAddressWrapper::new(address, t, derivation_path, self.network);
        self.record(wrapper.duplicate());
        let ghost mid = self.counters;
        let ghost mid_self = *self;
        match t {
            ZcashAddressType::Orchard => self.counters.orchard = counter_value + 1,
            ZcashAddressType::Sapling => self.counters.sapling = counter_value + 1,
            ZcashAddressType::Unified => self.counters.unified = counter_value + 1,
        }
        assert(self.count_of(t) == counter_value + 1);
        assert forall|u: ZcashAddressType| u != t implies #[trigger] self.count_of(u) == old(
            self,
        ).count_of(u) by {
            assert(mid_self.count_of(u) == old(self).count_of(u));
            match u {
                ZcashAddressType::Orchard => assert(self.counters.orchard == mid.orchard),
                ZcashAddressType::Sapling => assert(self.counters.sapling == mid.sapling),
                ZcashAddressType::Unified => assert(self.counters.unified == mid.unified),
            }
        }
        assert(wrapper@.derivation_path == "m/44'/133'/0'/0/"@ + decimal_of(counter_value as nat));
        assert(self.addresses_view() == with_address(old(self).addresses_view(), wrapper@));
        Ok(wrapper)
    }

    /// Issues the next Orchard address.
    pub fn generate_orchard_address(&mut self, password: &str) -> (r: NozyResult<ZcashAddressWrapper>)
        requires
            old(self).wf(),
        ensures
            final(self).wf(),
            issue_outcome(*old(self), *final(self), ZcashAddressType::Orchard, r),
    {
        self.generate_address(ZcashAddressType::Orchard, password)
    }

    /// Issues the next Sapling address.
    pub fn generate_sapling_address(&mut self, password: &str) -> (r: NozyResult<ZcashAddressWrapper>)
        requires
            old(self).wf(),
        ensures
            final(self).wf(),
            issue_outcome(*old(self), *final(self), ZcashAddressType::Sapling, r),
    {
        self.generate_address(ZcashAddressType::Sapling, password)
    }

    /// Issues the next unified address.
    pub fn generate_unified_address(&mut self, password: &str) -> (r: NozyResult<ZcashAddressWrapper>)
        requires
            old(self).wf(),
        ensures
            final(self).wf(),
            issue_outcome(*old(self), *final(self), ZcashAddressType::Unified, r),
    {
        self.generate_address(ZcashAddressType::Unified, password)
    }

    /// Every recorded address.
    pub fn get_all_addresses(&self) -> (r: Vec<&ZcashAddressWrapper>)
        ensures
            r@.map_values(|a: &ZcashAddressWrapper| a@) == self.addresses_view(),
    {
        let mut r: Vec<&ZcashAddressWrapper> = Vec::new();
        let mut i: usize = 0;
        while i < self.addresses.len()
            invariant
                i <= self.addresses@.len(),
                r@.map_values(|a: &ZcashAddressWrapper| a@) == self.addresses_view().take(i as int),
            decreases self.addresses@.len() - i,
        {
            let ghost before = r@;
            r.push(&self.addresses[i]);
            assert(r@.map_values(|a: &ZcashAddressWrapper| a@) =~= before.map_values(
                |a: &ZcashAddressWrapper| a@,
            ).push(self.addresses_view()[i as int]));
            assert(self.addresses_view().take(i + 1) =~= self.addresses_view().take(i as int).push(
                self.addresses_view()[i as int],
            ));
            i = i + 1;
        }
        assert(self.addresses_view().take(i as int) =~= self.addresses_view());
        r
    }

    /// The recorded addresses of one type.
    pub fn get_addresses_by_type(&self, address_type: &ZcashAddressType) -> (r: Vec<
        &ZcashAddressWrapper,
    >)
        ensures
            r@.map_values(|a: &ZcashAddressWrapper| a@) == of_type(
                self.addresses_view(),
                *address_type,
            ),
    {
        let ghost v = self.addresses_view();
        let mut r: Vec<&ZcashAddressWrapper> = Vec::new();
        let mut i: usize = 0;
        while i < self.addresses.len()
            invariant
                v == self.addresses_view(),
                i <= v.len(),
                r@.map_values(|a: &ZcashAddressWrapper| a@) == of_type(v.take(i as int), *address_type),
            decreases v.len() - i,
        {
            assert(v.take(i + 1).drop_last() =~= v.take(i as int));
            let ghost before = r@;
            if self.addresses[i].address_type == *address_type {
                r.push(&self.addresses[i]);
                assert(r@.map_values(|a: &ZcashAddressWrapper| a@) =~= before.map_values(
                    |a: &ZcashAddressWrapper| a@,
                ).push(v[i as int]));
            }
            i = i + 1;
        }
        assert(v.take(i as int) =~= v);
        r
    }

    /// The recorded address with text `address`, if any.
    pub fn find_address(&self, address: &str) -> (r: Option<&ZcashAddressWrapper>)
        requires
            self.wf(),
        ensures
            r is Some <==> has_address(self.addresses_view(), address@),
            r matches Some(a) ==> a@ == self.addresses_view()[address_index(
                self.addresses_view(),
                address@,
            )],
    {
        let key = String::from_str(address);
        match self.find_index(&key) {
            Some(i) => Some(&self.addresses[i]),
            None => None,
        }
    }

    /// Whether `address` is well formed.
    pub fn validate_address(&self, address: &str) -> (r: bool)
        ensures
            r == valid_address_bytes(encode_utf8(address@)),
    {
        is_valid_address(address)
    }

    /// How many addresses of a type have been issued.
    pub fn get_address_count(&self, address_type: &ZcashAddressType) -> (r: u32)
        ensures
            r == self.count_of(*address_type),
    {
        self.counter(*address_type)
    }

    /// Records an address from elsewhere, replacing the entry with the same
    /// text. Fails, changing nothing, where the address is not well formed.
    pub fn import_address(&mut self, address: ZcashAddressWrapper) -> (r: NozyResult<()>)
        requires
            old(self).wf(),
        ensures
            final(self).wf(),
            r is Ok <==> valid_address_bytes(encode_utf8(address@.address)),
            r matches Err(e) ==> e is InvalidOperation,
            r is Ok ==> final(self).addresses_view() == with_address(
                old(self).addresses_view(),
                address@,
            ),
            r is Err ==> final(self).addresses_view() == old(self).addresses_view(),
            forall|t: ZcashAddressType| #[trigger] final(self).count_of(t) == old(self).count_of(t),
    {
        if !is_valid_address(address.address.as_str()) {
            return Err(NozyError::InvalidOperation(String::from_str("Invalid Zcash address format")));
        }
        self.record(address);
        Ok(())
    }

    pub fn get_network(&self) -> (r: NetworkType)
        ensures
            r == self.network_view(),
    {
        self.network
    }
}

} // verus!
