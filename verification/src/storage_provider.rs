//! The precompile storage provider's own state: chain facts, gas accounting
//! and transient storage. Persistent storage and account records live in
//! the node's database, which the embedding code consults.

use vstd::prelude::*;

use crate::primitives::{Address, Word};

verus! {

/// Errors that the storage provider reports to precompile code.
#[derive(Debug)]
pub enum ProviderError {
    /// An unrecoverable failure, with its message.
    Fatal(String),
}

/// One transient storage slot: the value stored under `key` of `address`.
#[derive(Clone, Copy, Debug)]
pub struct TransientSlot {
    pub address: Address,
    pub key: Word,
    pub value: Word,
}

/// The key under which a slot is stored.
pub open spec fn slot_key(s: TransientSlot) -> (Address, Word) {
    (s.address, s.key)
}

/// No two slots share a key.
pub open spec fn keys_unique(slots: Seq<TransientSlot>) -> bool {
    forall|i: int, j: int|
        0 <= i < slots.len() && 0 <= j < slots.len() && i != j ==> slot_key(#[trigger] slots[i])
            != slot_key(#[trigger] slots[j])
}

/// Whether some slot has key `k`.
pub open spec fn has_key(slots: Seq<TransientSlot>, k: (Address, Word)) -> bool {
    exists|i: int| 0 <= i < slots.len() && slot_key(#[trigger] slots[i]) == k
}

/// The transient storage as a map from (address, key) to value.
pub open spec fn slots_map(slots: Seq<TransientSlot>) -> Map<(Address, Word), Word> {
    Map::new(
        |k: (Address, Word)| has_key(slots, k),
        |k: (Address, Word)|
            slots[choose|i: int| 0 <= i < slots.len() && slot_key(#[trigger] slots[i]) == k].value,
    )
}

/// With unique keys, the slot at `i` is what the map holds under its key.
proof fn lemma_slot_in_map(slots: Seq<TransientSlot>, i: int)
    requires
        keys_unique(slots),
        0 <= i < slots.len(),
    ensures
        slots_map(slots).contains_key(slot_key(slots[i])),
        slots_map(slots)[slot_key(slots[i])] == slots[i].value,
{
    let k = slot_key(slots[i]);
    assert(has_key(slots, k));
    let c = choose|c: int| 0 <= c < slots.len() && slot_key(#[trigger] slots[c]) == k;
    assert(slot_key(slots[c]) == k);
    assert(c == i);
}

/// What transient storage `m` holds under `key` of `address`: the stored
/// value, or zero when nothing is stored there.
pub open spec fn transient_lookup(m: Map<(Address, Word), Word>, address: Address, key: Word) -> Word {
    if m.contains_key((address, key)) {
        m[(address, key)]
    } else {
        Word { w0: 0, w1: 0, w2: 0, w3: 0 }
    }
}

/// Gas used after charging `gas` more: the sum, saturating at `u64::MAX`.
pub open spec fn gas_after_charge(used: u64, gas: u64) -> u64 {
    if used + gas > u64::MAX {
        u64::MAX
    } else {
        (used + gas) as u64
    }
}

/// Gas refunded after adding `gas`: the sum, clamped to the range of `i64`.
pub open spec fn refund_after(refunded: i64, gas: i64) -> i64 {
    if refunded + gas > i64::MAX {
        i64::MAX
    } else if refunded + gas < i64::MIN {
        i64::MIN
    } else {
        (refunded + gas) as i64
    }
}

/// The provider's state as seen by contracts.
pub struct ProviderView<H> {
    pub chain_id: u64,
    pub timestamp: Word,
    pub gas_used: u64,
    pub gas_refunded: i64,
    pub transient: Map<(Address, Word), Word>,
    pub hardfork: H,
}

/// State of the storage provider that serves precompile code while a node
/// runs in Tempo mode.
pub struct AnvilStorageProvider<H> {
    chain_id: u64,
    timestamp: Word,
    gas_used: u64,
    gas_refunded: i64,
    transient: Vec<TransientSlot>,
    hardfork: H,
}

impl<H> View for AnvilStorageProvider<H> {
    type V = ProviderView<H>;

    closed spec fn view(&self) -> ProviderView<H> {
        ProviderView {
            chain_id: self.chain_id,
            timestamp: self.timestamp,
            gas_used: self.gas_used,
            gas_refunded: self.gas_refunded,
            transient: slots_map(self.transient@),
            hardfork: self.hardfork,
        }
    }
}

/// `a + b`, saturating at the bounds of `i64`.
fn i64_saturating_add(a: i64, b: i64) -> (r: i64)
    ensures
        r == refund_after(a, b),
{
    match a.checked_add(b) {
        Some(sum) => sum,
        None => if b > 0 {
            i64::MAX
        } else {
            i64::MIN
        },
    }
}

impl<H> AnvilStorageProvider<H> {
    #[verifier::type_invariant]
    spec fn inv(self) -> bool {
        keys_unique(self.transient@)
    }

    /// A provider for the given chain, block timestamp and hardfork, with no
    /// gas used or refunded and empty transient storage.
    pub fn new(chain_id: u64, timestamp: Word, hardfork: H) -> (p: Self)
        ensures
            p@.chain_id == chain_id,
            p@.timestamp == timestamp,
            p@.gas_used == 0,
            p@.gas_refunded == 0,
            p@.transient == Map::<(Address, Word), Word>::empty(),
            p@.hardfork == hardfork,
    {
        let p = AnvilStorageProvider {
            chain_id,
            timestamp,
            gas_used: 0,
            gas_refunded: 0,
            transient: Vec::new(),
            hardfork,
        };
        assert(slots_map(p.transient@) =~= Map::<(Address, Word), Word>::empty());
        p
    }

    /// The hardfork whose rules apply.
    pub fn spec(&self) -> (h: H) where H: Copy
        ensures
            h == self@.hardfork,
    {
        self.hardfork
    }

    /// The chain id.
    pub fn chain_id(&self) -> (c: u64)
        ensures
            c == self@.chain_id,
    {
        self.chain_id
    }

    /// The block timestamp.
    pub fn timestamp(&self) -> (t: Word)
        ensures
            t == self@.timestamp,
    {
        self.timestamp
    }

    /// The gas charged so far.
    pub fn gas_used(&self) -> (g: u64)
        ensures
            g == self@.gas_used,
    {
        self.gas_used
    }

    /// The gas refunded so far.
    pub fn gas_refunded(&self) -> (g: i64)
        ensures
            g == self@.gas_refunded,
    {
        self.gas_refunded
    }

    /// Charges `gas`; the total saturates at `u64::MAX`. Never fails.
    pub fn deduct_gas(&mut self, gas: u64) -> (r: Result<(), ProviderError>)
        ensures
            r is Ok,
            final(self)@.gas_used == gas_after_charge(old(self)@.gas_used, gas),
            final(self)@.chain_id == old(self)@.chain_id,
            final(self)@.timestamp == old(self)@.timestamp,
            final(self)@.gas_refunded == old(self)@.gas_refunded,
            final(self)@.transient == old(self)@.transient,
            final(self)@.hardfork == old(self)@.hardfork,
    {
        proof {
            use_type_invariant(&*self);
        }
        self.gas_used = self.gas_used.saturating_add(gas);
        Ok(())
    }

    /// Adds `gas` (which may be negative) to the refund counter; the total
    /// saturates at the bounds of `i64`.
    pub fn refund_gas(&mut self, gas: i64)
        ensures
            final(self)@.gas_refunded == refund_after(old(self)@.gas_refunded, gas),
            final(self)@.chain_id == old(self)@.chain_id,
            final(self)@.timestamp == old(self)@.timestamp,
            final(self)@.gas_used == old(self)@.gas_used,
            final(self)@.transient == old(self)@.transient,
            final(self)@.hardfork == old(self)@.hardfork,
    {
        proof {
            use_type_invariant(&*self);
        }
        self.gas_refunded = i64_saturating_add(self.gas_refunded, gas);
    }

    /// Index of the transient slot with key (`address`, `key`), if any.
    fn find_slot(&self, address: &Address, key: &Word) -> (r: Option<usize>)
        ensures
            match r {
                Some(i) => i < self.transient@.len() && slot_key(self.transient@[i as int]) == (
                *address,
                *key,
                ),
                None => !has_key(self.transient@, (*address, *key)),
            },
    {
        let n = self.transient.len();
        let mut i: usize = 0;
        while i < n
            invariant
                n == self.transient@.len(),
                0 <= i <= n,
                forall|j: int|
                    0 <= j < i ==> slot_key(#[trigger] self.transient@[j]) != (*address, *key),
            decreases n - i,
        {
            let s = &self.transient[i];
            if s.address == *address && s.key == *key {
                return Some(i);
            }
            i = i + 1;
        }
        None
    }

    /// Reads transient storage: the value last stored under `key` of
    /// `address`, or zero when nothing was stored there. Never fails.
    pub fn tload(&self, address: Address, key: Word) -> (r: Result<Word, ProviderError>)
        ensures
            r == Ok::<Word, ProviderError>(transient_lookup(self@.transient, address, key)),
    {
        proof {
            use_type_invariant(self);
        }
        match self.find_slot(&address, &key) {
            Some(i) => {
                proof {
                    lemma_slot_in_map(self.transient@, i as int);
                }
                Ok(self.transient[i].value)
            },
            None => Ok(Word::zero()),
        }
    }

    /// Writes `value` to transient storage under `key` of `address`. Never
    /// fails.
    pub fn tstore(&mut self, address: Address, key: Word, value: Word) -> (r: Result<(), ProviderError>)
        ensures
            r is Ok,
            final(self)@.transient == old(self)@.transient.insert((address, key), value),
            final(self)@.chain_id == old(self)@.chain_id,
            final(self)@.timestamp == old(self)@.timestamp,
            final(self)@.gas_used == old(self)@.gas_used,
            final(self)@.gas_refunded == old(self)@.gas_refunded,
            final(self)@.hardfork == old(self)@.hardfork,
    {
        proof {
            use_type_invariant(&*self);
        }
        let ghost before = self.transient@;
        let k = (address, key);
        let slot = TransientSlot { address, key, value };
        match self.find_slot(&address, &key) {
            Some(i) => {
                let ghost after = before.update(i as int, slot);
                assert(keys_unique(after));
                let mut slots: Vec<TransientSlot> = Vec::new();
                std::mem::swap(&mut slots, &mut self.transient);
                slots.set(i, slot);
                self.transient = slots;
                proof {
                    assert forall|k2: (Address, Word)|
                        #![trigger slots_map(after).contains_key(k2)]
                        slots_map(after).contains_key(k2) == slots_map(before).insert(
                            k,
                            value,
                        ).contains_key(k2) by {
                        if has_key(before, k2) {
                            let c = choose|c: int|
                                0 <= c < before.len() && slot_key(#[trigger] before[c]) == k2;
                            assert(slot_key(after[c]) == k2 || c == i);
                        }
                        if has_key(after, k2) {
                            let c = choose|c: int|
                                0 <= c < after.len() && slot_key(#[trigger] after[c]) == k2;
                            assert(slot_key(before[c]) == k2 || c == i);
                        }
                    }
                    assert forall|k2: (Address, Word)|
                        #[trigger] slots_map(after).contains_key(k2) implies slots_map(after)[k2]
                        == slots_map(before).insert(k, value)[k2] by {
                        let c = choose|c: int|
                            0 <= c < after.len() && slot_key(#[trigger] after[c]) == k2;
                        lemma_slot_in_map(after, c);
                        if c != i {
                            lemma_slot_in_map(before, c);
                        }
                    }
                    assert(slots_map(after) =~= slots_map(before).insert(k, value));
                }
            },
            None => {
                let ghost after = before.push(slot);
                assert(keys_unique(after));
                let mut slots: Vec<TransientSlot> = Vec::new();
                std::mem::swap(&mut slots, &mut self.transient);
                slots.push(slot);
                self.transient = slots;
                proof {
                    assert forall|k2: (Address, Word)|
                        #![trigger slots_map(after).contains_key(k2)]
                        slots_map(after).contains_key(k2) == slots_map(before).insert(
                            k,
                            value,
                        ).contains_key(k2) by {
                        if has_key(before, k2) {
                            let c = choose|c: int|
                                0 <= c < before.len() && slot_key(#[trigger] before[c]) == k2;
                            assert(slot_key(after[c]) == k2);
                        }
                        if k2 == k {
                            assert(slot_key(after[before.len() as int]) == k2);
                        }
                    }
                    assert forall|k2: (Address, Word)|
                        #[trigger] slots_map(after).contains_key(k2) implies slots_map(after)[k2]
                        == slots_map(before).insert(k, value)[k2] by {
                        let c = choose|c: int|
                            0 <= c < after.len() && slot_key(#[trigger] after[c]) == k2;
                        lemma_slot_in_map(after, c);
                        if c < before.len() {
                            lemma_slot_in_map(before, c);
                        }
                    }
                    assert(slots_map(after) =~= slots_map(before).insert(k, value));
                }
            },
        }
        Ok(())
    }

    /// The block's beneficiary as seen by precompiles: the zero address.
    pub fn beneficiary(&self) -> (a: Address)
        ensures
            a@ == 0,
            a == (Address { hi: 0, mid: 0, lo: 0 }),
    {
        Address::zero()
    }

    /// Whether the call is static: never.
    pub fn is_static(&self) -> (s: bool)
        ensures
            !s,
    {
        false
    }
}

/// Names the text that alloy's `Address` shows through `Display`: its
/// EIP-55 checksummed hex form.
pub uninterp spec fn address_checksum_text(address: nat) -> Seq<char>;

/// The text of `address` as `alloy_primitives::Address`'s `Display` writes
/// it. The contract names the text and says nothing of its characters.
#[verifier::external_body]
fn address_display(address: Address) -> (s: String)
    ensures
        s@ == address_checksum_text(address@),
{
    let mut bytes = [0u8; 20];
    bytes[..4].copy_from_slice(&address.hi.to_be_bytes());
    bytes[4..12].copy_from_slice(&address.mid.to_be_bytes());
    bytes[12..].copy_from_slice(&address.lo.to_be_bytes());
    alloy_primitives::Address::from(bytes).to_string()
}

/// The message for an account that the database does not hold:
/// `account '<address>' not found`.
pub open spec fn missing_account_message(address: nat) -> Seq<char> {
    "account '"@ + address_checksum_text(address) + "' not found"@
}

/// Builds the message for an account that the database does not hold.
fn account_not_found(address: Address) -> (m: String)
    ensures
        m@ == missing_account_message(address@),
{
    let mut m = String::from_str("account '");
    let text = address_display(address);
    m.append(text.as_str());
    m.append("' not found");
    m
}

/// Decides what a request for the account record of `address` yields, given
/// what the database lookup returned: the record when there is one; a fatal
/// error naming the address when there is none; the database's error
/// message, as a fatal error, when the lookup failed.
pub fn resolve_account_info<A>(address: Address, lookup: Result<Option<A>, String>) -> (r: Result<A, ProviderError>)
    ensures
        match lookup {
            Ok(Some(info)) => r == Ok::<A, ProviderError>(info),
            Ok(None) => r matches Err(ProviderError::Fatal(m)) && m@ == missing_account_message(address@),
            Err(e) => r matches Err(ProviderError::Fatal(m)) && m@ == e@,
        },
{
    match lookup {
        Ok(Some(info)) => Ok(info),
        Ok(None) => Err(ProviderError::Fatal(account_not_found(address))),
        Err(e) => Err(ProviderError::Fatal(e)),
    }
}

/// Names the code hash of bytecode whose original bytes are `code`: the
/// keccak-256 digest that revm's `Bytecode::hash_slow` computes.
pub uninterp spec fn code_hash_of(code: Seq<u8>) -> Seq<u8>;

/// `revm::state::Bytecode::hash_slow` on the legacy bytecode made from
/// `code`; its source hashes the original bytes with keccak-256. The
/// contract names the digest.
#[verifier::external_body]
fn bytecode_hash(code: &Vec<u8>) -> (h: [u8; 32])
    ensures
        h@ == code_hash_of(code@),
{
    let bytes = revm::primitives::Bytes::copy_from_slice(code.as_slice());
    revm::state::Bytecode::new_legacy(bytes).hash_slow().0
}

/// The fields of an account record that installing code sets.
#[derive(Clone, Debug)]
pub struct AccountRecord {
    pub balance: Word,
    pub nonce: u64,
    pub code_hash: [u8; 32],
    pub code: Option<Vec<u8>>,
}

/// The record written for an account that receives `code`: nonce 1, zero
/// balance, the code and its hash.
pub fn code_account(code: Vec<u8>) -> (a: AccountRecord)
    ensures
        a.balance@ == 0,
        a.nonce == 1,
        a.code_hash@ == code_hash_of(code@),
        a.code == Some(code),
{
    let code_hash = bytecode_hash(&code);
    AccountRecord { balance: Word::zero(), nonce: 1, code_hash, code: Some(code) }
}

/// Reading transient storage gives back what the last write to the same
/// address and key stored, and a write leaves every other address and key
/// as it was.
pub proof fn law_transient_read_after_write(
    m: Map<(Address, Word), Word>,
    address: Address,
    key: Word,
    value: Word,
    other_address: Address,
    other_key: Word,
)
    ensures
        transient_lookup(m.insert((address, key), value), address, key) == value,
        (other_address, other_key) != (address, key) ==> transient_lookup(
            m.insert((address, key), value),
            other_address,
            other_key,
        ) == transient_lookup(m, other_address, other_key),
{
}

/// Fresh transient storage reads zero under every address and key.
pub proof fn law_fresh_transient_reads_zero(address: Address, key: Word)
    ensures
        transient_lookup(Map::empty(), address, key)@ == 0,
{
}

/// Charging gas in two steps is the same as charging the sum at once: both
/// saturate at `u64::MAX`.
pub proof fn law_gas_charges_combine(used: u64, a: u64, b: u64)
    ensures
        gas_after_charge(gas_after_charge(used, a), b) == if a + b > u64::MAX {
            u64::MAX
        } else {
            gas_after_charge(used, (a + b) as u64)
        },
        gas_after_charge(used, a) >= used,
{
}

/// Two refunds of the same sign combine into one refund of their sum. (With
/// opposite signs the clamping does not commute: from `i64::MAX - 1`,
/// adding 5 then -10 gives `i64::MAX - 10`, while adding -5 gives
/// `i64::MAX - 6`.)
pub proof fn law_same_sign_refunds_combine(refunded: i64, a: i64, b: i64)
    requires
        (a >= 0 && b >= 0) || (a <= 0 && b <= 0),
        i64::MIN <= a + b <= i64::MAX,
    ensures
        refund_after(refund_after(refunded, a), b) == refund_after(refunded, (a + b) as i64),
{
}

/// Charging gas adds it to the gas used, as an integer, unless the sum
/// exceeds `u64::MAX`, in which case the gas used is `u64::MAX`.
pub proof fn law_gas_charge_is_capped_sum(used: u64, gas: u64)
    ensures
        used as int + gas as int <= u64::MAX ==> gas_after_charge(used, gas) as int == used as int
            + gas as int,
        used as int + gas as int > u64::MAX ==> gas_after_charge(used, gas) == u64::MAX,
{
}

/// A refund adds to the refund counter, as an integer, when the sum lies
/// within `i64`; above the range the counter is `i64::MAX`, below it
/// `i64::MIN`.
pub proof fn law_refund_is_clamped_sum(refunded: i64, gas: i64)
    ensures
        i64::MIN <= refunded as int + gas as int <= i64::MAX ==> refund_after(refunded, gas) as int
            == refunded as int + gas as int,
        refunded as int + gas as int > i64::MAX ==> refund_after(refunded, gas) == i64::MAX,
        (refunded as int + gas as int) < i64::MIN ==> refund_after(refunded, gas) == i64::MIN,
{
}

} // verus!
