//! Plain-value models of the 20-byte account address and the 256-bit word.

use vstd::prelude::*;

verus! {

/// A 20-byte account address, held big-endian as a 4-byte head and two
/// 8-byte parts.
#[derive(Clone, Copy, Debug, PartialEq, Eq, Structural)]
pub struct Address {
    pub hi: u32,
    pub mid: u64,
    pub lo: u64,
}

/// An unsigned 256-bit word, held as four little-endian 64-bit limbs.
#[derive(Clone, Copy, Debug, PartialEq, Eq, Structural)]
pub struct Word {
    pub w0: u64,
    pub w1: u64,
    pub w2: u64,
    pub w3: u64,
}

/// 2^64.
pub open spec fn limb_base() -> nat {
    0x1_0000_0000_0000_0000
}

impl View for Address {
    type V = nat;

    /// The address read as a 160-bit big-endian number.
    open spec fn view(&self) -> nat {
        (self.hi as nat) * limb_base() * limb_base() + (self.mid as nat) * limb_base() + self.lo as nat
    }
}

impl View for Word {
    type V = nat;

    /// The word read as a number.
    open spec fn view(&self) -> nat {
        (self.w0 as nat) + (self.w1 as nat) * limb_base() + (self.w2 as nat) * limb_base()
            * limb_base() + (self.w3 as nat) * limb_base() * limb_base() * limb_base()
    }
}

impl Address {
    /// The all-zero address.
    pub fn zero() -> (a: Address)
        ensures
            a@ == 0,
            a == (Address { hi: 0, mid: 0, lo: 0 }),
    {
        Address { hi: 0, mid: 0, lo: 0 }
    }
}

/// The big-endian byte `k` (0 = most significant) of a 32-bit number.
pub open spec fn byte_of_u32(x: u32, k: int) -> u8 {
    ((x >> ((3 - k) * 8) as u32) & 0xff) as u8
}

/// The big-endian byte `k` (0 = most significant) of a 64-bit number.
pub open spec fn byte_of_u64(x: u64, k: int) -> u8 {
    ((x >> ((7 - k) * 8) as u64) & 0xff) as u8
}

/// The 32-bit number whose big-endian bytes are `b[start..start + 4]`.
pub open spec fn u32_of_bytes(b: Seq<u8>, start: int) -> u32 {
    (b[start] as u32) << 24u32 | (b[start + 1] as u32) << 16u32 | (b[start + 2] as u32) << 8u32 | (
    b[start + 3] as u32)
}

/// The 64-bit number whose big-endian bytes are `b[start..start + 8]`.
pub open spec fn u64_of_bytes(b: Seq<u8>, start: int) -> u64 {
    (b[start] as u64) << 56u64 | (b[start + 1] as u64) << 48u64 | (b[start + 2] as u64) << 40u64 | (
    b[start + 3] as u64) << 32u64 | (b[start + 4] as u64) << 24u64 | (b[start + 5] as u64)
        << 16u64 | (b[start + 6] as u64) << 8u64 | (b[start + 7] as u64)
}

/// The bytes of an address in order.
pub open spec fn address_bytes(a: Address) -> Seq<u8> {
    Seq::new(
        20,
        |i: int|
            if i < 4 {
                byte_of_u32(a.hi, i)
            } else if i < 12 {
                byte_of_u64(a.mid, i - 4)
            } else {
                byte_of_u64(a.lo, i - 12)
            },
    )
}

fn u32_from_be(b0: u8, b1: u8, b2: u8, b3: u8) -> (x: u32)
    ensures
        x == ((b0 as u32) << 24u32 | (b1 as u32) << 16u32 | (b2 as u32) << 8u32 | (b3 as u32)),
{
    (b0 as u32) << 24u32 | (b1 as u32) << 16u32 | (b2 as u32) << 8u32 | (b3 as u32)
}

fn u64_from_be(b: &[u8; 20], start: usize) -> (x: u64)
    requires
        start + 8 <= 20,
    ensures
        x == u64_of_bytes(b@, start as int),
{
    (b[start] as u64) << 56u64 | (b[start + 1] as u64) << 48u64 | (b[start + 2] as u64) << 40u64 | (
    b[start + 3] as u64) << 32u64 | (b[start + 4] as u64) << 24u64 | (b[start + 5] as u64)
        << 16u64 | (b[start + 6] as u64) << 8u64 | (b[start + 7] as u64)
}

impl Address {
    /// The address whose bytes, in order, are `bytes`.
    pub fn from_be_bytes(bytes: [u8; 20]) -> (a: Address)
        ensures
            a.hi == u32_of_bytes(bytes@, 0),
            a.mid == u64_of_bytes(bytes@, 4),
            a.lo == u64_of_bytes(bytes@, 12),
    {
        let hi = u32_from_be(bytes[0], bytes[1], bytes[2], bytes[3]);
        Address { hi, mid: u64_from_be(&bytes, 4), lo: u64_from_be(&bytes, 12) }
    }

    /// The bytes of the address, in order.
    pub fn to_be_bytes(&self) -> (b: [u8; 20])
        ensures
            b@ == address_bytes(*self),
    {
        let mut b = [0u8; 20];
        let mut k: usize = 0;
        while k < 4
            invariant
                0 <= k <= 4,
                forall|i: int| 0 <= i < k ==> b@[i] == byte_of_u32(self.hi, i),
            decreases 4 - k,
        {
            let shift = ((3 - k) * 8) as u32;
            b[k] = ((self.hi >> shift) & 0xff) as u8;
            k = k + 1;
        }
        while k < 12
            invariant
                4 <= k <= 12,
                forall|i: int| 0 <= i < 4 ==> b@[i] == byte_of_u32(self.hi, i),
                forall|i: int| 4 <= i < k ==> b@[i] == byte_of_u64(self.mid, i - 4),
            decreases 12 - k,
        {
            let shift = ((11 - k) * 8) as u64;
            b[k] = ((self.mid >> shift) & 0xff) as u8;
            k = k + 1;
        }
        while k < 20
            invariant
                12 <= k <= 20,
                forall|i: int| 0 <= i < 4 ==> b@[i] == byte_of_u32(self.hi, i),
                forall|i: int| 4 <= i < 12 ==> b@[i] == byte_of_u64(self.mid, i - 4),
                forall|i: int| 12 <= i < k ==> b@[i] == byte_of_u64(self.lo, i - 12),
            decreases 20 - k,
        {
            let shift = ((19 - k) * 8) as u64;
            b[k] = ((self.lo >> shift) & 0xff) as u8;
            k = k + 1;
        }
        assert(b@ =~= address_bytes(*self));
        b
    }
}

proof fn lemma_u32_bytes_round_trip(x: u32)
    ensures
        ((((x >> 24u32) & 0xff) as u8) as u32) << 24u32 | ((((x >> 16u32) & 0xff) as u8) as u32)
            << 16u32 | ((((x >> 8u32) & 0xff) as u8) as u32) << 8u32 | ((((x >> 0u32) & 0xff) as u8)
            as u32) == x,
{
    assert(((((x >> 24u32) & 0xff) as u8) as u32) << 24u32 | ((((x >> 16u32) & 0xff) as u8) as u32)
        << 16u32 | ((((x >> 8u32) & 0xff) as u8) as u32) << 8u32 | ((((x >> 0u32) & 0xff) as u8)
        as u32) == x) by (bit_vector);
}

proof fn lemma_u64_bytes_round_trip(x: u64)
    ensures
        ((((x >> 56u64) & 0xff) as u8) as u64) << 56u64 | ((((x >> 48u64) & 0xff) as u8) as u64)
            << 48u64 | ((((x >> 40u64) & 0xff) as u8) as u64) << 40u64 | ((((x >> 32u64) & 0xff)
            as u8) as u64) << 32u64 | ((((x >> 24u64) & 0xff) as u8) as u64) << 24u64 | ((((x
            >> 16u64) & 0xff) as u8) as u64) << 16u64 | ((((x >> 8u64) & 0xff) as u8) as u64)
            << 8u64 | ((((x >> 0u64) & 0xff) as u8) as u64) == x,
{
    assert(((((x >> 56u64) & 0xff) as u8) as u64) << 56u64 | ((((x >> 48u64) & 0xff) as u8) as u64)
        << 48u64 | ((((x >> 40u64) & 0xff) as u8) as u64) << 40u64 | ((((x >> 32u64) & 0xff) as u8)
        as u64) << 32u64 | ((((x >> 24u64) & 0xff) as u8) as u64) << 24u64 | ((((x >> 16u64)
        & 0xff) as u8) as u64) << 16u64 | ((((x >> 8u64) & 0xff) as u8) as u64) << 8u64 | ((((x
        >> 0u64) & 0xff) as u8) as u64) == x) by (bit_vector);
}

/// Reading an address back from its bytes gives the same address.
pub proof fn law_address_bytes_round_trip(a: Address)
    ensures
        u32_of_bytes(address_bytes(a), 0) == a.hi,
        u64_of_bytes(address_bytes(a), 4) == a.mid,
        u64_of_bytes(address_bytes(a), 12) == a.lo,
{
    let b = address_bytes(a);
    lemma_u32_bytes_round_trip(a.hi);
    lemma_u64_bytes_round_trip(a.mid);
    lemma_u64_bytes_round_trip(a.lo);
    assert(b[0] == byte_of_u32(a.hi, 0));
    assert(b[1] == byte_of_u32(a.hi, 1));
    assert(b[2] == byte_of_u32(a.hi, 2));
    assert(b[3] == byte_of_u32(a.hi, 3));
    assert(b[4] == byte_of_u64(a.mid, 0));
    assert(b[5] == byte_of_u64(a.mid, 1));
    assert(b[6] == byte_of_u64(a.mid, 2));
    assert(b[7] == byte_of_u64(a.mid, 3));
    assert(b[8] == byte_of_u64(a.mid, 4));
    assert(b[9] == byte_of_u64(a.mid, 5));
    assert(b[10] == byte_of_u64(a.mid, 6));
    assert(b[11] == byte_of_u64(a.mid, 7));
    assert(b[12] == byte_of_u64(a.lo, 0));
    assert(b[13] == byte_of_u64(a.lo, 1));
    assert(b[14] == byte_of_u64(a.lo, 2));
    assert(b[15] == byte_of_u64(a.lo, 3));
    assert(b[16] == byte_of_u64(a.lo, 4));
    assert(b[17] == byte_of_u64(a.lo, 5));
    assert(b[18] == byte_of_u64(a.lo, 6));
    assert(b[19] == byte_of_u64(a.lo, 7));
}

proof fn lemma_u32_from_bytes_splits(b0: u8, b1: u8, b2: u8, b3: u8)
    ensures
        ({
            let x = (b0 as u32) << 24u32 | (b1 as u32) << 16u32 | (b2 as u32) << 8u32 | (b3 as u32);
            &&& ((x >> 24u32) & 0xff) as u8 == b0
            &&& ((x >> 16u32) & 0xff) as u8 == b1
            &&& ((x >> 8u32) & 0xff) as u8 == b2
            &&& ((x >> 0u32) & 0xff) as u8 == b3
        }),
{
    assert({
        let x = (b0 as u32) << 24u32 | (b1 as u32) << 16u32 | (b2 as u32) << 8u32 | (b3 as u32);
        &&& ((x >> 24u32) & 0xff) as u8 == b0
        &&& ((x >> 16u32) & 0xff) as u8 == b1
        &&& ((x >> 8u32) & 0xff) as u8 == b2
        &&& ((x >> 0u32) & 0xff) as u8 == b3
    }) by (bit_vector);
}

proof fn lemma_u64_from_bytes_splits(b: Seq<u8>, start: int)
    requires
        0 <= start,
        start + 8 <= b.len(),
    ensures
        forall|k: int| 0 <= k < 8 ==> #[trigger] byte_of_u64(u64_of_bytes(b, start), k) == b[start + k],
{
    let (b0, b1, b2, b3, b4, b5, b6, b7) = (
        b[start],
        b[start + 1],
        b[start + 2],
        b[start + 3],
        b[start + 4],
        b[start + 5],
        b[start + 6],
        b[start + 7],
    );
    let x = u64_of_bytes(b, start);
    assert(x == (b0 as u64) << 56u64 | (b1 as u64) << 48u64 | (b2 as u64) << 40u64 | (b3 as u64)
        << 32u64 | (b4 as u64) << 24u64 | (b5 as u64) << 16u64 | (b6 as u64) << 8u64 | (b7 as u64));
    assert({
        &&& ((x >> 56u64) & 0xff) as u8 == b0
        &&& ((x >> 48u64) & 0xff) as u8 == b1
        &&& ((x >> 40u64) & 0xff) as u8 == b2
        &&& ((x >> 32u64) & 0xff) as u8 == b3
        &&& ((x >> 24u64) & 0xff) as u8 == b4
        &&& ((x >> 16u64) & 0xff) as u8 == b5
        &&& ((x >> 8u64) & 0xff) as u8 == b6
        &&& ((x >> 0u64) & 0xff) as u8 == b7
    }) by (bit_vector)
        requires
            x == (b0 as u64) << 56u64 | (b1 as u64) << 48u64 | (b2 as u64) << 40u64 | (b3 as u64)
                << 32u64 | (b4 as u64) << 24u64 | (b5 as u64) << 16u64 | (b6 as u64) << 8u64 | (
            b7 as u64),
    ;
}

/// Reading an address from 20 bytes and writing it out gives the same
/// bytes.
pub proof fn law_bytes_address_round_trip(b: Seq<u8>)
    requires
        b.len() == 20,
    ensures
        address_bytes(
            Address { hi: u32_of_bytes(b, 0), mid: u64_of_bytes(b, 4), lo: u64_of_bytes(b, 12) },
        ) == b,
{
    let a = Address { hi: u32_of_bytes(b, 0), mid: u64_of_bytes(b, 4), lo: u64_of_bytes(b, 12) };
    lemma_u32_from_bytes_splits(b[0], b[1], b[2], b[3]);
    lemma_u64_from_bytes_splits(b, 4);
    lemma_u64_from_bytes_splits(b, 12);
    assert forall|i: int| 0 <= i < 20 implies #[trigger] address_bytes(a)[i] == b[i] by {
        if i < 4 {
            assert(byte_of_u32(a.hi, i) == b[i]);
        } else if i < 12 {
            assert(byte_of_u64(a.mid, i - 4) == b[4 + (i - 4)]);
        } else {
            assert(byte_of_u64(a.lo, i - 12) == b[12 + (i - 12)]);
        }
    }
    assert(address_bytes(a) =~= b);
}

impl Word {
    /// The zero word.
    pub fn zero() -> (w: Word)
        ensures
            w@ == 0,
            w == (Word { w0: 0, w1: 0, w2: 0, w3: 0 }),
    {
        Word { w0: 0, w1: 0, w2: 0, w3: 0 }
    }

    /// The word holding `x`.
    pub fn from_u64(x: u64) -> (w: Word)
        ensures
            w@ == x,
            w == (Word { w0: x, w1: 0, w2: 0, w3: 0 }),
    {
        Word { w0: x, w1: 0, w2: 0, w3: 0 }
    }
}

} // verus!
