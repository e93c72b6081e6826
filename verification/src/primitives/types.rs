//! Core value types: 256-bit amounts, 32-byte identifiers and 20-byte
//! addresses.
use vstd::prelude::*;

verus! {

/// A chain identifier.
pub type ChainId = u64;

/// Largest value a [`U256`] can hold.
pub open spec fn u256_max() -> nat {
    0xffffffffffffffffffffffffffffffffffffffffffffffffffffffffffffffffnat
}

/// A 256-bit unsigned amount, stored as two 128-bit limbs.
///
/// Amounts (balances, values, bids) are compared and added as natural
/// numbers; [`U256::as_nat`] is the numeric reading every contract uses.
#[derive(Clone, Copy, Debug, PartialEq, Eq, Structural, Hash)]
pub struct U256 {
    pub hi: u128,
    pub lo: u128,
}

impl U256 {
    /// The numeric value of the two limbs.
    pub open spec fn as_nat(self) -> nat {
        (self.hi as nat) * 0x100000000000000000000000000000000nat + (self.lo as nat)
    }

    pub fn zero() -> (r: U256)
        ensures
            r == (U256 { hi: 0, lo: 0 }),
            r.as_nat() == 0,
    {
        U256 { hi: 0, lo: 0 }
    }

    pub fn max_value() -> (r: U256)
        ensures
            r.as_nat() == u256_max(),
    {
        U256 { hi: u128::MAX, lo: u128::MAX }
    }

    pub fn from_u128(v: u128) -> (r: U256)
        ensures
            r == (U256 { hi: 0, lo: v }),
            r.as_nat() == v,
    {
        U256 { hi: 0, lo: v }
    }

    pub fn is_zero(&self) -> (r: bool)
        ensures
            r == (self.as_nat() == 0),
    {
        self.hi == 0 && self.lo == 0
    }

    pub fn le(&self, other: &U256) -> (r: bool)
        ensures
            r == (self.as_nat() <= other.as_nat()),
    {
        self.hi < other.hi || (self.hi == other.hi && self.lo <= other.lo)
    }

    pub fn lt(&self, other: &U256) -> (r: bool)
        ensures
            r == (self.as_nat() < other.as_nat()),
    {
        self.hi < other.hi || (self.hi == other.hi && self.lo < other.lo)
    }

    /// Sum of the two amounts, or `None` on overflow past 256 bits.
    pub fn checked_add(self, other: U256) -> (r: Option<U256>)
        ensures
            match r {
                Some(s) => s.as_nat() == self.as_nat() + other.as_nat(),
                None => self.as_nat() + other.as_nat() > u256_max(),
            },
    {
        let (lo, carry): (u128, u128) = if self.lo <= u128::MAX - other.lo {
            (self.lo + other.lo, 0)
        } else {
            ((self.lo - (u128::MAX - other.lo)) - 1, 1)
        };
        if other.hi <= u128::MAX - carry {
            let hi_rest: u128 = other.hi + carry;
            if self.hi <= u128::MAX - hi_rest {
                Some(U256 { hi: self.hi + hi_rest, lo })
            } else {
                None
            }
        } else {
            None
        }
    }
}

impl From<u64> for U256 {
    fn from(v: u64) -> U256 {
        U256 { hi: 0, lo: v as u128 }
    }
}

impl vstd::std_specs::convert::FromSpecImpl<u64> for U256 {
    open spec fn obeys_from_spec() -> bool {
        true
    }

    open spec fn from_spec(v: u64) -> U256 {
        U256 { hi: 0, lo: v as u128 }
    }
}

impl Default for U256 {
    fn default() -> (r: U256)
        ensures
            r.as_nat() == 0,
    {
        U256 { hi: 0, lo: 0 }
    }
}

/// A 32-byte content-addressed identifier, stored as two 128-bit limbs.
#[derive(Clone, Copy, Debug, PartialEq, Eq, Structural, Hash)]
pub struct B256 {
    pub hi: u128,
    pub lo: u128,
}

impl B256 {
    pub fn new(hi: u128, lo: u128) -> (r: B256)
        ensures
            r.hi == hi && r.lo == lo,
    {
        B256 { hi, lo }
    }

    pub fn from_u128(v: u128) -> (r: B256)
        ensures
            r.hi == 0 && r.lo == v,
    {
        B256 { hi: 0, lo: v }
    }

    /// A fresh random identifier; nothing is promised of its value.
    pub fn random() -> B256 {
        B256 { hi: random_u128(), lo: random_u128() }
    }
}

/// The hash of a transaction.
pub type TxHash = B256;

/// The hash of a block.
pub type BlockHash = B256;

/// Powers of 256: the place values of big-endian bytes.
pub open spec fn pow256(n: nat) -> nat
    decreases n,
{
    if n == 0 {
        1
    } else {
        256 * pow256((n - 1) as nat)
    }
}

/// Big-endian reading of a byte string as a number.
pub open spec fn be_nat(s: Seq<u8>) -> nat
    decreases s.len(),
{
    if s.len() == 0 {
        0
    } else {
        be_nat(s.drop_last()) * 256 + (s.last() as nat)
    }
}

/// A byte string of length `n` reads below `pow256(n)`.
pub proof fn lemma_be_nat_bound(s: Seq<u8>)
    ensures
        be_nat(s) < pow256(s.len()),
    decreases s.len(),
{
    if s.len() > 0 {
        lemma_be_nat_bound(s.drop_last());
    }
}

/// The concrete place values the address conversions need.
pub proof fn lemma_pow256_values()
    ensures
        pow256(0) == 1,
        pow256(1) == 0x100,
        pow256(2) == 0x10000,
        pow256(3) == 0x1000000,
        pow256(4) == 0x100000000,
        pow256(15) == 0x1000000000000000000000000000000,
        pow256(16) == 0x100000000000000000000000000000000nat,
{
    assert(pow256(0) == 1);
    assert(pow256(1) == 256 * pow256(0));
    assert(pow256(2) == 256 * pow256(1));
    assert(pow256(3) == 256 * pow256(2));
    assert(pow256(4) == 256 * pow256(3));
    assert(pow256(5) == 256 * pow256(4));
    assert(pow256(6) == 256 * pow256(5));
    assert(pow256(7) == 256 * pow256(6));
    assert(pow256(8) == 256 * pow256(7));
    assert(pow256(9) == 256 * pow256(8));
    assert(pow256(10) == 256 * pow256(9));
    assert(pow256(11) == 256 * pow256(10));
    assert(pow256(12) == 256 * pow256(11));
    assert(pow256(13) == 256 * pow256(12));
    assert(pow256(14) == 256 * pow256(13));
    assert(pow256(15) == 256 * pow256(14));
    assert(pow256(16) == 256 * pow256(15));
}

/// Larger byte strings read up to larger values.
pub proof fn lemma_pow256_mono(a: nat, b: nat)
    requires
        a <= b,
    ensures
        pow256(a) <= pow256(b),
    decreases b,
{
    if a < b {
        lemma_pow256_mono(a, (b - 1) as nat);
        assert(pow256(b) == 256 * pow256((b - 1) as nat));
    }
}

/// A 20-byte account address, stored as the big-endian reading of its
/// first four and last sixteen bytes.
#[derive(Clone, Copy, Debug, PartialEq, Eq, Structural, Hash)]
pub struct Address {
    pub hi: u32,
    pub lo: u128,
}

impl Address {
    /// The address whose bytes these are.
    #[verifier::loop_isolation(false)]
    pub fn from_byte(address: [u8; 20]) -> (r: Address)
        ensures
            r.hi == be_nat(address@.take(4)),
            r.lo == be_nat(address@.subrange(4, 20)),
    {
        proof {
            lemma_pow256_values();
        }
        let mut hi: u32 = 0;
        let mut i: usize = 0;
        while i < 4
            invariant
                i <= 4,
                hi == be_nat(address@.take(i as int)),
            decreases 4 - i,
        {
            proof {
                lemma_be_nat_bound(address@.take(i as int));
                lemma_pow256_values();
                lemma_pow256_mono((i + 1) as nat, 4);
                assert(pow256((i + 1) as nat) == 256 * pow256(i as nat));
                assert(address@.take(i as int + 1).drop_last() =~= address@.take(i as int));
                assert(address@.take(i as int + 1).last() == address@[i as int]);
            }
            hi = hi * 256 + (address[i] as u32);
            i += 1;
        }
        let mut lo: u128 = 0;
        let mut j: usize = 4;
        while j < 20
            invariant
                4 <= j <= 20,
                lo == be_nat(address@.subrange(4, j as int)),
            decreases 20 - j,
        {
            proof {
                lemma_be_nat_bound(address@.subrange(4, j as int));
                lemma_pow256_values();
                lemma_pow256_mono((j - 3) as nat, 16);
                assert(pow256((j - 3) as nat) == 256 * pow256((j - 4) as nat));
                assert(address@.subrange(4, j as int + 1).drop_last() =~= address@.subrange(
                    4,
                    j as int,
                ));
                assert(address@.subrange(4, j as int + 1).last() == address@[j as int]);
            }
            lo = lo * 256 + (address[j] as u128);
            j += 1;
        }
        Address { hi, lo }
    }

    /// The address as its twenty bytes, most significant first: the exact
    /// inverse of [`Address::from_byte`].
    pub fn get_addr(&self) -> (r: Vec<u8>)
        ensures
            r@.len() == 20,
            be_nat(r@.take(4)) == self.hi,
            be_nat(r@.subrange(4, 20)) == self.lo,
    {
        proof {
            lemma_pow256_values();
        }
        let mut out = be_bytes_u128(self.hi as u128, 4);
        let mut tail = be_bytes_u128(self.lo, 16);
        let ghost head_view = out@;
        let ghost tail_view = tail@;
        out.append(&mut tail);
        proof {
            assert(out@.take(4) =~= head_view);
            assert(out@.subrange(4, 20) =~= tail_view);
        }
        out
    }

    /// A fresh random address; nothing is promised of its value.
    pub fn random() -> Address {
        let hi: u32 = #[verifier::truncate] (random_u128() as u32);
        Address { hi, lo: random_u128() }
    }
}

/// The place value `pow256(k)`, computed; it fits well inside 128 bits.
#[verifier::loop_isolation(false)]
fn pow256_exec(k: usize) -> (r: u128)
    requires
        k <= 15,
    ensures
        r == pow256(k as nat),
{
    proof {
        lemma_pow256_values();
    }
    let mut r: u128 = 1;
    let mut i: usize = 0;
    while i < k
        invariant
            i <= k,
            r == pow256(i as nat),
        decreases k - i,
    {
        proof {
            lemma_pow256_mono((i + 1) as nat, 15);
            assert(pow256((i + 1) as nat) == 256 * pow256(i as nat));
        }
        r = r * 256;
        i += 1;
    }
    r
}

/// The `n` big-endian bytes of a value below `pow256(n)`.
#[verifier::loop_isolation(false)]
fn be_bytes_u128(v: u128, n: usize) -> (r: Vec<u8>)
    requires
        v < pow256(n as nat),
        n <= 16,
    ensures
        r@.len() == n,
        be_nat(r@) == v,
{
    proof {
        vstd::arithmetic::div_mod::lemma_basic_div(v as int, pow256(n as nat) as int);
        vstd::arithmetic::div_mod::lemma_div_basics(v as int);
    }
    let mut out: Vec<u8> = Vec::new();
    let mut i: usize = 0;
    while i < n
        invariant
            i <= n,
            out@.len() == i,
            be_nat(out@) == (v as nat) / pow256((n - i) as nat),
        decreases n - i,
    {
        let place = pow256_exec(n - 1 - i);
        proof {
            lemma_pow256_mono(0, (n - 1 - i) as nat);
        }
        let digit: u8 = ((v / place) % 256) as u8;
        proof {
            let q = pow256((n - 1 - i) as nat);
            assert(q * 256 == 256 * q);
            assert(pow256((n - i) as nat) == 256 * pow256((n - 1 - i) as nat));
            vstd::arithmetic::div_mod::lemma_div_denominator(v as int, q as int, 256);
            vstd::arithmetic::div_mod::lemma_fundamental_div_mod((v as int) / (q as int), 256);
            assert(out@.push(digit).drop_last() =~= out@);
        }
        out.push(digit);
        i += 1;
    }
    proof {
        assert(pow256(0) == 1);
    }
    out
}

/// Relies on `rand::random`: draws a uniformly random 128-bit value.
/// Nothing can be promised of the draw.
#[verifier::external_body]
fn random_u128() -> u128 {
    rand::random()
}

} // verus!
