//! Cache geometry: block size, set count and associativity, each stored as a
//! power-of-two exponent, and the decomposition of an address into a set
//! index and a tag.

use vstd::arithmetic::power2::{
    lemma2_to64_rest, lemma_pow2_adds, lemma_pow2_strictly_increases, pow2,
};
use vstd::bits::{lemma_u64_pow2_no_overflow, lemma_u64_shl_is_mul};
use vstd::prelude::*;

verus! {

/// Immutable cache parameters. Each field is the base-two exponent of the
/// derived quantity: `block_size_bits` for the block size in bytes,
/// `set_num_bits` for the number of sets, `lines_per_set_bits` for the
/// associativity.
#[derive(Debug, Clone, Copy, PartialEq, Eq, Structural)]
pub struct CacheSpec {
    pub block_size_bits: u8,
    pub set_num_bits: u8,
    pub lines_per_set_bits: u8,
}

impl CacheSpec {
    /// The derived sizes fit in a 64-bit address: the exponents sum below
    /// the address width. Enough for the size accessors; `wf` asks more.
    pub open spec fn exponents_fit(self) -> bool {
        self.block_size_bits + self.set_num_bits + self.lines_per_set_bits < 64
    }

    /// The exponents describe a usable geometry: the derived sizes fit in a
    /// 64-bit address, and the set-index field selected by the decomposition
    /// (which is `block_size_bits` wide, see `spec_set_index`) never exceeds
    /// the set count.
    pub open spec fn wf(self) -> bool {
        &&& self.block_size_bits <= self.set_num_bits
        &&& self.exponents_fit()
    }

    /// Number of sets.
    pub open spec fn spec_set_num(self) -> u64 {
        1u64 << self.set_num_bits
    }

    /// Lines per set (associativity).
    pub open spec fn spec_lines_per_set(self) -> u64 {
        1u64 << self.lines_per_set_bits
    }

    /// Block size in bytes.
    pub open spec fn spec_block_size(self) -> u64 {
        1u64 << self.block_size_bits
    }

    /// Total capacity in bytes.
    pub open spec fn spec_size(self) -> u64 {
        (self.spec_block_size() * self.spec_set_num() * self.spec_lines_per_set()) as u64
    }

    /// The set index of an address: the address with the intra-block offset
    /// shifted away, masked to `block_size_bits` bits. The mask is as wide as
    /// the block-size exponent, not the set-count exponent; this narrower
    /// selection is part of the simulated behaviour and is kept as it is.
    pub open spec fn spec_set_index(self, address: u64) -> u32 {
        (((address >> self.block_size_bits) & (((1u64 << self.block_size_bits) - 1) as u64)) as u32)
    }

    /// The tag of an address: everything above the offset and set-index bits,
    /// truncated to 32 bits.
    pub open spec fn spec_tag(self, address: u64) -> u32 {
        ((address >> ((self.block_size_bits + self.set_num_bits) as u8)) as u32)
    }

    /// Builds a geometry from the three exponents.
    pub fn new(block_size_bits: u8, set_num_bits: u8, lines_per_set_bits: u8) -> (r: CacheSpec)
        requires
            block_size_bits <= set_num_bits,
            block_size_bits + set_num_bits + lines_per_set_bits < 64,
        ensures
            r == (CacheSpec { block_size_bits, set_num_bits, lines_per_set_bits }),
            r.wf(),
    {
        CacheSpec { block_size_bits, set_num_bits, lines_per_set_bits }
    }

    pub fn set_num(&self) -> (r: u64)
        requires
            self.exponents_fit(),
        ensures
            r == self.spec_set_num(),
    {
        1u64 << self.set_num_bits
    }

    pub fn lines_per_set(&self) -> (r: u64)
        requires
            self.exponents_fit(),
        ensures
            r == self.spec_lines_per_set(),
    {
        1u64 << self.lines_per_set_bits
    }

    pub fn block_size(&self) -> (r: u64)
        requires
            self.exponents_fit(),
        ensures
            r == self.spec_block_size(),
    {
        1u64 << self.block_size_bits
    }

    /// Total capacity: block size times set count times associativity.
    pub fn size(&self) -> (r: u64)
        requires
            self.exponents_fit(),
        ensures
            r == self.spec_size(),
    {
        proof {
            lemma_size_no_overflow(
                self.block_size_bits,
                self.set_num_bits,
                self.lines_per_set_bits,
            );
        }
        self.block_size() * self.set_num() * self.lines_per_set()
    }

    /// Splits an address into `(set_index, tag)`.
    pub fn split(&self, address: u64) -> (r: (u32, u32))
        requires
            self.wf(),
        ensures
            r.0 == self.spec_set_index(address),
            r.1 == self.spec_tag(address),
            r.0 < self.spec_set_num(),
    {
        proof {
            lemma_set_index_bound(self.block_size_bits, self.set_num_bits, address);
        }
        let set_index = ((address >> self.block_size_bits) & ((1u64 << self.block_size_bits) - 1))
            as u32;
        let tag = #[verifier::truncate] ((address >> (self.block_size_bits + self.set_num_bits))
            as u32);
        (set_index, tag)
    }

    /// The preset 8 KiB geometry: 32-byte blocks, 128 sets, 2-way
    /// associative.
    pub fn spec_8kib_32bit_2way() -> (r: CacheSpec)
        ensures
            r == (CacheSpec { block_size_bits: 5u8, set_num_bits: 7u8, lines_per_set_bits: 1u8 }),
            r.wf(),
            r.spec_size() == 8192,
    {
        proof {
            assert((1u64 << 5u8) * (1u64 << 7u8) * (1u64 << 1u8) == 8192) by (bit_vector);
        }
        CacheSpec { block_size_bits: 5, set_num_bits: 7, lines_per_set_bits: 1 }
    }
}

/// The three derived sizes multiply without overflowing a `u64` whenever the
/// exponents sum below 64.
proof fn lemma_size_no_overflow(b: u8, s: u8, l: u8)
    requires
        b + s + l < 64,
    ensures
        (1u64 << b) * (1u64 << s) * (1u64 << l) < 0x1_0000_0000_0000_0000,
        (1u64 << b) * (1u64 << s) < 0x1_0000_0000_0000_0000,
{
    lemma_u64_pow2_no_overflow(b as nat);
    lemma_u64_pow2_no_overflow(s as nat);
    lemma_u64_pow2_no_overflow(l as nat);
    lemma_u64_shl_is_mul(1u64, b as u64);
    lemma_u64_shl_is_mul(1u64, s as u64);
    lemma_u64_shl_is_mul(1u64, l as u64);
    lemma_pow2_adds(b as nat, s as nat);
    lemma_pow2_adds((b + s) as nat, l as nat);
    lemma_pow2_strictly_increases((b + s) as nat, 64);
    lemma_pow2_strictly_increases((b + s + l) as nat, 64);
    lemma2_to64_rest();
    assert((1u64 << b) * (1u64 << s) == pow2((b + s) as nat));
    assert((1u64 << b) * (1u64 << s) * (1u64 << l) == pow2((b + s + l) as nat))
        by (nonlinear_arith)
        requires
            (1u64 << b) == pow2(b as nat),
            (1u64 << s) == pow2(s as nat),
            (1u64 << l) == pow2(l as nat),
            pow2(b as nat) * pow2(s as nat) == pow2((b + s) as nat),
            pow2((b + s) as nat) * pow2(l as nat) == pow2((b + s + l) as nat),
    ;
}

/// The set index produced by the decomposition is below the set count: the
/// mask keeps `block_size_bits` bits, and the geometry guarantees
/// `block_size_bits <= set_num_bits`.
pub proof fn lemma_set_index_bound(b: u8, s: u8, address: u64)
    requires
        b <= s,
        b + s < 64,
    ensures
        1u64 <= (1u64 << b),
        ((address >> b) & (((1u64 << b) - 1) as u64)) < (1u64 << s),
        ((address >> b) & (((1u64 << b) - 1) as u64)) < 0x1_0000_0000,
        (((address >> b) & (((1u64 << b) - 1) as u64)) as u32) as u64 == (address >> b) & (((1u64
            << b) - 1) as u64),
{
    assert((b <= s && b + s < 64) ==> 1u64 <= (1u64 << b) && ((address >> b) & (((1u64 << b) - 1)
        as u64)) < (1u64 << s) && ((address >> b) & (((1u64 << b) - 1) as u64)) < 0x1_0000_0000
        && ((((address >> b) & (((1u64 << b) - 1) as u64)) as u32) as u64 == (address >> b) & (((
        1u64 << b) - 1) as u64))) by (bit_vector);
}

} // verus!
