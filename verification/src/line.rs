//! One cache line's state — tag, recency value and validity flag — packed
//! into a single 64-bit word, with lossless pack/unpack for recency values
//! below `2^31`.

use vstd::prelude::*;

verus! {

/// The unpacked view of one cache line: a 32-bit tag, a recency value (31
/// significant bits) and a validity flag.
#[derive(Debug, PartialEq, Eq, Structural, Clone, Copy)]
pub struct CacheLine {
    pub tag: u32,
    pub access: u32,
    pub valid: bool,
}

/// The packed word, high to low: bits 63..32 the tag, bits 31..1 the recency
/// value, bit 0 the validity flag.
pub open spec fn spec_pack(line: CacheLine) -> u64 {
    ((((line.tag as u64) << 31) | (line.access as u64)) << 1) | (if line.valid {
        1u64
    } else {
        0u64
    })
}

/// Decodes a packed word into its three fields.
pub open spec fn spec_unpack(val: u64) -> CacheLine {
    CacheLine { tag: ((val >> 32) as u32), access: ((val as u32) >> 1), valid: (val & 1) == 1 }
}

/// Advances a counter by one, wrapping at the 32-bit boundary.
pub open spec fn wrap_inc(x: u32) -> u32 {
    if x == u32::MAX {
        0u32
    } else {
        (x + 1) as u32
    }
}

/// The word after a recency refresh: the tag bits and the validity bit are
/// kept, and the recency sub-field (bits 31..1) is overwritten with the
/// given recency value.
pub open spec fn merge_recency(word: u64, recency: u32) -> u64 {
    (word & 0xffff_ffff_0000_0001u64) | (((recency << 1) as u32) as u64)
}

/// Packing then unpacking a line returns exactly its three fields, for every
/// tag and validity flag and every recency value below `2^31`.
pub proof fn lemma_pack_unpack(line: CacheLine)
    requires
        line.access < 0x8000_0000,
    ensures
        spec_unpack(spec_pack(line)) == line,
{
    if line.valid {
        lemma_pack_fields_valid(line.tag, line.access);
    } else {
        lemma_pack_fields_invalid(line.tag, line.access);
    }
}

proof fn lemma_pack_fields_valid(t: u32, a: u32)
    by (bit_vector)
    requires
        a < 0x8000_0000u32,
    ensures
        ((((((t as u64) << 31) | (a as u64)) << 1) | 1) >> 32) as u32 == t,
        ((((((t as u64) << 31) | (a as u64)) << 1) | 1) as u32) >> 1 == a,
        (((((t as u64) << 31) | (a as u64)) << 1) | 1) & 1 == 1,
{
}

proof fn lemma_pack_fields_invalid(t: u32, a: u32)
    by (bit_vector)
    requires
        a < 0x8000_0000u32,
    ensures
        ((((((t as u64) << 31) | (a as u64)) << 1) | 0) >> 32) as u32 == t,
        ((((((t as u64) << 31) | (a as u64)) << 1) | 0) as u32) >> 1 == a,
        (((((t as u64) << 31) | (a as u64)) << 1) | 0) & 1 == 0,
{
}

/// A recency refresh keeps the tag and the validity flag, and stores the
/// given value's low 31 bits as the new recency value.
pub proof fn lemma_merge_recency(word: u64, recency: u32)
    ensures
        spec_unpack(merge_recency(word, recency)).tag == spec_unpack(word).tag,
        spec_unpack(merge_recency(word, recency)).valid == spec_unpack(word).valid,
        spec_unpack(merge_recency(word, recency)).access == recency % 0x8000_0000,
{
    lemma_merge_fields(word, recency);
}

proof fn lemma_merge_fields(word: u64, epoch: u32)
    by (bit_vector)
    ensures
        (((word & 0xffff_ffff_0000_0001u64) | (((epoch << 1) as u32) as u64)) >> 32) as u32 == (
        word >> 32) as u32,
        (((word & 0xffff_ffff_0000_0001u64) | (((epoch << 1) as u32) as u64)) & 1) == (word & 1),
        ((((word & 0xffff_ffff_0000_0001u64) | (((epoch << 1) as u32) as u64)) as u32) >> 1)
            == epoch % 0x8000_0000,
{
}

/// One cache line stored compactly: a single 64-bit word holding the packed
/// tag, recency value and validity flag.
#[derive(Debug, Clone, Copy)]
pub struct CacheLineCompact {
    word: u64,
}

impl View for CacheLineCompact {
    type V = u64;

    closed spec fn view(&self) -> u64 {
        self.word
    }
}

impl CacheLineCompact {
    /// A fresh line: invalid, tag 0, recency 0.
    pub fn new() -> (r: CacheLineCompact)
        ensures
            r@ == 0u64,
    {
        CacheLineCompact { word: 0 }
    }

    /// Reads the word and decodes it.
    pub fn fetch_unpack(&self) -> (r: CacheLine)
        ensures
            r == spec_unpack(self@),
    {
        let val = self.word;
        CacheLineCompact::unpack(val)
    }

    fn unpack(val: u64) -> (r: CacheLine)
        ensures
            r == spec_unpack(val),
    {
        let valid = (val & 1) == 1;
        let access = (val as u32) >> 1;
        let tag = #[verifier::truncate] ((val >> 32) as u32);
        CacheLine { tag, access, valid }
    }

    /// Tries the line against a candidate tag. On a valid line with the same
    /// tag, the shared recency counter advances and its new value, shifted
    /// left by one, becomes the line's recency value — the only case with a
    /// side effect. A valid line with another tag reports its current
    /// recency value; an invalid line reports nothing.
    pub fn touch_if_matches(&mut self, cand_tag: u32, epoch_counter: &mut u32) -> (r: Result<
        (),
        Option<u32>,
    >)
        ensures
            ({
                let line = spec_unpack(old(self)@);
                if line.valid && cand_tag == line.tag {
                    &&& r == Result::<(), Option<u32>>::Ok(())
                    &&& *final(epoch_counter) == wrap_inc(*old(epoch_counter))
                    &&& final(self)@ == merge_recency(
                        old(self)@,
                        (wrap_inc(*old(epoch_counter)) << 1) as u32,
                    )
                } else {
                    &&& final(self)@ == old(self)@
                    &&& *final(epoch_counter) == *old(epoch_counter)
                    &&& r == Result::<(), Option<u32>>::Err(
                        if line.valid {
                            Some(line.access)
                        } else {
                            None
                        },
                    )
                }
            }),
    {
        let val = self.word;
        let line = CacheLineCompact::unpack(val);
        if line.valid && cand_tag == line.tag {
            let prev = *epoch_counter;
            let next: u32 = if prev == u32::MAX {
                0
            } else {
                prev + 1
            };
            *epoch_counter = next;
            let epoch: u32 = next << 1;
            let stored: u32 = epoch << 1;
            let new_val = (val & 0xffff_ffff_0000_0001u64) | (stored as u64);
            self.word = new_val;
            Ok(())
        } else if line.valid {
            Err(Some(line.access))
        } else {
            Err(None)
        }
    }

    /// Overwrites the whole word with the packed triple; used to install a
    /// new line on a miss.
    pub fn pack_store(&mut self, value: CacheLine)
        ensures
            final(self)@ == spec_pack(value),
    {
        let mut encoding: u64 = value.tag as u64;
        encoding = encoding << 31;
        encoding = encoding | (value.access as u64);
        encoding = encoding << 1;
        encoding = encoding | (if value.valid {
            1u64
        } else {
            0u64
        });
        self.word = encoding;
    }
}

} // verus!
