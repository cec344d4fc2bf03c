//! The set-associative cache state: an ordered collection of sets of packed
//! lines, a monotonic recency counter, hit and miss counters, and the touch
//! algorithm with its victim-selection scan.

use crate::geometry::{lemma_set_index_bound, CacheSpec};
use crate::line::{
    lemma_merge_recency, lemma_pack_unpack, merge_recency, spec_pack, spec_unpack, wrap_inc,
    CacheLine, CacheLineCompact,
};
use vstd::prelude::*;

verus! {

/// The mathematical model of a cache state: every line as its packed word,
/// grouped by set, plus the counters and the geometry.
#[verifier::ext_equal]
pub struct CacheModel {
    pub sets: Seq<Seq<u64>>,
    pub epoch: u32,
    pub geometry: CacheSpec,
    pub hits: u32,
    pub misses: u32,
}

impl CacheModel {
    /// The sets match the geometry: one set per set index, each with one
    /// line per way.
    pub open spec fn wf(self) -> bool {
        &&& self.geometry.wf()
        &&& self.sets.len() == self.geometry.spec_set_num()
        &&& forall|i: int|
            0 <= i < self.sets.len() ==> (#[trigger] self.sets[i]).len()
                == self.geometry.spec_lines_per_set()
    }
}

/// Whether a packed word holds a valid line with the given tag.
pub open spec fn line_matches(word: u64, tag: u32) -> bool {
    spec_unpack(word).valid && spec_unpack(word).tag == tag
}

/// The index of the first line at or after `i` that is valid and carries
/// `tag`, if any.
pub open spec fn first_hit(set: Seq<u64>, tag: u32, i: int) -> Option<int>
    decreases set.len() - i,
{
    if i < 0 || i >= set.len() {
        None
    } else if line_matches(set[i], tag) {
        Some(i)
    } else {
        first_hit(set, tag, i + 1)
    }
}

/// The victim-selection scan from position `i`, with `cur` the candidate so
/// far and `baseline` the recency value it is compared against. An empty
/// line, or an occupied line older than the baseline, becomes the candidate
/// and clears the baseline, so that no later line can displace it. The scan
/// is meaningful only for a set in which no line matches the touched tag.
pub open spec fn scan_victim(set: Seq<u64>, i: int, cur: int, baseline: Option<u32>) -> int
    decreases set.len() - i,
{
    if i < 0 || i >= set.len() {
        cur
    } else {
        match baseline {
            None => scan_victim(set, i + 1, cur, None),
            Some(b) => {
                if !spec_unpack(set[i]).valid {
                    scan_victim(set, i + 1, i, None)
                } else if spec_unpack(set[i]).access < b {
                    scan_victim(set, i + 1, i, None)
                } else {
                    scan_victim(set, i + 1, cur, baseline)
                }
            },
        }
    }
}

/// The line replaced on a miss: the scan starts at the set's first line,
/// with that line's current recency value as the baseline.
pub open spec fn victim_index(set: Seq<u64>) -> int {
    scan_victim(set, 0, 0, Some(spec_unpack(set[0]).access))
}

/// One address touch as a function on the model. The address is decomposed
/// into a set index and a tag; a first matching valid line makes a hit and
/// has its recency refreshed; otherwise the victim line is overwritten with
/// the new tag and the miss is counted. The recency counter advances either
/// way.
pub open spec fn spec_touch(m: CacheModel, address: u64) -> CacheModel {
    let si = m.geometry.spec_set_index(address) as int;
    let tag = m.geometry.spec_tag(address);
    let set = m.sets[si];
    match first_hit(set, tag, 0) {
        Some(j) => CacheModel {
            sets: m.sets.update(
                si,
                set.update(j, merge_recency(set[j], (wrap_inc(m.epoch) << 1) as u32)),
            ),
            epoch: wrap_inc(m.epoch),
            hits: wrap_inc(m.hits),
            ..m
        },
        None => CacheModel {
            sets: m.sets.update(
                si,
                set.update(
                    victim_index(set),
                    spec_pack(CacheLine { tag, access: (wrap_inc(m.epoch) << 1) as u32, valid: true }),
                ),
            ),
            epoch: wrap_inc(m.epoch),
            misses: wrap_inc(m.misses),
            ..m
        },
    }
}

/// A fresh model: every line zeroed (invalid, tag 0, recency 0), every
/// counter zero.
pub open spec fn spec_init(geometry: CacheSpec) -> CacheModel {
    CacheModel {
        sets: Seq::new(
            geometry.spec_set_num() as nat,
            |i: int| Seq::new(geometry.spec_lines_per_set() as nat, |j: int| 0u64),
        ),
        epoch: 0,
        geometry,
        hits: 0,
        misses: 0,
    }
}

/// An immutable snapshot of a cache state's counters and geometry. The
/// access count is the recency counter at snapshot time.
#[derive(Debug, Clone, Copy, PartialEq, Eq, Structural)]
pub struct ThrasheReport {
    pub access_count: u32,
    pub hits: u32,
    pub misses: u32,
    pub geometry: CacheSpec,
}

/// The report a model yields.
pub open spec fn spec_report(m: CacheModel) -> ThrasheReport {
    ThrasheReport { access_count: m.epoch, hits: m.hits, misses: m.misses, geometry: m.geometry }
}

/// The full set-associative store, with the counters and the geometry used
/// to build it.
pub struct CacheState {
    sets: Vec<Vec<CacheLineCompact>>,
    epoch: u32,
    geometry: CacheSpec,
    hits: u32,
    misses: u32,
}

impl View for CacheState {
    type V = CacheModel;

    closed spec fn view(&self) -> CacheModel {
        CacheModel {
            sets: Seq::new(
                self.sets@.len(),
                |i: int| Seq::new(self.sets@[i]@.len(), |j: int| self.sets@[i]@[j]@),
            ),
            epoch: self.epoch,
            geometry: self.geometry,
            hits: self.hits,
            misses: self.misses,
        }
    }
}

impl CacheState {
    /// The stored sets match the geometry.
    pub open spec fn wf(&self) -> bool {
        self@.wf()
    }

    /// Builds a cache from a geometry: all sets present, every line zeroed,
    /// all counters zero.
    pub fn from_spec(geometry: CacheSpec) -> (r: CacheState)
        requires
            geometry.wf(),
        ensures
            r.wf(),
            r@ == spec_init(geometry),
    {
        let set_n = geometry.set_num();
        let lines_n = geometry.lines_per_set();
        let mut sets: Vec<Vec<CacheLineCompact>> = Vec::new();
        while (sets.len() as u64) < set_n
            invariant
                sets@.len() <= set_n,
                forall|i: int|
                    0 <= i < sets@.len() ==> (#[trigger] sets@[i])@.len() == lines_n,
                forall|i: int, j: int|
                    0 <= i < sets@.len() && 0 <= j < sets@[i]@.len() ==> sets@[i]@[j]@ == 0u64,
            decreases set_n - sets.len(),
        {
            let mut set: Vec<CacheLineCompact> = Vec::new();
            while (set.len() as u64) < lines_n
                invariant
                    set@.len() <= lines_n,
                    forall|j: int| 0 <= j < set@.len() ==> set@[j]@ == 0u64,
                decreases lines_n - set.len(),
            {
                set.push(CacheLineCompact::new());
            }
            sets.push(set);
        }
        let r = CacheState { sets, epoch: 0, geometry, hits: 0, misses: 0 };
        proof {
            assert(r@.sets =~~= spec_init(geometry).sets);
            assert(r@ =~~= spec_init(geometry));
        }
        r
    }

    /// Replays one address against the cache, exactly as `spec_touch`
    /// describes: a hit refreshes the first matching line's recency and
    /// counts a hit; a miss installs the tag in the victim line and counts a
    /// miss.
    pub fn touch_address(&mut self, address: u64)
        requires
            old(self).wf(),
        ensures
            final(self).wf(),
            final(self)@ == spec_touch(old(self)@, address),
    {
        let (set_index, tag) = self.geometry.split(address);
        let si = set_index as usize;
        let ghost ws: Seq<u64> = old(self)@.sets[si as int];

        let lines_n = self.sets[si].len();
        proof {
            lemma_shift_ge_one(self.geometry.lines_per_set_bits);
            assert(ws.len() == lines_n);
        }

        let first = self.sets[si][0].fetch_unpack();
        let mut oldest: usize = 0;
        let mut oldest_epoch: Option<u32> = Some(first.access);

        let mut i: usize = 0;
        while i < lines_n
            invariant
                *self == *old(self),
                old(self).wf(),
                si < self.sets@.len(),
                si as int == old(self).geometry.spec_set_index(address) as int,
                tag == old(self).geometry.spec_tag(address),
                ws == old(self)@.sets[si as int],
                lines_n == ws.len(),
                0 < lines_n,
                i <= lines_n,
                oldest < lines_n,
                forall|k: int| 0 <= k < i ==> !line_matches(ws[k], tag),
                first_hit(ws, tag, i as int) == first_hit(ws, tag, 0),
                scan_victim(ws, i as int, oldest as int, oldest_epoch) == victim_index(ws),
            decreases lines_n - i,
        {
            let mut line = self.sets[si][i];
            let res = line.touch_if_matches(tag, &mut self.epoch);
            match res {
                Ok(()) => {
                    self.sets[si][i] = line;
                    self.hits = if self.hits == u32::MAX {
                        0
                    } else {
                        self.hits + 1
                    };
                    proof {
                        assert(line_matches(ws[i as int], tag));
                        assert(first_hit(ws, tag, 0) == Some(i as int));
                        assert(self@.sets =~~= old(self)@.sets.update(
                            si as int,
                            ws.update(
                                i as int,
                                merge_recency(
                                    ws[i as int],
                                    (wrap_inc(old(self).epoch) << 1) as u32,
                                ),
                            ),
                        ));
                        assert(self@ =~~= spec_touch(old(self)@, address));
                    }
                    return ;
                },
                Err(e) => {
                    match (oldest_epoch, e) {
                        (None, _) => {},
                        (Some(_), None) => {
                            oldest = i;
                            oldest_epoch = None;
                        },
                        (Some(acc_e), Some(cand_e)) => {
                            if cand_e < acc_e {
                                oldest = i;
                                oldest_epoch = None;
                            }
                        },
                    }
                },
            }
            i = i + 1;
        }

        proof {
            assert(first_hit(ws, tag, 0) == None::<int>);
            assert(victim_index(ws) == oldest as int);
        }
        let prev = self.epoch;
        let next: u32 = if prev == u32::MAX {
            0
        } else {
            prev + 1
        };
        self.epoch = next;
        let epoch: u32 = next << 1;
        let mut victim = self.sets[si][oldest];
        victim.pack_store(CacheLine { tag, access: epoch, valid: true });
        self.sets[si][oldest] = victim;
        self.misses = if self.misses == u32::MAX {
            0
        } else {
            self.misses + 1
        };
        proof {
            assert(self@.sets =~~= old(self)@.sets.update(
                si as int,
                ws.update(
                    oldest as int,
                    spec_pack(
                        CacheLine { tag, access: (wrap_inc(old(self).epoch) << 1) as u32, valid: true },
                    ),
                ),
            ));
            assert(self@ =~~= spec_touch(old(self)@, address));
        }
    }

    /// A pure snapshot of the counters and the geometry.
    pub fn make_report(&self) -> (r: ThrasheReport)
        ensures
            r == spec_report(self@),
    {
        let access_count = self.epoch;
        let hits = self.hits;
        let misses = self.misses;
        ThrasheReport { access_count, hits, misses, geometry: self.geometry }
    }
}

/// A power of two is at least one.
proof fn lemma_shift_ge_one(b: u8)
    by (bit_vector)
    requires
        b < 64,
    ensures
        1u64 <= (1u64 << b),
{
}

proof fn lemma_shl1_bound(e: u32)
    by (bit_vector)
    requires
        e < 0x4000_0000,
    ensures
        (e << 1) < 0x8000_0000,
{
}

/// In a well-formed model, the set index of any address selects one of the
/// sets.
pub proof fn lemma_model_set_index_bound(m: CacheModel, address: u64)
    requires
        m.wf(),
    ensures
        0 <= m.geometry.spec_set_index(address) < m.sets.len(),
{
    lemma_set_index_bound(m.geometry.block_size_bits, m.geometry.set_num_bits, address);
}

/// What `first_hit` finds: a first match is a match with no match before
/// it; no result means no line matches at all.
proof fn lemma_first_hit_props(set: Seq<u64>, tag: u32, i: int)
    requires
        0 <= i,
    ensures
        match first_hit(set, tag, i) {
            Some(j) => i <= j < set.len() && line_matches(set[j], tag) && (forall|k: int|
                i <= k < j ==> !line_matches(#[trigger] set[k], tag)),
            None => forall|k: int| i <= k < set.len() ==> !line_matches(#[trigger] set[k], tag),
        },
    decreases set.len() - i,
{
    if i < set.len() && !line_matches(set[i], tag) {
        lemma_first_hit_props(set, tag, i + 1);
    }
}

/// The converse: a match at `j` with no match before it is what
/// `first_hit` finds from any position at or before `j`.
proof fn lemma_first_hit_from(set: Seq<u64>, tag: u32, i: int, j: int)
    requires
        0 <= i <= j < set.len(),
        line_matches(set[j], tag),
        forall|k: int| i <= k < j ==> !line_matches(#[trigger] set[k], tag),
    ensures
        first_hit(set, tag, i) == Some(j),
    decreases j - i,
{
    if i < j {
        lemma_first_hit_from(set, tag, i + 1, j);
    }
}

/// The victim-selection scan stays inside the set.
proof fn lemma_scan_victim_bound(set: Seq<u64>, i: int, cur: int, baseline: Option<u32>)
    requires
        0 <= cur < set.len(),
        0 <= i,
    ensures
        0 <= scan_victim(set, i, cur, baseline) < set.len(),
    decreases set.len() - i,
{
    if i < set.len() {
        match baseline {
            None => {
                lemma_scan_victim_bound(set, i + 1, cur, None);
            },
            Some(b) => {
                if !spec_unpack(set[i]).valid {
                    lemma_scan_victim_bound(set, i + 1, i, None);
                } else if spec_unpack(set[i]).access < b {
                    lemma_scan_victim_bound(set, i + 1, i, None);
                } else {
                    lemma_scan_victim_bound(set, i + 1, cur, baseline);
                }
            },
        }
    }
}

/// The touched set holds a valid line carrying the address's tag, so that a
/// touch of the address is a hit.
pub open spec fn has_line_for(m: CacheModel, address: u64) -> bool {
    first_hit(
        m.sets[m.geometry.spec_set_index(address) as int],
        m.geometry.spec_tag(address),
        0,
    ) is Some
}

/// A touch of an address whose line is present is a hit: it raises the hit
/// counter and leaves the miss counter alone, and the line stays present,
/// so the next touch of the same address hits again.
pub proof fn lemma_touch_hit(m: CacheModel, address: u64)
    requires
        m.wf(),
        has_line_for(m, address),
    ensures
        ({
            let m1 = spec_touch(m, address);
            &&& m1.wf()
            &&& m1.hits == wrap_inc(m.hits)
            &&& m1.misses == m.misses
            &&& m1.epoch == wrap_inc(m.epoch)
            &&& has_line_for(m1, address)
        }),
{
    let si = m.geometry.spec_set_index(address) as int;
    let tag = m.geometry.spec_tag(address);
    let set = m.sets[si];
    lemma_model_set_index_bound(m, address);
    lemma_first_hit_props(set, tag, 0);
    let j = first_hit(set, tag, 0)->Some_0;
    lemma_merge_recency(set[j], (wrap_inc(m.epoch) << 1) as u32);
    let s1 = set.update(j, merge_recency(set[j], (wrap_inc(m.epoch) << 1) as u32));
    lemma_first_hit_from(s1, tag, 0, j);
}

/// A touch of an address whose line is absent is a miss that installs the
/// line: it raises the miss counter, leaves the hit counter alone, and —
/// while the recency counter's next value stays below `2^30`, so that the
/// stored recency value round-trips — leaves the line present, so the next
/// touch of the same address hits.
pub proof fn lemma_touch_installs(m: CacheModel, address: u64)
    requires
        m.wf(),
        !has_line_for(m, address),
        m.epoch < 0x3fff_ffff,
    ensures
        ({
            let m1 = spec_touch(m, address);
            &&& m1.wf()
            &&& m1.misses == wrap_inc(m.misses)
            &&& m1.hits == m.hits
            &&& m1.epoch == wrap_inc(m.epoch)
            &&& has_line_for(m1, address)
        }),
{
    let si = m.geometry.spec_set_index(address) as int;
    let tag = m.geometry.spec_tag(address);
    let set = m.sets[si];
    lemma_model_set_index_bound(m, address);
    lemma_first_hit_props(set, tag, 0);
    lemma_shift_ge_one(m.geometry.lines_per_set_bits);
    lemma_scan_victim_bound(set, 0, 0, Some(spec_unpack(set[0]).access));
    let v = victim_index(set);
    let line = CacheLine { tag, access: (wrap_inc(m.epoch) << 1) as u32, valid: true };
    lemma_shl1_bound(wrap_inc(m.epoch));
    lemma_pack_unpack(line);
    let s1 = set.update(v, spec_pack(line));
    lemma_first_hit_from(s1, tag, 0, v);
}

/// Hit-after-hit idempotence: once an address has been touched, touching it
/// again — with no other touch in between — raises the hit counter, not the
/// miss counter. The recency-counter bound keeps the installed line's tag
/// intact on the first touch.
pub proof fn lemma_hit_after_hit(m: CacheModel, address: u64)
    requires
        m.wf(),
        m.epoch < 0x3fff_ffff,
    ensures
        ({
            let m1 = spec_touch(m, address);
            let m2 = spec_touch(m1, address);
            &&& m2.hits == wrap_inc(m1.hits)
            &&& m2.misses == m1.misses
            &&& has_line_for(m2, address)
        }),
{
    if has_line_for(m, address) {
        lemma_touch_hit(m, address);
        lemma_touch_hit(spec_touch(m, address), address);
    } else {
        lemma_touch_installs(m, address);
        lemma_touch_hit(spec_touch(m, address), address);
    }
}

/// A touch whose address falls in another set leaves a present line
/// present: only the touched set changes.
pub proof fn lemma_touch_other_set(m: CacheModel, address: u64, other: u64)
    requires
        m.wf(),
        m.geometry.spec_set_index(other) != m.geometry.spec_set_index(address),
        has_line_for(m, address),
    ensures
        spec_touch(m, other).wf(),
        has_line_for(spec_touch(m, other), address),
{
    lemma_model_set_index_bound(m, address);
    lemma_model_set_index_bound(m, other);
    let m1 = spec_touch(m, other);
    assert(m1.sets[m.geometry.spec_set_index(address) as int] == m.sets[m.geometry.spec_set_index(
        address,
    ) as int]);
    assert forall|i: int| 0 <= i < m1.sets.len() implies (#[trigger] m1.sets[i]).len()
        == m.geometry.spec_lines_per_set() by {
        if i != m.geometry.spec_set_index(other) as int {
            assert(m1.sets[i] == m.sets[i]);
        } else {
            let si_o = m.geometry.spec_set_index(other) as int;
            let tag_o = m.geometry.spec_tag(other);
            let set_o = m.sets[si_o];
            lemma_shift_ge_one(m.geometry.lines_per_set_bits);
            lemma_first_hit_props(set_o, tag_o, 0);
            match first_hit(set_o, tag_o, 0) {
                Some(j) => {
                    assert(m1.sets[i].len() == set_o.len());
                },
                None => {
                    lemma_scan_victim_bound(set_o, 0, 0, Some(spec_unpack(set_o[0]).access));
                    assert(m1.sets[i].len() == set_o.len());
                },
            }
        }
    }
}

} // verus!
