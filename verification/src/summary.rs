//! Reduction of an extracted image to its memory footprint: instruction and
//! data totals, with the fixed/dynamic breakdown.

use vstd::prelude::*;

use crate::image::{ElfInfo, Segment, SegmentType};

verus! {

/// The memory size of one segment: its file-backed bytes plus its zero
/// padding.
pub open spec fn seg_mem(s: Segment) -> int {
    s.file_size + s.zero_padding
}

/// Sum of the memory sizes of the instruction segments, in file order.
pub open spec fn instruction_total(segs: Seq<Segment>) -> int
    decreases segs.len(),
{
    if segs.len() == 0 {
        0
    } else {
        instruction_total(segs.drop_last()) + if segs.last().ty is Text {
            seg_mem(segs.last())
        } else {
            0
        }
    }
}

/// Sum of the memory sizes of the data and read-only-data segments, in file
/// order.
pub open spec fn data_total(segs: Seq<Segment>) -> int
    decreases segs.len(),
{
    if segs.len() == 0 {
        0
    } else {
        data_total(segs.drop_last()) + if segs.last().ty is Text {
            0
        } else {
            seg_mem(segs.last())
        }
    }
}

/// Both totals only ever grow as segments are appended.
pub proof fn lemma_totals_nonneg(segs: Seq<Segment>)
    ensures
        instruction_total(segs) >= 0,
        data_total(segs) >= 0,
    decreases segs.len(),
{
    if segs.len() > 0 {
        lemma_totals_nonneg(segs.drop_last());
    }
}

/// A prefix contributes no more than the whole sequence to either total.
pub proof fn lemma_totals_prefix(segs: Seq<Segment>, i: int)
    requires
        0 <= i <= segs.len(),
    ensures
        instruction_total(segs.take(i)) <= instruction_total(segs),
        data_total(segs.take(i)) <= data_total(segs),
    decreases segs.len() - i,
{
    if i == segs.len() {
        assert(segs.take(i) =~= segs);
    } else {
        lemma_totals_prefix(segs, i + 1);
        assert(segs.take(i + 1).drop_last() =~= segs.take(i));
        assert(segs.take(i + 1).last() == segs[i]);
        lemma_totals_nonneg(segs.take(i));
    }
}

/// Per-file footprint: memory occupied by instructions, memory occupied by
/// data (read-only data included), and the declared stack and heap
/// reservations, if any.
pub struct SizeSummary {
    pub instruction_memory: u64,
    pub data_memory_total: u64,
    pub data_memory_stack: Option<u64>,
    pub data_memory_heap: Option<u64>,
}

impl SizeSummary {
    /// The dynamic reservation: stack plus heap when either is declared,
    /// absent when both are.
    pub open spec fn dynamic_spec(&self) -> Option<int> {
        match (self.data_memory_stack, self.data_memory_heap) {
            (Some(s), Some(h)) => Some(s + h),
            (Some(s), None) => Some(s as int),
            (None, Some(h)) => Some(h as int),
            (None, None) => None,
        }
    }

    /// The dynamic reservation, counting an absent one as zero.
    pub open spec fn dyn_or_zero(&self) -> int {
        match self.dynamic_spec() {
            Some(d) => d,
            None => 0,
        }
    }

    /// The declared reservations fit in a byte count together.
    pub open spec fn dyn_in_range(&self) -> bool {
        self.dyn_or_zero() <= u64::MAX
    }

    /// Data memory that is not a stack or heap reservation.
    pub open spec fn fixed_spec(&self) -> int {
        self.data_memory_total - self.dyn_or_zero()
    }

    /// All memory the file occupies when loaded.
    pub open spec fn total_spec(&self) -> int {
        self.instruction_memory + self.data_memory_total
    }

    /// Instruction memory plus fixed data memory.
    pub open spec fn total_fixed_spec(&self) -> int {
        self.instruction_memory + self.fixed_spec()
    }

    /// Stack plus heap reservation, or `None` when neither is declared.
    pub fn data_memory_dynamic(&self) -> (r: Option<u64>)
        requires
            self.dyn_in_range(),
        ensures
            r matches Some(d) ==> self.dynamic_spec() == Some(d as int),
            r is None <==> self.dynamic_spec() is None,
    {
        match (self.data_memory_stack, self.data_memory_heap) {
            (Some(s), Some(h)) => Some(s + h),
            (Some(s), None) => Some(s),
            (None, Some(h)) => Some(h),
            (None, None) => None,
        }
    }

    /// Data memory minus the dynamic reservation.
    pub fn data_memory_fixed(&self) -> (r: u64)
        requires
            self.dyn_in_range(),
            self.dyn_or_zero() <= self.data_memory_total,
        ensures
            r == self.fixed_spec(),
    {
        let dynamic = match self.data_memory_dynamic() {
            Some(d) => d,
            None => 0,
        };
        self.data_memory_total - dynamic
    }

    /// Data memory minus the dynamic reservation, or `None` when the
    /// declared reservations outgrow the data segments (a data-quality
    /// condition a caller must surface, never a negative size).
    pub fn data_memory_fixed_checked(&self) -> (r: Option<u64>)
        ensures
            r is Some <==> (self.dyn_in_range() && self.dyn_or_zero() <= self.data_memory_total),
            r matches Some(v) ==> v == self.fixed_spec(),
    {
        let dynamic: u64 = match (self.data_memory_stack, self.data_memory_heap) {
            (Some(s), Some(h)) => match s.checked_add(h) {
                Some(d) => d,
                None => {
                    return None;
                },
            },
            (Some(s), None) => s,
            (None, Some(h)) => h,
            (None, None) => 0,
        };
        if dynamic <= self.data_memory_total {
            Some(self.data_memory_total - dynamic)
        } else {
            None
        }
    }

    /// Instruction memory plus all data memory.
    pub fn total(&self) -> (r: u64)
        requires
            self.total_spec() <= u64::MAX,
        ensures
            r == self.total_spec(),
    {
        self.instruction_memory + self.data_memory_total
    }

    /// Instruction memory plus fixed data memory.
    pub fn total_fixed(&self) -> (r: u64)
        requires
            self.dyn_in_range(),
            self.dyn_or_zero() <= self.data_memory_total,
            self.total_fixed_spec() <= u64::MAX,
        ensures
            r == self.total_fixed_spec(),
    {
        self.instruction_memory + self.data_memory_fixed()
    }
}

/// Reduces an extracted image to its footprint summary: the segment totals
/// by classification, the reservations passed through unchanged.
pub fn summarize(info: &ElfInfo) -> (r: SizeSummary)
    requires
        instruction_total(info.segments@) <= u64::MAX,
        data_total(info.segments@) <= u64::MAX,
    ensures
        r.instruction_memory == instruction_total(info.segments@),
        r.data_memory_total == data_total(info.segments@),
        r.data_memory_stack == info.stack_mem_size,
        r.data_memory_heap == info.heap_mem_size,
{
    let mut instruction_memory: u64 = 0;
    let mut data_memory_total: u64 = 0;
    let n = info.segments.len();
    let mut i: usize = 0;
    while i < n
        invariant
            i <= n,
            n == info.segments@.len(),
            instruction_total(info.segments@) <= u64::MAX,
            data_total(info.segments@) <= u64::MAX,
            instruction_memory == instruction_total(info.segments@.take(i as int)),
            data_memory_total == data_total(info.segments@.take(i as int)),
        decreases n - i,
    {
        let seg = &info.segments[i];
        proof {
            assert(info.segments@.take(i + 1).drop_last() =~= info.segments@.take(i as int));
            assert(info.segments@.take(i + 1).last() == info.segments@[i as int]);
            lemma_totals_prefix(info.segments@, i + 1);
            lemma_totals_nonneg(info.segments@.take(i as int));
        }
        if seg.ty == SegmentType::Text {
            instruction_memory = instruction_memory + seg.file_size + seg.zero_padding;
        } else {
            data_memory_total = data_memory_total + seg.file_size + seg.zero_padding;
        }
        i += 1;
    }
    proof {
        assert(info.segments@.take(n as int) =~= info.segments@);
    }
    SizeSummary {
        instruction_memory,
        data_memory_total,
        data_memory_stack: info.stack_mem_size,
        data_memory_heap: info.heap_mem_size,
    }
}

/// Reduces an extracted image to its footprint summary, or reports that the
/// declared segment sizes add up beyond what a byte count can hold.
pub fn summarize_checked(info: &ElfInfo) -> (r: Option<SizeSummary>)
    ensures
        r is Some <==> (instruction_total(info.segments@) <= u64::MAX && data_total(
            info.segments@,
        ) <= u64::MAX),
        r matches Some(s) ==> {
            &&& s.instruction_memory == instruction_total(info.segments@)
            &&& s.data_memory_total == data_total(info.segments@)
            &&& s.data_memory_stack == info.stack_mem_size
            &&& s.data_memory_heap == info.heap_mem_size
        },
{
    let mut instruction_memory: u64 = 0;
    let mut data_memory_total: u64 = 0;
    let n = info.segments.len();
    let mut i: usize = 0;
    while i < n
        invariant
            i <= n,
            n == info.segments@.len(),
            instruction_memory == instruction_total(info.segments@.take(i as int)),
            data_memory_total == data_total(info.segments@.take(i as int)),
        decreases n - i,
    {
        let seg = &info.segments[i];
        proof {
            assert(info.segments@.take(i + 1).drop_last() =~= info.segments@.take(i as int));
            assert(info.segments@.take(i + 1).last() == info.segments@[i as int]);
        }
        let mem: u128 = seg.file_size as u128 + seg.zero_padding as u128;
        if seg.ty == SegmentType::Text {
            if mem > (u64::MAX - instruction_memory) as u128 {
                proof {
                    lemma_totals_prefix(info.segments@, i + 1);
                }
                return None;
            }
            instruction_memory = instruction_memory + (mem as u64);
        } else {
            if mem > (u64::MAX - data_memory_total) as u128 {
                proof {
                    lemma_totals_prefix(info.segments@, i + 1);
                }
                return None;
            }
            data_memory_total = data_memory_total + (mem as u64);
        }
        i += 1;
    }
    proof {
        assert(info.segments@.take(n as int) =~= info.segments@);
    }
    Some(
        SizeSummary {
            instruction_memory,
            data_memory_total,
            data_memory_stack: info.stack_mem_size,
            data_memory_heap: info.heap_mem_size,
        },
    )
}

} // verus!
