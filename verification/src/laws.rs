//! Relations the components are proved to keep: padding arithmetic,
//! exhaustiveness of the flag classification, and the fixed/dynamic
//! partition of the data total.

use vstd::prelude::*;

use crate::image::{
    all_segs_ok, classify_spec, lemma_segments_of_from_raw, seg_classified, seg_ok, seg_value,
    segments_of, RawSegment, SegmentType, PF_R, PF_W, PF_X,
};
use crate::parse::{lower_byte, lower_bytes, parse_limit_spec};
use crate::summary::SizeSummary;

verus! {

/// Every segment extraction produces records as padding exactly the
/// difference between the raw segment's declared memory size and its
/// file-backed bytes, so padding is never negative and file size plus
/// padding never exceeds a byte count.
pub proof fn lemma_padding_is_exact_difference(raw: Seq<RawSegment>)
    requires
        all_segs_ok(raw),
    ensures
        forall|i: int| 0 <= i < segments_of(raw).len()
            ==> exists|j: int|
                0 <= j < raw.len() && seg_classified(#[trigger] raw[j])
                    && #[trigger] segments_of(raw)[i] == seg_value(raw[j])
                    && segments_of(raw)[i].file_size + segments_of(raw)[i].zero_padding
                        == raw[j].mem_size,
{
    lemma_segments_of_from_raw(raw);
}

/// A classified raw segment whose file bytes exceed its declared memory
/// size makes the whole extraction fail; the padding subtraction never
/// wraps silently.
pub proof fn lemma_underflow_fails_extraction(raw: Seq<RawSegment>, i: int)
    requires
        0 <= i < raw.len(),
        seg_classified(raw[i]),
        raw[i].file_bytes matches Ok(n) && n > raw[i].mem_size,
    ensures
        !all_segs_ok(raw),
{
    assert(!seg_ok(raw[i]));
}

/// Classification recognizes exactly the three permission sets
/// execute+read, read+write and read-only; it is total on flag words, and
/// every other combination classifies to nothing.
pub proof fn lemma_classification_exhaustive(flags: u32)
    ensures
        (PF_X | PF_R) == 5u32,
        (PF_R | PF_W) == 6u32,
        classify_spec(flags) is Some <==> (flags == (PF_X | PF_R) || flags == (PF_R | PF_W)
            || flags == PF_R),
        flags == (PF_X | PF_R) ==> classify_spec(flags) == Some(SegmentType::Text),
        flags == (PF_R | PF_W) ==> classify_spec(flags) == Some(SegmentType::Data),
        flags == PF_R ==> classify_spec(flags) == Some(SegmentType::RoData),
{
    assert((1u32 | 4u32) == 5u32) by (bit_vector);
    assert((4u32 | 2u32) == 6u32) by (bit_vector);
}

/// A raw segment whose flags classify to nothing contributes no segment to
/// the extracted image.
pub proof fn lemma_ignored_segment_adds_nothing(raw: Seq<RawSegment>, r: RawSegment)
    requires
        !seg_classified(r),
    ensures
        segments_of(raw.push(r)) == segments_of(raw),
{
    assert(raw.push(r).drop_last() =~= raw);
    assert(raw.push(r).last() == r);
}

/// The size-limit grammar is case-insensitive: a limit string and its
/// ASCII lower-casing denote the same value, because lower-casing is
/// idempotent and parsing lower-cases first. With `parse_limit`'s fixed
/// error text, the two calls return equal results outright.
pub proof fn lemma_parse_limit_case_insensitive(s: Seq<u8>)
    ensures
        parse_limit_spec(lower_bytes(s)) == parse_limit_spec(s),
{
    assert(lower_bytes(lower_bytes(s)) =~= lower_bytes(s)) by {
        assert forall|i: int| 0 <= i < s.len() implies lower_bytes(lower_bytes(s))[i]
            == lower_bytes(s)[i] by {
            assert(lower_bytes(s)[i] == lower_byte(s[i]));
            assert(lower_byte(lower_byte(s[i])) == lower_byte(s[i]));
        }
    }
}

/// The dynamic reservation is absent exactly when both the stack and the
/// heap reservation are, and fixed data plus the dynamic reservation
/// (counting an absent one as zero) always reassemble the data total.
pub proof fn lemma_fixed_dynamic_partition(s: SizeSummary)
    ensures
        s.dynamic_spec() is None <==> (s.data_memory_stack is None && s.data_memory_heap is None),
        s.fixed_spec() + s.dyn_or_zero() == s.data_memory_total,
        s.dyn_or_zero() <= s.data_memory_total ==> s.fixed_spec() >= 0,
{
}

} // verus!
