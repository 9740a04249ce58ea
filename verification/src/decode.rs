//! The boundary to the binary-format decoder: the `object` crate locates
//! the segment and section tables. What the decoder reports for given
//! bytes depends on those bytes alone, so its results are named
//! (`decoded_segments`, `decoded_sections`, `decoded_entry`), and
//! everything computed from them is verified in `image` and `summary`.

use vstd::prelude::*;

use object::SegmentFlags::Elf;
use object::{File, Object, ObjectSection, ObjectSegment};

use crate::image::{
    all_segs_ok, extract_image, heap_section_name, matches_seg_err, reservation_of, seg_ok,
    segments_of, stack_section_name, ElfInfo, ExtractionError, RawSection, RawSegment, Segment,
};
use crate::summary::{data_total, instruction_total, summarize_checked, SizeSummary};

verus! {

/// Whether the decoder accepts these bytes as a supported container.
pub uninterp spec fn decode_ok(bytes: Seq<u8>) -> bool;

/// The decoder's account of why it rejected these bytes.
pub uninterp spec fn decode_err(bytes: Seq<u8>) -> Seq<char>;

/// The program segments the decoder reports for these bytes, in file order.
pub uninterp spec fn decoded_segments(bytes: Seq<u8>) -> Seq<RawSegment>;

/// The named sections the decoder reports for these bytes, in file order.
pub uninterp spec fn decoded_sections(bytes: Seq<u8>) -> Seq<RawSection>;

/// The entry address the decoder reports for these bytes.
pub uninterp spec fn decoded_entry(bytes: Seq<u8>) -> u64;

/// The segments the verified extraction yields for these bytes.
pub open spec fn extracted_segments(bytes: Seq<u8>) -> Seq<Segment> {
    segments_of(decoded_segments(bytes))
}

/// Relies on object::File::parse to validate and decode the container, on
/// object::Object::segments with the ObjectSegment accessors flags,
/// address, size and data, on object::Object::sections with the
/// ObjectSection accessors name and size, and on object::Object::entry.
/// All of them compute from the input bytes alone, which is what naming
/// their results claims; errors are carried over as their display text.
#[verifier::external_body]
fn decode_elf(bytes: &[u8]) -> (r: Result<(Vec<RawSegment>, Vec<RawSection>, u64), String>)
    ensures
        (r is Ok) == decode_ok(bytes@),
        r matches Ok(t) ==> t.0@ == decoded_segments(bytes@) && t.1@ == decoded_sections(bytes@)
            && t.2 == decoded_entry(bytes@),
        r matches Err(m) ==> m@ == decode_err(bytes@),
{
    let f = File::parse(bytes).map_err(|e| e.to_string())?;
    let segs = f.segments().map(|s| RawSegment {
        p_flags: match s.flags() { Elf { p_flags, .. } => Some(p_flags.0), _ => None },
        address: s.address(), mem_size: s.size(),
        file_bytes: s.data().map(|d| d.len() as u64).map_err(|e| e.to_string()),
    }).collect();
    let secs = f.sections().map(|s| RawSection {
        name: s.name().ok().map(|n| n.to_string()), size: s.size(),
    }).collect();
    Ok((segs, secs, f.entry()))
}

/// Reads an ELF image from raw bytes. The reading is lossy: only loadable
/// segments with a recognized permission set are kept, along with the entry
/// address and the stack/heap reservation sections. Bytes the decoder
/// rejects come back as the decoder's failure text; a segment whose file
/// bytes exceed its memory size is the first-found extraction error.
pub fn read_elf_file(bytes: &[u8]) -> (r: Result<ElfInfo, ExtractionError>)
    ensures
        (r is Ok) <==> (decode_ok(bytes@) && all_segs_ok(decoded_segments(bytes@))),
        r matches Ok(info) ==> {
            &&& info.segments@ == extracted_segments(bytes@)
            &&& info._entry == decoded_entry(bytes@)
            &&& info.stack_mem_size == reservation_of(decoded_sections(bytes@), stack_section_name())
            &&& info.heap_mem_size == reservation_of(decoded_sections(bytes@), heap_section_name())
            &&& info.wf()
        },
        !decode_ok(bytes@) ==> (r matches Err(ExtractionError::Malformed(d)) && d@ == decode_err(
            bytes@,
        )),
        decode_ok(bytes@) ==> (r matches Err(e) ==> exists|i: int|
            0 <= i < decoded_segments(bytes@).len() && !seg_ok(
                #[trigger] decoded_segments(bytes@)[i],
            ) && matches_seg_err(e, decoded_segments(bytes@)[i]) && (forall|j: int|
                0 <= j < i ==> seg_ok(#[trigger] decoded_segments(bytes@)[j]))),
{
    match decode_elf(bytes) {
        Ok((segments, sections, entry)) => extract_image(&segments, &sections, entry),
        Err(detail) => Err(ExtractionError::Malformed(detail)),
    }
}

/// The footprint summary of one binary image given as raw bytes:
/// extraction as `read_elf_file` does it, then the verified reduction of
/// `summary::summarize_checked`. Extraction failures pass through
/// unchanged; totals beyond what a byte count can hold are rejected as a
/// format inconsistency.
pub fn size_summary(bytes: &[u8]) -> (r: Result<SizeSummary, ExtractionError>)
    ensures
        (r is Ok) <==> (decode_ok(bytes@) && all_segs_ok(decoded_segments(bytes@))
            && instruction_total(extracted_segments(bytes@)) <= u64::MAX && data_total(
            extracted_segments(bytes@),
        ) <= u64::MAX),
        r matches Ok(s) ==> {
            &&& s.instruction_memory == instruction_total(extracted_segments(bytes@))
            &&& s.data_memory_total == data_total(extracted_segments(bytes@))
            &&& s.data_memory_stack == reservation_of(decoded_sections(bytes@), stack_section_name())
            &&& s.data_memory_heap == reservation_of(decoded_sections(bytes@), heap_section_name())
        },
        !decode_ok(bytes@) ==> (r matches Err(ExtractionError::Malformed(d)) && d@ == decode_err(
            bytes@,
        )),
        decode_ok(bytes@) && !all_segs_ok(decoded_segments(bytes@)) ==> (r matches Err(e)
            && exists|i: int|
            0 <= i < decoded_segments(bytes@).len() && !seg_ok(
                #[trigger] decoded_segments(bytes@)[i],
            ) && matches_seg_err(e, decoded_segments(bytes@)[i]) && (forall|j: int|
                0 <= j < i ==> seg_ok(#[trigger] decoded_segments(bytes@)[j]))),
        decode_ok(bytes@) && all_segs_ok(decoded_segments(bytes@)) && !(instruction_total(
            extracted_segments(bytes@),
        ) <= u64::MAX && data_total(extracted_segments(bytes@)) <= u64::MAX) ==> r == Err::<
            SizeSummary,
            ExtractionError,
        >(ExtractionError::FootprintOverflow),
{
    match read_elf_file(bytes) {
        Ok(info) => match summarize_checked(&info) {
            Some(summary) => Ok(summary),
            None => Err(ExtractionError::FootprintOverflow),
        },
        Err(e) => Err(e),
    }
}

} // verus!
