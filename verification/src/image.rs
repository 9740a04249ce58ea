//! The extracted view of an ELF image: loadable segments classified by
//! their permission flags, and stack/heap reservation sections.

use vstd::prelude::*;

verus! {

/// ELF segment permission bit: executable.
pub const PF_X: u32 = 1;

/// ELF segment permission bit: writable.
pub const PF_W: u32 = 2;

/// ELF segment permission bit: readable.
pub const PF_R: u32 = 4;

pub type Addr = u64;

/// Classification of a loadable segment, derived once from its permission
/// flags.
#[derive(Debug, Clone, PartialEq, Eq, Structural)]
pub enum SegmentType {
    Text,
    Data,
    RoData,
}

/// One loadable segment: its load address, classification, bytes stored in
/// the file, and the zero-initialized padding beyond them. The segment's
/// memory size is `file_size + zero_padding`.
#[derive(Debug, Clone, PartialEq, Eq, Structural)]
pub struct Segment {
    pub _addr: Addr,
    pub ty: SegmentType,
    pub file_size: u64,
    pub zero_padding: u64,
}

/// The extracted view of one input file.
#[derive(Debug, Clone, PartialEq, Eq)]
pub struct ElfInfo {
    pub segments: Vec<Segment>,
    pub _entry: Addr,
    pub stack_mem_size: Option<u64>,
    pub heap_mem_size: Option<u64>,
}

/// One program segment as the format decoder reports it: the ELF permission
/// flags when the header carries them, the load address, the declared memory
/// size, and the number of file-backed bytes (or the decoder's complaint
/// about them).
#[derive(Debug, PartialEq, Eq)]
pub struct RawSegment {
    pub p_flags: Option<u32>,
    pub address: u64,
    pub mem_size: u64,
    pub file_bytes: Result<u64, String>,
}

/// One named section as the format decoder reports it.
#[derive(Debug, Clone, PartialEq, Eq)]
pub struct RawSection {
    pub name: Option<String>,
    pub size: u64,
}

/// Why an image could not be extracted.
#[derive(Debug, Clone, PartialEq, Eq)]
pub enum ExtractionError {
    /// The decoder could not read the container or a segment's file data.
    Malformed(String),
    /// A segment declares more file-backed bytes than memory size, so its
    /// zero padding would be negative.
    SizeUnderflow { mem_size: u64, file_bytes: u64 },
    /// The declared segment sizes add up beyond what a byte count can hold.
    FootprintOverflow,
}

impl ExtractionError {
    /// A short human-readable account of the failure: the decoder's own
    /// text for a malformed input, fixed text otherwise.
    pub fn message(&self) -> (r: String)
        ensures
            r@ == (match *self {
                ExtractionError::Malformed(detail) => detail@,
                ExtractionError::SizeUnderflow { .. } => "segment file size exceeds its memory size"@,
                ExtractionError::FootprintOverflow => "declared segment sizes overflow a byte count"@,
            }),
    {
        match self {
            ExtractionError::Malformed(detail) => detail.clone(),
            ExtractionError::SizeUnderflow { .. } => "segment file size exceeds its memory size".to_owned(),
            ExtractionError::FootprintOverflow => "declared segment sizes overflow a byte count".to_owned(),
        }
    }
}

/// The classification a set of permission flags maps to, if any. Exactly
/// execute+read, read+write and read-only are recognized; every other
/// combination is ignored.
pub open spec fn classify_spec(flags: u32) -> Option<SegmentType> {
    if flags == (PF_X | PF_R) {
        Some(SegmentType::Text)
    } else if flags == (PF_R | PF_W) {
        Some(SegmentType::Data)
    } else if flags == PF_R {
        Some(SegmentType::RoData)
    } else {
        None
    }
}

/// Classifies a segment's permission flags, or reports that the segment is
/// to be ignored.
pub fn classify_flags(flags: u32) -> (r: Option<SegmentType>)
    ensures
        r == classify_spec(flags),
{
    if flags == (PF_X | PF_R) {
        Some(SegmentType::Text)
    } else if flags == (PF_R | PF_W) {
        Some(SegmentType::Data)
    } else if flags == PF_R {
        Some(SegmentType::RoData)
    } else {
        None
    }
}

/// Whether a raw segment carries ELF flags that classify.
pub open spec fn seg_classified(r: RawSegment) -> bool {
    match r.p_flags {
        Some(f) => classify_spec(f) is Some,
        None => false,
    }
}

/// A classified raw segment must have readable file data that fits inside
/// its declared memory size; unclassified segments are dropped unchecked.
pub open spec fn seg_ok(r: RawSegment) -> bool {
    seg_classified(r) ==> match r.file_bytes {
        Ok(n) => n <= r.mem_size,
        Err(_) => false,
    }
}

/// Whether an extraction error is the one a bad raw segment gives rise to:
/// the decoder's complaint about its data, or the underflowing sizes.
pub open spec fn matches_seg_err(e: ExtractionError, r: RawSegment) -> bool {
    match r.file_bytes {
        Ok(n) => e == (ExtractionError::SizeUnderflow { mem_size: r.mem_size, file_bytes: n }),
        Err(m) => match e {
            ExtractionError::Malformed(d) => d@ == m@,
            _ => false,
        },
    }
}

/// The segment a well-formed classified raw segment extracts to.
pub open spec fn seg_value(r: RawSegment) -> Segment
    recommends
        seg_classified(r),
        seg_ok(r),
{
    Segment {
        _addr: r.address,
        ty: match r.p_flags {
            Some(f) => match classify_spec(f) {
                Some(t) => t,
                None => SegmentType::Text,
            },
            None => SegmentType::Text,
        },
        file_size: match r.file_bytes {
            Ok(n) => n,
            Err(_) => 0,
        },
        zero_padding: (r.mem_size - match r.file_bytes {
            Ok(n) => n as int,
            Err(_) => 0,
        }) as u64,
    }
}

/// The segments extraction produces, in file order: classified raw segments
/// mapped to their value, the rest dropped.
pub open spec fn segments_of(raw: Seq<RawSegment>) -> Seq<Segment>
    decreases raw.len(),
{
    if raw.len() == 0 {
        Seq::empty()
    } else if seg_classified(raw.last()) {
        segments_of(raw.drop_last()).push(seg_value(raw.last()))
    } else {
        segments_of(raw.drop_last())
    }
}

/// Whether every raw segment extracts without error.
pub open spec fn all_segs_ok(raw: Seq<RawSegment>) -> bool {
    forall|i: int| 0 <= i < raw.len() ==> seg_ok(#[trigger] raw[i])
}

/// Whether a raw section carries the given name.
pub open spec fn sec_named(s: RawSection, name: Seq<char>) -> bool {
    match s.name {
        Some(n) => n@ == name,
        None => false,
    }
}

/// The reservation recorded for the given section name: the last section so
/// named decides, and only a positive size counts as a declaration.
pub open spec fn reservation_of(secs: Seq<RawSection>, name: Seq<char>) -> Option<u64>
    decreases secs.len(),
{
    if secs.len() == 0 {
        None
    } else if sec_named(secs.last(), name) {
        if secs.last().size > 0 {
            Some(secs.last().size)
        } else {
            None
        }
    } else {
        reservation_of(secs.drop_last(), name)
    }
}

pub open spec fn stack_section_name() -> Seq<char> {
    ".stack"@
}

pub open spec fn heap_section_name() -> Seq<char> {
    ".heap"@
}

impl ElfInfo {
    /// No segment's file bytes and padding together exceed a byte count;
    /// extraction establishes this because their sum is the declared memory
    /// size of the raw segment.
    pub open spec fn wf(&self) -> bool {
        forall|i: int| 0 <= i < self.segments@.len()
            ==> (#[trigger] self.segments@[i]).file_size + self.segments@[i].zero_padding <= u64::MAX
    }
}

/// Every extracted segment comes from a classified raw segment, and its
/// file size and zero padding add up to exactly that raw segment's declared
/// memory size.
pub proof fn lemma_segments_of_from_raw(raw: Seq<RawSegment>)
    requires
        all_segs_ok(raw),
    ensures
        forall|i: int| 0 <= i < segments_of(raw).len()
            ==> exists|j: int|
                0 <= j < raw.len() && seg_classified(#[trigger] raw[j])
                    && #[trigger] segments_of(raw)[i] == seg_value(raw[j])
                    && segments_of(raw)[i].file_size + segments_of(raw)[i].zero_padding
                        == raw[j].mem_size,
    decreases raw.len(),
{
    if raw.len() > 0 {
        assert(all_segs_ok(raw.drop_last())) by {
            assert(forall|i: int| 0 <= i < raw.drop_last().len()
                ==> #[trigger] raw.drop_last()[i] == raw[i]);
        }
        lemma_segments_of_from_raw(raw.drop_last());
        let prefix = segments_of(raw.drop_last());
        if seg_classified(raw.last()) {
            assert(seg_ok(raw.last()));
            let j = raw.len() - 1;
            assert forall|i: int| 0 <= i < segments_of(raw).len() implies exists|jj: int|
                0 <= jj < raw.len() && seg_classified(#[trigger] raw[jj])
                    && #[trigger] segments_of(raw)[i] == seg_value(raw[jj])
                    && segments_of(raw)[i].file_size + segments_of(raw)[i].zero_padding
                        == raw[jj].mem_size by {
                if i < prefix.len() {
                    assert(segments_of(raw)[i] == prefix[i]);
                    let jj = choose|jj: int|
                        0 <= jj < raw.drop_last().len() && seg_classified(#[trigger] raw.drop_last()[jj])
                            && prefix[i] == seg_value(raw.drop_last()[jj])
                            && prefix[i].file_size + prefix[i].zero_padding
                                == raw.drop_last()[jj].mem_size;
                    assert(raw.drop_last()[jj] == raw[jj]);
                } else {
                    assert(segments_of(raw)[i] == seg_value(raw[j]));
                    assert(seg_value(raw[j]).file_size + seg_value(raw[j]).zero_padding
                        == raw[j].mem_size);
                }
            }
        } else {
            assert forall|i: int| 0 <= i < segments_of(raw).len() implies exists|jj: int|
                0 <= jj < raw.len() && seg_classified(#[trigger] raw[jj])
                    && #[trigger] segments_of(raw)[i] == seg_value(raw[jj])
                    && segments_of(raw)[i].file_size + segments_of(raw)[i].zero_padding
                        == raw[jj].mem_size by {
                assert(segments_of(raw)[i] == prefix[i]);
                let jj = choose|jj: int|
                    0 <= jj < raw.drop_last().len() && seg_classified(#[trigger] raw.drop_last()[jj])
                        && prefix[i] == seg_value(raw.drop_last()[jj])
                        && prefix[i].file_size + prefix[i].zero_padding
                            == raw.drop_last()[jj].mem_size;
                assert(raw.drop_last()[jj] == raw[jj]);
            }
        }
    }
}

/// Builds the extracted view from what the decoder reported: classified
/// segments with their padding, and the stack/heap reservations. Fails on
/// the first raw segment whose file data the decoder could not read or
/// whose file bytes exceed its memory size.
pub fn extract_image(raw_segments: &Vec<RawSegment>, raw_sections: &Vec<RawSection>, entry: u64)
    -> (r: Result<ElfInfo, ExtractionError>)
    ensures
        (r is Ok) <==> all_segs_ok(raw_segments@),
        r matches Ok(info) ==> {
            &&& info.segments@ == segments_of(raw_segments@)
            &&& info._entry == entry
            &&& info.stack_mem_size == reservation_of(raw_sections@, stack_section_name())
            &&& info.heap_mem_size == reservation_of(raw_sections@, heap_section_name())
            &&& info.wf()
        },
        r matches Err(e) ==> exists|i: int|
            0 <= i < raw_segments@.len() && !seg_ok(#[trigger] raw_segments@[i])
                && matches_seg_err(e, raw_segments@[i])
                && (forall|j: int| 0 <= j < i ==> seg_ok(#[trigger] raw_segments@[j])),
{
    let mut segments: Vec<Segment> = Vec::new();
    let n = raw_segments.len();
    let mut i: usize = 0;
    while i < n
        invariant
            i <= n,
            n == raw_segments@.len(),
            segments@ == segments_of(raw_segments@.take(i as int)),
            forall|j: int| 0 <= j < i ==> seg_ok(#[trigger] raw_segments@[j]),
        decreases n - i,
    {
        let raw = &raw_segments[i];
        proof {
            assert(raw_segments@.take(i + 1).drop_last() =~= raw_segments@.take(i as int));
            assert(raw_segments@.take(i + 1).last() == raw_segments@[i as int]);
        }
        let classified = match raw.p_flags {
            Some(f) => classify_flags(f),
            None => None,
        };
        match classified {
            Some(ty) => {
                let file_size = match &raw.file_bytes {
                    Ok(nb) => *nb,
                    Err(m) => {
                        return Err(ExtractionError::Malformed(m.clone()));
                    },
                };
                if file_size > raw.mem_size {
                    return Err(ExtractionError::SizeUnderflow {
                        mem_size: raw.mem_size,
                        file_bytes: file_size,
                    });
                }
                let padding = raw.mem_size - file_size;
                segments.push(Segment {
                    _addr: raw.address,
                    ty,
                    file_size,
                    zero_padding: padding,
                });
            },
            None => {},
        }
        i += 1;
    }
    proof {
        assert(raw_segments@.take(n as int) =~= raw_segments@);
        lemma_segments_of_from_raw(raw_segments@);
    }

    let mut stack_mem_size: Option<u64> = None;
    let mut heap_mem_size: Option<u64> = None;
    let m = raw_sections.len();
    let mut k: usize = 0;
    while k < m
        invariant
            k <= m,
            m == raw_sections@.len(),
            stack_mem_size == reservation_of(raw_sections@.take(k as int), stack_section_name()),
            heap_mem_size == reservation_of(raw_sections@.take(k as int), heap_section_name()),
        decreases m - k,
    {
        let sec = &raw_sections[k];
        proof {
            assert(raw_sections@.take(k + 1).drop_last() =~= raw_sections@.take(k as int));
            assert(raw_sections@.take(k + 1).last() == raw_sections@[k as int]);
            reveal_strlit(".stack");
            reveal_strlit(".heap");
            assert(stack_section_name().len() == 6);
            assert(heap_section_name().len() == 5);
        }
        match &sec.name {
            Some(name) => {
                let stack_name: String = ".stack".to_owned();
                let heap_name: String = ".heap".to_owned();
                if *name == stack_name {
                    stack_mem_size = if sec.size > 0 {
                        Some(sec.size)
                    } else {
                        None
                    };
                } else if *name == heap_name {
                    heap_mem_size = if sec.size > 0 {
                        Some(sec.size)
                    } else {
                        None
                    };
                }
            },
            None => {},
        }
        k += 1;
    }
    proof {
        assert(raw_sections@.take(m as int) =~= raw_sections@);
    }

    Ok(ElfInfo { segments, _entry: entry, stack_mem_size, heap_mem_size })
}

} // verus!
