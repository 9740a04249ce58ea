//! Extraction, summarization and limit evaluation on decoder-level inputs.

use elfsize::image::{classify_flags, extract_image};
use elfsize::limits::any_file_over_limit;
use elfsize::summary::{summarize, summarize_checked};
use elfsize::{ExtractionError, RawSection, RawSegment, SegmentType, SizeSummary};

fn seg(p_flags: u32, mem_size: u64, file_bytes: u64) -> RawSegment {
    RawSegment { p_flags: Some(p_flags), address: 0x1000, mem_size, file_bytes: Ok(file_bytes) }
}

fn sec(name: &str, size: u64) -> RawSection {
    RawSection { name: Some(name.to_string()), size }
}

#[test]
fn classification_recognizes_exactly_three_sets() {
    assert_eq!(classify_flags(5), Some(SegmentType::Text));
    assert_eq!(classify_flags(6), Some(SegmentType::Data));
    assert_eq!(classify_flags(4), Some(SegmentType::RoData));
    for other in [0, 1, 2, 3, 7, 8, 0xff] {
        assert_eq!(classify_flags(other), None);
    }
}

#[test]
fn unrecognized_flags_are_dropped_not_counted() {
    let raw = vec![seg(5, 100, 100), seg(3, 999, 999), seg(0, 50, 50)];
    let info = extract_image(&raw, &Vec::new(), 0).unwrap();
    assert_eq!(info.segments.len(), 1);
    assert_eq!(info.segments[0].ty, SegmentType::Text);
}

#[test]
fn padding_is_memory_minus_file() {
    let raw = vec![seg(6, 60, 50)];
    let info = extract_image(&raw, &Vec::new(), 0).unwrap();
    assert_eq!(info.segments[0].file_size, 50);
    assert_eq!(info.segments[0].zero_padding, 10);
}

#[test]
fn underflowing_segment_is_an_extraction_error() {
    let raw = vec![seg(5, 10, 11)];
    let r = extract_image(&raw, &Vec::new(), 0);
    assert_eq!(r, Err(ExtractionError::SizeUnderflow { mem_size: 10, file_bytes: 11 }));
}

#[test]
fn unreadable_segment_data_is_malformed() {
    let raw = vec![RawSegment {
        p_flags: Some(4),
        address: 0,
        mem_size: 8,
        file_bytes: Err("truncated".to_string()),
    }];
    let r = extract_image(&raw, &Vec::new(), 0);
    assert_eq!(r, Err(ExtractionError::Malformed("truncated".to_string())));
}

#[test]
fn unreadable_data_of_an_ignored_segment_does_not_matter() {
    let raw = vec![RawSegment {
        p_flags: Some(7),
        address: 0,
        mem_size: 8,
        file_bytes: Err("truncated".to_string()),
    }];
    assert!(extract_image(&raw, &Vec::new(), 0).is_ok());
}

#[test]
fn extraction_reports_the_first_bad_segment() {
    let raw = vec![
        seg(5, 100, 100),
        seg(6, 10, 11),
        RawSegment { p_flags: Some(4), address: 0, mem_size: 8, file_bytes: Err("x".to_string()) },
    ];
    let r = extract_image(&raw, &Vec::new(), 0);
    assert_eq!(r, Err(ExtractionError::SizeUnderflow { mem_size: 10, file_bytes: 11 }));
}

#[test]
fn reservations_need_a_positive_size() {
    let secs = vec![sec(".stack", 256), sec(".heap", 0)];
    let info = extract_image(&Vec::new(), &secs, 0).unwrap();
    assert_eq!(info.stack_mem_size, Some(256));
    assert_eq!(info.heap_mem_size, None);
}

#[test]
fn reservation_names_match_exactly() {
    let secs = vec![sec(".stacks", 64), sec("stack", 64), sec(".Heap", 64)];
    let info = extract_image(&Vec::new(), &secs, 0).unwrap();
    assert_eq!(info.stack_mem_size, None);
    assert_eq!(info.heap_mem_size, None);
}

#[test]
fn last_duplicate_reservation_wins() {
    let secs = vec![sec(".stack", 100), sec(".stack", 200)];
    let info = extract_image(&Vec::new(), &secs, 0).unwrap();
    assert_eq!(info.stack_mem_size, Some(200));

    let secs = vec![sec(".heap", 100), sec(".heap", 0)];
    let info = extract_image(&Vec::new(), &secs, 0).unwrap();
    assert_eq!(info.heap_mem_size, None);
}

#[test]
fn error_messages_name_the_failure() {
    assert_eq!(ExtractionError::Malformed("bad magic".to_string()).message(), "bad magic");
    assert_eq!(
        ExtractionError::SizeUnderflow { mem_size: 1, file_bytes: 2 }.message(),
        "segment file size exceeds its memory size"
    );
    assert_eq!(
        ExtractionError::FootprintOverflow.message(),
        "declared segment sizes overflow a byte count"
    );
}

#[test]
fn empty_image_summarizes_to_zero() {
    let info = extract_image(&Vec::new(), &Vec::new(), 0).unwrap();
    let s = summarize(&info);
    assert_eq!(s.instruction_memory, 0);
    assert_eq!(s.data_memory_total, 0);
    assert_eq!(s.data_memory_stack, None);
    assert_eq!(s.data_memory_heap, None);
}

#[test]
fn summary_splits_instructions_from_data() {
    let raw = vec![seg(5, 100, 100), seg(6, 60, 50), seg(4, 30, 30)];
    let secs = vec![sec(".stack", 16), sec(".heap", 8)];
    let info = extract_image(&raw, &secs, 0x40).unwrap();
    let s = summarize(&info);
    assert_eq!(s.instruction_memory, 100);
    assert_eq!(s.data_memory_total, 90);
    assert_eq!(s.data_memory_stack, Some(16));
    assert_eq!(s.data_memory_heap, Some(8));
    assert_eq!(s.data_memory_dynamic(), Some(24));
    assert_eq!(s.data_memory_fixed(), 66);
    assert_eq!(s.total(), 190);
    assert_eq!(s.total_fixed(), 166);
}

#[test]
fn oversized_totals_are_refused_by_the_checked_summary() {
    let raw = vec![seg(5, u64::MAX, 0), seg(5, u64::MAX, 0)];
    let info = extract_image(&raw, &Vec::new(), 0).unwrap();
    assert!(summarize_checked(&info).is_none());

    let raw = vec![seg(5, u64::MAX, 0)];
    let info = extract_image(&raw, &Vec::new(), 0).unwrap();
    let s = summarize_checked(&info).unwrap();
    assert_eq!(s.instruction_memory, u64::MAX);
}

#[test]
fn reservations_beyond_data_are_a_reported_condition() {
    let raw = vec![seg(5, 100, 100), seg(6, 60, 50)];
    let secs = vec![sec(".stack", 256)];
    let info = extract_image(&raw, &secs, 0).unwrap();
    let s = summarize(&info);
    assert_eq!(s.instruction_memory, 100);
    assert_eq!(s.data_memory_total, 60);
    assert_eq!(s.data_memory_dynamic(), Some(256));
    assert_eq!(s.data_memory_fixed_checked(), None);
    assert!(s.limit_summary_checked(Some(1000), None, None).is_none());
}

#[test]
fn dynamic_is_absent_only_when_both_reservations_are() {
    let mk = |stack: Option<u64>, heap: Option<u64>| SizeSummary {
        instruction_memory: 0,
        data_memory_total: 1000,
        data_memory_stack: stack,
        data_memory_heap: heap,
    };
    assert_eq!(mk(None, None).data_memory_dynamic(), None);
    assert_eq!(mk(Some(3), None).data_memory_dynamic(), Some(3));
    assert_eq!(mk(None, Some(4)).data_memory_dynamic(), Some(4));
    assert_eq!(mk(Some(3), Some(4)).data_memory_dynamic(), Some(7));
    assert_eq!(mk(Some(3), Some(4)).data_memory_fixed(), 993);
    assert_eq!(mk(None, None).data_memory_fixed(), 1000);
}

#[test]
fn limit_summary_evaluates_configured_metrics_only() {
    let s = SizeSummary {
        instruction_memory: 150,
        data_memory_total: 100,
        data_memory_stack: None,
        data_memory_heap: None,
    };
    let l = s.limit_summary(None, Some(100), Some(100));
    assert_eq!(l.total_limit, None);
    assert_eq!(l.total_fixed_limit, None);
    assert_eq!(l.instruction_limit, Some(150));
    assert_eq!(l.data_limit, Some(100));
    assert_eq!(l.data_fixed_limit, Some(100));
    assert!(l.any_over_100_percent(false));
    assert!(l.any_over_100_percent(true));
}

#[test]
fn exactly_one_hundred_percent_is_not_over() {
    let s = SizeSummary {
        instruction_memory: 100,
        data_memory_total: 100,
        data_memory_stack: None,
        data_memory_heap: None,
    };
    let l = s.limit_summary(Some(200), Some(100), Some(100));
    assert_eq!(l.total_limit, Some(100));
    assert_eq!(l.instruction_limit, Some(100));
    assert!(!l.any_over_100_percent(false));

    let none = s.limit_summary(None, None, None);
    assert!(!none.any_over_100_percent(false));
    assert!(!none.any_over_100_percent(true));
}

#[test]
fn fixed_only_ignores_the_unfixed_metrics() {
    let s = SizeSummary {
        instruction_memory: 10,
        data_memory_total: 300,
        data_memory_stack: Some(250),
        data_memory_heap: None,
    };
    // data is over its budget, but the fixed part (50) is not
    let l = s.limit_summary(None, None, Some(200));
    assert_eq!(l.data_limit, Some(150));
    assert_eq!(l.data_fixed_limit, Some(25));
    assert!(l.any_over_100_percent(false));
    assert!(!l.any_over_100_percent(true));
}

#[test]
fn no_files_means_no_overages() {
    assert!(!any_file_over_limit(&Vec::new(), false));
    assert!(!any_file_over_limit(&Vec::new(), true));
}

#[test]
fn one_file_over_flags_the_batch() {
    let over = SizeSummary {
        instruction_memory: 150,
        data_memory_total: 0,
        data_memory_stack: None,
        data_memory_heap: None,
    };
    let under = SizeSummary {
        instruction_memory: 50,
        data_memory_total: 0,
        data_memory_stack: None,
        data_memory_heap: None,
    };
    let limits = vec![
        under.limit_summary(None, Some(100), None),
        over.limit_summary(None, Some(100), None),
    ];
    assert!(any_file_over_limit(&limits, false));
    let limits = vec![under.limit_summary(None, Some(100), None)];
    assert!(!any_file_over_limit(&limits, false));
}
