//! Static memory-footprint inspection for ELF binaries.
//!
//! The crate extracts loadable program segments and stack/heap reservation
//! sections from an ELF image, reduces them to a footprint summary
//! (instruction bytes, data bytes, fixed vs. dynamic memory), and evaluates
//! the summary against optional human-readable byte budgets.

pub mod decode;
pub mod image;
pub mod laws;
pub mod limits;
pub mod parse;
pub mod summary;

pub use decode::{read_elf_file, size_summary};
pub use image::{Addr, ElfInfo, ExtractionError, RawSection, RawSegment, Segment, SegmentType};
pub use limits::{percent, LimitSummary};
pub use parse::parse_limit;
pub use summary::SizeSummary;
