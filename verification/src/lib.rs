//! Forensic analysis of the NTFS update sequence number (USN) change journal
//! and the master file table: binary record parsing, path reconstruction and
//! anti-forensics detection.

pub mod bytes;
pub mod text;
pub mod journal;
pub mod usn_record;
pub mod mft;
pub mod mft_stream;
pub mod volume;
pub mod rewind;
pub mod search;
pub mod worker;
pub mod reporting;
pub mod unallocated;
pub mod ui;
pub mod antiforensics;
