use vstd::prelude::*;

pub mod admission_lanes;
pub mod audit_queue;
pub mod capture;
pub mod checkpoint;
pub mod committed_scan;
pub mod checkpoint_record;
pub mod checkpoint_requests;
pub mod control;
pub mod discovery;
pub mod file_drop;
pub mod filesystem_sync;
pub mod harvest;
pub mod journal_recovery;
pub mod keyed;
pub mod metadata_tags;
pub mod mutation;
pub mod operation_journal;
pub mod playback_history;
pub mod projection;
pub mod rating;
pub mod scan_progress;
pub mod source_groups;
pub mod text;
pub mod text_order;
pub mod waveform_title;
