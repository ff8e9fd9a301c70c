//! A fixed pool of numbered slots ("boxes") that are claimed, one file upload
//! each, and never released.
//!
//! The registry of slots, its start-up reconstruction and the per-request
//! upload protocol are verified here; serving requests and touching the disk is
//! left to the caller.

pub mod bootstrap;
pub mod registry;
pub mod slot;
pub mod text;
pub mod upload;

pub use bootstrap::{bootstrap, bootstrap_with_order};
pub use registry::{OccupyError, SlotRegistry};
pub use slot::{box_name_string, BoxStatus, CheckResponse, UploadResponse, MAX_BOXES};
pub use text::{decimal_string, parse_slot_id};
pub use upload::{
    check_box_status, stored_file_name, upload_step, UploadAction, UploadError, UploadEvent,
    UploadPhase,
};
