//! Byte buffers viewed as nested records whose field layout is known at run time,
//! with byte-granular change tracking.

pub mod base_type;
pub mod dyn_layout;
pub mod update_bitmask;
pub mod dyn_struct;
pub mod tracked_dyn_struct;
pub mod spirv;
pub mod listing;
