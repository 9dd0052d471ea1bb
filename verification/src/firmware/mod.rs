//! Firmware images: headers, flash layouts, validity and synthesis.

pub mod flash_layout;
pub mod guard;
pub mod inspect;
pub mod synthesize;
pub mod validate;
