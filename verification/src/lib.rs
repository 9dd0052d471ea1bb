//! Flashing logic for LSI SAS2008-family host bus adapters.

pub mod bytes;
pub mod card;
pub mod card_database;
pub mod cli;
pub mod digest;
pub mod error;
pub mod firmware;
pub mod hcb;
pub mod hw;
pub mod mpi;
pub mod sbr;
pub mod text;

pub use card::{discover, discover_one, CardError, CardIdentity, ChipFamily};
pub use cli::{run, Cli};
pub use error::Error;
