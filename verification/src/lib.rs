//! Deterministically addressed composite assets: a Master descriptor, its
//! Layer slots, and tradable Image variants, each backed by a supply-one mint.
//!
//! Every entity lives at a program-derived address computed from a seed path,
//! and every operation re-derives the expected address and compares it
//! byte-for-byte with the address the caller supplied before touching state.
//! Address derivation is the sole authorization mechanism: there is no
//! separate permissions table. Each operation either commits whole or leaves
//! the ledger exactly as it was.

pub mod alist;
pub mod derive;
pub mod ledger;
pub mod ops;
pub mod records;
pub mod seeds;
pub mod util;

pub use derive::{derive_address, find_derived_address, verify_derived};
pub use ledger::Ledger;
pub use ops::{
    create_image, create_layer, create_master, update_master_schema, CreateImage, CreateLayer,
    CreateMaster, UpdateMasterSchema,
};
pub use records::{Data, ErrorCode, Layer, Master};
pub use seeds::MAX_SCHEMA_URI_LENGTH;
