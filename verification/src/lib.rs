//! Codec adapters over one document shape, the byte layout that they write,
//! and the sample documents on which they are compared.

pub mod adapter;
pub mod document;
pub mod error;
pub mod frame;
pub mod layout;
pub mod parts;
pub mod rustc_and_bincode;
pub mod sample;
pub mod serde_and_bincode;

pub use crate::document::{Document, Person};
pub use crate::sample::make_sample_data;
