//! Hex-dump layout and line formatting.

pub mod document;
pub mod error;
pub mod hex;
pub mod hexi;
pub mod layout;
pub mod options;
pub mod sections;
