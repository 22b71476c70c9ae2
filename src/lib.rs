//! A compiler core for GAL programmable logic devices: lowering of boolean
//! equations into per-macrocell configurations, and the fixed-width text
//! reports that describe a finished fuse map.

pub mod blueprint;
pub mod chips;
pub mod errors;
pub mod gal;
pub mod laws;
pub mod parser;
pub mod writer;
