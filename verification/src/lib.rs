//! A hostname resolver for operator-chosen pseudo top-level domains.
//!
//! A name whose last label is one of the configured domains (by default only
//! `test`) resolves to the loopback address of the requested family; every
//! other name is reported as not found, so that the caller can go on to its
//! other sources. Reverse lookup is not offered.

pub mod status;
pub mod matcher;
pub mod address;
pub mod marshal;
pub mod lookup;
pub mod laws;
