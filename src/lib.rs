//! A journal of entries, each one identified by its title together with the
//! identity of the signer that created it, and owned by that signer.

pub mod address;
pub mod entry;
pub mod laws;
pub mod store;
