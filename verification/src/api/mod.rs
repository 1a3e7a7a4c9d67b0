//! Requests and replies of the VMM's API.
pub mod vm_migration;
pub mod vm_restore;
pub mod requests;
