//! Checks of migration parameters and the locations of snapshots.
pub mod transport;
pub mod tls;
pub mod config;
pub mod locations;

pub use crate::api::vm_migration::{MigrationMode, TimeoutStrategy};
pub use config::{
    VmReceiveMigrationData, VmReceiveMigrationDataValidationError, VmSendMigrationConfigError,
    VmSendMigrationData,
};
pub use locations::{get_vm_snapshot, url_to_file, url_to_path, MigratableError};
