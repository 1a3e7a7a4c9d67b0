use vstd::prelude::*;

pub mod text;
pub mod option_parser;
pub mod values;
pub mod error;
pub mod vm_config;
pub mod api;
pub mod migration;
pub mod external_fds;
pub mod fd_update;
pub mod fd_device;
pub mod fd_map;
pub mod fd;
pub mod de_ser;

verus! {

} // verus!
