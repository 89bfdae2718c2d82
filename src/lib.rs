//! Boot-time pipeline of a small chain-loader: boot descriptor, partition
//! lookup, kernel path conversion and ELF segment placement.

pub mod config;
pub mod guid;
pub mod kernel;
pub mod partition;
pub mod path;

pub use guid::Guid;
pub use config::{BootConfig, ConfigError, FileSystemType};
pub use kernel::{load_kernel, ElfError, PhysicalMemory, ProgramHeader};
pub use partition::find_partition;
pub use path::FileError;
