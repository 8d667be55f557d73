//! Host-side packing and validation for versioned system-ROM images.

pub mod boot;
pub mod builder;
pub mod elf;
pub mod error;
pub mod format;
pub mod pack;
pub mod validation;

pub use boot::{BootCopy, BootPlan};
pub use builder::{ImageBuilder, ModuleInput, package};
pub use error::{ImageError, Result};
pub use format::{ImageModule, SystemImage};
