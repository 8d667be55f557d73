use vstd::prelude::*;

use crate::platform::error::PlatformError;

use object::Error as ObjectError;

verus! {

/// Declares `object::Error` so that parse failures can be carried.
#[verifier::external_type_specification]
#[verifier::external_body]
pub struct ExObjectError(ObjectError);

/// Errors from parsing ELF inputs or the system-ROM wire format.
#[derive(Debug)]
pub enum ImageError {
    Platform(PlatformError),
    Elf(ObjectError),
    InvalidElf(&'static str),
    InvalidImage(&'static str),
    RomOverflow,
}

/// Result type of the image packer.
pub type Result<T> = core::result::Result<T, ImageError>;

} // verus!
