//! Image integrity format and boot protocol of a dual-slot firmware bootloader.
//!
//! The crate holds the checksum, the byte-exact image header, the validation of
//! an image, the boot decision engine and the host-side stamping operations.

pub mod crc32;
pub mod image_header;
pub mod validate;
pub mod boot;
pub mod text;
pub mod pattern;
pub mod signer;
