//! Build-time tooling for MRE applications and the logic of the on-device
//! diagnostics application.
//!
//! - [`bytes`]: little-endian 32-bit fields in a byte buffer.
//! - [`vxp`]: patching the tag table at the end of a `.vxp` image.
//! - [`text`]: line, field, trim and replace rules on the characters of a string.
//! - [`project`]: the package name, library name, template manifest and IMSI.
//! - [`recipe`]: the file names and command lines of a build.
//! - [`device`]: the key and system-message handling of the diagnostics application.
//! - [`layout`]: what each page of that application shows and where.

pub mod bytes;
pub mod device;
pub mod layout;
pub mod project;
pub mod recipe;
pub mod text;
pub mod vxp;
