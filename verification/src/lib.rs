//! Read-only access to the contents of a copy-on-write virtual disk image:
//! decoding of the image header and its two-level indirection tables, a
//! seekable byte stream over the guest address space, and a parser for the
//! boot sector and the chain of extended partition records found inside it.

pub mod bootsector;
pub mod calf;
pub mod error;
pub mod format;
pub mod reader;
pub mod source;
pub mod utils;
