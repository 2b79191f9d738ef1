pub mod bytes;
pub mod encoding;
pub mod read;
pub mod strings;
pub mod vecs;
