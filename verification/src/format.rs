pub mod cluster;
pub mod extensions;
pub mod header;
pub mod level;
