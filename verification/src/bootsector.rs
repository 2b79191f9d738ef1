pub mod boot;
pub mod mbr;
