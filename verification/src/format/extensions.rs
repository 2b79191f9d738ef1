pub mod extension;
pub mod features;
