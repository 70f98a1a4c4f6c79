pub mod b1igen;
pub mod codec;
pub mod constants;
pub mod json;
pub mod sample;
pub mod satellite_loader;
