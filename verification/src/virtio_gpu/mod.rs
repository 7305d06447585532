pub mod device;
pub mod display;
pub mod features;
pub mod numeric;
pub mod protocol;
pub mod renderer;
pub mod resource;
pub mod transport;
pub mod wire;
