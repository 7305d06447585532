pub mod physical_device;
pub mod queue;
