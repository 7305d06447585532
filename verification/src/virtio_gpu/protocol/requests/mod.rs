pub mod attach_backing;
pub mod blob;
pub mod capset;
pub mod context;
pub mod flush;
pub mod submit;
pub mod transfer;
