pub mod commands;
pub mod config;
pub mod formats;
pub mod header;
pub mod requests;
pub mod responses;

pub use commands::{
    CAPSET_VENUS, CMD_CTX_ATTACH_RESOURCE, CMD_CTX_CREATE, CMD_CTX_DESTROY,
    CMD_CTX_DETACH_RESOURCE, CMD_GET_CAPSET, CMD_GET_CAPSET_INFO, CMD_RESOURCE_CREATE_BLOB,
    CMD_RESOURCE_MAP_BLOB, CMD_RESOURCE_UNMAP_BLOB, CMD_SUBMIT_3D,
};
pub use header::CtrlHeader;
