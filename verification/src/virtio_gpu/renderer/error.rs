use vstd::prelude::*;

verus! {

#[derive(Debug, Clone, Copy, PartialEq, Eq)]
pub enum RendererError {
    UploadFailed,
    TransferFailed,
    FlushFailed,
    InvalidResource,
}

} // verus!
