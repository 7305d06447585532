mod barrier;
pub mod split;

pub use split::{Descriptor, SplitVirtQueue, UsedElement, VirtQueueError};
