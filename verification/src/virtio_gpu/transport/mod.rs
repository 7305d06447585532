pub mod memory;
pub mod pci;
pub mod virtqueue;

pub use memory::{GuestAddress, GuestMemory, GuestMemoryError};
pub use virtqueue::{Descriptor, SplitVirtQueue, UsedElement, VirtQueueError};
