# rust_virtio_gpu

A VirtIO-GPU device model whose core is verified with Verus.

- `src/virtio_gpu/protocol` — the control-queue wire format: headers, requests
  and responses, each with a little-endian encoder/decoder whose contract is
  stated over the byte sequence, and round-trip lemmas.
- `src/virtio_gpu/transport` — guest memory, the split virtqueue (descriptor
  table, available and used rings, chain allocation and release) and the
  modern VirtIO PCI transport (BARs, capabilities, the common configuration
  registers, per-queue state, device configuration space). The transport's
  behaviour is given by an abstract state (`TransportState`, `QueueView`) and
  spec functions of it; the laws (write-then-read, reset, queue reselection,
  ring FIFO order, chain round trip) are proof functions beside the code.
- `src/virtio_gpu/device.rs`, `features.rs` — feature negotiation and the
  device status register.
- `src/virtio_gpu/resource.rs` — resources and the table that holds them.
- `src/virtio_gpu/renderer` — the software framebuffer, its conversion to
  window pixels, and the choice of Vulkan physical device and queue family
  over plain values.
- `app/` — the program: the Vulkan objects (through `ash`), the window
  (through `minifb`) and the error types with their messages.
- `tests/` — the tests, run against the compiled library.
