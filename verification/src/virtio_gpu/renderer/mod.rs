pub mod display;
pub mod error;
pub mod framebuffer;
pub mod renderer;
pub mod vulkan;

pub use error::RendererError;
pub use framebuffer::FrameBuffer;
pub use renderer::Renderer;
