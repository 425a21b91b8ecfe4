pub mod color;
pub mod framebuffer;
pub mod image_buffer;
pub mod integrator;
