//! Frame lifecycle and resource bookkeeping for a small Vulkan renderer.
//!
//! The library holds the decisions of the renderer: which queue families to
//! use, how frames cycle through their synchronisation slots, how textures
//! are registered and bound, and who owns each GPU allocation. The driver
//! calls themselves are made by the application around it.
pub mod buffer;
pub mod debug;
pub mod error;
pub mod frames;
pub mod gpu;
pub mod image;
pub mod mesh;
pub mod queues;
pub mod texture;
