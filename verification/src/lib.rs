//! Recovery of the trainer definition that a packed executable carries in its
//! resource directory: the container format, the byte obfuscation and the
//! steps that lead from the resources to the definition.

pub mod cearchive;
pub mod codec;
pub mod decompress;
pub mod errors;
pub mod image;
pub mod layout;
pub mod pipeline;
pub mod resources;
pub mod text;
pub mod wire;
