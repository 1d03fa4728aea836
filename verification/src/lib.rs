//! Koharu's project core.
//!
//! - [`scene`], [`legacy`] and [`ordered`]: a project's scene and its edits, the
//!   frozen schema of older files with its migration, and the insertion-ordered
//!   maps that hold pages and nodes.
//! - [`wire`] and [`persistence`]: the bytes of snapshots and history frames.
//! - [`session`]: opening a project and compacting its log, step by step.
//! - [`raster`] and [`mask_fill`]: images, and filling a mask with one color.
//! - [`managed`]: rotation over a provider's API keys.
//! - [`binary`] and [`webp`]: the answers to byte-oriented HTTP requests, and the
//!   encoding of thumbnails.
//! - [`text`]: numbers in messages.

pub mod binary;
pub mod legacy;
pub mod managed;
pub mod mask_fill;
pub mod ordered;
pub mod persistence;
pub mod raster;
pub mod scene;
pub mod session;
pub mod text;
pub mod webp;
pub mod wire;
