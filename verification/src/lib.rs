//! Photo organizing core: classifies files as images by their extension and
//! resolves an authoritative capture timestamp for each image, preferring the
//! embedded metadata date and falling back to the filesystem modification time.

pub mod files;
pub mod photo;
