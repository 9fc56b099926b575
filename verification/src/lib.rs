//! A pull-based compilation environment for a document compiler: a virtual
//! file store with stable identities and memoize-once derived views, a
//! package-path cache that also memoizes failures, a per-compilation date,
//! and the raster post-processing that turns a rendered page into a
//! deliverable pixel buffer.

pub mod bytes_util;
pub mod classify;
pub mod dates;
pub mod errors;
pub mod fonts;
pub mod ident;
pub mod laws;
pub mod packages;
pub mod paths;
pub mod raster;
pub mod record;
pub mod store;
pub mod world;
