//! Change detection and reconciliation for a library of desktop backgrounds.
//!
//! Each background record is derived from an original image that lives in an
//! external, mutable source (today: a folder of image files). The library
//! detects what changed in a source since the last synchronization, classifies
//! each change, resolves a batch of changes against a decision cache, and
//! plans a content-addressed export of the cropped images.

pub mod background;
pub mod export;
pub mod geometry;
pub mod hashing;
pub mod imaging;
pub mod keys;
pub mod persist;
pub mod reconcile;
pub mod set;
pub mod sources;
