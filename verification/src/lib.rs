//! Incremental preview engine for a Markdown-to-HTML book site.
//!
//! The crate holds the decision logic of the preview pipeline: the
//! per-chapter patch registry, the rebuild classifier, the editor version
//! bookkeeping, and the path bookkeeping that ties them together. Paths are
//! modelled as `/`-separated strings; the surrounding process converts
//! `std::path` values at the boundary.

pub mod build_book;
pub mod git_ignore;
pub mod pathstr;
pub mod patch_registry;
pub mod previewing;
pub mod rebuilding;
pub mod rendering;
pub mod watch_files;
pub mod web_server;

use vstd::prelude::*;

verus! {

/// Error kinds surfaced by the preview core.
#[derive(Clone, Copy, Debug, PartialEq, Eq, Structural)]
pub enum PreviewError {
    /// The book configuration could not be loaded or updated.
    ConfigLoad,
    /// A single-chapter preprocess returned an unexpected shape.
    PreprocessorShape,
    /// A chapter path does not resolve under the source directory.
    InvalidPath,
}

} // verus!
