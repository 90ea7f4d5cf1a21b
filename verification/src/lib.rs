//! Bundle the source of a multi-file cargo package into a single source file.
//!
//! The package keeps its normal layout on disk; the bundler walks the module
//! declaration graph from the entry file, inlines every declared sub-module
//! inside a `pub mod` wrapper, rewrites imports that refer to the package's
//! own namespace, and optionally strips surrounding whitespace from each line.
//!
//! The engine works on plain lines of bytes handed to it by the caller, so the
//! whole expansion is verified; reading files and writing the result belong to
//! the caller.

pub mod bundler;
pub mod classify;
pub mod laws;
pub mod model;
pub mod table;
pub mod text;

pub use bundler::Bundler;
pub use classify::LineKind;
pub use classify::classify;
pub use model::BundleError;
pub use table::FileTable;
pub use table::SourceFile;
pub use text::emit_line;
