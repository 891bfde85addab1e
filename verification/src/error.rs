//! Error types of the loader core.

use vstd::prelude::*;

use crate::pattern::PatternError;
use crate::version::LoaderVersion;

verus! {

/// A failure reported by the platform layer (window lookup, module
/// enumeration and the like), carried here as plain text.
#[derive(Debug)]
pub enum WindowsError {
    Raw(String),
    WithContext(String, String),
    Other(String),
}

impl Clone for WindowsError {
    fn clone(&self) -> (r: Self)
        ensures
            r == *self,
    {
        match self {
            WindowsError::Raw(s) => WindowsError::Raw(s.clone()),
            WindowsError::WithContext(what, s) => WindowsError::WithContext(
                what.clone(),
                s.clone(),
            ),
            WindowsError::Other(s) => WindowsError::Other(s.clone()),
        }
    }
}

/// How a memory scan can fail. A malformed pattern is distinct from a
/// pattern that is simply absent.
#[derive(Debug, Clone)]
pub enum MemoryError {
    NotFound,
    MultipleMatchesFound,
    PatternScan(PatternError),
    Windows(WindowsError),
}

/// The error type of the loader core.
#[derive(Debug, Clone)]
pub enum Error {
    /// A platform failure observed while loading or unmapping a module.
    Windows(WindowsError),
    /// A memory-scan failure.
    Memory(MemoryError),
    /// A module's initialization entry point returned this nonzero code.
    InitPlugin(i32),
    /// An extension module's initialization entry point returned this
    /// nonzero code.
    InitCoreExtension(i32),
    /// A module reported a version whose major part is nonzero and differs
    /// from the major version this runtime offers.
    IncompatiblePluginRequiredVersion(LoaderVersion),
    /// A managed name's pattern was malformed or matched nowhere in the
    /// image.
    PatternMismatch(String),
    /// The name is not in the symbol table.
    PatternUnmanaged(String),
    /// No module of that name is active, or no module file of that name
    /// exists.
    PluginNotFound(String),
    /// The module cannot be unloaded safely and stays active.
    UnloadPlugin,
}

} // verus!
