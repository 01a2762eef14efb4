//! The formats in which a lock can be exported.

use vstd::prelude::*;

verus! {

/// The format to use when exporting a lock.
#[derive(Debug, Clone, Copy, PartialEq, Eq, Structural)]
pub enum ExportFormat {
    /// Export in `requirements.txt` format.
    RequirementsTxt,
    /// Export in `pylock.toml` format.
    PylockToml,
    /// Export in CycloneDX 1.6 JSON format (software bill of materials).
    CycloneDx16Json,
}

impl Default for ExportFormat {
    /// The default format is `requirements.txt`.
    fn default() -> (format: ExportFormat)
        ensures
            format == ExportFormat::RequirementsTxt,
    {
        ExportFormat::RequirementsTxt
    }
}

} // verus!
