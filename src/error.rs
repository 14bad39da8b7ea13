use vstd::prelude::*;

verus! {

/// Every way in which one export can fail; each one ends the export.
#[derive(Debug, Clone, Copy, PartialEq, Eq, Structural)]
pub enum ExportError {
    /// More than one build event named an executable.
    MultipleArtifacts,
    /// No build event named an executable.
    NoArtifact,
    /// A symbol line for an entry point held an address that is not a
    /// hexadecimal `u64`, or whose entry address (address + 1) overflows.
    SymbolParse,
    /// An external tool could not be run, or its output could not be read.
    ExternalTool,
    /// An output file could not be written.
    Io,
}

/// The operator-facing text of each error.
pub open spec fn error_message(e: ExportError) -> Seq<char> {
    match e {
        ExportError::MultipleArtifacts => "the build produced more than one executable artifact"@,
        ExportError::NoArtifact => "the build produced no executable artifact"@,
        ExportError::SymbolParse => "a symbol address is not valid hexadecimal"@,
        ExportError::ExternalTool => "an external tool failed or its output could not be read"@,
        ExportError::Io => "an output file could not be written"@,
    }
}

impl ExportError {
    /// A short description of the error for the operator.
    pub fn message(&self) -> (r: &'static str)
        ensures
            r@ == error_message(*self),
    {
        match self {
            ExportError::MultipleArtifacts => "the build produced more than one executable artifact",
            ExportError::NoArtifact => "the build produced no executable artifact",
            ExportError::SymbolParse => "a symbol address is not valid hexadecimal",
            ExportError::ExternalTool => "an external tool failed or its output could not be read",
            ExportError::Io => "an output file could not be written",
        }
    }
}

} // verus!
