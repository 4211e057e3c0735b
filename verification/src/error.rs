//! The ways in which an extract can fail.

use vstd::prelude::*;

verus! {

/// Why a run, or the extract of one sheet, failed.
#[derive(Debug, Clone, Copy, PartialEq, Eq, Structural)]
pub enum ExportError {
    /// The command line or the sheet filter is unusable.
    Config,
    /// No schema document exists for the sheet.
    SchemaMissing,
    /// The schema document does not describe a field tree.
    SchemaMalformed,
    /// The sheet could not be opened.
    SheetOpen,
    /// A row or a field of the sheet could not be decoded.
    SheetDecode,
    /// The extract could not be written.
    Write,
    /// A field that needs a name has neither a pending nor a current one.
    NameMissing,
}

impl ExportError {
    /// Whether the failure ends the whole run; every other failure costs one
    /// sheet only.
    pub open spec fn fatal(self) -> bool {
        self == ExportError::Config
    }

    /// Whether the failure ends the whole run.
    pub fn is_fatal(&self) -> (fatal: bool)
        ensures
            fatal == self.fatal(),
    {
        match self {
            ExportError::Config => true,
            _ => false,
        }
    }

    /// The words that describe the failure.
    pub open spec fn words(self) -> Seq<char> {
        match self {
            ExportError::Config => "Could not read config"@,
            ExportError::SchemaMissing => "Could not find schema"@,
            ExportError::SchemaMalformed => "Failed to parse schema"@,
            ExportError::SheetOpen => "Could not open sheet"@,
            ExportError::SheetDecode => "Could not decode sheet"@,
            ExportError::Write => "Could not write extract"@,
            ExportError::NameMissing => "Schema must provide a name for all fields."@,
        }
    }

    /// Describes the failure in words.
    pub fn message(&self) -> (text: &'static str)
        ensures
            text@ == self.words(),
    {
        match self {
            ExportError::Config => "Could not read config",
            ExportError::SchemaMissing => "Could not find schema",
            ExportError::SchemaMalformed => "Failed to parse schema",
            ExportError::SheetOpen => "Could not open sheet",
            ExportError::SheetDecode => "Could not decode sheet",
            ExportError::Write => "Could not write extract",
            ExportError::NameMissing => "Schema must provide a name for all fields.",
        }
    }
}

/// The line that reports a sheet whose extract failed:
/// `Failed to export <sheet>. <reason>`.
pub open spec fn failure_line_of(sheet_name: Seq<char>, reason: Seq<char>) -> Seq<char> {
    "Failed to export "@ + sheet_name + ". "@ + reason
}

/// Returns the line that reports a sheet whose extract failed.
pub fn failure_line(sheet_name: &str, reason: &str) -> (line: String)
    ensures
        line@ == failure_line_of(sheet_name@, reason@),
{
    let mut line = String::from_str("Failed to export ");
    line.append(sheet_name);
    line.append(". ");
    line.append(reason);
    line
}

} // verus!
