use vstd::prelude::*;

verus! {

/// Every failure a save-file operation can report.
#[derive(Debug, Clone, PartialEq, Eq)]
pub enum PkError {
    /// The save image could not be loaded; the payload says why.
    Load(PkErrorLoad),
    /// A decoded field has no valid mapping; the payload names the field.
    InvalidData(&'static str),
    /// The requested field does not exist for the loaded game version.
    NotAvailableInGameVersion(&'static str),
    /// A structural failure with no richer classification.
    Msg(&'static str),
    /// An underlying read or write failed; the payload carries its description.
    Io(String),
}

/// The reasons loading a save image can fail.
#[derive(Debug, Clone, Copy, PartialEq, Eq)]
pub enum PkErrorLoad {
    SaveFileTooSmall { expected_size: usize, received_size: usize },
    InvalidChecksum { section_id: u16, expected: u16, found: u16 },
    InvalidSignature { section_id: u16, expected: u32, found: u32 },
    MissingSection(&'static str),
    InvalidSectionId(u16),
    MissmatchedSaveFileIndex(u32, u32),
}

} // verus!
