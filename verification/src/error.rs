//! The assembler's error taxonomy. Every stage fails fast: the first
//! violation aborts the pipeline, and the error carries the offending
//! text or label so the caller can report it.
use vstd::prelude::*;

verus! {

/// An error of the assembly pipeline, with the offending literal, label,
/// or mnemonic as its payload.
#[derive(Debug, Clone)]
pub enum AsmError {
    /// A malformed line, literal, or quoted value.
    Syntax(String),
    /// A data directive whose command word is not recognised.
    UnknownDataCommand(String),
    /// An instruction whose mnemonic is not recognised.
    UnknownMnemonic(String),
    /// A reference to a label that no declaration introduces.
    UnknownLabel(String),
    /// A data label standing where only an instruction label may.
    InvalidLabelUsage(String),
    /// A register index outside the bit width of its slot.
    RegisterRange(String),
    /// An immediate or displacement outside the range of its field.
    ImmediateRange(String),
}

/// The mathematical shape of an [`AsmError`]: the same variants over
/// character sequences.
pub enum ErrV {
    Syntax(Seq<char>),
    UnknownDataCommand(Seq<char>),
    UnknownMnemonic(Seq<char>),
    UnknownLabel(Seq<char>),
    InvalidLabelUsage(Seq<char>),
    RegisterRange(Seq<char>),
    ImmediateRange(Seq<char>),
}

pub open spec fn err_model(e: AsmError) -> ErrV {
    match e {
        AsmError::Syntax(s) => ErrV::Syntax(s@),
        AsmError::UnknownDataCommand(s) => ErrV::UnknownDataCommand(s@),
        AsmError::UnknownMnemonic(s) => ErrV::UnknownMnemonic(s@),
        AsmError::UnknownLabel(s) => ErrV::UnknownLabel(s@),
        AsmError::InvalidLabelUsage(s) => ErrV::InvalidLabelUsage(s@),
        AsmError::RegisterRange(s) => ErrV::RegisterRange(s@),
        AsmError::ImmediateRange(s) => ErrV::ImmediateRange(s@),
    }
}

} // verus!
