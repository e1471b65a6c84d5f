//! Errors of reflection, and the outcome of an operation in the model.
use vstd::prelude::*;
use crate::module::{Instruction, InstructionView, OperandKind};

verus! {

/// A failure of reflection. Variants that name an offending instruction carry a copy of it.
#[derive(Debug)]
pub enum ReflectError {
    MissingBindingDecoration(Instruction),
    MissingSetDecoration(Instruction),
    /// The operand at the position exists but is of another kind.
    OperandError(Instruction, OperandKind, usize),
    /// The position is past the last operand; the last field is the operand count.
    OperandIndexError(Instruction, OperandKind, usize, usize),
    VariableWithoutReturnType(Instruction),
    UnknownStorageClass(u32),
    UnknownStruct(Instruction),
    ImageSampledFieldUnknown(Instruction, u32),
    UnhandledTypeInstruction(Instruction),
    MissingResultId(Instruction),
    UnassignedResultId(u32),
    MissingHeader,
    BindingGlobalParameterBuffer,
    TooManyPushConstants,
    ParseError,
    UnexpectedIntWidth(u32),
    TryFromIntError,
}

pub enum ReflectErrorView {
    MissingBindingDecoration(InstructionView),
    MissingSetDecoration(InstructionView),
    OperandError(InstructionView, OperandKind, usize),
    OperandIndexError(InstructionView, OperandKind, usize, usize),
    VariableWithoutReturnType(InstructionView),
    UnknownStorageClass(u32),
    UnknownStruct(InstructionView),
    ImageSampledFieldUnknown(InstructionView, u32),
    UnhandledTypeInstruction(InstructionView),
    MissingResultId(InstructionView),
    UnassignedResultId(u32),
    MissingHeader,
    BindingGlobalParameterBuffer,
    TooManyPushConstants,
    ParseError,
    UnexpectedIntWidth(u32),
    TryFromIntError,
}

impl View for ReflectError {
    type V = ReflectErrorView;

    open spec fn view(&self) -> ReflectErrorView {
        match self {
            ReflectError::MissingBindingDecoration(i) => ReflectErrorView::MissingBindingDecoration(i@),
            ReflectError::MissingSetDecoration(i) => ReflectErrorView::MissingSetDecoration(i@),
            ReflectError::OperandError(i, k, n) => ReflectErrorView::OperandError(i@, *k, *n),
            ReflectError::OperandIndexError(i, k, n, l) => ReflectErrorView::OperandIndexError(i@, *k, *n, *l),
            ReflectError::VariableWithoutReturnType(i) => ReflectErrorView::VariableWithoutReturnType(i@),
            ReflectError::UnknownStorageClass(c) => ReflectErrorView::UnknownStorageClass(*c),
            ReflectError::UnknownStruct(i) => ReflectErrorView::UnknownStruct(i@),
            ReflectError::ImageSampledFieldUnknown(i, v) => ReflectErrorView::ImageSampledFieldUnknown(i@, *v),
            ReflectError::UnhandledTypeInstruction(i) => ReflectErrorView::UnhandledTypeInstruction(i@),
            ReflectError::MissingResultId(i) => ReflectErrorView::MissingResultId(i@),
            ReflectError::UnassignedResultId(id) => ReflectErrorView::UnassignedResultId(*id),
            ReflectError::MissingHeader => ReflectErrorView::MissingHeader,
            ReflectError::BindingGlobalParameterBuffer => ReflectErrorView::BindingGlobalParameterBuffer,
            ReflectError::TooManyPushConstants => ReflectErrorView::TooManyPushConstants,
            ReflectError::ParseError => ReflectErrorView::ParseError,
            ReflectError::UnexpectedIntWidth(w) => ReflectErrorView::UnexpectedIntWidth(*w),
            ReflectError::TryFromIntError => ReflectErrorView::TryFromIntError,
        }
    }
}

/// What an operation does on a module: return a value, fail with an error, or abort. An abort
/// stands for an assertion on the shader that a well-formed module never violates (such as two
/// variables bound to one slot); the executable operations exclude those inputs.
pub enum Outcome<T> {
    Done(T),
    Failed(ReflectErrorView),
    Aborted,
}

/// What an executable operation did: the executable counterpart of `Outcome`.
pub enum Reflected<T> {
    Done(T),
    Failed(ReflectError),
    Aborted,
}

/// The outcome that a `Reflected` of a plain value reports.
pub open spec fn reflected_outcome<T>(r: Reflected<T>) -> Outcome<T> {
    match r {
        Reflected::Done(v) => Outcome::Done(v),
        Reflected::Failed(e) => Outcome::Failed(e@),
        Reflected::Aborted => Outcome::Aborted,
    }
}

/// A `Result` of an executable operation with its error replaced by the error's view.
pub open spec fn result_view<T>(r: Result<T, ReflectError>) -> Result<T, ReflectErrorView> {
    match r {
        Ok(v) => Ok(v),
        Err(e) => Err(e@),
    }
}

/// The outcome that an executable `Result` reports.
pub open spec fn outcome_of<T>(r: Result<T, ReflectError>) -> Outcome<T> {
    match r {
        Ok(v) => Outcome::Done(v),
        Err(e) => Outcome::Failed(e@),
    }
}

} // verus!
