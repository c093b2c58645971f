//! The categories of failure, and the exit status that stands for each.

use crate::combine::CombineError;
use crate::split::SplitError;
use vstd::prelude::*;

verus! {

/// The kinds of failure that a split or a combine can end with.
#[derive(Clone, Copy, Debug, PartialEq, Eq, Structural)]
pub enum ErrorCategory {
    /// The request was refused before anything was created, written or
    /// deleted.
    Validation,
    /// The byte counts did not add up after all parts were read and written;
    /// what was written stays in place.
    Integrity,
    /// An action on the file system failed.
    Io,
}

/// The category of each error of a split.
pub open spec fn split_category(error: SplitError) -> ErrorCategory {
    match error {
        SplitError::InvalidCount => ErrorCategory::Validation,
        SplitError::PartTooSmall { .. } => ErrorCategory::Validation,
        SplitError::AlreadySplit => ErrorCategory::Validation,
        SplitError::ReadMismatch { .. } => ErrorCategory::Integrity,
        SplitError::WriteMismatch { .. } => ErrorCategory::Integrity,
        SplitError::Io { .. } => ErrorCategory::Io,
    }
}

/// The category of each error of a combine.
pub open spec fn combine_category(error: CombineError) -> ErrorCategory {
    match error {
        CombineError::DestinationExists => ErrorCategory::Validation,
        CombineError::Parts(_) => ErrorCategory::Validation,
        CombineError::Mismatch { .. } => ErrorCategory::Integrity,
        CombineError::Io { .. } => ErrorCategory::Io,
    }
}

/// The exit status of each category.
pub open spec fn exit_code_spec(category: ErrorCategory) -> u8 {
    match category {
        ErrorCategory::Validation => 1,
        ErrorCategory::Integrity => 2,
        ErrorCategory::Io => 3,
    }
}

impl SplitError {
    /// The category of this error.
    pub fn category(&self) -> (category: ErrorCategory)
        ensures
            category == split_category(*self),
    {
        match self {
            SplitError::InvalidCount => ErrorCategory::Validation,
            SplitError::PartTooSmall { .. } => ErrorCategory::Validation,
            SplitError::AlreadySplit => ErrorCategory::Validation,
            SplitError::ReadMismatch { .. } => ErrorCategory::Integrity,
            SplitError::WriteMismatch { .. } => ErrorCategory::Integrity,
            SplitError::Io { .. } => ErrorCategory::Io,
        }
    }
}

impl CombineError {
    /// The category of this error.
    pub fn category(&self) -> (category: ErrorCategory)
        ensures
            category == combine_category(*self),
    {
        match self {
            CombineError::DestinationExists => ErrorCategory::Validation,
            CombineError::Parts(_) => ErrorCategory::Validation,
            CombineError::Mismatch { .. } => ErrorCategory::Integrity,
            CombineError::Io { .. } => ErrorCategory::Io,
        }
    }
}

impl ErrorCategory {
    /// The exit status that a process ends with after a failure of this
    /// category. Success is 0.
    pub fn exit_code(&self) -> (code: u8)
        ensures
            code == exit_code_spec(*self),
    {
        match self {
            ErrorCategory::Validation => 1,
            ErrorCategory::Integrity => 2,
            ErrorCategory::Io => 3,
        }
    }
}

/// The failures of the category `Validation` are the refusals: those after
/// which the file system is as it was.
pub proof fn lemma_validation_is_refusal(split: SplitError, combine: CombineError)
    ensures
        split_category(split) == ErrorCategory::Validation <==> crate::split::refused(split),
        combine_category(combine) == ErrorCategory::Validation <==> crate::combine::refused(
            combine,
        ),
{
}

/// No failure exits with the status of success, and two categories never
/// share an exit status.
pub proof fn lemma_exit_codes_distinct(a: ErrorCategory, b: ErrorCategory)
    ensures
        exit_code_spec(a) != 0,
        exit_code_spec(a) == exit_code_spec(b) ==> a == b,
{
}

} // verus!
