//! The errors of the library.

use vstd::prelude::*;

use crate::record::Record;

verus! {

/// What went wrong, by kind.
#[derive(Clone, Copy, Debug, PartialEq, Eq, Structural)]
pub enum ErrorCode {
    InvalidInput,
    SliceBudgetExceeded,
    StateCorrupt,
    Internal,
    BindingChanged,
    PreconditionFailed,
    ProjectModelChanged,
    WorkerProtocolMismatch,
    EffectChanged,
    AbiChanged,
    WritesetExceeded,
    WwConflict,
    StaleTarget,
    AmbiguousTarget,
    StaleRequiresReslice,
    TransactionRecoveryRequired,
    RefCompareAndSwapFailed,
    IncompleteSemanticAnalysis,
    ReplacementParseError,
    UnsupportedProjectConfiguration,
    CompileFailed,
    TestFailed,
}

/// An error, with what it rests on.
#[derive(Debug, PartialEq, Eq)]
pub struct ClewError {
    pub code: ErrorCode,
    pub message: String,
    pub retryable: bool,
    pub evidence: Vec<String>,
}

/// What an error says.
pub struct ErrorModel {
    pub code: ErrorCode,
    pub message: Seq<char>,
    pub retryable: bool,
    pub evidence: Seq<Seq<char>>,
}

impl DeepView for ClewError {
    type V = ErrorModel;

    open spec fn deep_view(&self) -> ErrorModel {
        ErrorModel {
            code: self.code,
            message: self.message.deep_view(),
            retryable: self.retryable,
            evidence: self.evidence.deep_view(),
        }
    }
}

/// The error that is no more than a code and a message.
pub open spec fn failure(code: ErrorCode, message: Seq<char>) -> ErrorModel {
    ErrorModel { code, message, retryable: false, evidence: Seq::empty() }
}

/// What a fallible function returned.
pub open spec fn outcome<T: DeepView>(r: Result<T, ClewError>) -> Result<
    <T as DeepView>::V,
    ErrorModel,
> {
    match r {
        Ok(v) => Ok(v.deep_view()),
        Err(e) => Err(e.deep_view()),
    }
}

/// The refusal of an input.
pub open spec fn refused<T>(message: Seq<char>) -> Result<T, ErrorModel> {
    Err(failure(ErrorCode::InvalidInput, message))
}

/// The report of retained state that contradicts itself.
pub open spec fn corrupted<T>(message: Seq<char>) -> Result<T, ErrorModel> {
    Err(failure(ErrorCode::StateCorrupt, message))
}

/// The report of a bound that does not hold.
pub open spec fn exceeded<T>(message: Seq<char>) -> Result<T, ErrorModel> {
    Err(failure(ErrorCode::SliceBudgetExceeded, message))
}

impl ClewError {
    /// The error that is no more than a code and a message.
    pub fn new(code: ErrorCode, message: &str) -> (r: ClewError)
        ensures
            r.deep_view() == failure(code, message@),
    {
        let evidence: Vec<String> = Vec::new();
        let r = ClewError { code, message: message.to_owned(), retryable: false, evidence };
        assert(r.evidence.deep_view() =~= Seq::empty());
        r
    }
}

impl ClewError {
    /// Another error that says the same.
    pub fn copied(&self) -> (r: ClewError)
        ensures
            r.deep_view() == self.deep_view(),
    {
        ClewError {
            code: self.code,
            message: self.message.clone(),
            retryable: self.retryable,
            evidence: self.evidence.copied(),
        }
    }
}

/// The outcome of a check that was made elsewhere, from what it refused, if anything.
pub open spec fn accepted(refusal: Option<ErrorModel>) -> Result<(), ErrorModel> {
    match refusal {
        Some(e) => Err(e),
        None => Ok(()),
    }
}

/// The outcome of a check that was made elsewhere.
pub fn accept(refusal: &Option<ClewError>) -> (r: Result<(), ClewError>)
    ensures
        outcome(r) == accepted(refusal.deep_view()),
{
    match refusal {
        Some(e) => Err(e.copied()),
        None => Ok(()),
    }
}

/// The refusal of an input.
pub fn invalid(message: &str) -> (r: ClewError)
    ensures
        r.deep_view() == failure(ErrorCode::InvalidInput, message@),
{
    ClewError::new(ErrorCode::InvalidInput, message)
}

/// The report of retained state that contradicts itself.
pub fn corrupt(message: &str) -> (r: ClewError)
    ensures
        r.deep_view() == failure(ErrorCode::StateCorrupt, message@),
{
    ClewError::new(ErrorCode::StateCorrupt, message)
}

/// The report of a bound that does not hold.
pub fn budget(message: &str) -> (r: ClewError)
    ensures
        r.deep_view() == failure(ErrorCode::SliceBudgetExceeded, message@),
{
    ClewError::new(ErrorCode::SliceBudgetExceeded, message)
}

} // verus!
