//! The failures the engine reports, and the class each belongs to.

use vstd::prelude::*;

verus! {

/// How a failure is to be treated by a caller.
#[derive(Clone, Copy, Debug, PartialEq, Eq, Structural)]
pub enum ErrorClass {
    /// Bad paths, empty required fields, malformed file names.
    Input,
    /// Misuse of the builder sequence.
    Chain,
    /// The asset or its history does not match its signed record.
    Trust,
    /// A signer or embedder failure, passed on as reported.
    Collaborator,
    /// The asset carries no provenance at all; a valid state, not a fault.
    NoProvenance,
}

/// What an outside signer or embedder reported.
#[derive(Clone, Copy, Debug, PartialEq, Eq, Structural)]
pub enum SigningFailure {
    KeyUnavailable,
    UnsupportedAlgorithm,
    UnsupportedContainer,
    CorruptSource,
    EmbedRejected,
}

/// A collaborator failure together with the detail the collaborator gave.
#[derive(Debug, PartialEq, Eq)]
pub struct SigningError {
    pub failure: SigningFailure,
    pub detail: String,
}

pub struct SigningErrorView {
    pub failure: SigningFailure,
    pub detail: Seq<char>,
}

impl View for SigningError {
    type V = SigningErrorView;

    open spec fn view(&self) -> SigningErrorView {
        SigningErrorView { failure: self.failure, detail: self.detail@ }
    }
}

impl DeepView for SigningError {
    type V = SigningErrorView;

    open spec fn deep_view(&self) -> SigningErrorView {
        self@
    }
}

impl Clone for SigningError {
    fn clone(&self) -> (r: Self)
        ensures
            r@ == self@,
    {
        SigningError { failure: self.failure, detail: self.detail.clone() }
    }
}

impl SigningError {
    pub fn new(failure: SigningFailure, detail: &str) -> (r: SigningError)
        ensures
            r@ == (SigningErrorView { failure, detail: detail@ }),
    {
        SigningError { failure, detail: detail.to_owned() }
    }
}

/// One piece of evidence that a loaded store does not match its signed
/// record: a status code and the label of the assertion it concerns.
#[derive(Debug, PartialEq, Eq)]
pub struct ValidationStatus {
    pub code: String,
    pub assertion_label: String,
}

pub struct ValidationStatusView {
    pub code: Seq<char>,
    pub assertion_label: Seq<char>,
}

impl View for ValidationStatus {
    type V = ValidationStatusView;

    open spec fn view(&self) -> ValidationStatusView {
        ValidationStatusView { code: self.code@, assertion_label: self.assertion_label@ }
    }
}

impl DeepView for ValidationStatus {
    type V = ValidationStatusView;

    open spec fn deep_view(&self) -> ValidationStatusView {
        self@
    }
}

impl Clone for ValidationStatus {
    fn clone(&self) -> (r: Self)
        ensures
            r@ == self@,
    {
        ValidationStatus { code: self.code.clone(), assertion_label: self.assertion_label.clone() }
    }
}

impl ValidationStatus {
    pub fn new(code: &str, assertion_label: &str) -> (r: ValidationStatus)
        ensures
            r@ == (ValidationStatusView { code: code@, assertion_label: assertion_label@ }),
    {
        ValidationStatus { code: code.to_owned(), assertion_label: assertion_label.to_owned() }
    }

    /// Whether two statuses name the same code for the same assertion.
    pub fn same_as(&self, other: &ValidationStatus) -> (r: bool)
        ensures
            r == (self@ == other@),
    {
        self.code == other.code && self.assertion_label == other.assertion_label
    }
}

/// Copies a list of statuses.
pub fn clone_statuses(list: &Vec<ValidationStatus>) -> (r: Vec<ValidationStatus>)
    ensures
        r.deep_view() == list.deep_view(),
{
    let mut out: Vec<ValidationStatus> = Vec::new();
    let mut i: usize = 0;
    while i < list.len()
        invariant
            i <= list.len(),
            out.len() == i,
            forall|j: int| 0 <= j < i ==> out[j]@ == list[j]@,
        decreases list.len() - i,
    {
        out.push(list[i].clone());
        i = i + 1;
    }
    out
}

/// Every failure the engine can report.
#[derive(Debug, PartialEq, Eq)]
pub enum EngineError {
    /// A builder was handed a field it must refuse.
    InvalidParameter,
    /// A source path has no recognizable extension to derive a name from.
    InvalidFilename,
    /// A required field was left empty.
    EmptyField,
    /// The model named is not one the engine generates or edits with.
    UnsupportedModel,
    /// The source asset could not be opened.
    SourceUnreadable,
    /// An edit was asked for on an asset without a prior manifest.
    NoParentToLink,
    /// A manifest was built without any action.
    EmptyManifest,
    /// A label that is taken in the manifest, or a label or an instance
    /// identifier that is taken in the store, was used again.
    DuplicateLabel,
    /// The statuses found when the store was validated; never empty.
    Untrusted(Vec<ValidationStatus>),
    /// A signer or embedder failure.
    Collaborator(SigningError),
    /// The asset carries no manifest store.
    NoManifestPresent,
}

pub enum EngineErrorView {
    InvalidParameter,
    InvalidFilename,
    EmptyField,
    UnsupportedModel,
    SourceUnreadable,
    NoParentToLink,
    EmptyManifest,
    DuplicateLabel,
    Untrusted(Seq<ValidationStatusView>),
    Collaborator(SigningErrorView),
    NoManifestPresent,
}

impl EngineErrorView {
    /// The class of a failure.
    pub open spec fn class(self) -> ErrorClass {
        match self {
            EngineErrorView::InvalidParameter => ErrorClass::Input,
            EngineErrorView::InvalidFilename => ErrorClass::Input,
            EngineErrorView::EmptyField => ErrorClass::Input,
            EngineErrorView::UnsupportedModel => ErrorClass::Input,
            EngineErrorView::SourceUnreadable => ErrorClass::Input,
            EngineErrorView::NoParentToLink => ErrorClass::Chain,
            EngineErrorView::EmptyManifest => ErrorClass::Chain,
            EngineErrorView::DuplicateLabel => ErrorClass::Chain,
            EngineErrorView::Untrusted(_) => ErrorClass::Trust,
            EngineErrorView::Collaborator(_) => ErrorClass::Collaborator,
            EngineErrorView::NoManifestPresent => ErrorClass::NoProvenance,
        }
    }
}

impl View for EngineError {
    type V = EngineErrorView;

    open spec fn view(&self) -> EngineErrorView {
        match self {
            EngineError::InvalidParameter => EngineErrorView::InvalidParameter,
            EngineError::InvalidFilename => EngineErrorView::InvalidFilename,
            EngineError::EmptyField => EngineErrorView::EmptyField,
            EngineError::UnsupportedModel => EngineErrorView::UnsupportedModel,
            EngineError::SourceUnreadable => EngineErrorView::SourceUnreadable,
            EngineError::NoParentToLink => EngineErrorView::NoParentToLink,
            EngineError::EmptyManifest => EngineErrorView::EmptyManifest,
            EngineError::DuplicateLabel => EngineErrorView::DuplicateLabel,
            EngineError::Untrusted(list) => EngineErrorView::Untrusted(list.deep_view()),
            EngineError::Collaborator(e) => EngineErrorView::Collaborator(e@),
            EngineError::NoManifestPresent => EngineErrorView::NoManifestPresent,
        }
    }
}

impl DeepView for EngineError {
    type V = EngineErrorView;

    open spec fn deep_view(&self) -> EngineErrorView {
        self@
    }
}

impl EngineError {
    /// The class of this failure.
    pub fn class(&self) -> (r: ErrorClass)
        ensures
            r == self@.class(),
    {
        match self {
            EngineError::InvalidParameter => ErrorClass::Input,
            EngineError::InvalidFilename => ErrorClass::Input,
            EngineError::EmptyField => ErrorClass::Input,
            EngineError::UnsupportedModel => ErrorClass::Input,
            EngineError::SourceUnreadable => ErrorClass::Input,
            EngineError::NoParentToLink => ErrorClass::Chain,
            EngineError::EmptyManifest => ErrorClass::Chain,
            EngineError::DuplicateLabel => ErrorClass::Chain,
            EngineError::Untrusted(_) => ErrorClass::Trust,
            EngineError::Collaborator(_) => ErrorClass::Collaborator,
            EngineError::NoManifestPresent => ErrorClass::NoProvenance,
        }
    }

    /// Whether the current operation must be abandoned. Every failure but
    /// the absence of provenance is fatal; none is retried.
    pub fn is_fatal(&self) -> (r: bool)
        ensures
            r == (self@.class() != ErrorClass::NoProvenance),
    {
        match self {
            EngineError::NoManifestPresent => false,
            _ => true,
        }
    }
}

} // verus!
