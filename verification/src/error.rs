//! What can stop a run, by the stage that failed.

use vstd::prelude::*;
use vstd::string::StringExecFns;

verus! {

/// A fault in the input configuration.
#[derive(Clone, Debug, PartialEq, Eq)]
pub enum InputError {
    /// The configuration is not a document that can be read; the cause is given.
    Malformed(String),
    /// The configuration lacks the field of this name.
    MissingField(String),
}

/// Why a run was given up. Every stage fails fast: the first error ends the run,
/// and nothing is written.
#[derive(Clone, Debug, PartialEq, Eq)]
pub enum PipelineError {
    /// The configuration is malformed or incomplete.
    Input(InputError),
    /// A placeholder could not be resolved. No stage reports this yet: leftover
    /// placeholders are found by the compiler.
    Template(String),
    /// The policy cannot be turned into a condition tree; the cause is given.
    Compilation(String),
    /// The ledger could not be reached or refused the request; the cause is given.
    Network(String),
    /// The output could not be written; the cause is given.
    Serialization(String),
}

/// The mathematical value of an [`InputError`].
pub ghost enum InputErrorView {
    Malformed(Seq<char>),
    MissingField(Seq<char>),
}

impl View for InputError {
    type V = InputErrorView;

    open spec fn view(&self) -> InputErrorView {
        match *self {
            InputError::Malformed(cause) => InputErrorView::Malformed(cause@),
            InputError::MissingField(name) => InputErrorView::MissingField(name@),
        }
    }
}

/// The mathematical value of a [`PipelineError`].
pub ghost enum PipelineErrorView {
    Input(InputErrorView),
    Template(Seq<char>),
    Compilation(Seq<char>),
    Network(Seq<char>),
    Serialization(Seq<char>),
}

impl View for PipelineError {
    type V = PipelineErrorView;

    open spec fn view(&self) -> PipelineErrorView {
        match *self {
            PipelineError::Input(fault) => PipelineErrorView::Input(fault@),
            PipelineError::Template(cause) => PipelineErrorView::Template(cause@),
            PipelineError::Compilation(cause) => PipelineErrorView::Compilation(cause@),
            PipelineError::Network(cause) => PipelineErrorView::Network(cause@),
            PipelineError::Serialization(cause) => PipelineErrorView::Serialization(cause@),
        }
    }
}

impl InputErrorView {
    /// The cause as a reader sees it.
    pub open spec fn cause(self) -> Seq<char> {
        match self {
            InputErrorView::Malformed(cause) => "malformed configuration: "@ + cause,
            InputErrorView::MissingField(name) => "missing field: "@ + name,
        }
    }
}

impl PipelineErrorView {
    /// The name of the stage that failed.
    pub open spec fn stage(self) -> Seq<char> {
        match self {
            PipelineErrorView::Input(_) => "input"@,
            PipelineErrorView::Template(_) => "template"@,
            PipelineErrorView::Compilation(_) => "compilation"@,
            PipelineErrorView::Network(_) => "network"@,
            PipelineErrorView::Serialization(_) => "serialization"@,
        }
    }

    /// The underlying cause.
    pub open spec fn cause(self) -> Seq<char> {
        match self {
            PipelineErrorView::Input(fault) => fault.cause(),
            PipelineErrorView::Template(cause) => cause,
            PipelineErrorView::Compilation(cause) => cause,
            PipelineErrorView::Network(cause) => cause,
            PipelineErrorView::Serialization(cause) => cause,
        }
    }

    /// The message for the user: the failing stage, then the cause.
    pub open spec fn message(self) -> Seq<char> {
        self.stage() + ": "@ + self.cause()
    }
}

impl InputError {
    /// The cause as a reader sees it.
    pub fn cause(&self) -> (text: String)
        ensures
            text@ == self@.cause(),
    {
        match self {
            InputError::Malformed(cause) => "malformed configuration: ".to_owned().concat(
                cause.as_str(),
            ),
            InputError::MissingField(name) => "missing field: ".to_owned().concat(name.as_str()),
        }
    }
}

impl PipelineError {
    /// The name of the stage that failed.
    pub fn stage(&self) -> (name: String)
        ensures
            name@ == self@.stage(),
    {
        match self {
            PipelineError::Input(_) => "input".to_owned(),
            PipelineError::Template(_) => "template".to_owned(),
            PipelineError::Compilation(_) => "compilation".to_owned(),
            PipelineError::Network(_) => "network".to_owned(),
            PipelineError::Serialization(_) => "serialization".to_owned(),
        }
    }

    /// The underlying cause.
    pub fn cause(&self) -> (text: String)
        ensures
            text@ == self@.cause(),
    {
        match self {
            PipelineError::Input(fault) => fault.cause(),
            PipelineError::Template(cause) => cause.clone(),
            PipelineError::Compilation(cause) => cause.clone(),
            PipelineError::Network(cause) => cause.clone(),
            PipelineError::Serialization(cause) => cause.clone(),
        }
    }

    /// The message for the user: the failing stage, then the cause.
    pub fn message(&self) -> (text: String)
        ensures
            text@ == self@.message(),
    {
        self.stage().concat(": ").concat(self.cause().as_str())
    }
}

} // verus!
