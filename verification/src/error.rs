//! The failures that the background pipeline reports.

use vstd::prelude::*;
use vstd::string::StringExecFns;

verus! {

/// Why preparing or choosing a background image failed.
#[derive(Clone, Debug, PartialEq, Eq)]
pub enum PipelineError {
    /// A source path has no usable file stem.
    InputShape,
    /// Decoding or encoding a raster image failed; the text is the codec's diagnostic.
    Codec(String),
    /// A filesystem operation failed; the text is the system's diagnostic.
    Io(String),
    /// There is no candidate image to choose from.
    EmptyPool,
    /// The compositor refused a command; the text is its raw diagnostic.
    ExternalChannel(String),
}

/// The mathematical value of a [`PipelineError`]: its kind and its diagnostic text.
pub enum PipelineErrorView {
    InputShape,
    Codec(Seq<char>),
    Io(Seq<char>),
    EmptyPool,
    ExternalChannel(Seq<char>),
}

impl View for PipelineError {
    type V = PipelineErrorView;

    open spec fn view(&self) -> PipelineErrorView {
        match self {
            PipelineError::InputShape => PipelineErrorView::InputShape,
            PipelineError::Codec(m) => PipelineErrorView::Codec(m@),
            PipelineError::Io(m) => PipelineErrorView::Io(m@),
            PipelineError::EmptyPool => PipelineErrorView::EmptyPool,
            PipelineError::ExternalChannel(m) => PipelineErrorView::ExternalChannel(m@),
        }
    }
}

/// What an error says to the user.
pub open spec fn message_of(e: PipelineErrorView) -> Seq<char> {
    match e {
        PipelineErrorView::InputShape => "Source path has no file stem."@,
        PipelineErrorView::Codec(m) => m,
        PipelineErrorView::Io(m) => m,
        PipelineErrorView::EmptyPool => "No background images in folder."@,
        PipelineErrorView::ExternalChannel(m) => "Sway error: "@ + m,
    }
}

impl PipelineError {
    /// What this error says to the user.
    pub fn message(&self) -> (r: String)
        ensures
            r@ == message_of(self@),
    {
        match self {
            PipelineError::InputShape => String::from_str("Source path has no file stem."),
            PipelineError::Codec(m) => m.clone(),
            PipelineError::Io(m) => m.clone(),
            PipelineError::EmptyPool => String::from_str("No background images in folder."),
            PipelineError::ExternalChannel(m) => {
                let mut r = String::from_str("Sway error: ");
                r.append(m.as_str());
                r
            },
        }
    }

    /// A copy of this error.
    pub fn duplicate(&self) -> (r: PipelineError)
        ensures
            r@ == self@,
    {
        match self {
            PipelineError::InputShape => PipelineError::InputShape,
            PipelineError::Codec(m) => PipelineError::Codec(m.clone()),
            PipelineError::Io(m) => PipelineError::Io(m.clone()),
            PipelineError::EmptyPool => PipelineError::EmptyPool,
            PipelineError::ExternalChannel(m) => PipelineError::ExternalChannel(m.clone()),
        }
    }
}

} // verus!
