//! The failures that namespace discovery reports to its caller.

use vstd::prelude::*;
use vstd::string::*;

verus! {

/// Why a stage of namespace discovery failed.
#[derive(Debug, PartialEq, Eq)]
pub enum NamespaceError {
    /// The call `method` did not get through to the remote service, or was refused by it.
    Transport { method: String, detail: String },
    /// The answer about `subject` does not have the expected shape.
    ShapeMismatch { subject: String, detail: String },
    /// The chain is not one of the known chains.
    UnsupportedChain { blockchain_id: String },
}

/// What a `NamespaceError` holds, as mathematical values.
pub enum NamespaceErrorView {
    Transport { method: Seq<char>, detail: Seq<char> },
    ShapeMismatch { subject: Seq<char>, detail: Seq<char> },
    UnsupportedChain { blockchain_id: Seq<char> },
}

impl View for NamespaceError {
    type V = NamespaceErrorView;

    open spec fn view(&self) -> NamespaceErrorView {
        match self {
            NamespaceError::Transport { method, detail } => NamespaceErrorView::Transport {
                method: method@,
                detail: detail@,
            },
            NamespaceError::ShapeMismatch { subject, detail } => NamespaceErrorView::ShapeMismatch {
                subject: subject@,
                detail: detail@,
            },
            NamespaceError::UnsupportedChain { blockchain_id } => NamespaceErrorView::UnsupportedChain {
                blockchain_id: blockchain_id@,
            },
        }
    }
}

/// The text that describes a failure to the user.
pub open spec fn message_of(error: NamespaceErrorView) -> Seq<char> {
    match error {
        NamespaceErrorView::Transport { method, detail } => "Failed to call "@ + method + ": "@
            + detail,
        NamespaceErrorView::ShapeMismatch { subject, detail } => "Failed to parse "@ + subject
            + " response: "@ + detail,
        NamespaceErrorView::UnsupportedChain { blockchain_id } => "Unsupported blockchain: "@
            + blockchain_id,
    }
}

impl NamespaceError {
    /// Describes the failure in the words shown to the user.
    pub fn message(&self) -> (text: String)
        ensures
            text@ == message_of(self@),
    {
        match self {
            NamespaceError::Transport { method, detail } => {
                let mut text = "Failed to call ".to_owned();
                text.append(method.as_str());
                text.append(": ");
                text.append(detail.as_str());
                text
            },
            NamespaceError::ShapeMismatch { subject, detail } => {
                let mut text = "Failed to parse ".to_owned();
                text.append(subject.as_str());
                text.append(" response: ");
                text.append(detail.as_str());
                text
            },
            NamespaceError::UnsupportedChain { blockchain_id } => {
                let mut text = "Unsupported blockchain: ".to_owned();
                text.append(blockchain_id.as_str());
                text
            },
        }
    }
}

impl Clone for NamespaceError {
    fn clone(&self) -> (copy: Self)
        ensures
            copy@ == self@,
    {
        match self {
            NamespaceError::Transport { method, detail } => NamespaceError::Transport {
                method: method.clone(),
                detail: detail.clone(),
            },
            NamespaceError::ShapeMismatch { subject, detail } => NamespaceError::ShapeMismatch {
                subject: subject.clone(),
                detail: detail.clone(),
            },
            NamespaceError::UnsupportedChain { blockchain_id } => NamespaceError::UnsupportedChain {
                blockchain_id: blockchain_id.clone(),
            },
        }
    }
}

} // verus!
