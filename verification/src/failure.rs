//! The ways in which one invocation can end without success.

use crate::text::{append_str, decimal, push_decimal};
use vstd::prelude::*;

verus! {

/// Why an invocation stopped. Every kind is final: nothing is tried again.
#[derive(Clone, Debug, PartialEq, Eq)]
pub enum Failure {
    /// A `git` subprocess ended with a failure; holds what it wrote to its
    /// error stream.
    RepositoryCommandFailed { diagnostic: String },
    /// A `git` subprocess wrote bytes that are not UTF-8 text.
    OutputNotText,
    /// There is no change to describe.
    EmptyChangeSet,
    /// The key file is absent, unreadable or empty.
    CredentialMissing,
    /// The request did not reach the provider, or no answer came back.
    TransportError { detail: String },
    /// The provider answered with a status other than success.
    ProviderError { status: u16, body: String },
    /// The provider's answer could not be decoded, or holds no choice.
    MalformedResponse,
    /// The arguments of a tool call are not what the tool accepts.
    ToolInvalidArgument { tool: String },
    /// A tool call names a tool that is not registered.
    ToolExecutionFailed { tool: String },
    /// The provider asked for tools in more rounds than are allowed.
    ToolLoopExceeded,
    /// The review of the commit message found a significant mistake.
    MessageValidationFailed,
    /// The pattern for trailer lines was not accepted.
    PatternRejected,
    /// The earlier commit messages could not be encoded.
    EncodingFailed,
    /// An event arrived that the session was not waiting for.
    OutOfSequence,
}

/// A [`Failure`], with its texts as character sequences.
pub enum FailureView {
    RepositoryCommandFailed { diagnostic: Seq<char> },
    OutputNotText,
    EmptyChangeSet,
    CredentialMissing,
    TransportError { detail: Seq<char> },
    ProviderError { status: u16, body: Seq<char> },
    MalformedResponse,
    ToolInvalidArgument { tool: Seq<char> },
    ToolExecutionFailed { tool: Seq<char> },
    ToolLoopExceeded,
    MessageValidationFailed,
    PatternRejected,
    EncodingFailed,
    OutOfSequence,
}

impl View for Failure {
    type V = FailureView;

    open spec fn view(&self) -> FailureView {
        match self {
            Failure::RepositoryCommandFailed { diagnostic } => FailureView::RepositoryCommandFailed {
                diagnostic: diagnostic@,
            },
            Failure::OutputNotText => FailureView::OutputNotText,
            Failure::EmptyChangeSet => FailureView::EmptyChangeSet,
            Failure::CredentialMissing => FailureView::CredentialMissing,
            Failure::TransportError { detail } => FailureView::TransportError { detail: detail@ },
            Failure::ProviderError { status, body } => FailureView::ProviderError {
                status: *status,
                body: body@,
            },
            Failure::MalformedResponse => FailureView::MalformedResponse,
            Failure::ToolInvalidArgument { tool } => FailureView::ToolInvalidArgument { tool: tool@ },
            Failure::ToolExecutionFailed { tool } => FailureView::ToolExecutionFailed { tool: tool@ },
            Failure::ToolLoopExceeded => FailureView::ToolLoopExceeded,
            Failure::MessageValidationFailed => FailureView::MessageValidationFailed,
            Failure::PatternRejected => FailureView::PatternRejected,
            Failure::EncodingFailed => FailureView::EncodingFailed,
            Failure::OutOfSequence => FailureView::OutOfSequence,
        }
    }
}

impl FailureView {
    /// The diagnostic that is shown for this failure.
    pub open spec fn message(self) -> Seq<char> {
        match self {
            FailureView::RepositoryCommandFailed { diagnostic } => diagnostic,
            FailureView::OutputNotText => "git wrote bytes that are not UTF-8 text"@,
            FailureView::EmptyChangeSet => "Empty diff returned - no changes detected"@,
            FailureView::CredentialMissing => "The API key is missing or empty"@,
            FailureView::TransportError { detail } => "The request failed: "@ + detail,
            FailureView::ProviderError { status, body } => "The provider answered with status "@
                + decimal(status as nat) + ": "@ + body,
            FailureView::MalformedResponse => "No responses received"@,
            FailureView::ToolInvalidArgument { tool } => "Invalid arguments for the tool "@ + tool,
            FailureView::ToolExecutionFailed { tool } => "Unknown tool "@ + tool,
            FailureView::ToolLoopExceeded => "Too many rounds of tool calls"@,
            FailureView::MessageValidationFailed => "wrong commit message"@,
            FailureView::PatternRejected => "The trailer pattern was rejected"@,
            FailureView::EncodingFailed => "The commit messages could not be encoded"@,
            FailureView::OutOfSequence => "Unexpected event"@,
        }
    }
}

impl Failure {
    /// The diagnostic that is shown for this failure.
    pub fn message(&self) -> (text: String)
        ensures
            text@ == self@.message(),
    {
        match self {
            Failure::RepositoryCommandFailed { diagnostic } => diagnostic.clone(),
            Failure::OutputNotText => "git wrote bytes that are not UTF-8 text".to_owned(),
            Failure::EmptyChangeSet => "Empty diff returned - no changes detected".to_owned(),
            Failure::CredentialMissing => "The API key is missing or empty".to_owned(),
            Failure::TransportError { detail } => append_str("The request failed: ", detail.as_str()),
            Failure::ProviderError { status, body } => {
                let mut text = "The provider answered with status ".to_owned();
                push_decimal(&mut text, *status as u64);
                text.append(": ");
                text.append(body.as_str());
                text
            },
            Failure::MalformedResponse => "No responses received".to_owned(),
            Failure::ToolInvalidArgument { tool } => append_str(
                "Invalid arguments for the tool ",
                tool.as_str(),
            ),
            Failure::ToolExecutionFailed { tool } => append_str("Unknown tool ", tool.as_str()),
            Failure::ToolLoopExceeded => "Too many rounds of tool calls".to_owned(),
            Failure::MessageValidationFailed => "wrong commit message".to_owned(),
            Failure::PatternRejected => "The trailer pattern was rejected".to_owned(),
            Failure::EncodingFailed => "The commit messages could not be encoded".to_owned(),
            Failure::OutOfSequence => "Unexpected event".to_owned(),
        }
    }
}

} // verus!
