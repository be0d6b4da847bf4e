//! Normalized provider events, and the deterministic fake provider that emits them.
//!
//! The kernel owns these shapes; provider payloads are never authoritative. A dialect maps one
//! wire format onto them, and nothing downstream of [`normalize`] may depend on which dialect
//! produced a stream.
use crate::error::ProviderErrorKind;
use crate::text::opt_view;
use vstd::prelude::*;
use vstd::string::*;

pub mod dialect;
pub mod fake;
pub mod message_laws;
pub mod normalize;
pub mod response_laws;
pub mod stream_laws;
pub mod wire_laws;

verus! {

/// Which wire dialect a stream arrived in.
#[derive(Clone, Copy, Debug, PartialEq, Eq, Hash, Structural)]
pub enum Dialect {
    Responses,
    AnthropicMessages,
}

impl Dialect {
    /// The name on the wire.
    pub open spec fn wire_text(self) -> Seq<char> {
        match self {
            Dialect::Responses => "responses"@,
            Dialect::AnthropicMessages => "anthropic_messages"@,
        }
    }

    /// The name on the wire.
    pub fn wire(self) -> (r: &'static str)
        ensures
            r@ == self.wire_text(),
    {
        match self {
            Dialect::Responses => "responses",
            Dialect::AnthropicMessages => "anthropic_messages",
        }
    }
}

/// Why a stream finished. `Interrupted` is assigned on cancellation; no dialect maps to it.
#[derive(Clone, Copy, Debug, PartialEq, Eq, Hash, Structural)]
pub enum FinishReason {
    Stop,
    Length,
    ToolCall,
    ContentFilter,
    Error,
    Interrupted,
}

impl FinishReason {
    /// The name on the wire.
    pub open spec fn wire_text(self) -> Seq<char> {
        match self {
            FinishReason::Stop => "stop"@,
            FinishReason::Length => "length"@,
            FinishReason::ToolCall => "tool_call"@,
            FinishReason::ContentFilter => "content_filter"@,
            FinishReason::Error => "error"@,
            FinishReason::Interrupted => "interrupted"@,
        }
    }

    /// The name on the wire.
    pub fn wire(self) -> (r: &'static str)
        ensures
            r@ == self.wire_text(),
    {
        match self {
            FinishReason::Stop => "stop",
            FinishReason::Length => "length",
            FinishReason::ToolCall => "tool_call",
            FinishReason::ContentFilter => "content_filter",
            FinishReason::Error => "error",
            FinishReason::Interrupted => "interrupted",
        }
    }
}

/// Where the identity of the serving model was read: the response, never the request.
#[derive(Clone, Copy, Debug, PartialEq, Eq, Hash, Structural)]
pub enum ServedModelEvidence {
    ResponseField,
    ResponseHeader,
    Absent,
}

impl ServedModelEvidence {
    /// The name on the wire.
    pub open spec fn wire_text(self) -> Seq<char> {
        match self {
            ServedModelEvidence::ResponseField => "response_field"@,
            ServedModelEvidence::ResponseHeader => "response_header"@,
            ServedModelEvidence::Absent => "absent"@,
        }
    }

    /// The name on the wire.
    pub fn wire(self) -> (r: &'static str)
        ensures
            r@ == self.wire_text(),
    {
        match self {
            ServedModelEvidence::ResponseField => "response_field",
            ServedModelEvidence::ResponseHeader => "response_header",
            ServedModelEvidence::Absent => "absent",
        }
    }
}

/// Token accounting, as the provider reported it.
#[derive(Clone, Copy, Debug, PartialEq, Eq, Structural)]
pub struct Usage {
    pub input_tokens: u64,
    pub cached_input_tokens: u64,
    pub output_tokens: u64,
    pub reasoning_tokens: u64,
}

/// No tokens at all.
pub open spec fn no_usage() -> Usage {
    Usage { input_tokens: 0, cached_input_tokens: 0, output_tokens: 0, reasoning_tokens: 0 }
}

impl Default for Usage {
    fn default() -> (r: Self)
        ensures
            r == no_usage(),
    {
        Usage { input_tokens: 0, cached_input_tokens: 0, output_tokens: 0, reasoning_tokens: 0 }
    }
}

/// One normalized event. A stream starts with `StreamStart`, and nothing follows its one terminal
/// (`Finished` or `ProviderError`).
#[derive(Debug, PartialEq, Eq)]
pub enum NormalizedEvent {
    StreamStart { served_model_id: Option<String>, served_model_evidence: ServedModelEvidence },
    TextDelta { text: String },
    ToolCallStart { tool_call_id: String, tool_name: String },
    /// A fragment of the argument JSON, split wherever the wire split it.
    ToolCallArgumentsDelta { tool_call_id: String, fragment: String },
    /// Emitted only when the accumulated fragments parse as one JSON value.
    ToolCallComplete { tool_call_id: String, arguments_json: String },
    Usage(Usage),
    Finished { finish_reason: FinishReason },
    /// A typed terminal failure.
    ProviderError { error_kind: ProviderErrorKind, message: String },
}

/// The view of a `NormalizedEvent`.
pub enum NormalizedEventView {
    StreamStart { served_model_id: Option<Seq<char>>, served_model_evidence: ServedModelEvidence },
    TextDelta { text: Seq<char> },
    ToolCallStart { tool_call_id: Seq<char>, tool_name: Seq<char> },
    ToolCallArgumentsDelta { tool_call_id: Seq<char>, fragment: Seq<char> },
    ToolCallComplete { tool_call_id: Seq<char>, arguments_json: Seq<char> },
    Usage(Usage),
    Finished { finish_reason: FinishReason },
    ProviderError { error_kind: ProviderErrorKind, message: Seq<char> },
}

impl View for NormalizedEvent {
    type V = NormalizedEventView;

    open spec fn view(&self) -> NormalizedEventView {
        match self {
            NormalizedEvent::StreamStart {
                served_model_id,
                served_model_evidence,
            } => NormalizedEventView::StreamStart {
                served_model_id: opt_view(*served_model_id),
                served_model_evidence: *served_model_evidence,
            },
            NormalizedEvent::TextDelta { text } => NormalizedEventView::TextDelta { text: text@ },
            NormalizedEvent::ToolCallStart {
                tool_call_id,
                tool_name,
            } => NormalizedEventView::ToolCallStart {
                tool_call_id: tool_call_id@,
                tool_name: tool_name@,
            },
            NormalizedEvent::ToolCallArgumentsDelta {
                tool_call_id,
                fragment,
            } => NormalizedEventView::ToolCallArgumentsDelta {
                tool_call_id: tool_call_id@,
                fragment: fragment@,
            },
            NormalizedEvent::ToolCallComplete {
                tool_call_id,
                arguments_json,
            } => NormalizedEventView::ToolCallComplete {
                tool_call_id: tool_call_id@,
                arguments_json: arguments_json@,
            },
            NormalizedEvent::Usage(x) => NormalizedEventView::Usage(*x),
            NormalizedEvent::Finished { finish_reason } => NormalizedEventView::Finished {
                finish_reason: *finish_reason,
            },
            NormalizedEvent::ProviderError {
                error_kind,
                message,
            } => NormalizedEventView::ProviderError {
                error_kind: *error_kind,
                message: message@,
            },
        }
    }
}

} // verus!
