//! The span context as this format sees it.
use opentelemetry::trace::{SpanId, TraceId, TraceState, TRACE_FLAG_NOT_SAMPLED};
use vstd::prelude::*;

verus! {

/// What the header says about recording the trace.
#[derive(Clone, Copy, Debug, PartialEq, Eq, Structural)]
pub enum SamplingDecision {
    /// The sender records the trace (`;o=1`).
    Sampled,
    /// The sender does not record the trace (`;o=0`).
    NotSampled,
    /// The header carries no decision: the receiver decides.
    Deferred,
}

impl SamplingDecision {
    /// The decision that a pair of trace flags stands for: the deferred flag
    /// wins over the sampled flag.
    pub open spec fn of_flags(deferred: bool, sampled: bool) -> SamplingDecision {
        if deferred {
            SamplingDecision::Deferred
        } else if sampled {
            SamplingDecision::Sampled
        } else {
            SamplingDecision::NotSampled
        }
    }

    /// Reads the decision off the deferred and the sampled flag of a span
    /// context.
    pub fn from_flags(deferred: bool, sampled: bool) -> (decision: SamplingDecision)
        ensures
            decision == Self::of_flags(deferred, sampled),
    {
        if deferred {
            SamplingDecision::Deferred
        } else if sampled {
            SamplingDecision::Sampled
        } else {
            SamplingDecision::NotSampled
        }
    }
}

/// The part of a span that travels between processes.
///
/// The header has no room for vendor-neutral trace state, so a span context
/// of this format never carries any and the type has no field for it.
#[derive(Clone, Copy, Debug, PartialEq, Eq, Structural)]
pub struct SpanContext {
    /// 128-bit trace identifier; zero is the invalid trace id.
    pub trace_id: u128,
    /// 64-bit span identifier.
    pub span_id: u64,
    /// The sampling decision that came with the identifiers.
    pub sampling_decision: SamplingDecision,
    /// True when the context describes a parent seen in another process.
    pub is_remote: bool,
}

impl SpanContext {
    /// The context that stands for "no trace context": zero identifiers, not
    /// sampled, not remote.
    pub open spec fn empty() -> SpanContext {
        SpanContext {
            trace_id: 0,
            span_id: 0,
            sampling_decision: SamplingDecision::NotSampled,
            is_remote: false,
        }
    }

    /// A context is valid when neither identifier is zero.
    pub open spec fn valid(&self) -> bool {
        self.trace_id != 0 && self.span_id != 0
    }

    /// Whether the tracing framework takes this context for a valid one.
    pub fn is_valid(&self) -> (b: bool)
        ensures
            b == self.valid(),
    {
        identifiers_are_valid(self.trace_id, self.span_id)
    }

    /// Returns the empty span context.
    pub fn empty_context() -> (cx: SpanContext)
        ensures
            cx == Self::empty(),
    {
        SpanContext {
            trace_id: 0,
            span_id: 0,
            sampling_decision: SamplingDecision::NotSampled,
            is_remote: false,
        }
    }
}

/// Calls `SpanContext::is_valid` of the tracing framework on a span context
/// with these two identifiers, made by `SpanContext::new`. Flags, remoteness
/// and trace state take no part in the framework's answer and are left at its
/// defaults. Not proved: that the framework takes a context for valid exactly
/// when neither identifier is zero.
#[verifier::external_body]
fn identifiers_are_valid(trace_id: u128, span_id: u64) -> (b: bool)
    ensures
        b == (trace_id != 0 && span_id != 0),
{
    opentelemetry::trace::SpanContext::new(
        TraceId::from_u128(trace_id),
        SpanId::from_u64(span_id),
        TRACE_FLAG_NOT_SAMPLED,
        false,
        TraceState::default(),
    ).is_valid()
}

} // verus!
