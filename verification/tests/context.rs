use cloud_trace_propagator::{SamplingDecision, SpanContext};
use opentelemetry::trace::{
    SpanId, TraceId, TraceState, TRACE_FLAG_DEBUG, TRACE_FLAG_DEFERRED, TRACE_FLAG_NOT_SAMPLED,
    TRACE_FLAG_SAMPLED,
};

fn framework_context(trace_id: u128, span_id: u64, flags: u8) -> opentelemetry::trace::SpanContext {
    opentelemetry::trace::SpanContext::new(
        TraceId::from_u128(trace_id),
        SpanId::from_u64(span_id),
        flags,
        false,
        TraceState::default(),
    )
}

#[test]
fn from_flags_prefers_deferred() {
    assert_eq!(SamplingDecision::from_flags(false, false), SamplingDecision::NotSampled);
    assert_eq!(SamplingDecision::from_flags(false, true), SamplingDecision::Sampled);
    assert_eq!(SamplingDecision::from_flags(true, false), SamplingDecision::Deferred);
    assert_eq!(SamplingDecision::from_flags(true, true), SamplingDecision::Deferred);
}

#[test]
fn from_flags_reads_the_framework_flags() {
    let cases = [
        (TRACE_FLAG_NOT_SAMPLED, SamplingDecision::NotSampled),
        (TRACE_FLAG_SAMPLED, SamplingDecision::Sampled),
        (TRACE_FLAG_DEFERRED, SamplingDecision::Deferred),
        (TRACE_FLAG_DEFERRED | TRACE_FLAG_SAMPLED, SamplingDecision::Deferred),
        (TRACE_FLAG_DEBUG, SamplingDecision::NotSampled),
        (TRACE_FLAG_DEBUG | TRACE_FLAG_SAMPLED, SamplingDecision::Sampled),
    ];
    for (flags, decision) in cases {
        let cx = framework_context(1, 1, flags);
        assert_eq!(SamplingDecision::from_flags(cx.is_deferred(), cx.is_sampled()), decision);
    }
}

#[test]
fn empty_context_is_the_framework_empty_context() {
    let empty = SpanContext::empty_context();
    let theirs = opentelemetry::trace::SpanContext::empty_context();
    assert_eq!(empty.trace_id, theirs.trace_id().to_u128());
    assert_eq!(empty.span_id, theirs.span_id().to_u64());
    assert_eq!(empty.is_remote, theirs.is_remote());
    assert_eq!(
        empty.sampling_decision,
        SamplingDecision::from_flags(theirs.is_deferred(), theirs.is_sampled())
    );
    assert_eq!(empty.sampling_decision, SamplingDecision::NotSampled);
    assert!(!empty.is_valid());
}

#[test]
fn is_valid_needs_both_identifiers() {
    let cx = |trace_id, span_id| SpanContext {
        trace_id,
        span_id,
        sampling_decision: SamplingDecision::Sampled,
        is_remote: false,
    };
    assert!(cx(1, 1).is_valid());
    assert!(cx(u128::MAX, u64::MAX).is_valid());
    assert!(!cx(0, 1).is_valid());
    assert!(!cx(1, 0).is_valid());
    assert!(!cx(0, 0).is_valid());
}

#[test]
fn is_valid_agrees_with_the_framework() {
    for (trace_id, span_id) in [(0u128, 0u64), (0, 7), (7, 0), (7, 7), (1 << 100, 1 << 63)] {
        let ours = SpanContext {
            trace_id,
            span_id,
            sampling_decision: SamplingDecision::Deferred,
            is_remote: true,
        };
        assert_eq!(ours.is_valid(), framework_context(trace_id, span_id, 0).is_valid());
    }
}
