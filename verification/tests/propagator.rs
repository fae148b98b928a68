use cloud_trace_propagator::{
    CloudTracePropagator, SamplingDecision, SpanContext, CLOUD_TRACE_HEADER,
};
use opentelemetry::propagation::{Extractor, Injector};
use std::collections::HashMap;

const TRACE_ID: u128 = 0x105445aa7843bc8bf206b12000100000;

fn remote(trace_id: u128, span_id: u64, sampling_decision: SamplingDecision) -> SpanContext {
    SpanContext { trace_id, span_id, sampling_decision, is_remote: true }
}

#[test]
fn header_name() {
    assert_eq!(CLOUD_TRACE_HEADER, "x-cloud-trace-context");
}

#[test]
fn extract_span_context_decodes_the_entry() {
    assert_eq!(
        CloudTracePropagator.extract_span_context(Some("105445aa7843bc8bf206b12000100000/1;o=1")),
        Ok(remote(TRACE_ID, 1, SamplingDecision::Sampled))
    );
}

#[test]
fn extract_span_context_of_absent_entry_fails() {
    assert_eq!(CloudTracePropagator.extract_span_context(None), Err(()));
    assert_eq!(CloudTracePropagator.extract_span_context(Some("")), Err(()));
    assert_eq!(CloudTracePropagator.extract_span_context(Some("   ")), Err(()));
}

#[test]
fn extract_span_context_folds_every_failure() {
    let p = CloudTracePropagator;
    assert_eq!(p.extract_span_context(Some("abc")), Err(()));
    assert_eq!(p.extract_span_context(Some("00000000000000000000000000000000/1;o=1")), Err(()));
    assert_eq!(p.extract_span_context(Some("00f067aa0ba902b7/5")), Err(()));
    assert_eq!(p.extract_span_context(Some("105445aa7843bc8bf206b12000100000/x")), Err(()));
}

#[test]
fn extract_span_context_trims_white_space() {
    let expected = Ok(remote(TRACE_ID, 1, SamplingDecision::Sampled));
    let p = CloudTracePropagator;
    assert_eq!(p.extract_span_context(Some("  105445aa7843bc8bf206b12000100000/1;o=1")), expected);
    assert_eq!(p.extract_span_context(Some("105445aa7843bc8bf206b12000100000/1;o=1 \t")), expected);
    assert_eq!(
        p.extract_span_context(Some("\r\n 105445aa7843bc8bf206b12000100000/1;o=1\n")),
        expected
    );
}

#[test]
fn extract_span_context_trims_white_space_beyond_ascii() {
    assert_eq!(
        CloudTracePropagator
            .extract_span_context(Some("\u{a0}105445aa7843bc8bf206b12000100000/1;o=0\u{2003}")),
        Ok(remote(TRACE_ID, 1, SamplingDecision::NotSampled))
    );
}

#[test]
fn extract_span_context_keeps_inner_white_space() {
    let p = CloudTracePropagator;
    assert_eq!(p.extract_span_context(Some("105445aa7843bc8bf206b12000100000/ 1")), Err(()));
    assert_eq!(
        p.extract_span_context(Some("105445aa7843bc8bf206b12000100000/1; o=1")),
        Ok(remote(TRACE_ID, 1, SamplingDecision::Deferred))
    );
}

#[test]
fn extract_span_context_trims_before_matching_the_option() {
    assert_eq!(
        CloudTracePropagator.extract_span_context(Some("105445aa7843bc8bf206b12000100000/1;o=1  ")),
        Ok(remote(TRACE_ID, 1, SamplingDecision::Sampled))
    );
}

#[test]
fn extract_with_context_returns_the_decoded_context() {
    assert_eq!(
        CloudTracePropagator.extract_with_context(Some("105445aa7843bc8bf206b12000100000/1")),
        remote(TRACE_ID, 1, SamplingDecision::Deferred)
    );
}

#[test]
fn extract_with_context_falls_back_to_the_empty_context() {
    let p = CloudTracePropagator;
    let empty = SpanContext::empty_context();
    assert_eq!(p.extract_with_context(None), empty);
    assert_eq!(p.extract_with_context(Some("abc")), empty);
    assert_eq!(p.extract_with_context(Some("00000000000000000000000000000000/1;o=1")), empty);
    assert_eq!(p.extract_with_context(Some("105445aa7843bc8bf206b12000100000/")), empty);
}

#[test]
fn inject_context_of_valid_context() {
    let entry = CloudTracePropagator.inject_context(&remote(TRACE_ID, 1, SamplingDecision::Sampled));
    assert_eq!(
        entry,
        Some(("x-cloud-trace-context", String::from("105445aa7843bc8bf206b12000100000/1;o=1")))
    );
}

#[test]
fn inject_context_of_deferred_context_has_no_trailing_separator() {
    let entry =
        CloudTracePropagator.inject_context(&remote(TRACE_ID, 77, SamplingDecision::Deferred));
    let (key, value) = entry.unwrap();
    assert_eq!(key, CLOUD_TRACE_HEADER);
    assert_eq!(value, "105445aa7843bc8bf206b12000100000/77");
    assert!(!value.contains(';'));
}

#[test]
fn inject_context_of_invalid_context_writes_nothing() {
    let p = CloudTracePropagator;
    assert_eq!(p.inject_context(&SpanContext::empty_context()), None);
    assert_eq!(p.inject_context(&remote(0, 1, SamplingDecision::Sampled)), None);
    assert_eq!(p.inject_context(&remote(TRACE_ID, 0, SamplingDecision::Sampled)), None);
    assert_eq!(p.inject_context(&remote(0, 0, SamplingDecision::Deferred)), None);
}

#[test]
fn inject_context_is_idempotent() {
    let p = CloudTracePropagator;
    let cx = remote(TRACE_ID, 5, SamplingDecision::NotSampled);
    assert_eq!(p.inject_context(&cx), p.inject_context(&cx));
}

#[test]
fn inject_then_extract_through_a_carrier() {
    let p = CloudTracePropagator;
    let cx = remote(TRACE_ID, 5, SamplingDecision::NotSampled);
    let mut carrier: HashMap<String, String> = HashMap::new();
    carrier.insert(String::from(CLOUD_TRACE_HEADER), String::from("stale"));
    if let Some((key, value)) = p.inject_context(&cx) {
        Injector::set(&mut carrier, key, value);
    }
    assert_eq!(carrier.len(), 1);
    assert_eq!(
        Extractor::get(&carrier, CLOUD_TRACE_HEADER),
        Some("105445aa7843bc8bf206b12000100000/5;o=0")
    );
    assert_eq!(p.extract_with_context(Extractor::get(&carrier, CLOUD_TRACE_HEADER)), cx);
}

#[test]
fn invalid_context_leaves_the_carrier_untouched() {
    let p = CloudTracePropagator;
    let mut carrier: HashMap<String, String> = HashMap::new();
    if let Some((key, value)) = p.inject_context(&remote(0, 5, SamplingDecision::Sampled)) {
        Injector::set(&mut carrier, key, value);
    }
    assert!(carrier.is_empty());
}

#[test]
fn fields_is_the_one_header() {
    let p = CloudTracePropagator;
    assert_eq!(p.fields(), vec![String::from("x-cloud-trace-context")]);
    assert_eq!(p.fields().len(), 1);
    assert_eq!(p.fields(), p.fields());
    assert_eq!(p.clone().fields(), p.fields());
}

#[test]
fn interleaved_callers_do_not_interfere() {
    let p = CloudTracePropagator;
    let contexts: Vec<SpanContext> = (1..200u64)
        .map(|n| {
            remote(
                (n as u128) << 64 | (n as u128 * 0x9e3779b97f4a7c15),
                n * 31,
                if n % 2 == 0 { SamplingDecision::Sampled } else { SamplingDecision::NotSampled },
            )
        })
        .collect();
    let entries: Vec<Option<(&'static str, String)>> =
        contexts.iter().map(|cx| p.inject_context(cx)).collect();
    for (cx, entry) in contexts.iter().zip(entries.iter()).rev() {
        let (_, value) = entry.as_ref().unwrap();
        assert_eq!(p.extract_span_context(Some(value.as_str())), Ok(*cx));
    }
}

fn crosses_threads<T: Send + Sync + 'static>() {}

#[test]
fn propagator_and_contexts_can_be_shared_between_threads() {
    crosses_threads::<CloudTracePropagator>();
    crosses_threads::<SpanContext>();
    crosses_threads::<SamplingDecision>();
    crosses_threads::<cloud_trace_propagator::DecodeError>();
}
