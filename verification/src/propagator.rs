//! The propagator: what to read from a carrier and what to write to it.
//!
//! The carrier and the ambient context belong to the propagation framework.
//! The functions here take what was read under the header's key and return
//! what is to be written there, so that the caller's only part is to read
//! and to write.
use crate::codec::{decode_chars, decoded, encode, encoded, DecodeError};
use crate::context::SpanContext;
use crate::text::{
    chars_of, is_white_space, lemma_trimmed_is_part, lemma_trimmed_unchanged, trim, trimmed,
};
use vstd::prelude::*;
use vstd::string::*;

verus! {

/// The only key of a carrier that this propagator reads and writes.
pub const CLOUD_TRACE_HEADER: &'static str = "x-cloud-trace-context";

/// The text to decode for what a carrier holds under the key: an absent
/// entry counts as an empty one.
pub open spec fn carrier_value(entry: Option<&str>) -> Seq<char> {
    match entry {
        Some(value) => value@,
        None => Seq::empty(),
    }
}

/// The span context that a carrier's entry denotes: the value is trimmed of
/// white space on both sides and then decoded.
pub open spec fn extracted(entry: Option<&str>) -> Result<SpanContext, DecodeError> {
    decoded(trimmed(carrier_value(entry)))
}

/// A value with no white space at either end is decoded as it stands.
pub proof fn lemma_extracted_as_it_stands(value: &str)
    requires
        value@.len() > 0 ==> !is_white_space(value@.first()) && !is_white_space(value@.last()),
    ensures
        extracted(Some(value)) == decoded(value@),
{
    lemma_trimmed_unchanged(value@);
}

/// A result without the reason of its failure.
pub open spec fn without_reason(r: Result<SpanContext, DecodeError>) -> Result<SpanContext, ()> {
    match r {
        Ok(cx) => Ok(cx),
        Err(_) => Err(()),
    }
}

/// Extracts and injects span contexts in the Cloud Trace header format,
/// `x-cloud-trace-context`.
#[derive(Clone, Copy, Debug)]
pub struct CloudTracePropagator;

impl CloudTracePropagator {
    /// Decodes what a carrier holds under the header's key. Every failure
    /// looks the same from here; `codec::decode` tells the reasons apart.
    pub fn extract_span_context(&self, entry: Option<&str>) -> (r: Result<SpanContext, ()>)
        ensures
            r == without_reason(extracted(entry)),
            r matches Ok(cx) ==> cx.trace_id != 0 && cx.is_remote,
            !carrier_value(entry).contains('/') ==> r is Err,
    {
        let value: &str = match entry {
            Some(value) => value,
            None => "",
        };
        proof {
            reveal_strlit("");
            assert(value@ =~= carrier_value(entry));
            lemma_trimmed_is_part(value@);
        }
        let chars = chars_of(value);
        match decode_chars(trim(chars.as_slice())) {
            Ok(cx) => Ok(cx),
            Err(_) => Err(()),
        }
    }

    /// What to write to the carrier for a span context: the header's key and
    /// value for a valid context, nothing for an invalid one.
    pub fn inject_context(&self, cx: &SpanContext) -> (entry: Option<(&'static str, String)>)
        ensures
            entry is Some <==> cx.valid(),
            entry matches Some((key, value)) ==> key@ == CLOUD_TRACE_HEADER@ && value@ == encoded(
                *cx,
            ),
    {
        if cx.is_valid() {
            Some((CLOUD_TRACE_HEADER, encode(cx)))
        } else {
            None
        }
    }

    /// The span context to attach to the ambient context as the remote
    /// parent: the decoded one, or the empty one where the carrier's entry
    /// is absent or malformed. There is no failure to report.
    pub fn extract_with_context(&self, entry: Option<&str>) -> (cx: SpanContext)
        ensures
            cx == match extracted(entry) {
                Ok(decoded) => decoded,
                Err(_) => SpanContext::empty(),
            },
    {
        match self.extract_span_context(entry) {
            Ok(cx) => cx,
            Err(_) => SpanContext::empty_context(),
        }
    }

    /// The keys that this propagator uses: the one header, on every call.
    pub fn fields(&self) -> (keys: Vec<String>)
        ensures
            keys@.len() == 1,
            keys@[0]@ == CLOUD_TRACE_HEADER@,
    {
        let mut keys: Vec<String> = Vec::new();
        keys.push(String::from_str(CLOUD_TRACE_HEADER));
        keys
    }
}

} // verus!
