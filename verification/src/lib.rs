//! Conversion between span contexts and the `x-cloud-trace-context` header.
//!
//! The header carries a trace id, a span id and an optional sampling decision:
//!
//! ```text
//! x-cloud-trace-context: <32-hex-trace-id>/<decimal-span-id>[;o=0|;o=1]
//! ```
//!
//! [`codec`] holds the grammar and [`propagator`] the adapter that a
//! propagation framework drives. [`context`] has the span context,
//! [`trace_id`] and [`decimal`] the two number formats of the header, and
//! [`text`] what the grammar needs of characters.
pub mod codec;
pub mod context;
pub mod decimal;
pub mod propagator;
pub mod text;
pub mod trace_id;

pub use codec::DecodeError;
pub use context::{SamplingDecision, SpanContext};
pub use propagator::{CloudTracePropagator, CLOUD_TRACE_HEADER};
