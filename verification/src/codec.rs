//! The header's grammar: `<trace-id>/<span-id>[;o=<0|1>]`.
//!
//! `decode` and `encode` work on the header's value as it stands; trimming
//! and the choice of the carrier's key belong to the propagator.
use crate::context::{SamplingDecision, SpanContext};
use crate::decimal::{
    all_decimal_digits, decimal_digits, is_decimal_digit, lemma_decimal_digits,
    lemma_parse_decimal_digits, parse_decimal, parse_u64, push_decimal,
};
use crate::text::{
    chars_of, find_char, first_index_of, is_first_index_of, lemma_first_index_of,
    lemma_first_index_of_absent,
};
use crate::trace_id::{
    all_lower_hex_digits, format_trace_id, is_lower_hex_digit, lemma_hex_value_bound,
    lemma_trace_id_text, parse_trace_id, trace_id_of, trace_id_text,
};
use vstd::arithmetic::power2::{lemma2_to64, lemma2_to64_rest, lemma_pow2_adds, pow2};
use vstd::prelude::*;
use vstd::string::*;

verus! {

/// Why a header's value is not a span context.
#[derive(Clone, Copy, Debug, PartialEq, Eq, Structural)]
pub enum DecodeError {
    /// The value holds no `/`.
    MissingSeparator,
    /// What stands before the `/` is not 32 lowercase hexadecimal digits, or
    /// is all zeros.
    InvalidTraceId,
    /// What follows the `/`, up to the first `;`, is not a decimal number of
    /// at most 64 bits: digits only, but for one `+` that may stand in front.
    InvalidSpanId,
}

/// The parts of `s` before and after its first `c`.
pub open spec fn split_once(s: Seq<char>, c: char) -> Option<(Seq<char>, Seq<char>)> {
    match first_index_of(s, c) {
        Some(i) => Some((s.subrange(0, i), s.subrange(i + 1, s.len() as int))),
        None => None,
    }
}

/// The text of the "not sampled" option.
pub open spec fn not_sampled_option() -> Seq<char> {
    seq!['o', '=', '0']
}

/// The text of the "sampled" option.
pub open spec fn sampled_option() -> Seq<char> {
    seq!['o', '=', '1']
}

/// The decision that the text after the `;` stands for. Only the two options
/// are decisions; any other text, and no text at all, leaves the decision to
/// the receiver.
pub open spec fn decision_of_option(option: Option<Seq<char>>) -> SamplingDecision {
    if option == Some(not_sampled_option()) {
        SamplingDecision::NotSampled
    } else if option == Some(sampled_option()) {
        SamplingDecision::Sampled
    } else {
        SamplingDecision::Deferred
    }
}

/// The span-id text and the option text of what follows the `/`: the split
/// at the first `;`, if there is one.
pub open spec fn span_and_option(rest: Seq<char>) -> (Seq<char>, Option<Seq<char>>) {
    match split_once(rest, ';') {
        Some((span, option)) => (span, Some(option)),
        None => (rest, None),
    }
}

/// What the fields of a header's value denote: the trace id is judged first,
/// then the span id; the option never fails.
pub open spec fn decoded_fields(
    id_text: Seq<char>,
    span_text: Seq<char>,
    option: Option<Seq<char>>,
) -> Result<SpanContext, DecodeError> {
    match trace_id_of(id_text) {
        None => Err(DecodeError::InvalidTraceId),
        Some(trace_id) => match parse_u64(span_text) {
            None => Err(DecodeError::InvalidSpanId),
            Some(span_id) => Ok(
                SpanContext {
                    trace_id,
                    span_id,
                    sampling_decision: decision_of_option(option),
                    is_remote: true,
                },
            ),
        },
    }
}

/// The option text of a header's value: what follows the first `;` after the
/// first `/`, if there is such a `;`.
pub open spec fn option_text(s: Seq<char>) -> Option<Seq<char>> {
    match split_once(s, '/') {
        Some((_, rest)) => span_and_option(rest).1,
        None => None,
    }
}

/// The span context that a header's value denotes, or the first reason, from
/// left to right, why it denotes none: no `/`, then the trace id, then the
/// span id.
pub open spec fn decoded(s: Seq<char>) -> Result<SpanContext, DecodeError> {
    match split_once(s, '/') {
        None => Err(DecodeError::MissingSeparator),
        Some((id_text, rest)) => {
            let (span_text, option) = span_and_option(rest);
            decoded_fields(id_text, span_text, option)
        },
    }
}

/// What a decision adds to the header after the span id: `;` and the option,
/// or nothing at all when the decision is deferred.
pub open spec fn decision_suffix(decision: SamplingDecision) -> Seq<char> {
    match decision {
        SamplingDecision::Sampled => seq![';'] + sampled_option(),
        SamplingDecision::NotSampled => seq![';'] + not_sampled_option(),
        SamplingDecision::Deferred => Seq::empty(),
    }
}

/// The option that stands for a decision; none for a deferred one.
pub open spec fn option_of_decision(decision: SamplingDecision) -> Option<Seq<char>> {
    match decision {
        SamplingDecision::Sampled => Some(sampled_option()),
        SamplingDecision::NotSampled => Some(not_sampled_option()),
        SamplingDecision::Deferred => None,
    }
}

/// The header's value for a span context.
pub open spec fn encoded(cx: SpanContext) -> Seq<char> {
    trace_id_text(cx.trace_id) + seq!['/'] + decimal_digits(cx.span_id as nat) + decision_suffix(
        cx.sampling_decision,
    )
}

/// A header's value put together from its fields: the trace-id text, `/`, the
/// span-id text and, where there is an option, `;` and the option's text.
pub open spec fn header_of_fields(
    id_text: Seq<char>,
    span_text: Seq<char>,
    option: Option<Seq<char>>,
) -> Seq<char> {
    id_text + seq!['/'] + span_text + match option {
        Some(t) => seq![';'] + t,
        None => Seq::empty(),
    }
}

/// Reads the decision off the text after the `;`.
pub fn decision_from_option(option: Option<&[char]>) -> (decision: SamplingDecision)
    ensures
        decision == decision_of_option(
            match option {
                Some(t) => Some(t@),
                None => None,
            },
        ),
{
    match option {
        Some(t) => {
            if t.len() == 3 && t[0] == 'o' && t[1] == '=' && t[2] == '0' {
                assert(t@ =~= not_sampled_option());
                SamplingDecision::NotSampled
            } else if t.len() == 3 && t[0] == 'o' && t[1] == '=' && t[2] == '1' {
                assert(t@ =~= sampled_option());
                SamplingDecision::Sampled
            } else {
                assert(t@ != not_sampled_option()) by {
                    if t@.len() == 3 {
                        assert(not_sampled_option()[0] == 'o');
                        assert(not_sampled_option()[1] == '=');
                        assert(not_sampled_option()[2] == '0');
                    }
                }
                assert(t@ != sampled_option()) by {
                    if t@.len() == 3 {
                        assert(sampled_option()[0] == 'o');
                        assert(sampled_option()[1] == '=');
                        assert(sampled_option()[2] == '1');
                    }
                }
                SamplingDecision::Deferred
            }
        },
        None => SamplingDecision::Deferred,
    }
}

/// Decodes the characters of a header's value.
pub fn decode_chars(s: &[char]) -> (r: Result<SpanContext, DecodeError>)
    ensures
        r == decoded(s@),
        r == Err::<SpanContext, DecodeError>(DecodeError::MissingSeparator) <==> !s@.contains('/'),
        r matches Ok(cx) ==> cx.trace_id != 0 && cx.is_remote,
{
    proof {
        lemma_missing_separator(s@);
        lemma_decoded_is_remote_and_traced(s@);
    }
    let slash: usize = match find_char(s, '/') {
        Some(i) => i,
        None => {
            return Err(DecodeError::MissingSeparator);
        },
    };
    let id_text: &[char] = &s[0..slash];
    let rest: &[char] = &s[slash + 1..s.len()];
    let (span_text, option): (&[char], Option<&[char]>) = match find_char(rest, ';') {
        Some(j) => (&rest[0..j], Some(&rest[j + 1..rest.len()])),
        None => (rest, None),
    };
    let trace_id: u128 = match parse_trace_id(id_text) {
        Some(id) => id,
        None => {
            return Err(DecodeError::InvalidTraceId);
        },
    };
    let span_id: u64 = match parse_decimal(span_text) {
        Some(id) => id,
        None => {
            return Err(DecodeError::InvalidSpanId);
        },
    };
    let sampling_decision = decision_from_option(option);
    Ok(SpanContext { trace_id, span_id, sampling_decision, is_remote: true })
}

/// Decodes a header's value: `<trace-id>/<span-id>`, then optionally `;` and
/// an option. The value is taken as it stands, white space included.
pub fn decode(header: &str) -> (r: Result<SpanContext, DecodeError>)
    ensures
        r == decoded(header@),
        r == Err::<SpanContext, DecodeError>(DecodeError::MissingSeparator) <==> !header@.contains(
            '/',
        ),
        r matches Ok(cx) ==> cx.trace_id != 0 && cx.is_remote,
{
    let chars = chars_of(header);
    decode_chars(chars.as_slice())
}

/// The text that a decision adds after the span id.
fn suffix_text(decision: SamplingDecision) -> (t: &'static str)
    ensures
        t@ == decision_suffix(decision),
{
    proof {
        reveal_strlit(";o=1");
        reveal_strlit(";o=0");
        reveal_strlit("");
    }
    let t: &'static str = match decision {
        SamplingDecision::Sampled => ";o=1",
        SamplingDecision::NotSampled => ";o=0",
        SamplingDecision::Deferred => "",
    };
    assert(t@ =~= decision_suffix(decision));
    t
}

/// Encodes a span context as a header's value. Whether the context is worth
/// sending is the caller's question: any context has an encoding.
pub fn encode(cx: &SpanContext) -> (header: String)
    ensures
        header@ == encoded(*cx),
        cx.sampling_decision == SamplingDecision::Deferred ==> !header@.contains(';'),
        cx.trace_id != 0 ==> decoded(header@) == Ok::<SpanContext, DecodeError>(
            SpanContext { is_remote: true, ..*cx },
        ),
{
    let mut header = format_trace_id(cx.trace_id);
    proof {
        reveal_strlit("/");
        lemma_encoded_fields(*cx);
        if cx.trace_id != 0 {
            lemma_decode_encode(*cx);
        }
    }
    header.append("/");
    assert(header@ =~= trace_id_text(cx.trace_id) + seq!['/']);
    push_decimal(&mut header, cx.span_id);
    header.append(suffix_text(cx.sampling_decision));
    header
}

/// A sequence without `c` is not split; one with `c` is split at the first.
pub proof fn lemma_split_once(before: Seq<char>, c: char, after: Seq<char>)
    requires
        !before.contains(c),
    ensures
        split_once(before, c) is None,
        split_once(before + seq![c] + after, c) == Some((before, after)),
{
    assert forall|j: int| 0 <= j < before.len() implies before[j] != c by {
        if before[j] == c {
            assert(before.contains(c));
        }
    }
    lemma_first_index_of_absent(before, c);
    let s = before + seq![c] + after;
    let i = before.len() as int;
    assert(s[i] == c);
    assert forall|j: int| 0 <= j < i implies s[j] != c by {
        assert(s[j] == before[j]);
    }
    lemma_first_index_of(s, c, i);
    assert(s.subrange(0, i) =~= before);
    assert(s.subrange(i + 1, s.len() as int) =~= after);
}

/// The grammar, field by field: a value made of a trace-id text without `/`,
/// a span-id text without `;` and an option, if any, decodes to what the
/// three fields denote.
pub proof fn lemma_decoded_header_of_fields(
    id_text: Seq<char>,
    span_text: Seq<char>,
    option: Option<Seq<char>>,
)
    requires
        !id_text.contains('/'),
        !span_text.contains(';'),
    ensures
        decoded(header_of_fields(id_text, span_text, option)) == decoded_fields(
            id_text,
            span_text,
            option,
        ),
{
    let tail = match option {
        Some(t) => seq![';'] + t,
        None => Seq::empty(),
    };
    let rest = span_text + tail;
    let s = header_of_fields(id_text, span_text, option);
    assert(s =~= id_text + seq!['/'] + rest);
    lemma_split_once(id_text, '/', rest);
    match option {
        Some(t) => {
            assert(rest =~= span_text + seq![';'] + t);
            lemma_split_once(span_text, ';', t);
        },
        None => {
            assert(rest =~= span_text);
            lemma_split_once(span_text, ';', Seq::empty());
        },
    }
}

/// A value without `/` is rejected for that reason, and only such a value
/// is.
pub proof fn lemma_missing_separator(s: Seq<char>)
    ensures
        decoded(s) == Err::<SpanContext, DecodeError>(DecodeError::MissingSeparator)
            <==> !s.contains('/'),
{
    if s.contains('/') {
        let k = choose|k: int| 0 <= k < s.len() && s[k] == '/';
        lemma_first_occurrence(s, '/', k);
    } else {
        lemma_split_once(s, '/', Seq::empty());
    }
}

/// A sequence that holds `c` at `k` has a first position of `c`.
proof fn lemma_first_occurrence(s: Seq<char>, c: char, k: int)
    requires
        0 <= k < s.len(),
        s[k] == c,
    ensures
        first_index_of(s, c) is Some,
    decreases k,
{
    if exists|j: int| 0 <= j < k && s[j] == c {
        let j = choose|j: int| 0 <= j < k && s[j] == c;
        lemma_first_occurrence(s, c, j);
    } else {
        assert(is_first_index_of(s, c, k));
    }
}

/// A decoded context never has the zero trace id and is always remote.
pub proof fn lemma_decoded_is_remote_and_traced(s: Seq<char>)
    ensures
        decoded(s) matches Ok(cx) ==> cx.trace_id != 0 && cx.is_remote,
{
    if let Some((id_text, rest)) = split_once(s, '/') {
        if trace_id_of(id_text) is Some {
            lemma_hex_value_bound(id_text);
            lemma_pow2_128();
        }
    }
}

/// The zero trace id is rejected whatever follows it.
pub proof fn lemma_zero_trace_id_rejected(rest: Seq<char>)
    ensures
        decoded(trace_id_text(0) + seq!['/'] + rest) == Err::<SpanContext, DecodeError>(
            DecodeError::InvalidTraceId,
        ),
{
    let id_text = trace_id_text(0);
    lemma_trace_id_text(0);
    lemma_lacks_separators(id_text);
    lemma_split_once(id_text, '/', rest);
}

/// The two options stand for their decisions and differ from each other; no
/// option stands for a deferred decision.
pub proof fn lemma_decision_of_option()
    ensures
        not_sampled_option() != sampled_option(),
        decision_of_option(None) == SamplingDecision::Deferred,
        decision_of_option(Some(not_sampled_option())) == SamplingDecision::NotSampled,
        decision_of_option(Some(sampled_option())) == SamplingDecision::Sampled,
{
    assert(not_sampled_option()[2] != sampled_option()[2]);
}

/// Deferred is the default: a value that decodes gives a deferred decision
/// exactly when it has no option or an option other than the two that the
/// format knows.
pub proof fn lemma_deferred_by_default(s: Seq<char>)
    requires
        decoded(s) is Ok,
    ensures
        decoded(s).unwrap().sampling_decision == SamplingDecision::Deferred <==> option_text(s)
            != Some(not_sampled_option()) && option_text(s) != Some(sampled_option()),
{
    lemma_decision_of_option();
}

/// Encoding is putting the fields together: the trace id's 32 digits, the
/// span id in decimal and the decision's option. A deferred decision adds
/// nothing, not even the `;`.
pub proof fn lemma_encoded_fields(cx: SpanContext)
    ensures
        encoded(cx) == header_of_fields(
            trace_id_text(cx.trace_id),
            decimal_digits(cx.span_id as nat),
            option_of_decision(cx.sampling_decision),
        ),
        cx.sampling_decision == SamplingDecision::Deferred ==> encoded(cx) == trace_id_text(
            cx.trace_id,
        ) + seq!['/'] + decimal_digits(cx.span_id as nat) && !encoded(cx).contains(';'),
{
    let id_text = trace_id_text(cx.trace_id);
    let digits = decimal_digits(cx.span_id as nat);
    assert(encoded(cx) =~= header_of_fields(
        id_text,
        digits,
        option_of_decision(cx.sampling_decision),
    ));
    if cx.sampling_decision == SamplingDecision::Deferred {
        let s = id_text + seq!['/'] + digits;
        assert(encoded(cx) =~= s);
        lemma_trace_id_text(cx.trace_id);
        lemma_decimal_digits(cx.span_id as nat);
        lemma_lacks_separators(id_text);
        lemma_digits_lack_separators(digits);
        assert forall|j: int| 0 <= j < s.len() implies s[j] != ';' by {
            if j < 32 {
                assert(s[j] == id_text[j]);
                if id_text[j] == ';' {
                    assert(id_text.contains(';'));
                }
            } else if j > 32 {
                assert(s[j] == digits[j - 33]);
                if digits[j - 33] == ';' {
                    assert(digits.contains(';'));
                }
            }
        }
    }
}

/// Decoding what was encoded gives the context back, marked as remote. This
/// holds of every context whose trace id is not zero, whatever its span id
/// and its decision.
pub proof fn lemma_decode_encode(cx: SpanContext)
    requires
        cx.trace_id != 0,
    ensures
        decoded(encoded(cx)) == Ok::<SpanContext, DecodeError>(
            SpanContext { is_remote: true, ..cx },
        ),
{
    let id_text = trace_id_text(cx.trace_id);
    let digits = decimal_digits(cx.span_id as nat);
    let option = option_of_decision(cx.sampling_decision);
    lemma_encoded_fields(cx);
    lemma_trace_id_text(cx.trace_id);
    lemma_decimal_digits(cx.span_id as nat);
    lemma_parse_decimal_digits(cx.span_id);
    lemma_lacks_separators(id_text);
    lemma_digits_lack_separators(digits);
    lemma_decoded_header_of_fields(id_text, digits, option);
    lemma_decision_of_option();
}

/// Hexadecimal digits hold neither `/` nor `;`.
proof fn lemma_lacks_separators(s: Seq<char>)
    requires
        all_lower_hex_digits(s),
    ensures
        !s.contains('/'),
        !s.contains(';'),
{
    if s.contains('/') {
        let k = choose|k: int| 0 <= k < s.len() && s[k] == '/';
        assert(is_lower_hex_digit(s[k]));
    }
    if s.contains(';') {
        let k = choose|k: int| 0 <= k < s.len() && s[k] == ';';
        assert(is_lower_hex_digit(s[k]));
    }
}

/// Decimal digits hold no `;`.
proof fn lemma_digits_lack_separators(s: Seq<char>)
    requires
        all_decimal_digits(s),
    ensures
        !s.contains(';'),
{
    if s.contains(';') {
        let k = choose|k: int| 0 <= k < s.len() && s[k] == ';';
        assert(is_decimal_digit(s[k]));
    }
}

/// Two to the power of 128, the number of trace ids.
proof fn lemma_pow2_128()
    ensures
        pow2(128) == 0x1_0000_0000_0000_0000_0000_0000_0000_0000,
{
    lemma2_to64();
    lemma2_to64_rest();
    lemma_pow2_adds(64, 64);
}

} // verus!
