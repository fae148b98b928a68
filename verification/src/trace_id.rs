//! The trace id's text: 32 lowercase hexadecimal digits.
//!
//! The digits are checked here; the conversion between text and number is the
//! tracing framework's, reached through the two private functions at the end
//! of this file.
use opentelemetry::trace::TraceId;
use vstd::arithmetic::power2::{lemma2_to64, lemma2_to64_rest, lemma_pow2_adds, pow2};
use vstd::prelude::*;

verus! {

/// `c` is one of `0` to `9` or `a` to `f`.
pub open spec fn is_lower_hex_digit(c: char) -> bool {
    '0' <= c <= '9' || 'a' <= c <= 'f'
}

/// The number that a lowercase hexadecimal digit stands for; zero for any
/// other character.
pub open spec fn hex_digit_value(c: char) -> nat {
    if '0' <= c <= '9' {
        (c as u32 - '0' as u32) as nat
    } else if 'a' <= c <= 'f' {
        (c as u32 - 'a' as u32 + 10) as nat
    } else {
        0
    }
}

/// Every character of `s` is a lowercase hexadecimal digit.
pub open spec fn all_lower_hex_digits(s: Seq<char>) -> bool {
    forall|i: int| 0 <= i < s.len() ==> is_lower_hex_digit(#[trigger] s[i])
}

/// The number that a sequence of hexadecimal digits denotes, most significant
/// digit first.
pub open spec fn hex_value(s: Seq<char>) -> nat
    decreases s.len(),
{
    if s.len() == 0 {
        0
    } else {
        hex_value(s.drop_last()) * 16 + hex_digit_value(s.last())
    }
}

/// `s` has the form of a trace id: exactly 32 lowercase hexadecimal digits.
pub open spec fn is_trace_id_text(s: Seq<char>) -> bool {
    s.len() == 32 && all_lower_hex_digits(s)
}

/// The trace id that `s` denotes: `s` has the form of a trace id and is not
/// all zeros.
pub open spec fn trace_id_of(s: Seq<char>) -> Option<u128> {
    if is_trace_id_text(s) && hex_value(s) != 0 {
        Some(hex_value(s) as u128)
    } else {
        None
    }
}

/// The lowercase character for a hexadecimal digit below sixteen.
pub open spec fn hex_char(d: nat) -> char {
    if d < 10 {
        ('0' as u8 + d as u8) as char
    } else {
        ('a' as u8 + (d - 10) as u8) as char
    }
}

/// The last `width` hexadecimal digits of `n`, in lowercase, padded with
/// zeros on the left.
pub open spec fn lower_hex(n: nat, width: nat) -> Seq<char>
    decreases width,
{
    if width == 0 {
        Seq::empty()
    } else {
        lower_hex(n / 16, (width - 1) as nat).push(hex_char(n % 16))
    }
}

/// A trace id in its header form.
pub open spec fn trace_id_text(id: u128) -> Seq<char> {
    lower_hex(id as nat, 32)
}

/// Hexadecimal digits denote a number below sixteen to the power of their
/// count.
pub proof fn lemma_hex_value_bound(s: Seq<char>)
    ensures
        hex_value(s) < pow2(4 * s.len()),
    decreases s.len(),
{
    lemma2_to64();
    if s.len() > 0 {
        lemma_hex_value_bound(s.drop_last());
        lemma_pow2_adds(4 * s.drop_last().len(), 4);
        let p = pow2(4 * s.drop_last().len());
        let v = hex_value(s.drop_last());
        assert(v * 16 + 16 <= p * 16) by (nonlinear_arith)
            requires
                v < p,
        ;
    }
}

/// `lower_hex` gives `width` lowercase digits; they denote `n` when `n` is
/// below sixteen to the power of `width`.
pub proof fn lemma_lower_hex(n: nat, width: nat)
    ensures
        lower_hex(n, width).len() == width,
        all_lower_hex_digits(lower_hex(n, width)),
        n < pow2(4 * width) ==> hex_value(lower_hex(n, width)) == n,
    decreases width,
{
    lemma2_to64();
    if width > 0 {
        let rest = (width - 1) as nat;
        lemma_lower_hex(n / 16, rest);
        assert(lower_hex(n, width).drop_last() =~= lower_hex(n / 16, rest));
        assert(is_lower_hex_digit(hex_char(n % 16)));
        assert(hex_digit_value(hex_char(n % 16)) == n % 16);
        if n < pow2(4 * width) {
            lemma_pow2_adds(4 * rest, 4);
            let p = pow2(4 * rest);
            assert(n / 16 < p) by (nonlinear_arith)
                requires
                    n < p * 16,
            ;
        }
    }
}

/// The header form of a trace id has the form of a trace id and denotes the
/// id it was made from.
pub proof fn lemma_trace_id_text(id: u128)
    ensures
        is_trace_id_text(trace_id_text(id)),
        hex_value(trace_id_text(id)) == id,
        id != 0 ==> trace_id_of(trace_id_text(id)) == Some(id),
{
    lemma_lower_hex(id as nat, 32);
    lemma2_to64();
    lemma2_to64_rest();
    lemma_pow2_adds(64, 64);
}

/// Whether `s` has the form of a trace id.
pub fn has_trace_id_form(s: &[char]) -> (b: bool)
    ensures
        b == is_trace_id_text(s@),
{
    if s.len() != 32 {
        return false;
    }
    let mut i: usize = 0;
    while i < s.len()
        invariant
            i <= s.len(),
            all_lower_hex_digits(s@.take(i as int)),
        decreases s.len() - i,
    {
        let c: char = s[i];
        if !(('0' <= c && c <= '9') || ('a' <= c && c <= 'f')) {
            assert(!is_lower_hex_digit(s@[i as int]));
            return false;
        }
        assert(forall|j: int| 0 <= j < i + 1 ==> s@.take(i + 1)[j] == s@[j]);
        assert(forall|j: int| 0 <= j < i ==> s@.take(i as int)[j] == s@[j]);
        i += 1;
    }
    assert(s@.take(i as int) =~= s@);
    true
}

/// Reads a trace id: 32 lowercase hexadecimal digits, not all of them zero.
pub fn parse_trace_id(s: &[char]) -> (r: Option<u128>)
    ensures
        r == trace_id_of(s@),
{
    if !has_trace_id_form(s) {
        return None;
    }
    let id: u128 = trace_id_from_hex(s);
    if id == 0 {
        None
    } else {
        Some(id)
    }
}

/// Writes a trace id as 32 lowercase hexadecimal digits.
pub fn format_trace_id(id: u128) -> (text: String)
    ensures
        text@ == trace_id_text(id),
{
    trace_id_to_hex(id)
}

/// Calls `TraceId::from_hex` and takes the number out of the result with
/// `TraceId::to_u128`. Not proved: that on 32 lowercase hexadecimal digits
/// the framework returns the number they denote. (On text that is no
/// hexadecimal number it returns the zero id; such text is kept away by
/// `requires`.)
#[verifier::external_body]
fn trace_id_from_hex(hex: &[char]) -> (id: u128)
    requires
        is_trace_id_text(hex@),
    ensures
        id == hex_value(hex@),
{
    let text: String = hex.iter().collect();
    TraceId::from_hex(&text).to_u128()
}

/// Calls `TraceId::to_hex` on the id made by `TraceId::from_u128`. Not
/// proved: that the framework writes the id as 32 lowercase hexadecimal
/// digits, padded with zeros on the left.
#[verifier::external_body]
fn trace_id_to_hex(id: u128) -> (text: String)
    ensures
        text@ == lower_hex(id as nat, 32),
{
    TraceId::from_u128(id).to_hex()
}

} // verus!
