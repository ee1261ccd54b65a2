//! Decoding an upstream response body into a metric record.
//!
//! The body is parsed as JSON and a known subset of fields is extracted from
//! the first result. A missing or malformed field is never fatal: each field
//! independently defaults to a zero-equivalent value. The fetch itself only
//! fails on an unparseable body (the transport and status failures are
//! reported by the caller that performed the request).

use vstd::prelude::*;
use serde_json::Value;
use crate::errors::OracleError;
use crate::message::MyMetrics;

verus! {

/// The known fields of the first result's node in an upstream body, as plain
/// values: the title, the rating's decimal rendering, the popularity rank and
/// the member count, each `None` where the field is absent or of another
/// kind; `None` as a whole exactly when the bytes are not a JSON document.
/// Parsing and navigation are functions of the bytes alone.
pub uninterp spec fn node_fields_of(b: Seq<u8>) -> Option<
    (Option<Seq<char>>, Option<Seq<char>>, Option<i64>, Option<i64>),
>;

/// The view of an optionally extracted string field.
pub open spec fn opt_text(o: Option<String>) -> Option<Seq<char>> {
    match o {
        Some(s) => Some(s@),
        None => None,
    }
}

/// Relies on serde_json::from_slice::<Value> and Value::{get, as_str,
/// as_i64, is_number} and the decimal rendering of a number value: parses
/// the body and reads `data[0].node.{title, mean, popularity,
/// num_list_users}`; the whole result is a deterministic function of the
/// bytes.
#[verifier::external_body]
fn extract_node_fields(bytes: &Vec<u8>) -> (r: Option<
    (Option<String>, Option<String>, Option<i64>, Option<i64>),
>)
    ensures
        r is Some <==> node_fields_of(bytes@) is Some,
        r matches Some(f) ==> node_fields_of(bytes@) == Some(
            (opt_text(f.0), opt_text(f.1), f.2, f.3),
        ),
{
    let v: Value = serde_json::from_slice(bytes).ok()?;
    let node = v.get("data").and_then(|d| d.get(0)).and_then(|n| n.get("node"));
    let title = node.and_then(|n| n.get("title")).and_then(|t| t.as_str()).map(String::from);
    let mean = node.and_then(|n| n.get("mean")).filter(|m| m.is_number()).map(|m| m.to_string());
    let rank = node.and_then(|n| n.get("popularity")).and_then(|p| p.as_i64());
    let members = node.and_then(|n| n.get("num_list_users")).and_then(|u| u.as_i64());
    Some((title, mean, rank, members))
}

/// Classifies the upstream's HTTP status: a success status passes, any other
/// fails the fetch with that status.
pub fn classify_status(status: u16) -> (r: Result<(), OracleError>)
    ensures
        match r {
            Ok(_) => 200 <= status < 300,
            Err(e) => !(200 <= status < 300) && e == (OracleError::UpstreamError { status }),
        },
{
    if 200 <= status && status < 300 {
        Ok(())
    } else {
        Err(OracleError::UpstreamError { status })
    }
}

// ---------------------------------------------------------------------------
// Decimal ratings, verified: "8.53" is carried as 853 hundredths
// ---------------------------------------------------------------------------

pub open spec fn spec_is_digit(c: char) -> bool {
    48 <= c as u32 && c as u32 <= 57
}

pub open spec fn digit_val(c: char) -> int {
    c as u32 - 48
}

pub open spec fn all_digits(s: Seq<char>) -> bool {
    forall|i: int| 0 <= i < s.len() ==> spec_is_digit(s[i])
}

/// The value of a digit string, most significant first.
pub open spec fn digits_val(s: Seq<char>) -> int
    decreases s.len(),
{
    if s.len() == 0 {
        0
    } else {
        digits_val(s.drop_last()) * 10 + digit_val(s.last())
    }
}

/// The length of the leading run of digits.
pub open spec fn digit_prefix_len(s: Seq<char>) -> int
    decreases s.len(),
{
    if s.len() == 0 || !spec_is_digit(s[0]) {
        0
    } else {
        1 + digit_prefix_len(s.skip(1))
    }
}

/// The value in hundredths of an unsigned decimal literal: one to fifteen
/// integer digits, optionally followed by a point and at least one fraction
/// digit. Fraction digits beyond the second are read but do not contribute.
pub open spec fn unsigned_centis_of(s: Seq<char>) -> Option<int> {
    let p = digit_prefix_len(s);
    if p == 0 || p > 15 {
        None
    } else if p == s.len() {
        Some(digits_val(s) * 100)
    } else if s[p] == '.' {
        let f = s.skip(p + 1);
        if f.len() >= 1 && all_digits(f) {
            if f.len() >= 2 {
                Some(digits_val(s.take(p)) * 100 + digit_val(f[0]) * 10 + digit_val(f[1]))
            } else {
                Some(digits_val(s.take(p)) * 100 + digit_val(f[0]) * 10)
            }
        } else {
            None
        }
    } else {
        None
    }
}

/// The value in hundredths of a decimal literal with an optional leading
/// minus sign. Exponent notation is deliberately not read: a rating whose
/// rendering carries an exponent (a magnitude far outside the rating scale)
/// is treated as malformed and so defaults to zero.
pub open spec fn decimal_centis_of(s: Seq<char>) -> Option<int> {
    if s.len() > 0 && s[0] == '-' {
        match unsigned_centis_of(s.skip(1)) {
            Some(v) => Some(-v),
            None => None,
        }
    } else {
        unsigned_centis_of(s)
    }
}

pub open spec fn pow10(n: nat) -> int
    decreases n,
{
    if n == 0 {
        1
    } else {
        10 * pow10((n - 1) as nat)
    }
}

proof fn lemma_digit_prefix_is(s: Seq<char>, p: int)
    requires
        0 <= p <= s.len(),
        forall|j: int| 0 <= j < p ==> spec_is_digit(s[j]),
        p < s.len() ==> !spec_is_digit(s[p]),
    ensures
        digit_prefix_len(s) == p,
    decreases p,
{
    if p == 0 {
    } else {
        lemma_digit_prefix_is(s.skip(1), p - 1);
    }
}

proof fn lemma_digits_val_step(s: Seq<char>, k: int)
    requires
        0 <= k < s.len(),
    ensures
        digits_val(s.take(k + 1)) == digits_val(s.take(k)) * 10 + digit_val(s[k]),
{
    assert(s.take(k + 1).drop_last() =~= s.take(k));
    assert(s.take(k + 1).last() == s[k]);
}

/// Parses a decimal literal into hundredths, exactly as `decimal_centis_of`
/// reads it.
pub fn parse_decimal_centis(s: &String) -> (r: Option<i64>)
    ensures
        match r {
            Some(v) => decimal_centis_of(s@) == Some(v as int),
            None => decimal_centis_of(s@) is None,
        },
{
    let text = s.as_str();
    let n = vstd::string::StrSliceExecFns::unicode_len(text);
    let neg = n > 0 && vstd::string::StrSliceExecFns::get_char(text, 0) == '-';
    let start: usize = if neg {
        1
    } else {
        0
    };
    let ghost body = if neg {
        s@.skip(1)
    } else {
        s@
    };
    proof {
        if neg {
            assert(body =~= s@.skip(1));
        } else {
            assert(body =~= s@.skip(0));
            assert(s@.skip(0) =~= s@);
        }
        assert(body.len() == n - start);
        assert(forall|j: int| 0 <= j < body.len() ==> body[j] == s@[start + j]);
    }
    // Leading run of digits.
    let mut i: usize = start;
    let mut intval: i64 = 0;
    let ghost mut count: int = 0;
    loop
        invariant
            start <= i <= n,
            n == s@.len(),
            text@ == s@,
            neg == (s@.len() > 0 && s@[0] == '-'),
            body == (if neg { s@.skip(1) } else { s@ }),
            start == (if neg { 1int } else { 0int }),
            count == i - start,
            0 <= count <= 15,
            body.len() == n - start,
            forall|j: int| 0 <= j < body.len() ==> body[j] == s@[start + j],
            forall|j: int| 0 <= j < count ==> spec_is_digit(body[j]),
            0 <= intval,
            intval == digits_val(body.take(count)),
            intval < pow10(count as nat),
        ensures
            start <= i <= n,
            count == i - start,
            0 <= count <= 15,
            forall|j: int| 0 <= j < count ==> spec_is_digit(body[j]),
            0 <= intval,
            intval == digits_val(body.take(count)),
            intval < pow10(count as nat),
            i == n || !spec_is_digit(body[count]),
        decreases n - i,
    {
        if i >= n {
            break;
        }
        let c = vstd::string::StrSliceExecFns::get_char(text, i);
        if (c as u32) < 48 || (c as u32) > 57 {
            break;
        }
        if i - start >= 15 {
            proof {
                assert(body[count] == s@[start + count]);
                assert(spec_is_digit(body[count]));
                lemma_digit_prefix_extends(body, count);
            }
            return None;
        }
        let d = (c as u32) - 48;
        proof {
            assert(body[count] == s@[start + count]);
            assert(spec_is_digit(body[count]));
        }
        proof {
            lemma_digits_val_step(body, count);
            assert(pow10((count + 1) as nat) == 10 * pow10(count as nat));
            lemma_pow10_at_most_15(count as nat);
        }
        intval = intval * 10 + (d as i64);
        i = i + 1;
        proof {
            count = count + 1;
        }
    }
    let p = i - start;
    proof {
        lemma_digit_prefix_at(body, count, i < n);
    }
    if p == 0 {
        return None;
    }
    if i == n {
        // Digits to the end: an integer literal.
        proof {
            assert(body.take(count) =~= body);
            lemma_pow10_at_most_15(count as nat);
        }
        let v = intval * 100;
        return Some(if neg {
            -v
        } else {
            v
        });
    }
    let dot = vstd::string::StrSliceExecFns::get_char(text, i);
    proof {
        assert(body[count] == s@[start + count]);
    }
    if dot != '.' {
        return None;
    }
    // Fraction: at least one digit; all must be digits; the first two count.
    if i + 1 >= n {
        return None;
    }
    let ghost frac = body.skip(count + 1);
    proof {
        assert(frac.len() == n - i - 1);
        assert(forall|j: int| 0 <= j < frac.len() ==> frac[j] == s@[i + 1 + j]);
    }
    let mut k: usize = i + 1;
    while k < n
        invariant
            i + 1 <= k <= n,
            n == s@.len(),
            text@ == s@,
            neg == (s@.len() > 0 && s@[0] == '-'),
            body == (if neg { s@.skip(1) } else { s@ }),
            start == (if neg { 1int } else { 0int }),
            body.len() == n - start,
            count == i - start,
            0 < count <= 15,
            count < body.len(),
            digit_prefix_len(body) == count,
            body[count] == '.',
            frac == body.skip(count + 1),
            frac.len() == n - i - 1,
            forall|j: int| 0 <= j < frac.len() ==> frac[j] == s@[i + 1 + j],
            forall|j: int| 0 <= j < k - i - 1 ==> spec_is_digit(frac[j]),
        decreases n - k,
    {
        let c = vstd::string::StrSliceExecFns::get_char(text, k);
        if (c as u32) < 48 || (c as u32) > 57 {
            proof {
                assert(frac[k - i - 1] == s@[k as int]);
                assert(!spec_is_digit(frac[k - i - 1]));
                assert(!all_digits(frac));
            }
            return None;
        }
        proof {
            assert(frac[k - i - 1] == s@[k as int]);
            assert(spec_is_digit(frac[k - i - 1]));
        }
        k = k + 1;
    }
    proof {
        assert(all_digits(frac));
    }
    let d0 = vstd::string::StrSliceExecFns::get_char(text, i + 1);
    proof {
        assert(frac[0] == s@[i + 1]);
        assert(spec_is_digit(frac[0]));
    }
    let f0 = ((d0 as u32) - 48) as i64;
    let centi: i64 = if i + 2 < n {
        let d1 = vstd::string::StrSliceExecFns::get_char(text, i + 2);
        proof {
            assert(frac[1] == s@[i + 2]);
            assert(spec_is_digit(frac[1]));
        }
        f0 * 10 + (((d1 as u32) - 48) as i64)
    } else {
        f0 * 10
    };
    proof {
        lemma_pow10_at_most_15(count as nat);
    }
    let v = intval * 100 + centi;
    Some(if neg {
        -v
    } else {
        v
    })
}

/// After reading `p` digits with another digit next, the digit prefix is
/// longer than `p`.
proof fn lemma_digit_prefix_extends(s: Seq<char>, p: int)
    requires
        0 <= p < s.len(),
        forall|j: int| 0 <= j <= p ==> spec_is_digit(s[j]),
    ensures
        digit_prefix_len(s) > p,
    decreases p,
{
    if p == 0 {
        assert(digit_prefix_len(s) == 1 + digit_prefix_len(s.skip(1)));
        assert(digit_prefix_len(s.skip(1)) >= 0) by {
            lemma_digit_prefix_nonneg(s.skip(1));
        }
    } else {
        lemma_digit_prefix_extends(s.skip(1), p - 1);
    }
}

proof fn lemma_digit_prefix_nonneg(s: Seq<char>)
    ensures
        0 <= digit_prefix_len(s) <= s.len(),
    decreases s.len(),
{
    if s.len() > 0 && spec_is_digit(s[0]) {
        lemma_digit_prefix_nonneg(s.skip(1));
    }
}

/// After the scan stopped at `p` (either the end, or a non-digit), the digit
/// prefix is exactly `p`.
proof fn lemma_digit_prefix_at(s: Seq<char>, p: int, stopped_inside: bool)
    requires
        0 <= p <= s.len(),
        forall|j: int| 0 <= j < p ==> spec_is_digit(s[j]),
        stopped_inside ==> p < s.len() && !spec_is_digit(s[p]),
        !stopped_inside ==> p == s.len(),
    ensures
        digit_prefix_len(s) == p,
{
    lemma_digit_prefix_is(s, p);
}

proof fn lemma_pow10_pos(n: nat)
    ensures
        pow10(n) >= 1,
    decreases n,
{
    if n > 0 {
        lemma_pow10_pos((n - 1) as nat);
    }
}

proof fn lemma_pow10_mono(a: nat, b: nat)
    requires
        a <= b,
    ensures
        pow10(a) <= pow10(b),
    decreases b,
{
    if a < b {
        lemma_pow10_mono(a, (b - 1) as nat);
        lemma_pow10_pos((b - 1) as nat);
    }
}

proof fn lemma_pow10_at_most_15(n: nat)
    requires
        n <= 15,
    ensures
        1 <= pow10(n) <= 1000000000000000,
{
    lemma_pow10_pos(n);
    lemma_pow10_mono(n, 15);
    assert(pow10(15) == 1000000000000000) by {
        reveal_with_fuel(pow10, 17);
    }
}

// ---------------------------------------------------------------------------
// Field defaulting, verified
// ---------------------------------------------------------------------------

/// The title defaulting rule: a missing or non-string title is empty.
pub open spec fn text_or_empty(t: Option<Seq<char>>) -> Seq<char> {
    match t {
        Some(s) => s,
        None => Seq::<char>::empty(),
    }
}

/// The rank and member-count defaulting rule: a missing or non-integer field
/// is zero.
pub open spec fn int_field_of(v: Option<i64>) -> i64 {
    match v {
        Some(x) => x,
        None => 0,
    }
}

/// The rating defaulting rule over the field's decimal text.
pub open spec fn centi_of_text(t: Option<Seq<char>>) -> int {
    match t {
        Some(s) => match decimal_centis_of(s) {
            Some(v) => v,
            None => 0,
        },
        None => 0,
    }
}

/// Builds the metric record from the independently extracted fields. Each
/// missing or malformed field defaults to its zero-equivalent; no combination
/// of missing fields is an error.
pub fn metrics_from_fields(
    title: Option<String>,
    rating_text: Option<String>,
    rank: Option<i64>,
    members: Option<i64>,
    queried_name: String,
) -> (m: MyMetrics)
    ensures
        m@.title == text_or_empty(opt_text(title)),
        m@.rating_centi == centi_of_text(opt_text(rating_text)),
        m@.rank == int_field_of(rank),
        m@.members == int_field_of(members),
        m@.queried_name == queried_name@,
{
    let title_v = match title {
        Some(t) => t,
        None => String::new(),
    };
    let rating = match rating_text {
        Some(t) => match parse_decimal_centis(&t) {
            Some(v) => v,
            None => 0,
        },
        None => 0,
    };
    MyMetrics {
        title: title_v,
        external_average_rating_centi: rating,
        external_popularity_rank: match rank {
            Some(v) => v,
            None => 0,
        },
        external_member_count: match members {
            Some(v) => v,
            None => 0,
        },
        queried_name,
    }
}

/// Parses an upstream body and extracts the metric record. `None` exactly
/// when the body is not JSON; otherwise every field of the record is pinned
/// to the named extraction of the body bytes, under the defaulting rules of
/// `metrics_from_fields`.
pub fn decode_body(bytes: &Vec<u8>, queried_name: String) -> (r: Option<MyMetrics>)
    ensures
        r is Some <==> node_fields_of(bytes@) is Some,
        r matches Some(m) ==> (node_fields_of(bytes@) matches Some(f) && m@.title
            == text_or_empty(f.0) && m@.rating_centi == centi_of_text(f.1) && m@.rank
            == int_field_of(f.2) && m@.members == int_field_of(f.3) && m@.queried_name
            == queried_name@),
{
    match extract_node_fields(bytes) {
        Some((title, mean_text, rank, members)) => Some(
            metrics_from_fields(title, mean_text, rank, members, queried_name),
        ),
        None => None,
    }
}

} // verus!
