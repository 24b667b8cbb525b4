//! What every HTTP client of a vendor decides: its headers, what a failed call
//! means, and whether and when to try again.

use vstd::prelude::*;
use vstd::string::*;

use crate::json::{Json, JsonView};
use crate::provider::{doubled_up_to, LlmError, LlmErrorView, RetryPolicy};
use crate::text::{decimal, decimal_text, number_value, parse_number, same};
use crate::time::Duration;

verus! {

broadcast use vstd::string::group_string_axioms;

/// The name of a header in its normal form, where it is one.
pub uninterp spec fn header_name(name: Seq<char>) -> Option<Seq<char>>;

/// Whether a byte may stand in a header value.
pub open spec fn value_byte(b: u8) -> bool {
    (b >= 32 && b != 127) || b == 9
}

/// Whether a string may be a header value.
pub open spec fn valid_value(value: Seq<char>) -> bool {
    let bytes = vstd::utf8::encode_utf8(value);
    forall|i: int| #![auto] 0 <= i < bytes.len() ==> value_byte(bytes[i])
}

/// Calls `reqwest::header::HeaderName::from_bytes`. The result is named by
/// [`header_name`]: the normal form of a valid name, nothing for any other.
#[verifier::external_body]
fn header_name_of(name: &str) -> (r: Option<String>)
    ensures
        r.deep_view() == header_name(name@),
{
    reqwest::header::HeaderName::from_bytes(name.as_bytes()).ok().map(|n| n.as_str().to_owned())
}

/// Calls `reqwest::header::HeaderValue::from_bytes`, which accepts exactly the
/// strings of tabs and bytes from 32 up, without 127.
#[verifier::external_body]
fn is_header_value(value: &str) -> (r: bool)
    ensures
        r == valid_value(value@),
{
    reqwest::header::HeaderValue::from_bytes(value.as_bytes()).is_ok()
}

/// The headers with one more: in place of the one of its name, or at the end.
pub open spec fn put_header(
    headers: Seq<(Seq<char>, Seq<char>)>,
    name: Seq<char>,
    value: Seq<char>,
) -> Seq<(Seq<char>, Seq<char>)>
    decreases headers.len(),
{
    if headers.len() == 0 {
        seq![(name, value)]
    } else if headers[0].0 == name {
        headers.update(0, (name, value))
    } else {
        seq![headers[0]] + put_header(headers.drop_first(), name, value)
    }
}

/// The headers that pairs of names and values give. A pair that is no header is
/// passed over, and a later value replaces an earlier one of its name.
pub open spec fn headers_of(pairs: Seq<(Seq<char>, Seq<char>)>) -> Seq<(Seq<char>, Seq<char>)>
    decreases pairs.len(),
{
    if pairs.len() == 0 {
        Seq::empty()
    } else {
        let before = headers_of(pairs.drop_last());
        match header_name(pairs.last().0) {
            Some(n) if valid_value(pairs.last().1) => put_header(before, n, pairs.last().1),
            _ => before,
        }
    }
}

/// `put_header` by position.
proof fn lemma_put_header(
    headers: Seq<(Seq<char>, Seq<char>)>,
    name: Seq<char>,
    value: Seq<char>,
    n: int,
)
    requires
        0 <= n <= headers.len(),
        forall|i: int| 0 <= i < n ==> (#[trigger] headers[i]).0 != name,
        n < headers.len() ==> headers[n].0 == name,
    ensures
        put_header(headers, name, value) == (if n < headers.len() {
            headers.update(n, (name, value))
        } else {
            headers.push((name, value))
        }),
    decreases n,
{
    if n > 0 {
        let rest = headers.drop_first();
        assert(headers[0].0 != name);
        assert forall|i: int| 0 <= i < n - 1 implies (#[trigger] rest[i]).0 != name by {
            assert(rest[i] == headers[i + 1]);
        }
        lemma_put_header(rest, name, value, n - 1);
    }
    assert(put_header(headers, name, value) =~= (if n < headers.len() {
        headers.update(n, (name, value))
    } else {
        headers.push((name, value))
    }));
}

/// The headers that pairs of names and values give.
pub fn header_list(pairs: &Vec<(String, String)>) -> (r: Vec<(String, String)>)
    ensures
        r.deep_view() == headers_of(pairs.deep_view()),
{
    let ghost all = pairs.deep_view();
    let mut out: Vec<(String, String)> = Vec::new();
    let mut i: usize = 0;
    proof {
        assert(out.deep_view() =~= headers_of(all.take(0)));
    }
    while i < pairs.len()
        invariant
            i <= pairs@.len(),
            all == pairs.deep_view(),
            out.deep_view() == headers_of(all.take(i as int)),
        decreases pairs@.len() - i,
    {
        proof {
            assert(all.take(i + 1).drop_last() =~= all.take(i as int));
            assert(all.take(i + 1).last() == all[i as int]);
        }
        if let Some(name) = header_name_of(pairs[i].0.as_str()) {
            if is_header_value(pairs[i].1.as_str()) {
                let ghost before = out.deep_view();
                let value = pairs[i].1.clone();
                let mut n: usize = 0;
                while n < out.len() && !same(out[n].0.as_str(), name.as_str())
                    invariant
                        n <= out@.len(),
                        before == out.deep_view(),
                        forall|j: int| 0 <= j < n ==> (#[trigger] before[j]).0 != name@,
                    decreases out@.len() - n,
                {
                    n = n + 1;
                }
                proof {
                    lemma_put_header(before, name@, value@, n as int);
                }
                let ghost pair = (name@, value@);
                if n < out.len() {
                    out.set(n, (name, value));
                    proof {
                        assert(out.deep_view() =~= before.update(n as int, pair));
                    }
                } else {
                    out.push((name, value));
                    proof {
                        assert(out.deep_view() =~= before.push(pair));
                    }
                }
            }
        }
        i = i + 1;
    }
    proof {
        assert(all.take(all.len() as int) =~= all);
    }
    out
}

/// The message of an error with its HTTP status.
pub open spec fn status_text(status: u16, body: Seq<char>) -> Seq<char> {
    "HTTP "@ + decimal(status as nat) + ": "@ + body
}

/// What an HTTP status that is no success means.
pub open spec fn error_for(status: u16, retry_after: Option<Duration>, body: Seq<char>) ->
    LlmErrorView {
    if status == 401 || status == 403 {
        LlmErrorView::Auth
    } else if status == 408 {
        LlmErrorView::Timeout
    } else if status == 429 {
        LlmErrorView::RateLimited(retry_after)
    } else if status == 402 {
        LlmErrorView::InsufficientBalance(status_text(status, body))
    } else if status == 421 {
        LlmErrorView::ContentBlocked(status_text(status, body))
    } else if status == 400 || status == 404 || status == 422 {
        LlmErrorView::BadRequest(status_text(status, body))
    } else {
        LlmErrorView::Server(status, body)
    }
}

/// The wait that a `Retry-After` header asks for: a number of seconds.
pub open spec fn asked_seconds(header: Option<Seq<char>>) -> Option<Duration> {
    match header {
        Some(h) => match number_value(h, u64::MAX as nat) {
            Some(n) => Some((Duration { secs: n as u64, nanos: 0 })),
            None => None,
        },
        None => None,
    }
}

/// What an HTTP status that is no success means, with the `Retry-After` header
/// and the body that came with it.
pub fn map_http_error(status: u16, retry_after: Option<&str>, body: String) -> (r: LlmError)
    ensures
        r.deep_view() == error_for(status, asked_seconds(retry_after.deep_view()), body@),
{
    if status == 401 || status == 403 {
        return LlmError::Auth;
    }
    if status == 408 {
        return LlmError::Timeout;
    }
    if status == 429 {
        let wait = match retry_after {
            Some(h) => match parse_number(h) {
                Some(n) => Some(Duration { secs: n, nanos: 0 }),
                None => None,
            },
            None => None,
        };
        return LlmError::RateLimited { retry_after: wait };
    }
    if status == 402 || status == 421 || status == 400 || status == 404 || status == 422 {
        let mut msg = "HTTP ".to_owned();
        msg.append(decimal_text(status as u64).as_str());
        msg.append(": ");
        msg.append(body.as_str());
        if status == 402 {
            return LlmError::InsufficientBalance(msg);
        }
        if status == 421 {
            return LlmError::ContentBlocked(msg);
        }
        return LlmError::BadRequest(msg);
    }
    LlmError::Server { status, body }
}

/// Only a rate limit and the failures of a server among the HTTP statuses are
/// worth another try.
pub proof fn law_status_retry(status: u16, wait: Option<Duration>, body: Seq<char>)
    ensures
        error_for(status, wait, body).retryable() <==> !(status == 400 || status == 401 || status
            == 402 || status == 403 || status == 404 || status == 408 || status == 421 || status
            == 422),
{
}

/// What a call that got no response means.
pub fn map_transport_error(timed_out: bool, message: String) -> (r: LlmError)
    ensures
        r.deep_view() == (if timed_out {
            LlmErrorView::Timeout
        } else {
            LlmErrorView::Network(message@)
        }),
{
    if timed_out {
        LlmError::Timeout
    } else {
        LlmError::Network(message)
    }
}

/// The length of the wait after a failed attempt, in nanoseconds: what the
/// vendor asked for, unless that is nothing, else the policy's delay.
pub open spec fn wait_after(policy: RetryPolicy, e: LlmErrorView, attempt: u32) -> int {
    match e.asked_wait() {
        Some(w) if w.total() != 0 => w.total(),
        _ => doubled_up_to(policy.base_delay.total(), policy.max_delay.total(), attempt as nat),
    }
}

/// The wait after a failed attempt.
pub fn compute_backoff(policy: &RetryPolicy, e: &LlmError, attempt: u32) -> (r: Duration)
    requires
        policy.wf(),
        e.deep_view().asked_wait() matches Some(w) ==> w.wf(),
    ensures
        r.wf(),
        r.total() == wait_after(*policy, e.deep_view(), attempt),
{
    if let LlmError::RateLimited { retry_after: Some(ra) } = e {
        if !ra.is_zero() {
            return *ra;
        }
    }
    policy.backoff_for(attempt)
}

/// Whether to try again after attempt number `attempt` failed, and after what
/// wait: as long as the failure may pass and tries are left.
pub fn next_try(policy: &RetryPolicy, e: &LlmError, attempt: u32) -> (r: Option<Duration>)
    requires
        policy.wf(),
        e.deep_view().asked_wait() matches Some(w) ==> w.wf(),
    ensures
        r is Some <==> e.deep_view().retryable() && attempt < policy.max_retries,
        r is Some ==> r->0.wf() && r->0.total() == wait_after(*policy, e.deep_view(), attempt),
{
    if RetryPolicy::is_retryable(e) && attempt < policy.max_retries {
        Some(compute_backoff(policy, e, attempt))
    } else {
        None
    }
}

/// A request body with its `stream` field.
pub fn with_stream(body: Json, on: bool) -> (r: Json)
    ensures
        r.deep_view() == body.deep_view().with("stream"@, JsonView::Bool(on)),
{
    body.with("stream", Json::Bool(on))
}

} // verus!
