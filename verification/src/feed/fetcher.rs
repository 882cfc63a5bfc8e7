//! Conditional fetching: what is asked of the server, how its answer is
//! read, and when a failed attempt is made again.

use vstd::prelude::*;
use crate::feed::types::{clone_opt, opt_view};
use crate::text::{concat2, decimal, decimal_string};

verus! {

/// The payload of a feed that has changed, with the validators to send
/// with the next request.
#[derive(Debug)]
pub struct FetchedFeed {
    pub body: Vec<u8>,
    pub content_type: Option<String>,
    pub etag: Option<String>,
    pub last_modified: Option<String>,
}

impl Clone for FetchedFeed {
    fn clone(&self) -> (r: Self)
        ensures
            r.body@ == self.body@,
            r.content_type == self.content_type,
            r.etag == self.etag,
            r.last_modified == self.last_modified,
    {
        FetchedFeed {
            body: self.body.clone(),
            content_type: clone_opt(&self.content_type),
            etag: clone_opt(&self.etag),
            last_modified: clone_opt(&self.last_modified),
        }
    }
}

/// The outcome of a fetch that the server answered.
#[derive(Debug)]
pub enum FetchStatus {
    Updated(FetchedFeed),
    NotModified,
}

/// Why a fetch failed.
#[derive(Debug)]
pub enum FetchError {
    /// The request did not get an answer; the text says why.
    Request(String),
    /// The server answered with a status that is neither 2xx nor 304.
    HttpStatus(u16),
}

impl FetchError {
    /// The error as a line of text.
    pub open spec fn text(self) -> Seq<char> {
        match self {
            FetchError::Request(m) => "request failed: "@ + m@,
            FetchError::HttpStatus(code) => "unexpected status code: "@ + decimal(code as nat),
        }
    }

    /// The error as a line of text.
    pub fn message(&self) -> (r: String)
        ensures
            r@ == self.text(),
    {
        match self {
            FetchError::Request(m) => concat2("request failed: ", m.as_str()),
            FetchError::HttpStatus(code) => {
                let digits = decimal_string(*code as u64);
                concat2("unexpected status code: ", digits.as_str())
            },
        }
    }
}

/// A request header: its name and its value.
#[derive(Debug)]
pub struct RequestHeader {
    pub name: String,
    pub value: String,
}

/// The validators that go with a request, as (name, value) pairs: the
/// entity tag under `If-None-Match`, then the time of the last change under
/// `If-Modified-Since`, each only where it is known.
pub open spec fn conditional_header_pairs(
    etag: Option<Seq<char>>,
    last_modified: Option<Seq<char>>,
) -> Seq<(Seq<char>, Seq<char>)> {
    let first = match etag {
        Some(v) => seq![("If-None-Match"@, v)],
        None => Seq::empty(),
    };
    let second = match last_modified {
        Some(v) => seq![("If-Modified-Since"@, v)],
        None => Seq::empty(),
    };
    first + second
}

/// The headers to send with a conditional request.
pub fn conditional_headers(etag: &Option<String>, last_modified: &Option<String>) -> (r: Vec<
    RequestHeader,
>)
    ensures
        Seq::new(r@.len(), |i: int| (r@[i].name@, r@[i].value@)) == conditional_header_pairs(
            opt_view(*etag),
            opt_view(*last_modified),
        ),
{
    let mut out: Vec<RequestHeader> = Vec::new();
    if let Some(v) = etag {
        out.push(RequestHeader { name: "If-None-Match".to_owned(), value: v.clone() });
    }
    if let Some(v) = last_modified {
        out.push(RequestHeader { name: "If-Modified-Since".to_owned(), value: v.clone() });
    }
    assert(Seq::new(out@.len(), |i: int| (out@[i].name@, out@[i].value@))
        =~= conditional_header_pairs(opt_view(*etag), opt_view(*last_modified)));
    out
}

/// Status 2xx.
pub open spec fn is_success(status: u16) -> bool {
    200 <= status <= 299
}

/// Reads the server's answer: 304 is `NotModified` whatever came with it;
/// a 2xx status is `Updated` with the body and the three headers as they
/// are; any other status is refused with `HttpStatus`.
pub fn interpret_response(
    status: u16,
    body: Vec<u8>,
    content_type: Option<String>,
    etag: Option<String>,
    last_modified: Option<String>,
) -> (r: Result<FetchStatus, FetchError>)
    ensures
        status == 304 ==> r matches Ok(FetchStatus::NotModified),
        is_success(status) ==> r == Ok::<FetchStatus, FetchError>(
            FetchStatus::Updated(FetchedFeed { body, content_type, etag, last_modified }),
        ),
        status != 304 && !is_success(status) ==> r == Err::<FetchStatus, FetchError>(
            FetchError::HttpStatus(status),
        ),
{
    if status == 304 {
        return Ok(FetchStatus::NotModified);
    }
    if !(200 <= status && status <= 299) {
        return Err(FetchError::HttpStatus(status));
    }
    Ok(FetchStatus::Updated(FetchedFeed { body, content_type, etag, last_modified }))
}

/// The errors after which another attempt is in order: a request that got
/// no answer, and a status of 500 or more.
pub open spec fn is_retryable(error: FetchError) -> bool {
    match error {
        FetchError::Request(_) => true,
        FetchError::HttpStatus(code) => code >= 500,
    }
}

/// Milliseconds between attempts, per attempt made.
pub const RETRY_BASE_DELAY_MS: u64 = 40;

/// What follows a failed attempt.
#[derive(Debug, Clone, Copy, PartialEq, Eq, Structural)]
pub enum RetryDecision {
    /// The error is final.
    GiveUp,
    /// Wait this many milliseconds, then fetch again.
    RetryAfter(u64),
}

/// The wait before retry number `retry` (the first is 1), capped at what a
/// `u64` holds.
pub open spec fn retry_delay_ms(retry: nat) -> u64 {
    if RETRY_BASE_DELAY_MS * retry <= u64::MAX {
        (RETRY_BASE_DELAY_MS * retry) as u64
    } else {
        u64::MAX
    }
}

/// What follows an attempt that failed with `error` after `retries`
/// retries, where at most `max_retries` are allowed.
pub open spec fn retry_decision(error: FetchError, retries: nat, max_retries: nat) -> RetryDecision {
    if is_retryable(error) && retries < max_retries {
        RetryDecision::RetryAfter(retry_delay_ms(retries + 1))
    } else {
        RetryDecision::GiveUp
    }
}

/// Decides what follows a failed attempt. `retries` counts the retries made
/// so far.
pub fn decide_retry(error: &FetchError, retries: usize, max_retries: usize) -> (r: RetryDecision)
    ensures
        r == retry_decision(*error, retries as nat, max_retries as nat),
{
    let retryable = match error {
        FetchError::Request(_) => true,
        FetchError::HttpStatus(code) => *code >= 500,
    };
    if !retryable || retries >= max_retries {
        return RetryDecision::GiveUp;
    }
    let retry: u64 = retries as u64 + 1;
    let delay: u64 = if retry <= u64::MAX / RETRY_BASE_DELAY_MS {
        RETRY_BASE_DELAY_MS * retry
    } else {
        u64::MAX
    };
    RetryDecision::RetryAfter(delay)
}

/// The number of attempts that have been made when the fetch loop ends,
/// where attempt `i` (from 0) ends as `outcomes[i]` says: `None` for an
/// answer, an error otherwise. `retries` attempts have failed so far.
pub open spec fn attempts_from(
    outcomes: Seq<Option<FetchError>>,
    retries: nat,
    max_retries: nat,
) -> nat
    decreases outcomes.len() - retries,
{
    if retries >= outcomes.len() {
        retries
    } else {
        match outcomes[retries as int] {
            None => retries + 1,
            Some(e) => match retry_decision(e, retries, max_retries) {
                RetryDecision::GiveUp => retries + 1,
                RetryDecision::RetryAfter(_) => attempts_from(outcomes, retries + 1, max_retries),
            },
        }
    }
}

/// The number of attempts of a whole run.
pub open spec fn attempts_made(outcomes: Seq<Option<FetchError>>, max_retries: nat) -> nat {
    attempts_from(outcomes, 0, max_retries)
}

proof fn lemma_attempts_from(outcomes: Seq<Option<FetchError>>, retries: nat, max_retries: nat)
    requires
        retries <= max_retries < outcomes.len(),
    ensures
        retries < attempts_from(outcomes, retries, max_retries) <= max_retries + 1,
        forall|i: int|
            retries <= i < attempts_from(outcomes, retries, max_retries) - 1 ==> (
            #[trigger] outcomes[i]) is Some && is_retryable(outcomes[i]->Some_0),
        attempts_from(outcomes, retries, max_retries) <= max_retries ==> {
            let last = outcomes[attempts_from(outcomes, retries, max_retries) - 1];
            last is None || !is_retryable(last->Some_0)
        },
    decreases outcomes.len() - retries,
{
    match outcomes[retries as int] {
        None => {},
        Some(e) => match retry_decision(e, retries, max_retries) {
            RetryDecision::GiveUp => {},
            RetryDecision::RetryAfter(_) => {
                lemma_attempts_from(outcomes, retries + 1, max_retries);
            },
        },
    }
}

/// A run retries exactly on errors that ask for it. With at most
/// `max_retries` retries, and an outcome on record for each attempt that
/// can be made: at least one attempt is made and at most `max_retries + 1`;
/// every attempt but the last failed with a retryable error; and a run that
/// stops before the retries are used up stops on an answer or on an error
/// that is not retryable.
pub proof fn lemma_retries_exactly_on_retryable(
    outcomes: Seq<Option<FetchError>>,
    max_retries: nat,
)
    requires
        max_retries < outcomes.len(),
    ensures
        1 <= attempts_made(outcomes, max_retries) <= max_retries + 1,
        forall|i: int|
            0 <= i < attempts_made(outcomes, max_retries) - 1 ==> (#[trigger] outcomes[i]) is Some
                && is_retryable(outcomes[i]->Some_0),
        attempts_made(outcomes, max_retries) <= max_retries ==> {
            let last = outcomes[attempts_made(outcomes, max_retries) - 1];
            last is None || !is_retryable(last->Some_0)
        },
{
    lemma_attempts_from(outcomes, 0, max_retries);
}

/// Against a server that fails every attempt with a status of 500 or more,
/// or that never answers, exactly `max_retries + 1` attempts are made.
pub proof fn lemma_persistent_failure_uses_all_retries(
    outcomes: Seq<Option<FetchError>>,
    max_retries: nat,
)
    requires
        max_retries < outcomes.len(),
        forall|i: int|
            0 <= i <= max_retries ==> (#[trigger] outcomes[i]) is Some && is_retryable(
                outcomes[i]->Some_0,
            ),
    ensures
        attempts_made(outcomes, max_retries) == max_retries + 1,
{
    lemma_attempts_from(outcomes, 0, max_retries);
    let a = attempts_made(outcomes, max_retries);
    if a <= max_retries {
        assert(outcomes[a - 1] is Some && is_retryable(outcomes[a - 1]->Some_0));
    }
}

/// A status below 500 is never retried: the attempt that meets it is the
/// last, however many retries are left.
pub proof fn lemma_client_error_is_final(
    outcomes: Seq<Option<FetchError>>,
    max_retries: nat,
    k: int,
    code: u16,
)
    requires
        0 <= k <= max_retries < outcomes.len(),
        code < 500,
        outcomes[k] == Some(FetchError::HttpStatus(code)),
        forall|i: int|
            0 <= i < k ==> (#[trigger] outcomes[i]) is Some && is_retryable(outcomes[i]->Some_0),
    ensures
        attempts_made(outcomes, max_retries) == k + 1,
{
    lemma_attempts_from(outcomes, 0, max_retries);
    let a = attempts_made(outcomes, max_retries);
    if a - 1 > k {
        assert(is_retryable(outcomes[k]->Some_0));
    }
    if a - 1 < k {
        assert(outcomes[a - 1] is Some && is_retryable(outcomes[a - 1]->Some_0));
    }
}

} // verus!
