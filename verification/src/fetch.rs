//! Provider errors, and the retry policy of a GET request: up to three
//! retries with exponential backoff for transport failures and server errors.
use vstd::prelude::*;

use crate::text::{decimal, push_decimal, push_str};

verus! {

/// Why a provider request failed.
#[derive(Debug)]
pub enum ProviderError {
    /// The request could not be sent or its answer not received; the text of
    /// the transport's error.
    Http { message: String },
    /// The service refused the credentials.
    Auth { provider: String, message: String },
    /// The service answered with an error status.
    Api { provider: String, status: u16, message: String },
    /// The answer was not what was expected.
    Deserialize(String),
    Other(String),
}

impl ProviderError {
    pub open spec fn message_text(&self) -> Seq<char> {
        match self {
            ProviderError::Http { message } => "HTTP request failed: "@ + message@,
            ProviderError::Auth { provider, message } => "authentication failed for provider '"@
                + provider@ + "': "@ + message@,
            ProviderError::Api { provider, status, message } => "API error from "@ + provider@
                + ": "@ + decimal(*status as nat) + " "@ + message@,
            ProviderError::Deserialize(m) => "deserialization error: "@ + m@,
            ProviderError::Other(m) => m@,
        }
    }

    /// The error's message (`Display for ProviderError`).
    pub fn message(&self) -> (r: String)
        ensures
            r@ == self.message_text(),
    {
        match self {
            ProviderError::Http { message } => {
                let mut r = String::from_str("HTTP request failed: ");
                push_str(&mut r, message.as_str());
                r
            },
            ProviderError::Auth { provider, message } => {
                let mut r = String::from_str("authentication failed for provider '");
                push_str(&mut r, provider.as_str());
                push_str(&mut r, "': ");
                push_str(&mut r, message.as_str());
                r
            },
            ProviderError::Api { provider, status, message } => {
                let mut r = String::from_str("API error from ");
                push_str(&mut r, provider.as_str());
                push_str(&mut r, ": ");
                push_decimal(&mut r, *status as u64);
                push_str(&mut r, " ");
                push_str(&mut r, message.as_str());
                r
            },
            ProviderError::Deserialize(m) => {
                let mut r = String::from_str("deserialization error: ");
                push_str(&mut r, m.as_str());
                r
            },
            ProviderError::Other(m) => m.clone(),
        }
    }
}

/// The error for an answer that could not be parsed.
pub fn parse_failure(url: &str, detail: &str) -> (r: ProviderError)
    ensures
        r matches ProviderError::Deserialize(m) && m@ == "failed to parse response from "@ + url@
            + ": "@ + detail@,
{
    let mut m = String::from_str("failed to parse response from ");
    push_str(&mut m, url);
    push_str(&mut m, ": ");
    push_str(&mut m, detail);
    ProviderError::Deserialize(m)
}

/// How an HTTP status is handled.
#[derive(Debug, Clone, Copy, PartialEq, Eq, Structural)]
pub enum StatusClass {
    /// 401 or 403: the credentials are refused; not retried.
    AuthFailure,
    /// 5xx: retried.
    ServerError,
    /// 2xx: the answer is read.
    Success,
    /// Anything else: an error, not retried.
    ClientError,
}

pub open spec fn status_class(code: u16) -> StatusClass {
    if code == 401 || code == 403 {
        StatusClass::AuthFailure
    } else if 500 <= code && code < 600 {
        StatusClass::ServerError
    } else if 200 <= code && code < 300 {
        StatusClass::Success
    } else {
        StatusClass::ClientError
    }
}

pub fn classify_status(code: u16) -> (r: StatusClass)
    ensures
        r == status_class(code),
{
    if code == 401 || code == 403 {
        StatusClass::AuthFailure
    } else if 500 <= code && code < 600 {
        StatusClass::ServerError
    } else if 200 <= code && code < 300 {
        StatusClass::Success
    } else {
        StatusClass::ClientError
    }
}

/// What became of one attempt.
#[derive(Debug)]
pub enum RequestOutcome {
    /// The request could not be sent or its answer not received.
    SendFailed { message: String },
    /// The service answered. `status_text` is the status as displayed
    /// ("401 Unauthorized"); `body` is the answer's text where an error status
    /// is read, else empty.
    Responded { code: u16, status_text: String, body: String },
}

/// What to do after an attempt.
#[derive(Debug)]
pub enum RetryDecision {
    /// Wait this many milliseconds, then send the request again.
    Retry { delay_ms: u64 },
    /// Give up with this error.
    Fail(ProviderError),
    /// Read the answer.
    Accept,
}

/// Retries after the first attempt.
pub open spec fn max_retries() -> u32 {
    3
}

/// The wait before retry number `attempt` (1, 2 or 3): 500 ms, doubling.
pub open spec fn backoff_ms(attempt: u32) -> int {
    if attempt == 1 {
        500
    } else if attempt == 2 {
        1000
    } else {
        2000
    }
}

/// The retry bookkeeping of one request.
#[derive(Debug)]
pub struct Retrier {
    attempt: u32,
    last_err: Option<ProviderError>,
}

impl Retrier {
    /// The number of the attempt in progress (0 for the first).
    pub closed spec fn attempt_spec(&self) -> u32 {
        self.attempt
    }

    pub closed spec fn wf(&self) -> bool {
        self.attempt <= max_retries()
    }

    /// Bookkeeping for a request not yet sent.
    pub fn new() -> (r: Self)
        ensures
            r.wf(),
            r.attempt_spec() == 0,
    {
        Retrier { attempt: 0, last_err: None }
    }

    /// The number of the attempt in progress.
    pub fn attempt(&self) -> (r: u32)
        ensures
            r == self.attempt_spec(),
    {
        self.attempt
    }

    /// Gives up with the last retried error.
    fn give_up(&mut self) -> (r: RetryDecision)
        requires
            old(self).last_err is Some,
        ensures
            r matches RetryDecision::Fail(e) && old(self).last_err == Some(e),
            final(self).attempt == old(self).attempt,
    {
        match self.last_err.take() {
            Some(e) => RetryDecision::Fail(e),
            None => RetryDecision::Fail(ProviderError::Other(String::from_str("max retries exceeded"))),
        }
    }

    /// Decides what follows an attempt of a request to the organization at
    /// `provider`. Transport failures and server errors are retried while
    /// retries remain, each time after twice the previous wait (500 ms first);
    /// once none remain, the last such error is the result. Refused
    /// credentials and other error statuses end the request at once; a
    /// success is read.
    pub fn on_outcome(&mut self, provider: &str, outcome: RequestOutcome) -> (r: RetryDecision)
        requires
            old(self).wf(),
        ensures
            final(self).wf(),
            match outcome {
                RequestOutcome::SendFailed { message } => {
                    if old(self).attempt_spec() < max_retries() {
                        &&& r == RetryDecision::Retry { delay_ms: backoff_ms((old(self).attempt_spec() + 1) as u32) as u64 }
                        &&& final(self).attempt_spec() == old(self).attempt_spec() + 1
                    } else {
                        r matches RetryDecision::Fail(ProviderError::Http { message: m }) && m@ == message@
                    }
                },
                RequestOutcome::Responded { code, status_text, body } => match status_class(code) {
                    StatusClass::AuthFailure => r matches RetryDecision::Fail(
                        ProviderError::Auth { provider: p, message: m },
                    ) && p@ == provider@ && m@ == "HTTP "@ + status_text@ + " - check your PAT token"@,
                    StatusClass::ServerError => if old(self).attempt_spec() < max_retries() {
                        &&& r == RetryDecision::Retry { delay_ms: backoff_ms((old(self).attempt_spec() + 1) as u32) as u64 }
                        &&& final(self).attempt_spec() == old(self).attempt_spec() + 1
                    } else {
                        r matches RetryDecision::Fail(ProviderError::Api { provider: p, status: s, message: m })
                            && p@ == provider@ && s == code && m@ == body@
                    },
                    StatusClass::ClientError => r matches RetryDecision::Fail(
                        ProviderError::Api { provider: p, status: s, message: m },
                    ) && p@ == provider@ && s == code && m@ == body@,
                    StatusClass::Success => r == RetryDecision::Accept,
                },
            },
    {
        match outcome {
            RequestOutcome::SendFailed { message } => {
                let ghost msg = message@;
                self.last_err = Some(ProviderError::Http { message });
                if self.attempt < 3 {
                    self.attempt = self.attempt + 1;
                    let delay: u64 = if self.attempt == 1 {
                        500
                    } else if self.attempt == 2 {
                        1000
                    } else {
                        2000
                    };
                    RetryDecision::Retry { delay_ms: delay }
                } else {
                    self.give_up()
                }
            },
            RequestOutcome::Responded { code, status_text, body } => {
                match classify_status(code) {
                    StatusClass::AuthFailure => {
                        let mut m = String::from_str("HTTP ");
                        push_str(&mut m, status_text.as_str());
                        push_str(&mut m, " - check your PAT token");
                        RetryDecision::Fail(
                            ProviderError::Auth { provider: String::from_str(provider), message: m },
                        )
                    },
                    StatusClass::ServerError => {
                        self.last_err = Some(
                            ProviderError::Api {
                                provider: String::from_str(provider),
                                status: code,
                                message: body,
                            },
                        );
                        if self.attempt < 3 {
                            self.attempt = self.attempt + 1;
                            let delay: u64 = if self.attempt == 1 {
                                500
                            } else if self.attempt == 2 {
                                1000
                            } else {
                                2000
                            };
                            RetryDecision::Retry { delay_ms: delay }
                        } else {
                            self.give_up()
                        }
                    },
                    StatusClass::ClientError => RetryDecision::Fail(
                        ProviderError::Api { provider: String::from_str(provider), status: code, message: body },
                    ),
                    StatusClass::Success => RetryDecision::Accept,
                }
            },
        }
    }
}

} // verus!
