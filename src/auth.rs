use vstd::prelude::*;

use crate::token::AccessToken;

verus! {

/// Seconds a provider-issued token is assumed valid for when the response omits its expiry.
pub const DEFAULT_EXPIRES_IN: u64 = 3600;

/// Seconds to wait between two device-code polls.
pub const POLL_INTERVAL_SECS: u64 = 5;

/// Polls made before a device-code sign-in is given up.
pub const MAX_POLL_ATTEMPTS: u32 = 60;

/// Why obtaining a token failed.
#[derive(Debug, PartialEq, Eq)]
pub enum AuthError {
    /// No refresh credential is stored: the user has to sign in.
    NotAuthenticated,
    /// The device code could not be issued.
    DeviceCodeFailed(String),
    /// The user has not approved the sign-in yet.
    AuthorizationPending,
    /// The user declined the sign-in.
    AuthorizationDenied,
    /// Every poll came back pending.
    AuthorizationTimeout,
    /// A renewal or exchange request failed.
    TokenExchangeFailed(String),
    /// The provider's answer lacked an expected field; holds the raw body.
    MalformedResponse(String),
    /// The token cache could not be written.
    CacheIo(String),
}

impl Clone for AuthError {
    fn clone(&self) -> (r: Self)
        ensures
            r == *self,
    {
        match self {
            AuthError::NotAuthenticated => AuthError::NotAuthenticated,
            AuthError::DeviceCodeFailed(m) => AuthError::DeviceCodeFailed(m.clone()),
            AuthError::AuthorizationPending => AuthError::AuthorizationPending,
            AuthError::AuthorizationDenied => AuthError::AuthorizationDenied,
            AuthError::AuthorizationTimeout => AuthError::AuthorizationTimeout,
            AuthError::TokenExchangeFailed(m) => AuthError::TokenExchangeFailed(m.clone()),
            AuthError::MalformedResponse(m) => AuthError::MalformedResponse(m.clone()),
            AuthError::CacheIo(m) => AuthError::CacheIo(m.clone()),
        }
    }
}

/// The fields of a provider's token answer that matter here, each possibly absent.
#[derive(Debug)]
pub struct TokenResponse {
    /// The credential itself (`refresh_token`, `access_token` or `skypeToken`, by endpoint).
    pub token: Option<String>,
    /// Seconds the credential stays valid.
    pub expires_in: Option<u64>,
    /// The raw answer, kept for diagnosis.
    pub body: String,
}

/// The epoch second at which a token issued at `now` expires: `now` plus its lifetime,
/// [`DEFAULT_EXPIRES_IN`] when none was given, capped at the largest `u64`.
pub open spec fn expiry_after(now: u64, expires_in: Option<u64>) -> u64 {
    let secs: u64 = match expires_in {
        Some(s) => s,
        None => DEFAULT_EXPIRES_IN,
    };
    if now + secs > u64::MAX {
        u64::MAX
    } else {
        (now + secs) as u64
    }
}

/// Turns a provider's answer received at `now` into a token.
pub fn issued_token(response: TokenResponse, now: u64) -> (r: Result<AccessToken, AuthError>)
    ensures
        match response.token {
            Some(v) => r == Ok::<AccessToken, AuthError>(
                AccessToken { value: v, expires: expiry_after(now, response.expires_in) },
            ),
            None => r == Err::<AccessToken, AuthError>(AuthError::MalformedResponse(response.body)),
        },
{
    let secs: u64 = match response.expires_in {
        Some(s) => s,
        None => DEFAULT_EXPIRES_IN,
    };
    match response.token {
        Some(value) => Ok(AccessToken { value, expires: now.saturating_add(secs) }),
        None => Err(AuthError::MalformedResponse(response.body)),
    }
}

/// The value of a run of ASCII digits.
pub open spec fn digits_value(s: Seq<char>) -> nat
    decreases s.len(),
{
    if s.len() == 0 {
        0
    } else {
        digits_value(s.drop_last()) * 10 + (s.last() as nat - '0' as nat) as nat
    }
}

pub open spec fn is_digit(c: char) -> bool {
    '0' <= c && c <= '9'
}

/// `s` is a decimal number as `u64::from_str` reads it: an optional `+` and at least one digit.
pub open spec fn decimal_digits(s: Seq<char>) -> Seq<char> {
    if s.len() > 0 && s[0] == '+' {
        s.skip(1)
    } else {
        s
    }
}

pub open spec fn all_digits(d: Seq<char>) -> bool {
    forall|i: int| 0 <= i < d.len() ==> is_digit(#[trigger] d[i])
}

pub open spec fn parses_as_seconds(s: Seq<char>) -> bool {
    &&& decimal_digits(s).len() > 0
    &&& all_digits(decimal_digits(s))
    &&& digits_value(decimal_digits(s)) <= u64::MAX
}

/// Reads a lifetime in seconds written as decimal text, as some endpoints send it.
pub fn parse_seconds(s: &str) -> (r: Option<u64>)
    ensures
        r.is_some() == parses_as_seconds(s@),
        r matches Some(n) ==> n as nat == digits_value(decimal_digits(s@)),
{
    let n = s.unicode_len();
    let mut i: usize = 0;
    if n > 0 && s.get_char(0) == '+' {
        i = 1;
    }
    let start = i;
    let ghost d = decimal_digits(s@);
    if start == n {
        return None;
    }
    let mut value: u64 = 0;
    assert(d =~= s@.skip(start as int));
    while i < n
        invariant
            n == s@.len(),
            start <= i <= n,
            d == s@.skip(start as int),
            d == decimal_digits(s@),
            forall|j: int| 0 <= j < i - start ==> is_digit(#[trigger] d[j]),
            value as nat == digits_value(d.take(i - start)),
        decreases n - i,
    {
        let c = s.get_char(i);
        if c < '0' || c > '9' {
            assert(!is_digit(d[i - start]));
            return None;
        }
        let digit = (c as u32 - '0' as u32) as u64;
        assert(d.take(i - start + 1).drop_last() =~= d.take(i - start));
        if value > (u64::MAX - digit) / 10 {
            proof {
                assert(value * 10 + digit > u64::MAX) by (nonlinear_arith)
                    requires
                        value > (u64::MAX - digit) / 10,
                        digit <= 9,
                ;
                if all_digits(d) {
                    lemma_digits_grow(d, (i - start + 1) as int);
                }
            }
            return None;
        }
        value = value * 10 + digit;
        i = i + 1;
    }
    assert(d.take(i - start) =~= d);
    Some(value)
}

/// Reading further digits never makes the value smaller.
pub(crate) proof fn lemma_digits_grow(d: Seq<char>, k: int)
    requires
        0 <= k <= d.len(),
        forall|j: int| 0 <= j < d.len() ==> is_digit(#[trigger] d[j]),
    ensures
        digits_value(d.take(k)) <= digits_value(d),
    decreases d.len() - k,
{
    if k < d.len() {
        lemma_digits_grow(d, k + 1);
        assert(d.take(k + 1).drop_last() =~= d.take(k));
    } else {
        assert(d.take(k) =~= d);
    }
}

/// How one poll of the token endpoint turned out.
#[derive(Debug)]
pub enum PollOutcome {
    /// The user approved: the refresh token.
    Authorized(AccessToken),
    /// Not approved yet.
    Pending,
    /// The user declined.
    Denied,
    /// A success answer without the refresh token; holds the raw body.
    Malformed(String),
}

/// What the polling loop does next.
#[derive(Debug)]
pub enum PollStep {
    /// Wait the interval and poll again.
    Continue,
    /// Sign-in done: store this refresh token.
    Store(AccessToken),
    /// Sign-in over without a token: the attempts ran out, the user declined, or the
    /// provider's answer was unreadable.
    Fail(AuthError),
}

/// The device-code error code that says the user declined.
pub const DECLINED_CODE: &'static str = "authorization_declined";

/// A failed poll whose error code says that the user declined.
pub open spec fn declined(success: bool, error_code: Option<String>) -> bool {
    !success && match error_code {
        Some(c) => c@ == DECLINED_CODE@,
        None => false,
    }
}

/// Classifies a poll answer: on success the refresh token, or `Malformed` with the raw body
/// when the answer lacks it; on failure a refusal when the user declined, else pending (not
/// yet approved).
pub fn poll_outcome(success: bool, error_code: Option<String>, response: TokenResponse, now: u64) -> (r: PollOutcome)
    ensures
        success && response.token is Some ==> r == PollOutcome::Authorized(
            AccessToken { value: response.token->0, expires: expiry_after(now, response.expires_in) },
        ),
        success && response.token is None ==> r == PollOutcome::Malformed(response.body),
        declined(success, error_code) ==> r is Denied,
        !success && !declined(success, error_code) ==> r is Pending,
{
    if success {
        match issued_token(response, now) {
            Ok(t) => PollOutcome::Authorized(t),
            Err(AuthError::MalformedResponse(body)) => PollOutcome::Malformed(body),
            Err(_) => PollOutcome::Pending,
        }
    } else {
        match error_code {
            Some(c) => {
                if crate::text::same_text(c.as_str(), DECLINED_CODE) {
                    PollOutcome::Denied
                } else {
                    PollOutcome::Pending
                }
            },
            None => PollOutcome::Pending,
        }
    }
}

/// The token a renewal, exchange or derivation answer carries: a failed request is
/// `TokenExchangeFailed` with its status and body, a success is read as [`issued_token`] reads it.
pub fn token_answer(success: bool, detail: String, response: TokenResponse, now: u64) -> (r: Result<
    AccessToken,
    AuthError,
>)
    ensures
        !success ==> r == Err::<AccessToken, AuthError>(AuthError::TokenExchangeFailed(detail)),
        success && response.token is Some ==> r == Ok::<AccessToken, AuthError>(
            AccessToken { value: response.token->0, expires: expiry_after(now, response.expires_in) },
        ),
        success && response.token is None ==> r == Err::<AccessToken, AuthError>(
            AuthError::MalformedResponse(response.body),
        ),
{
    if success {
        issued_token(response, now)
    } else {
        Err(AuthError::TokenExchangeFailed(detail))
    }
}

/// Counts the polls of one device-code sign-in.
#[derive(Debug)]
pub struct DevicePoll {
    pub attempts: u32,
    pub max_attempts: u32,
}

/// The step taken after a poll when `attempts` polls had been made before it.
pub open spec fn poll_step(attempts: u32, max_attempts: u32, outcome: PollOutcome) -> PollStep {
    match outcome {
        PollOutcome::Authorized(t) => PollStep::Store(t),
        PollOutcome::Denied => PollStep::Fail(AuthError::AuthorizationDenied),
        PollOutcome::Malformed(body) => PollStep::Fail(AuthError::MalformedResponse(body)),
        PollOutcome::Pending => if attempts + 1 >= max_attempts {
            PollStep::Fail(AuthError::AuthorizationTimeout)
        } else {
            PollStep::Continue
        },
    }
}

/// Runs the polls on the given outcomes until a step other than `Continue`; also
/// counts the refresh tokens handed out for storing.
pub open spec fn poll_run(attempts: u32, max_attempts: u32, outcomes: Seq<PollOutcome>) -> (PollStep, nat)
    decreases outcomes.len(),
{
    if outcomes.len() == 0 {
        (PollStep::Continue, 0)
    } else {
        match poll_step(attempts, max_attempts, outcomes[0]) {
            PollStep::Continue => poll_run(
                (attempts + 1) as u32,
                max_attempts,
                outcomes.skip(1),
            ),
            PollStep::Store(t) => (PollStep::Store(t), 1),
            step => (step, 0),
        }
    }
}

impl DevicePoll {
    /// A sign-in that gives up after `max_attempts` polls.
    pub fn new(max_attempts: u32) -> (r: Self)
        ensures
            r.attempts == 0,
            r.max_attempts == max_attempts,
    {
        DevicePoll { attempts: 0, max_attempts }
    }

    /// Records the outcome of one poll and says what to do next.
    pub fn record(&mut self, outcome: PollOutcome) -> (r: PollStep)
        ensures
            r == poll_step(old(self).attempts, old(self).max_attempts, outcome),
            final(self).max_attempts == old(self).max_attempts,
            final(self).attempts == if old(self).attempts < u32::MAX {
                old(self).attempts + 1
            } else {
                old(self).attempts as int
            },
    {
        let before = self.attempts;
        self.attempts = self.attempts.saturating_add(1);
        match outcome {
            PollOutcome::Authorized(t) => PollStep::Store(t),
            PollOutcome::Denied => PollStep::Fail(AuthError::AuthorizationDenied),
            PollOutcome::Malformed(body) => PollStep::Fail(AuthError::MalformedResponse(body)),
            PollOutcome::Pending => {
                if before as u64 + 1 >= self.max_attempts as u64 {
                    PollStep::Fail(AuthError::AuthorizationTimeout)
                } else {
                    PollStep::Continue
                }
            },
        }
    }
}

/// Polling: some pending answers and then an approval, within the attempt budget, end the
/// sign-in with that refresh token, handed out for storing exactly once; pending answers
/// for the whole budget end it with a time-out, with nothing stored.
pub proof fn lemma_polling_outcomes(max_attempts: u32, pending: nat, token: AccessToken)
    requires
        pending < max_attempts,
    ensures
        poll_run(
            0,
            max_attempts,
            Seq::new(pending, |i: int| PollOutcome::Pending).push(PollOutcome::Authorized(token)),
        ) == (PollStep::Store(token), 1nat),
        poll_run(0, max_attempts, Seq::new(max_attempts as nat, |i: int| PollOutcome::Pending)) == (
            PollStep::Fail(AuthError::AuthorizationTimeout),
            0nat,
        ),
{
    lemma_pending_then(0, max_attempts, pending, Seq::empty().push(PollOutcome::Authorized(token)));
    assert(Seq::new(pending, |i: int| PollOutcome::Pending).push(PollOutcome::Authorized(token))
        =~= Seq::new(pending, |i: int| PollOutcome::Pending) + Seq::empty().push(
        PollOutcome::Authorized(token),
    ));
    assert(max_attempts > 0);
    lemma_pending_then(
        0,
        max_attempts,
        (max_attempts - 1) as nat,
        Seq::empty().push(PollOutcome::Pending),
    );
    assert(Seq::new(max_attempts as nat, |i: int| PollOutcome::Pending) =~= Seq::new(
        (max_attempts - 1) as nat,
        |i: int| PollOutcome::Pending,
    ) + Seq::empty().push(PollOutcome::Pending));
}

/// `pending` pending answers below the budget only advance the attempt count.
proof fn lemma_pending_then(attempts: u32, max_attempts: u32, pending: nat, rest: Seq<PollOutcome>)
    requires
        attempts + pending < max_attempts,
    ensures
        poll_run(attempts, max_attempts, Seq::new(pending, |i: int| PollOutcome::Pending) + rest)
            == poll_run((attempts + pending) as u32, max_attempts, rest),
    decreases pending,
{
    if pending > 0 {
        let s = Seq::new(pending, |i: int| PollOutcome::Pending) + rest;
        lemma_pending_then((attempts + 1) as u32, max_attempts, (pending - 1) as nat, rest);
        assert(s.skip(1) =~= Seq::new((pending - 1) as nat, |i: int| PollOutcome::Pending) + rest);
    } else {
        assert(Seq::new(pending, |i: int| PollOutcome::Pending) + rest =~= rest);
    }
}

} // verus!
