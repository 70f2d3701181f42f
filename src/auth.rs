use vstd::prelude::*;

use crate::err::AppError;

verus! {

/// Error codes the token endpoint reports while a device authorization is open.
#[derive(Debug, Clone, Copy, PartialEq, Eq, Structural)]
pub enum AccessTokenError {
    AuthorizationPending,
    SlowDown,
    ExpiredToken,
    UnsupportedGrantType,
    IncorrectClientCredentials,
    IncorrectDeviceCode,
    AccessDenied,
}

/// How each error code is written on the wire.
pub open spec fn wire_code(e: AccessTokenError) -> Seq<char> {
    match e {
        AccessTokenError::AuthorizationPending => "authorization_pending"@,
        AccessTokenError::SlowDown => "slow_down"@,
        AccessTokenError::ExpiredToken => "expired_token"@,
        AccessTokenError::UnsupportedGrantType => "unsupported_grant_type"@,
        AccessTokenError::IncorrectClientCredentials => "incorrect_client_credentials"@,
        AccessTokenError::IncorrectDeviceCode => "incorrect_device_code"@,
        AccessTokenError::AccessDenied => "access_denied"@,
    }
}

/// The error code whose wire name is `s`, if there is one.
pub open spec fn code_of(s: Seq<char>) -> Option<AccessTokenError> {
    if exists|e: AccessTokenError| wire_code(e) == s {
        Some(choose|e: AccessTokenError| wire_code(e) == s)
    } else {
        None
    }
}

/// Codes on which polling goes on rather than ending the authorization.
pub open spec fn is_transient(e: AccessTokenError) -> bool {
    e is AuthorizationPending || e is SlowDown
}

/// No two error codes share a wire name.
pub proof fn lemma_wire_code_injective(a: AccessTokenError, b: AccessTokenError)
    ensures
        wire_code(a) == wire_code(b) ==> a == b,
{
    reveal_strlit("authorization_pending");
    reveal_strlit("slow_down");
    reveal_strlit("expired_token");
    reveal_strlit("unsupported_grant_type");
    reveal_strlit("incorrect_client_credentials");
    reveal_strlit("incorrect_device_code");
    reveal_strlit("access_denied");
    if wire_code(a) == wire_code(b) {
        assert(wire_code(a).len() == wire_code(b).len());
        assert(wire_code(a)[0] == wire_code(b)[0]);
        assert(wire_code(a)[1] == wire_code(b)[1]);
    }
}

impl AccessTokenError {
    /// The wire name of this code.
    pub fn code(&self) -> (r: &'static str)
        ensures
            r@ == wire_code(*self),
    {
        match self {
            AccessTokenError::AuthorizationPending => "authorization_pending",
            AccessTokenError::SlowDown => "slow_down",
            AccessTokenError::ExpiredToken => "expired_token",
            AccessTokenError::UnsupportedGrantType => "unsupported_grant_type",
            AccessTokenError::IncorrectClientCredentials => "incorrect_client_credentials",
            AccessTokenError::IncorrectDeviceCode => "incorrect_device_code",
            AccessTokenError::AccessDenied => "access_denied",
        }
    }

    /// Reads an error code from its wire name; `None` for a name the protocol does not define.
    pub fn parse(s: &str) -> (r: Option<AccessTokenError>)
        ensures
            r == code_of(s@),
    {
        let text = s.to_owned();
        let all = [
            AccessTokenError::AuthorizationPending,
            AccessTokenError::SlowDown,
            AccessTokenError::ExpiredToken,
            AccessTokenError::UnsupportedGrantType,
            AccessTokenError::IncorrectClientCredentials,
            AccessTokenError::IncorrectDeviceCode,
            AccessTokenError::AccessDenied,
        ];
        let mut i: usize = 0;
        while i < 7
            invariant
                i <= 7,
                text@ == s@,
                all@ == seq![
                    AccessTokenError::AuthorizationPending,
                    AccessTokenError::SlowDown,
                    AccessTokenError::ExpiredToken,
                    AccessTokenError::UnsupportedGrantType,
                    AccessTokenError::IncorrectClientCredentials,
                    AccessTokenError::IncorrectDeviceCode,
                    AccessTokenError::AccessDenied,
                ],
                forall|j: int| 0 <= j < i ==> wire_code(#[trigger] all@[j]) != s@,
            decreases 7 - i,
        {
            let candidate = all[i];
            let name = candidate.code().to_owned();
            if name == text {
                proof {
                    assert forall|e: AccessTokenError| wire_code(e) == s@ implies e == candidate by {
                        lemma_wire_code_injective(e, candidate);
                    }
                }
                return Some(candidate);
            }
            i = i + 1;
        }
        proof {
            assert forall|e: AccessTokenError| wire_code(e) != s@ by {
                match e {
                    AccessTokenError::AuthorizationPending => assert(all@[0] == e),
                    AccessTokenError::SlowDown => assert(all@[1] == e),
                    AccessTokenError::ExpiredToken => assert(all@[2] == e),
                    AccessTokenError::UnsupportedGrantType => assert(all@[3] == e),
                    AccessTokenError::IncorrectClientCredentials => assert(all@[4] == e),
                    AccessTokenError::IncorrectDeviceCode => assert(all@[5] == e),
                    AccessTokenError::AccessDenied => assert(all@[6] == e),
                }
            }
        }
        None
    }
}

/// Parsing the wire name of any code gives back that code.
pub proof fn lemma_code_round_trip(e: AccessTokenError)
    ensures
        code_of(wire_code(e)) == Some(e),
{
    assert forall|x: AccessTokenError| wire_code(x) == wire_code(e) implies x == e by {
        lemma_wire_code_injective(x, e);
    }
}


/// The token kept from an earlier authorization: the stored text, unless it
/// is empty, in which case the device has to be authorized anew.
pub fn stored_token(contents: String) -> (r: Option<String>)
    ensures
        r == (if contents@.len() == 0 {
            None
        } else {
            Some(contents)
        }),
{
    if contents.as_str().is_empty() {
        None
    } else {
        Some(contents)
    }
}

/// Identifier under which this application is registered with the server.
pub const CLIENT_ID: &'static str = "a14deabe89e4f5d2dfb9";

/// Scope asked for in the device authorization.
pub const SCOPE: &'static str = "notifications";

/// Grant type of the device authorization flow.
pub const GRANT_TYPE: &'static str = "urn:ietf:params:oauth:grant-type:device_code";

/// Seconds added to the polling interval on each `slow_down` reply.
pub const SLOW_DOWN_STEP: u64 = 5;

/// Body of the request that opens a device authorization.
pub struct DeviceRequest {
    pub client_id: String,
    pub scope: String,
}

impl DeviceRequest {
    /// The request for this application's client identifier and scope.
    pub fn new() -> (r: DeviceRequest)
        ensures
            r.client_id@ == CLIENT_ID@,
            r.scope@ == SCOPE@,
    {
        DeviceRequest { client_id: CLIENT_ID.to_owned(), scope: SCOPE.to_owned() }
    }
}

/// What the server hands out when a device authorization is opened.
pub struct DeviceResponse {
    pub device_code: String,
    pub user_code: String,
    pub verification_uri: String,
    pub expires_in: u64,
    pub interval: u64,
}

/// Body of each request to the token endpoint.
pub struct AccessTokenRequest {
    pub client_id: String,
    pub device_code: String,
    pub grant_type: String,
}

impl AccessTokenRequest {
    /// The token request for the given device code.
    pub fn new(device_code: &str) -> (r: AccessTokenRequest)
        ensures
            r.client_id@ == CLIENT_ID@,
            r.device_code@ == device_code@,
            r.grant_type@ == GRANT_TYPE@,
    {
        AccessTokenRequest {
            client_id: CLIENT_ID.to_owned(),
            device_code: device_code.to_owned(),
            grant_type: GRANT_TYPE.to_owned(),
        }
    }
}

/// An error reply of the token endpoint.
pub struct AccessTokenErrorResponse {
    pub error: AccessTokenError,
    pub error_description: String,
    pub error_uri: String,
}

impl AccessTokenErrorResponse {
    /// The server's own account of the error, as shown to the user.
    pub fn description(&self) -> (r: String)
        ensures
            r@ == self.error_description@,
    {
        self.error_description.clone()
    }
}

/// A reply of the token endpoint, told apart by its discriminating field.
pub enum AccessTokenResponse {
    Success { access_token: String },
    Failure(AccessTokenErrorResponse),
}

/// The fields of a token reply as they came over the wire, each present or not.
pub struct RawTokenResponse {
    pub access_token: Option<String>,
    pub error: Option<String>,
    pub error_description: Option<String>,
    pub error_uri: Option<String>,
}

/// A raw reply is a success when it carries an access token.  Otherwise it is an
/// error reply when it carries a known error code, a description and an error URI.
pub open spec fn classifies_as(raw: RawTokenResponse, r: Result<AccessTokenResponse, AppError>) -> bool {
    match raw.access_token {
        Some(t) => r == Ok::<AccessTokenResponse, AppError>(AccessTokenResponse::Success { access_token: t }),
        None => {
            if raw.error is Some && code_of(raw.error->Some_0@) is Some && raw.error_description is Some
                && raw.error_uri is Some {
                r == Ok::<AccessTokenResponse, AppError>(
                    AccessTokenResponse::Failure(
                        AccessTokenErrorResponse {
                            error: code_of(raw.error->Some_0@)->Some_0,
                            error_description: raw.error_description->Some_0,
                            error_uri: raw.error_uri->Some_0,
                        },
                    ),
                )
            } else {
                r == Err::<AccessTokenResponse, AppError>(AppError::MalformedResponse)
            }
        },
    }
}

/// Decides which kind of reply the token endpoint sent, by the presence of
/// `access_token` first and of `error` second.
pub fn classify_token_response(raw: RawTokenResponse) -> (r: Result<AccessTokenResponse, AppError>)
    ensures
        classifies_as(raw, r),
{
    let RawTokenResponse { access_token, error, error_description, error_uri } = raw;
    match access_token {
        Some(t) => Ok(AccessTokenResponse::Success { access_token: t }),
        None => match (error, error_description, error_uri) {
            (Some(code), Some(description), Some(uri)) => match AccessTokenError::parse(code.as_str()) {
                Some(e) => Ok(
                    AccessTokenResponse::Failure(
                        AccessTokenErrorResponse { error: e, error_description: description, error_uri: uri },
                    ),
                ),
                None => Err(AppError::MalformedResponse),
            },
            _ => Err(AppError::MalformedResponse),
        },
    }
}


/// The model of one polling loop: the current interval in seconds, the replies
/// received so far, and the attempt budget fixed when the loop began.
pub struct PollState {
    pub interval: int,
    pub attempts: int,
    pub limit: int,
}

impl PollState {
    /// The loop may still ask the server: nothing was received yet, or fewer
    /// replies than the budget allows.
    pub open spec fn polling(self) -> bool {
        self.attempts == 0 || self.attempts < self.limit
    }

    /// The values fit the machine words that hold them.
    pub open spec fn fits(self) -> bool {
        &&& 1 <= self.interval <= u64::MAX
        &&& 0 <= self.attempts <= u64::MAX
        &&& 0 <= self.limit <= u64::MAX
    }
}

/// The state in which polling starts: the budget is the number of whole
/// initial intervals that fit in the expiry window.
pub open spec fn start_state(interval: u64, expires_in: u64) -> PollState
    recommends
        interval >= 1,
{
    PollState { interval: interval as int, attempts: 0, limit: expires_in as int / interval as int }
}

/// The interval after a `slow_down`: five seconds longer, held at the largest
/// number of seconds a `u64` can count.
pub open spec fn slowed_interval(interval: int) -> int {
    if interval + SLOW_DOWN_STEP <= u64::MAX {
        interval + SLOW_DOWN_STEP
    } else {
        u64::MAX as int
    }
}

/// What the loop does next.
pub enum PollStep {
    /// Sleep this many seconds, then ask again.
    Wait(u64),
    /// The user authorized the device; this is the access token.
    Granted(String),
    /// The attempt budget ran out while the authorization was still open.
    TimedOut,
    /// The server ended the authorization with this error.
    Denied(AccessTokenErrorResponse),
}

/// One step of the loop: the reply is counted, then decides the next step.
pub open spec fn poll_transition(s: PollState, reply: AccessTokenResponse) -> (PollState, PollStep) {
    let attempts = s.attempts + 1;
    let counted = PollState { interval: s.interval, attempts: attempts, limit: s.limit };
    match reply {
        AccessTokenResponse::Success { access_token } => (counted, PollStep::Granted(access_token)),
        AccessTokenResponse::Failure(e) => {
            if e.error is AuthorizationPending {
                if attempts >= s.limit {
                    (counted, PollStep::TimedOut)
                } else {
                    (counted, PollStep::Wait(s.interval as u64))
                }
            } else if e.error is SlowDown {
                if attempts >= s.limit {
                    (counted, PollStep::TimedOut)
                } else {
                    let grown = slowed_interval(s.interval);
                    (
                        PollState { interval: grown, attempts: attempts, limit: s.limit },
                        PollStep::Wait(grown as u64),
                    )
                }
            } else {
                (counted, PollStep::Denied(e))
            }
        },
    }
}

/// The steps the loop takes on a sequence of replies, one per reply, up to
/// and including the first step that is not a wait.
pub open spec fn poll_run(s: PollState, replies: Seq<AccessTokenResponse>) -> Seq<PollStep>
    decreases replies.len(),
{
    if replies.len() == 0 {
        Seq::empty()
    } else {
        let (next, step) = poll_transition(s, replies[0]);
        if step is Wait {
            seq![step] + poll_run(next, replies.drop_first())
        } else {
            seq![step]
        }
    }
}

/// The decision state of polling the token endpoint of one device authorization.
pub struct TokenPoller {
    interval: u64,
    attempts: u64,
    limit: u64,
}

impl View for TokenPoller {
    type V = PollState;

    closed spec fn view(&self) -> PollState {
        PollState {
            interval: self.interval as int,
            attempts: self.attempts as int,
            limit: self.limit as int,
        }
    }
}

impl TokenPoller {
    /// Starts polling with the interval and expiry window the server gave.
    pub fn new(interval: u64, expires_in: u64) -> (r: TokenPoller)
        requires
            interval >= 1,
        ensures
            r@ == start_state(interval, expires_in),
            r@.fits(),
    {
        TokenPoller { interval, attempts: 0, limit: expires_in / interval }
    }

    /// Seconds between two requests at this point.
    pub fn interval(&self) -> (r: u64)
        ensures
            r == self@.interval,
    {
        self.interval
    }

    /// Replies received so far.
    pub fn attempts(&self) -> (r: u64)
        ensures
            r == self@.attempts,
    {
        self.attempts
    }

    /// The attempt budget.
    pub fn limit(&self) -> (r: u64)
        ensures
            r == self@.limit,
    {
        self.limit
    }

    /// Whether another request may be sent.
    pub fn is_polling(&self) -> (r: bool)
        ensures
            r == self@.polling(),
    {
        self.attempts == 0 || self.attempts < self.limit
    }

    /// Takes the reply to the latest request and says what to do next.
    pub fn on_response(&mut self, reply: AccessTokenResponse) -> (step: PollStep)
        requires
            old(self)@.polling(),
            old(self)@.fits(),
        ensures
            (final(self)@, step) == poll_transition(old(self)@, reply),
            final(self)@.fits(),
    {
        let attempts = self.attempts + 1;
        self.attempts = attempts;
        match reply {
            AccessTokenResponse::Success { access_token } => PollStep::Granted(access_token),
            AccessTokenResponse::Failure(e) => match e.error {
                AccessTokenError::AuthorizationPending => {
                    if attempts >= self.limit {
                        PollStep::TimedOut
                    } else {
                        PollStep::Wait(self.interval)
                    }
                },
                AccessTokenError::SlowDown => {
                    if attempts >= self.limit {
                        PollStep::TimedOut
                    } else {
                        self.interval = self.interval.saturating_add(SLOW_DOWN_STEP);
                        PollStep::Wait(self.interval)
                    }
                },
                _ => PollStep::Denied(e),
            },
        }
    }
}


/// The reply is the server saying the user has not acted yet.
pub open spec fn is_pending(reply: AccessTokenResponse) -> bool {
    reply matches AccessTokenResponse::Failure(e) && e.error is AuthorizationPending
}

proof fn lemma_run_no_longer_than_replies(s: PollState, replies: Seq<AccessTokenResponse>)
    ensures
        poll_run(s, replies).len() <= replies.len(),
    decreases replies.len(),
{
    if replies.len() > 0 {
        let (next, step) = poll_transition(s, replies[0]);
        lemma_run_no_longer_than_replies(next, replies.drop_first());
    }
}

proof fn lemma_pending_from(s: PollState, replies: Seq<AccessTokenResponse>)
    requires
        s.attempts >= 0,
        s.attempts < s.limit,
        1 <= s.interval <= u64::MAX,
        replies.len() >= s.limit - s.attempts,
        forall|i: int| 0 <= i < replies.len() ==> is_pending(#[trigger] replies[i]),
    ensures
        poll_run(s, replies).len() == s.limit - s.attempts,
        poll_run(s, replies).last() == PollStep::TimedOut,
        forall|i: int|
            0 <= i < poll_run(s, replies).len() - 1 ==> #[trigger] poll_run(s, replies)[i]
                == PollStep::Wait(s.interval as u64),
    decreases s.limit - s.attempts,
{
    assert(is_pending(replies[0]));
    let (next, step) = poll_transition(s, replies[0]);
    if s.attempts + 1 < s.limit {
        let rest = replies.drop_first();
        assert forall|i: int| 0 <= i < rest.len() implies is_pending(#[trigger] rest[i]) by {
            assert(rest[i] == replies[i + 1]);
        }
        lemma_pending_from(next, rest);
        let tail = poll_run(next, rest);
        assert(poll_run(s, replies) == seq![step] + tail);
        assert forall|i: int|
            0 <= i < poll_run(s, replies).len() - 1 implies #[trigger] poll_run(s, replies)[i]
                == PollStep::Wait(s.interval as u64) by {
            if i > 0 {
                assert(poll_run(s, replies)[i] == tail[i - 1]);
            }
        }
    }
}

/// When every reply says the authorization is still pending, the loop asks
/// exactly `expires_in / interval` times, sleeping the initial interval
/// between two requests, and then times out.
pub proof fn lemma_pending_times_out(interval: u64, expires_in: u64, replies: Seq<AccessTokenResponse>)
    requires
        interval >= 1,
        expires_in >= interval,
        replies.len() >= expires_in / interval,
        forall|i: int| 0 <= i < replies.len() ==> is_pending(#[trigger] replies[i]),
    ensures
        poll_run(start_state(interval, expires_in), replies).len() == expires_in / interval,
        poll_run(start_state(interval, expires_in), replies).last() == PollStep::TimedOut,
        forall|i: int|
            0 <= i < expires_in / interval - 1 ==> #[trigger] poll_run(
                start_state(interval, expires_in),
                replies,
            )[i] == PollStep::Wait(interval),
{
    assert(expires_in as int / interval as int >= 1) by (nonlinear_arith)
        requires
            interval >= 1,
            expires_in >= interval,
    ;
    lemma_pending_from(start_state(interval, expires_in), replies);
}

/// A `slow_down` reply that leaves budget makes the interval exactly five
/// seconds longer and sleeps that new interval, leaving the budget as it was.
pub proof fn lemma_slow_down_grows_interval(s: PollState, reply: AccessTokenResponse)
    requires
        reply matches AccessTokenResponse::Failure(e) && e.error is SlowDown,
        s.attempts + 1 < s.limit,
        s.interval + SLOW_DOWN_STEP <= u64::MAX,
    ensures
        poll_transition(s, reply).0.interval == s.interval + 5,
        poll_transition(s, reply).1 == PollStep::Wait((s.interval + 5) as u64),
        poll_transition(s, reply).0.limit == s.limit,
{
}

/// The reply is the server asking the client to poll less often.
pub open spec fn is_slow_down(reply: AccessTokenResponse) -> bool {
    reply matches AccessTokenResponse::Failure(e) && e.error is SlowDown
}

/// How many of the replies ask the client to slow down.
pub open spec fn slow_down_count(replies: Seq<AccessTokenResponse>) -> int
    decreases replies.len(),
{
    if replies.len() == 0 {
        0
    } else {
        (if is_slow_down(replies[0]) {
            1int
        } else {
            0int
        }) + slow_down_count(replies.drop_first())
    }
}

proof fn lemma_slow_down_count_bounded(replies: Seq<AccessTokenResponse>)
    ensures
        0 <= slow_down_count(replies) <= replies.len(),
    decreases replies.len(),
{
    if replies.len() > 0 {
        lemma_slow_down_count_bounded(replies.drop_first());
    }
}

proof fn lemma_transient_run_from(s: PollState, replies: Seq<AccessTokenResponse>)
    requires
        0 <= s.attempts < s.limit,
        1 <= s.interval,
        s.interval + SLOW_DOWN_STEP * replies.len() <= u64::MAX,
        forall|i: int|
            0 <= i < replies.len() ==> is_pending(#[trigger] replies[i]) || is_slow_down(replies[i]),
    ensures
        replies.len() >= s.limit - s.attempts ==> poll_run(s, replies).len() == s.limit - s.attempts
            && poll_run(s, replies).last() == PollStep::TimedOut,
        replies.len() < s.limit - s.attempts ==> poll_run(s, replies).len() == replies.len(),
        forall|j: int|
            0 <= j < poll_run(s, replies).len() - 1 ==> (#[trigger] poll_run(s, replies)[j]) is Wait,
        forall|j: int|
            0 <= j < poll_run(s, replies).len() && (#[trigger] poll_run(s, replies)[j]) is Wait
                ==> poll_run(s, replies)[j] == PollStep::Wait(
                (s.interval + SLOW_DOWN_STEP * slow_down_count(replies.take(j + 1))) as u64,
            ),
    decreases replies.len(),
{
    if replies.len() > 0 {
        let (next, step) = poll_transition(s, replies[0]);
        let rest = replies.drop_first();
        let run = poll_run(s, replies);
        assert(is_pending(replies[0]) || is_slow_down(replies[0]));
        assert(replies.take(1).drop_first() =~= Seq::<AccessTokenResponse>::empty());
        assert(replies.take(1)[0] == replies[0]);
        assert(slow_down_count(replies.take(1).drop_first()) == 0);
        assert(slow_down_count(replies.take(1)) == if is_slow_down(replies[0]) {
            1int
        } else {
            0int
        });
        if s.attempts + 1 < s.limit {
            assert forall|i: int| 0 <= i < rest.len() implies is_pending(#[trigger] rest[i])
                || is_slow_down(rest[i]) by {
                assert(rest[i] == replies[i + 1]);
            }
            assert(step is Wait);
            assert(next.interval == s.interval + SLOW_DOWN_STEP * slow_down_count(replies.take(1)));
            lemma_transient_run_from(next, rest);
            let tail = poll_run(next, rest);
            assert(run == seq![step] + tail);
            assert forall|j: int| 0 <= j < run.len() - 1 implies (#[trigger] run[j]) is Wait by {
                if j > 0 {
                    assert(run[j] == tail[j - 1]);
                }
            }
            assert forall|j: int|
                0 <= j < run.len() && (#[trigger] run[j]) is Wait implies run[j] == PollStep::Wait(
                (s.interval + SLOW_DOWN_STEP * slow_down_count(replies.take(j + 1))) as u64,
            ) by {
                if j > 0 {
                    assert(run[j] == tail[j - 1]);
                    assert(replies.take(j + 1).drop_first() =~= rest.take(j));
                    assert(replies.take(j + 1)[0] == replies[0]);
                }
            }
            if rest.len() > 0 {
                assert(tail.len() > 0);
                assert(run.last() == tail.last());
            }
        }
    }
}

/// While the server answers only `authorization_pending` and `slow_down`,
/// the loop sleeps after each reply but the last one it takes, and each sleep
/// is the initial interval plus five seconds for every `slow_down` received
/// so far.  It takes `expires_in / interval` replies and then times out, or
/// takes every reply if there are fewer.  The interval must stay within what
/// a `u64` counts.
pub proof fn lemma_sleeps_follow_slow_downs(
    interval: u64,
    expires_in: u64,
    replies: Seq<AccessTokenResponse>,
)
    requires
        interval >= 1,
        expires_in >= interval,
        interval + SLOW_DOWN_STEP * replies.len() <= u64::MAX,
        forall|i: int|
            0 <= i < replies.len() ==> is_pending(#[trigger] replies[i]) || is_slow_down(replies[i]),
    ensures
        replies.len() >= expires_in / interval ==> poll_run(start_state(interval, expires_in), replies).len()
            == expires_in / interval && poll_run(start_state(interval, expires_in), replies).last()
            == PollStep::TimedOut,
        replies.len() < expires_in / interval ==> poll_run(start_state(interval, expires_in), replies).len()
            == replies.len(),
        forall|j: int|
            0 <= j < poll_run(start_state(interval, expires_in), replies).len() - 1 ==> (
            #[trigger] poll_run(start_state(interval, expires_in), replies)[j]) == PollStep::Wait(
                (interval + SLOW_DOWN_STEP * slow_down_count(replies.take(j + 1))) as u64,
            ),
{
    assert(expires_in as int / interval as int >= 1) by (nonlinear_arith)
        requires
            interval >= 1,
            expires_in >= interval,
    ;
    lemma_transient_run_from(start_state(interval, expires_in), replies);
}

/// Whatever the server replies, the attempt budget stays the one fixed at the start.
pub proof fn lemma_budget_is_fixed(s: PollState, reply: AccessTokenResponse)
    ensures
        poll_transition(s, reply).0.limit == s.limit,
{
}

/// A reply with an error code other than `authorization_pending` and
/// `slow_down` ends the loop at that reply, with that error.
pub proof fn lemma_fatal_reply_ends_run(s: PollState, replies: Seq<AccessTokenResponse>, k: int)
    requires
        0 <= k < poll_run(s, replies).len(),
        replies[k] matches AccessTokenResponse::Failure(e) && !is_transient(e.error),
    ensures
        poll_run(s, replies).len() == k + 1,
        poll_run(s, replies)[k] == PollStep::Denied(replies[k]->Failure_0),
    decreases k,
{
    lemma_run_no_longer_than_replies(s, replies);
    if k > 0 {
        let (next, step) = poll_transition(s, replies[0]);
        assert(step is Wait);
        assert(replies.drop_first()[k - 1] == replies[k]);
        lemma_fatal_reply_ends_run(next, replies.drop_first(), k - 1);
    }
}

/// A reply that carries an access token ends the loop at that reply, with
/// that very token.
pub proof fn lemma_token_reply_ends_run(s: PollState, replies: Seq<AccessTokenResponse>, k: int)
    requires
        0 <= k < poll_run(s, replies).len(),
        replies[k] is Success,
    ensures
        poll_run(s, replies).len() == k + 1,
        poll_run(s, replies)[k] == PollStep::Granted(replies[k]->access_token),
    decreases k,
{
    lemma_run_no_longer_than_replies(s, replies);
    if k > 0 {
        let (next, step) = poll_transition(s, replies[0]);
        assert(step is Wait);
        assert(replies.drop_first()[k - 1] == replies[k]);
        lemma_token_reply_ends_run(next, replies.drop_first(), k - 1);
    }
}


/// A reply that carries an access token classifies as a success with that token.
pub proof fn lemma_token_reply_round_trip(raw: RawTokenResponse, r: Result<AccessTokenResponse, AppError>)
    requires
        classifies_as(raw, r),
        raw.access_token is Some,
    ensures
        r == Ok::<AccessTokenResponse, AppError>(
            AccessTokenResponse::Success { access_token: raw.access_token->Some_0 },
        ),
{
}

/// An error reply whose code is the wire name of `e` classifies as that code,
/// with the description and URI it carried.
pub proof fn lemma_error_reply_round_trip(
    e: AccessTokenError,
    raw: RawTokenResponse,
    r: Result<AccessTokenResponse, AppError>,
)
    requires
        classifies_as(raw, r),
        raw.access_token is None,
        raw.error matches Some(c) && c@ == wire_code(e),
        raw.error_description is Some,
        raw.error_uri is Some,
    ensures
        r matches Ok(AccessTokenResponse::Failure(f)) && f.error == e && f.error_description
            == raw.error_description->Some_0 && f.error_uri == raw.error_uri->Some_0,
{
    lemma_code_round_trip(e);
}

} // verus!
