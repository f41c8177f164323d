//! The connection handler: the control loop of one client connection, as a
//! state machine.
//!
//! The caller owns the sockets. It performs the action the machine asks for
//! and reports the outcome as the next event. Requests and responses pass
//! through as values of the caller's own types `Q` and `R`: the machine hands
//! back exactly what it was given and never looks inside.

use crate::rate::RateLimiter;
use crate::rate::RateView;
use vstd::prelude::*;
use vstd::string::*;

verus! {

/// Name of the header that tells the upstream for which client a request is
/// forwarded.
pub const FORWARDED_FOR: &'static str = "x-forwarded-for";

/// Status sent for a request that is malformed, incomplete or has a
/// content-length defect.
pub const BAD_REQUEST: u16 = 400;

/// Status sent for a request whose body is too large.
pub const PAYLOAD_TOO_LARGE: u16 = 413;

/// Status sent for a request over the client's rate limit.
pub const TOO_MANY_REQUESTS: u16 = 429;

/// Status sent when no upstream can be connected to, or when the upstream
/// fails in the middle of an exchange.
pub const BAD_GATEWAY: u16 = 502;

/// Status for a failure of the client's own connection while a request is
/// read.
pub const SERVICE_UNAVAILABLE: u16 = 503;

/// Why no request could be read from the client.
#[derive(Clone, Copy, Debug, PartialEq, Eq)]
pub enum RequestError {
    /// The stream ended after this many bytes of an unfinished request. Zero
    /// bytes means that the client hung up between requests.
    IncompleteRequest(usize),
    /// The bytes are not a request.
    MalformedRequest,
    /// The content-length header is not a number.
    InvalidContentLength,
    /// The body read does not have the length announced.
    ContentLengthMismatch,
    /// The body is larger than the proxy accepts.
    RequestBodyTooLarge,
    /// Reading from the client's connection failed.
    ConnectionError,
}

impl RequestError {
    /// The status that tells a client of this defect.
    pub open spec fn status(self) -> u16 {
        match self {
            RequestError::IncompleteRequest(_) => BAD_REQUEST,
            RequestError::MalformedRequest => BAD_REQUEST,
            RequestError::InvalidContentLength => BAD_REQUEST,
            RequestError::ContentLengthMismatch => BAD_REQUEST,
            RequestError::RequestBodyTooLarge => PAYLOAD_TOO_LARGE,
            RequestError::ConnectionError => SERVICE_UNAVAILABLE,
        }
    }

    /// Whether this error ends the connection without a response: the client
    /// hung up cleanly, or its connection broke.
    pub open spec fn hangs_up(self) -> bool {
        self == RequestError::IncompleteRequest(0) || self == RequestError::ConnectionError
    }

    /// The status that tells a client of this defect.
    pub fn error_status(&self) -> (status: u16)
        ensures
            status == self.status(),
    {
        match self {
            RequestError::IncompleteRequest(_) => BAD_REQUEST,
            RequestError::MalformedRequest => BAD_REQUEST,
            RequestError::InvalidContentLength => BAD_REQUEST,
            RequestError::ContentLengthMismatch => BAD_REQUEST,
            RequestError::RequestBodyTooLarge => PAYLOAD_TOO_LARGE,
            RequestError::ConnectionError => SERVICE_UNAVAILABLE,
        }
    }

    /// Whether this error ends the connection without a response.
    pub fn is_hang_up(&self) -> (hang_up: bool)
        ensures
            hang_up == self.hangs_up(),
    {
        match self {
            RequestError::IncompleteRequest(n) => *n == 0,
            RequestError::ConnectionError => true,
            _ => false,
        }
    }
}

/// The value of the forwarded-for header of a request on its way to the
/// upstream: the client's address, behind a comma and a space after any value
/// that the header had already, so that every proxy on the way stays listed.
pub open spec fn forwarded_for_value(existing: Option<Seq<u8>>, client_ip: Seq<u8>) -> Seq<u8> {
    match existing {
        Some(value) => value + seq![0x2cu8, 0x20u8] + client_ip,
        None => client_ip,
    }
}

/// Computes the forwarded-for header for a request of `client_ip`, from the
/// value that the header has in the request as it came, if it has one.
pub fn forwarded_for(existing: Option<&[u8]>, client_ip: &str) -> (value: Vec<u8>)
    ensures
        value@ == forwarded_for_value(
            match existing {
                Some(bytes) => Some(bytes@),
                None => None,
            },
            client_ip.spec_bytes(),
        ),
{
    let mut value: Vec<u8> = Vec::new();
    if let Some(bytes) = existing {
        value.extend_from_slice(bytes);
        value.push(0x2c);
        value.push(0x20);
        assert(value@ =~= bytes@ + seq![0x2cu8, 0x20u8]);
    }
    value.extend_from_slice(client_ip.as_bytes());
    value
}

/// Where a connection stands: what the caller is doing on its behalf.
#[derive(Clone, Copy, Debug, PartialEq, Eq)]
pub enum Phase {
    /// A connected upstream is being looked for.
    AwaitUpstream,
    /// A request is being read from the client.
    AwaitRequest,
    /// A request is being written to the upstream.
    Forwarding,
    /// The upstream's response is being read.
    AwaitResponse,
    /// A response is being written to the client, after which the connection
    /// goes on.
    Replying,
    /// The connection is over.
    Closed,
}

/// What the caller reports back.
#[derive(Debug, PartialEq, Eq)]
pub enum Event<Q, R> {
    /// An upstream was connected to.
    UpstreamConnected,
    /// No live upstream is left to connect to.
    UpstreamUnavailable,
    /// A well-formed request was read from the client.
    Request(Q),
    /// No request could be read from the client.
    RequestFailed(RequestError),
    /// The request was written to the upstream.
    Forwarded,
    /// Writing the request to the upstream failed.
    ForwardFailed,
    /// A well-formed response was read from the upstream.
    Response(R),
    /// No response could be read from the upstream.
    ResponseFailed,
    /// The response was written to the client.
    Replied,
    /// Writing the response to the client failed.
    ReplyFailed,
}

/// What the caller is to do next.
#[derive(Debug, PartialEq, Eq)]
pub enum Action<Q, R> {
    /// Read the next request from the client.
    ReadRequest,
    /// Mark the request as forwarded for the client's address and write it to
    /// the upstream.
    Forward(Q),
    /// Read the upstream's response to the request just forwarded.
    ReadResponse,
    /// Write this response to the client as it is.
    Relay(R),
    /// Write an error response with this status to the client; the connection
    /// goes on.
    Reject(u16),
    /// Write an error response with this status to the client and close the
    /// connection.
    Abort(u16),
    /// Close the connection.
    Close,
}

/// The result of one step: the next phase, the rate limiter as the step left
/// it, and the action asked for.
pub struct Step<Q, R> {
    pub phase: Phase,
    pub rates: RateView,
    pub action: Action<Q, R>,
}

/// Shorthand for a step.
pub open spec fn go<Q, R>(phase: Phase, rates: RateView, action: Action<Q, R>) -> Step<Q, R> {
    Step { phase, rates, action }
}

/// The transition function of a connection: what follows when `event` is
/// reported in `phase` for the client at address `ip`. An event that the
/// phase does not wait for closes the connection.
pub open spec fn step<Q, R>(phase: Phase, rates: RateView, ip: Seq<char>, event: Event<Q, R>) -> Step<
    Q,
    R,
> {
    match (phase, event) {
        (Phase::AwaitUpstream, Event::UpstreamConnected) => go(
            Phase::AwaitRequest,
            rates,
            Action::ReadRequest,
        ),
        (Phase::AwaitUpstream, Event::UpstreamUnavailable) => go(
            Phase::Closed,
            rates,
            Action::Abort(BAD_GATEWAY),
        ),
        (Phase::AwaitRequest, Event::Request(request)) => if rates.admits(ip) {
            go(Phase::Forwarding, rates.after_admission(ip), Action::Forward(request))
        } else {
            go(Phase::Replying, rates.after_admission(ip), Action::Reject(TOO_MANY_REQUESTS))
        },
        (Phase::AwaitRequest, Event::RequestFailed(error)) => if error.hangs_up() {
            go(Phase::Closed, rates, Action::Close)
        } else {
            go(Phase::Replying, rates, Action::Reject(error.status()))
        },
        (Phase::Forwarding, Event::Forwarded) => go(
            Phase::AwaitResponse,
            rates,
            Action::ReadResponse,
        ),
        (Phase::Forwarding, Event::ForwardFailed) => go(
            Phase::Closed,
            rates,
            Action::Abort(BAD_GATEWAY),
        ),
        (Phase::AwaitResponse, Event::Response(response)) => go(
            Phase::Replying,
            rates,
            Action::Relay(response),
        ),
        (Phase::AwaitResponse, Event::ResponseFailed) => go(
            Phase::Closed,
            rates,
            Action::Abort(BAD_GATEWAY),
        ),
        (Phase::Replying, Event::Replied) => go(Phase::AwaitRequest, rates, Action::ReadRequest),
        _ => go(Phase::Closed, rates, Action::Close),
    }
}

/// A request within the rate limit goes to the upstream as it came, and the
/// response read from the upstream goes to the client as it came: the whole
/// exchange, from the request read to the next request awaited, hands on
/// exactly the two values it was given and counts the request once.
pub proof fn lemma_exchange_relays_exactly<Q, R>(
    rates: RateView,
    ip: Seq<char>,
    request: Q,
    response: R,
)
    requires
        rates.admits(ip),
    ensures
        step::<Q, R>(Phase::AwaitRequest, rates, ip, Event::Request(request)) == go::<Q, R>(
            Phase::Forwarding,
            rates.after_admission(ip),
            Action::Forward(request),
        ),
        step::<Q, R>(Phase::Forwarding, rates.after_admission(ip), ip, Event::Forwarded) == go::<
            Q,
            R,
        >(Phase::AwaitResponse, rates.after_admission(ip), Action::ReadResponse),
        step::<Q, R>(
            Phase::AwaitResponse,
            rates.after_admission(ip),
            ip,
            Event::Response(response),
        ) == go::<Q, R>(Phase::Replying, rates.after_admission(ip), Action::Relay(response)),
        step::<Q, R>(Phase::Replying, rates.after_admission(ip), ip, Event::Replied) == go::<Q, R>(
            Phase::AwaitRequest,
            rates.after_admission(ip),
            Action::ReadRequest,
        ),
{
}

/// A request over the rate limit is answered with "too many requests" and
/// never forwarded; it is counted all the same, and the connection stays
/// open for the next request.
pub proof fn lemma_over_limit_rejects<Q, R>(rates: RateView, ip: Seq<char>, request: Q)
    requires
        !rates.admits(ip),
    ensures
        step::<Q, R>(Phase::AwaitRequest, rates, ip, Event::Request(request)) == go::<Q, R>(
            Phase::Replying,
            rates.bump(ip),
            Action::Reject(TOO_MANY_REQUESTS),
        ),
        step::<Q, R>(Phase::Replying, rates.bump(ip), ip, Event::Replied) == go::<Q, R>(
            Phase::AwaitRequest,
            rates.bump(ip),
            Action::ReadRequest,
        ),
{
}

/// A connection for which no live upstream is left answers "bad gateway"
/// and is over: the failure is final for this client and touches nothing
/// else.
pub proof fn lemma_no_upstream_aborts<Q, R>(rates: RateView, ip: Seq<char>)
    ensures
        step::<Q, R>(Phase::AwaitUpstream, rates, ip, Event::UpstreamUnavailable) == go::<Q, R>(
            Phase::Closed,
            rates,
            Action::Abort(BAD_GATEWAY),
        ),
{
}

/// A failure of the upstream in the middle of an exchange answers "bad
/// gateway" and ends the connection: the upstream is never replaced
/// mid-stream.
pub proof fn lemma_upstream_failure_aborts<Q, R>(rates: RateView, ip: Seq<char>)
    ensures
        step::<Q, R>(Phase::Forwarding, rates, ip, Event::ForwardFailed) == go::<Q, R>(
            Phase::Closed,
            rates,
            Action::Abort(BAD_GATEWAY),
        ),
        step::<Q, R>(Phase::AwaitResponse, rates, ip, Event::ResponseFailed) == go::<Q, R>(
            Phase::Closed,
            rates,
            Action::Abort(BAD_GATEWAY),
        ),
{
}

/// A request that cannot be read is answered, unless the client is gone,
/// with the status of its defect, and the connection goes on; it is never
/// counted against the rate limit.
pub proof fn lemma_bad_request_keeps_connection<Q, R>(
    rates: RateView,
    ip: Seq<char>,
    error: RequestError,
)
    ensures
        step::<Q, R>(Phase::AwaitRequest, rates, ip, Event::RequestFailed(error)).rates == rates,
        !error.hangs_up() ==> step::<Q, R>(
            Phase::AwaitRequest,
            rates,
            ip,
            Event::RequestFailed(error),
        ) == go::<Q, R>(Phase::Replying, rates, Action::Reject(error.status())),
        error.hangs_up() ==> step::<Q, R>(
            Phase::AwaitRequest,
            rates,
            ip,
            Event::RequestFailed(error),
        ) == go::<Q, R>(Phase::Closed, rates, Action::Close),
        error.status() == BAD_REQUEST || error.status() == PAYLOAD_TOO_LARGE || error.status()
            == SERVICE_UNAVAILABLE,
{
}

/// A closed connection stays closed, and only a request that was read ever
/// changes the rate limiter.
pub proof fn lemma_closed_is_final<Q, R>(
    phase: Phase,
    rates: RateView,
    ip: Seq<char>,
    event: Event<Q, R>,
)
    ensures
        phase == Phase::Closed ==> step(phase, rates, ip, event) == go::<Q, R>(
            Phase::Closed,
            rates,
            Action::Close,
        ),
        !(phase == Phase::AwaitRequest && event is Request) ==> step(phase, rates, ip, event).rates
            == rates,
        step(phase, rates, ip, event).phase == Phase::Closed <==> (step(
            phase,
            rates,
            ip,
            event,
        ).action is Abort || step(phase, rates, ip, event).action is Close),
{
}

/// What a connection is, mathematically: the client's address and the phase.
pub struct ConnectionView {
    pub client_ip: Seq<char>,
    pub phase: Phase,
}

/// One client connection.
pub struct Connection {
    client_ip: String,
    phase: Phase,
}

impl View for Connection {
    type V = ConnectionView;

    closed spec fn view(&self) -> ConnectionView {
        ConnectionView { client_ip: self.client_ip@, phase: self.phase }
    }
}

impl Connection {
    /// Takes up a connection just accepted from `client_ip`. The client is
    /// made known to the rate limiter, and the connection waits for an
    /// upstream.
    pub fn accept(client_ip: String, rates: &mut RateLimiter) -> (connection: Self)
        requires
            old(rates).wf(),
        ensures
            final(rates).wf(),
            final(rates)@ == old(rates)@.register(client_ip@),
            connection@ == (ConnectionView { client_ip: client_ip@, phase: Phase::AwaitUpstream }),
    {
        rates.register(&client_ip);
        Connection { client_ip, phase: Phase::AwaitUpstream }
    }

    /// The client's address.
    pub fn client_ip(&self) -> (client_ip: &String)
        ensures
            client_ip@ == self@.client_ip,
    {
        &self.client_ip
    }

    /// Where the connection stands.
    pub fn phase(&self) -> (phase: Phase)
        ensures
            phase == self@.phase,
    {
        self.phase
    }

    /// Whether the connection is over.
    pub fn is_closed(&self) -> (closed: bool)
        ensures
            closed == (self@.phase == Phase::Closed),
    {
        match self.phase {
            Phase::Closed => true,
            _ => false,
        }
    }
}

/// Takes one event of a connection and says what to do next. The connection
/// moves to its next phase; a request that arrives is counted against the
/// client's rate limit. The address of the client never changes.
pub fn handle_connection<Q, R>(
    connection: &mut Connection,
    rates: &mut RateLimiter,
    event: Event<Q, R>,
) -> (action: Action<Q, R>)
    requires
        old(rates).wf(),
    ensures
        final(rates).wf(),
        final(connection)@.client_ip == old(connection)@.client_ip,
        go(final(connection)@.phase, final(rates)@, action) == step(
            old(connection)@.phase,
            old(rates)@,
            old(connection)@.client_ip,
            event,
        ),
{
    match (connection.phase, event) {
        (Phase::AwaitUpstream, Event::UpstreamConnected) => {
            connection.phase = Phase::AwaitRequest;
            Action::ReadRequest
        },
        (Phase::AwaitUpstream, Event::UpstreamUnavailable) => {
            connection.phase = Phase::Closed;
            Action::Abort(BAD_GATEWAY)
        },
        (Phase::AwaitRequest, Event::Request(request)) => {
            if rates.update_rate_and_check(&connection.client_ip) {
                connection.phase = Phase::Forwarding;
                Action::Forward(request)
            } else {
                connection.phase = Phase::Replying;
                Action::Reject(TOO_MANY_REQUESTS)
            }
        },
        (Phase::AwaitRequest, Event::RequestFailed(error)) => {
            if error.is_hang_up() {
                connection.phase = Phase::Closed;
                Action::Close
            } else {
                connection.phase = Phase::Replying;
                Action::Reject(error.error_status())
            }
        },
        (Phase::Forwarding, Event::Forwarded) => {
            connection.phase = Phase::AwaitResponse;
            Action::ReadResponse
        },
        (Phase::Forwarding, Event::ForwardFailed) => {
            connection.phase = Phase::Closed;
            Action::Abort(BAD_GATEWAY)
        },
        (Phase::AwaitResponse, Event::Response(response)) => {
            connection.phase = Phase::Replying;
            Action::Relay(response)
        },
        (Phase::AwaitResponse, Event::ResponseFailed) => {
            connection.phase = Phase::Closed;
            Action::Abort(BAD_GATEWAY)
        },
        (Phase::Replying, Event::Replied) => {
            connection.phase = Phase::AwaitRequest;
            Action::ReadRequest
        },
        _ => {
            connection.phase = Phase::Closed;
            Action::Close
        },
    }
}

} // verus!
