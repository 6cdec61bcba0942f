//! The life of one proxy connection as a state machine.
//!
//! The machine does no I/O. Its driver reads lines, asks the policy, waits
//! for approvals, connects upstream and moves bytes; after each of these it
//! hands the machine an event and gets back the next thing to do.

use crate::domain_approval::{DomainDecision, FilterAction};
use crate::network_proxy::{
    parse_request_line, request_of_line, ProxyError, ProxyErrorSpec, ProxyRequest,
    ProxyRequestSpec,
};
use crate::text::{chars_of, decimal_digits, push_all, push_decimal, string_of, trim, trim_bounds};
use vstd::prelude::*;

verus! {

/// Where a connection stands.
#[derive(Debug, Clone, PartialEq, Eq)]
pub enum ConnectionState {
    /// Nothing was read yet.
    AwaitingRequestLine,
    /// A CONNECT request line was read; its header lines are being
    /// discarded.
    ConnectHandshake(ProxyRequest),
    /// A forward-proxy request line was read; its header lines are being
    /// captured, as they were sent.
    HttpForward(ProxyRequest, String),
    /// The request was read in full and the policy was asked.
    PolicyDecision(ProxyRequest, String),
    /// The policy asked for approval, and the approver was asked.
    AwaitingApproval(ProxyRequest, String),
    /// The request was let through; the upstream connection is being made.
    UpstreamConnecting(ProxyRequest, String),
    /// Terminal: bytes are relayed between client and upstream.
    UpstreamConnected,
    /// Terminal: the upstream could not be reached; `502` was sent.
    UpstreamFailed,
    /// Terminal: the request was refused; `403` was sent.
    Denied,
    /// Terminal: the connection was dropped without a response.
    Failed,
}

/// What the driver reports to the machine.
#[derive(Debug, Clone, PartialEq, Eq)]
pub enum ProxyEvent {
    /// One line read from the client, with its line end; empty at end of
    /// input.
    Line(String),
    /// The policy's answer.
    Policy(FilterAction),
    /// The outcome of an approval request.
    Decision(DomainDecision),
    /// The upstream connection stands.
    Connected,
    /// The upstream connection failed, with the error's text.
    ConnectFailed(String),
}

/// What the machine asks the driver to do next.
#[derive(Debug, Clone, PartialEq, Eq)]
pub enum ProxyAction {
    /// Read one more line from the client and report it.
    ReadLine,
    /// Ask the policy about `domain` in `session` and report its answer.
    CheckPolicy { session: String, domain: String },
    /// File an approval request, wait for its decision and report it.
    AwaitApproval { session: String, domain: String },
    /// Connect to `address` (`host:port`) and report how it went.
    ConnectUpstream { address: String },
    /// Write `response` to the client and close the connection.
    Respond { response: String },
    /// Write `to_client` to the client and `to_upstream` to the upstream,
    /// then copy bytes in both directions until each has ended.
    Relay { to_client: String, to_upstream: String },
    /// Close the connection without a response.
    Drop { error: ProxyError },
}

/// The mathematical value of a [`ConnectionState`].
pub ghost enum StateSpec {
    AwaitingRequestLine,
    ConnectHandshake(ProxyRequestSpec),
    HttpForward(ProxyRequestSpec, Seq<char>),
    PolicyDecision(ProxyRequestSpec, Seq<char>),
    AwaitingApproval(ProxyRequestSpec, Seq<char>),
    UpstreamConnecting(ProxyRequestSpec, Seq<char>),
    UpstreamConnected,
    UpstreamFailed,
    Denied,
    Failed,
}

/// The mathematical value of a [`ProxyEvent`].
pub ghost enum EventSpec {
    Line(Seq<char>),
    Policy(FilterAction),
    Decision(DomainDecision),
    Connected,
    ConnectFailed(Seq<char>),
}

/// The mathematical value of a [`ProxyAction`].
pub ghost enum ActionSpec {
    ReadLine,
    CheckPolicy { session: Seq<char>, domain: Seq<char> },
    AwaitApproval { session: Seq<char>, domain: Seq<char> },
    ConnectUpstream { address: Seq<char> },
    Respond { response: Seq<char> },
    Relay { to_client: Seq<char>, to_upstream: Seq<char> },
    Drop { error: ProxyErrorSpec },
}

impl View for ConnectionState {
    type V = StateSpec;

    open spec fn view(&self) -> StateSpec {
        match self {
            ConnectionState::AwaitingRequestLine => StateSpec::AwaitingRequestLine,
            ConnectionState::ConnectHandshake(r) => StateSpec::ConnectHandshake(r@),
            ConnectionState::HttpForward(r, h) => StateSpec::HttpForward(r@, h@),
            ConnectionState::PolicyDecision(r, h) => StateSpec::PolicyDecision(r@, h@),
            ConnectionState::AwaitingApproval(r, h) => StateSpec::AwaitingApproval(r@, h@),
            ConnectionState::UpstreamConnecting(r, h) => StateSpec::UpstreamConnecting(r@, h@),
            ConnectionState::UpstreamConnected => StateSpec::UpstreamConnected,
            ConnectionState::UpstreamFailed => StateSpec::UpstreamFailed,
            ConnectionState::Denied => StateSpec::Denied,
            ConnectionState::Failed => StateSpec::Failed,
        }
    }
}

impl View for ProxyEvent {
    type V = EventSpec;

    open spec fn view(&self) -> EventSpec {
        match self {
            ProxyEvent::Line(l) => EventSpec::Line(l@),
            ProxyEvent::Policy(a) => EventSpec::Policy(*a),
            ProxyEvent::Decision(d) => EventSpec::Decision(*d),
            ProxyEvent::Connected => EventSpec::Connected,
            ProxyEvent::ConnectFailed(e) => EventSpec::ConnectFailed(e@),
        }
    }
}

impl View for ProxyAction {
    type V = ActionSpec;

    open spec fn view(&self) -> ActionSpec {
        match self {
            ProxyAction::ReadLine => ActionSpec::ReadLine,
            ProxyAction::CheckPolicy { session, domain } => ActionSpec::CheckPolicy {
                session: session@,
                domain: domain@,
            },
            ProxyAction::AwaitApproval { session, domain } => ActionSpec::AwaitApproval {
                session: session@,
                domain: domain@,
            },
            ProxyAction::ConnectUpstream { address } => ActionSpec::ConnectUpstream {
                address: address@,
            },
            ProxyAction::Respond { response } => ActionSpec::Respond { response: response@ },
            ProxyAction::Relay { to_client, to_upstream } => ActionSpec::Relay {
                to_client: to_client@,
                to_upstream: to_upstream@,
            },
            ProxyAction::Drop { error } => ActionSpec::Drop { error: error@ },
        }
    }
}

impl StateSpec {
    /// A state that no event leaves.
    pub open spec fn is_terminal(self) -> bool {
        self is UpstreamConnected || self is UpstreamFailed || self is Denied || self is Failed
    }

    /// A state that is reached only after the policy, or an approver, let
    /// the request through.
    pub open spec fn is_cleared(self) -> bool {
        self is UpstreamConnecting || self is UpstreamConnected || self is UpstreamFailed
    }
}

/// The response to a refused request.
pub open spec fn forbidden_response(request: ProxyRequestSpec) -> Seq<char> {
    match request {
        ProxyRequestSpec::Connect { .. } => "HTTP/1.1 403 Forbidden\r\n\r\n"@,
        ProxyRequestSpec::Forward { .. } => "HTTP/1.1 403 Forbidden\r\nContent-Length: 0\r\n\r\n"@,
    }
}

/// The response to a request whose upstream could not be reached: the
/// status line and, as the body, the error's text.
pub open spec fn bad_gateway_response(error: Seq<char>) -> Seq<char> {
    "HTTP/1.1 502 Bad Gateway\r\n\r\n"@ + error
}

/// What the client is sent once the upstream connection stands: the
/// confirmation of a tunnel, and nothing for a forwarded request.
pub open spec fn established_response(request: ProxyRequestSpec) -> Seq<char> {
    match request {
        ProxyRequestSpec::Connect { .. } => "HTTP/1.1 200 Connection Established\r\n\r\n"@,
        ProxyRequestSpec::Forward { .. } => Seq::empty(),
    }
}

/// What the upstream is sent first: nothing for a tunnel; for a forwarded
/// request the request line with the URL's path, the captured header
/// lines, and the blank line that ends them.
pub open spec fn upstream_preamble(request: ProxyRequestSpec, headers: Seq<char>) -> Seq<char> {
    match request {
        ProxyRequestSpec::Connect { .. } => Seq::empty(),
        ProxyRequestSpec::Forward { method, path, .. } => method + " "@ + path + " HTTP/1.1\r\n"@
            + headers + "\r\n"@,
    }
}

/// The upstream address of a request: `host:port`.
pub open spec fn upstream_address(request: ProxyRequestSpec) -> Seq<char> {
    request.domain() + ":"@ + decimal_digits(request.port() as nat)
}

/// The transition function: the state that follows `state` on `event`, and
/// what the driver is to do next.
pub open spec fn step_spec(session: Seq<char>, state: StateSpec, event: EventSpec) -> (
    StateSpec,
    ActionSpec,
) {
    match (state, event) {
        (StateSpec::AwaitingRequestLine, EventSpec::Line(line)) => match request_of_line(line) {
            Err(error) => (StateSpec::Failed, ActionSpec::Drop { error }),
            Ok(request) => match request {
                ProxyRequestSpec::Connect { .. } => (
                    StateSpec::ConnectHandshake(request),
                    ActionSpec::ReadLine,
                ),
                ProxyRequestSpec::Forward { .. } => (
                    StateSpec::HttpForward(request, Seq::empty()),
                    ActionSpec::ReadLine,
                ),
            },
        },
        (StateSpec::ConnectHandshake(request), EventSpec::Line(line)) => if trim(line).len() == 0 {
            (
                StateSpec::PolicyDecision(request, Seq::empty()),
                ActionSpec::CheckPolicy { session, domain: request.domain() },
            )
        } else {
            (StateSpec::ConnectHandshake(request), ActionSpec::ReadLine)
        },
        (StateSpec::HttpForward(request, headers), EventSpec::Line(line)) => if trim(line).len()
            == 0 {
            (
                StateSpec::PolicyDecision(request, headers),
                ActionSpec::CheckPolicy { session, domain: request.domain() },
            )
        } else {
            (StateSpec::HttpForward(request, headers + line), ActionSpec::ReadLine)
        },
        (StateSpec::PolicyDecision(request, headers), EventSpec::Policy(action)) => match action {
            FilterAction::Allow => (
                StateSpec::UpstreamConnecting(request, headers),
                ActionSpec::ConnectUpstream { address: upstream_address(request) },
            ),
            FilterAction::Deny => (
                StateSpec::Denied,
                ActionSpec::Respond { response: forbidden_response(request) },
            ),
            FilterAction::NeedsApproval => (
                StateSpec::AwaitingApproval(request, headers),
                ActionSpec::AwaitApproval { session, domain: request.domain() },
            ),
        },
        (
            StateSpec::AwaitingApproval(request, headers),
            EventSpec::Decision(decision),
        ) => match decision {
            DomainDecision::Approved => (
                StateSpec::UpstreamConnecting(request, headers),
                ActionSpec::ConnectUpstream { address: upstream_address(request) },
            ),
            _ => (
                StateSpec::Denied,
                ActionSpec::Respond { response: forbidden_response(request) },
            ),
        },
        (StateSpec::UpstreamConnecting(request, headers), EventSpec::Connected) => (
            StateSpec::UpstreamConnected,
            ActionSpec::Relay {
                to_client: established_response(request),
                to_upstream: upstream_preamble(request, headers),
            },
        ),
        (StateSpec::UpstreamConnecting(request, headers), EventSpec::ConnectFailed(error)) => (
            StateSpec::UpstreamFailed,
            ActionSpec::Respond { response: bad_gateway_response(error) },
        ),
        _ => (
            if state.is_terminal() {
                state
            } else {
                StateSpec::Failed
            },
            ActionSpec::Drop { error: ProxyErrorSpec::UnexpectedEvent },
        ),
    }
}

/// The response to a refused request.
pub fn forbidden(request: &ProxyRequest) -> (response: String)
    ensures
        response@ == forbidden_response(request@),
{
    match request {
        ProxyRequest::Connect { .. } => "HTTP/1.1 403 Forbidden\r\n\r\n".to_owned(),
        ProxyRequest::Forward { .. } => "HTTP/1.1 403 Forbidden\r\nContent-Length: 0\r\n\r\n".to_owned(),
    }
}

/// The response to a request whose upstream could not be reached.
pub fn bad_gateway(error: &str) -> (response: String)
    ensures
        response@ == bad_gateway_response(error@),
{
    let mut out = chars_of("HTTP/1.1 502 Bad Gateway\r\n\r\n");
    push_all(&mut out, &chars_of(error));
    string_of(&out)
}

/// What the client is sent once the upstream connection stands.
pub fn established(request: &ProxyRequest) -> (response: String)
    ensures
        response@ == established_response(request@),
{
    match request {
        ProxyRequest::Connect { .. } => "HTTP/1.1 200 Connection Established\r\n\r\n".to_owned(),
        ProxyRequest::Forward { .. } => String::new(),
    }
}

/// What the upstream is sent before bytes are relayed.
pub fn preamble(request: &ProxyRequest, headers: &str) -> (head: String)
    ensures
        head@ == upstream_preamble(request@, headers@),
{
    match request {
        ProxyRequest::Connect { .. } => String::new(),
        ProxyRequest::Forward { method, path, .. } => {
            let mut out = chars_of(method.as_str());
            push_all(&mut out, &chars_of(" "));
            push_all(&mut out, &chars_of(path.as_str()));
            push_all(&mut out, &chars_of(" HTTP/1.1\r\n"));
            push_all(&mut out, &chars_of(headers));
            push_all(&mut out, &chars_of("\r\n"));
            string_of(&out)
        },
    }
}

/// The upstream address of a request: `host:port`.
pub fn address_of(request: &ProxyRequest) -> (address: String)
    ensures
        address@ == upstream_address(request@),
{
    let (domain, port) = match request {
        ProxyRequest::Connect { domain, port } => (domain, *port),
        ProxyRequest::Forward { domain, port, .. } => (domain, *port),
    };
    let mut out = chars_of(domain.as_str());
    push_all(&mut out, &chars_of(":"));
    push_decimal(&mut out, port);
    string_of(&out)
}

/// Whether a line holds nothing but white space.
pub fn is_blank(line: &str) -> (r: bool)
    ensures
        r == (trim(line@).len() == 0),
{
    let v = chars_of(line);
    let (start, end) = trim_bounds(&v);
    start == end
}

/// One proxy connection: the session it belongs to and where it stands.
pub struct ProxyConnection {
    session: String,
    state: ConnectionState,
}

/// The mathematical value of a [`ProxyConnection`].
pub ghost struct ConnectionSpec {
    pub session: Seq<char>,
    pub state: StateSpec,
}

impl View for ProxyConnection {
    type V = ConnectionSpec;

    closed spec fn view(&self) -> ConnectionSpec {
        ConnectionSpec { session: self.session@, state: self.state@ }
    }
}

impl ProxyConnection {
    /// A connection on which nothing was read yet. The session is the
    /// peer's socket address, written as a string.
    pub fn new(session: String) -> (c: ProxyConnection)
        ensures
            c@ == (ConnectionSpec { session: session@, state: StateSpec::AwaitingRequestLine }),
    {
        ProxyConnection { session, state: ConnectionState::AwaitingRequestLine }
    }

    /// The session of the connection.
    pub fn session(&self) -> (s: &str)
        ensures
            s@ == self@.session,
    {
        self.session.as_str()
    }

    /// Where the connection stands.
    pub fn state(&self) -> (s: &ConnectionState)
        ensures
            s@ == self@.state,
    {
        &self.state
    }

    /// Whether the connection has reached a state that no event leaves.
    pub fn is_terminal(&self) -> (r: bool)
        ensures
            r == self@.state.is_terminal(),
    {
        match &self.state {
            ConnectionState::UpstreamConnected => true,
            ConnectionState::UpstreamFailed => true,
            ConnectionState::Denied => true,
            ConnectionState::Failed => true,
            _ => false,
        }
    }

    /// Takes one event and says what to do next. The session never
    /// changes.
    pub fn step(self, event: ProxyEvent) -> (out: (ProxyConnection, ProxyAction))
        ensures
            out.0@.session == self@.session,
            (out.0@.state, out.1@) == step_spec(self@.session, self@.state, event@),
    {
        let ProxyConnection { session, state } = self;
        let (next, action) = match (state, event) {
            (ConnectionState::AwaitingRequestLine, ProxyEvent::Line(line)) => {
                match parse_request_line(line.as_str()) {
                    Err(error) => (ConnectionState::Failed, ProxyAction::Drop { error }),
                    Ok(request) => match request {
                        ProxyRequest::Connect { .. } => (
                            ConnectionState::ConnectHandshake(request),
                            ProxyAction::ReadLine,
                        ),
                        ProxyRequest::Forward { .. } => (
                            ConnectionState::HttpForward(request, String::new()),
                            ProxyAction::ReadLine,
                        ),
                    },
                }
            },
            (ConnectionState::ConnectHandshake(request), ProxyEvent::Line(line)) => {
                if is_blank(line.as_str()) {
                    let domain = domain_of(&request);
                    (
                        ConnectionState::PolicyDecision(request, String::new()),
                        ProxyAction::CheckPolicy { session: session.clone(), domain },
                    )
                } else {
                    (ConnectionState::ConnectHandshake(request), ProxyAction::ReadLine)
                }
            },
            (ConnectionState::HttpForward(request, headers), ProxyEvent::Line(line)) => {
                if is_blank(line.as_str()) {
                    let domain = domain_of(&request);
                    (
                        ConnectionState::PolicyDecision(request, headers),
                        ProxyAction::CheckPolicy { session: session.clone(), domain },
                    )
                } else {
                    let mut all = chars_of(headers.as_str());
                    push_all(&mut all, &chars_of(line.as_str()));
                    (ConnectionState::HttpForward(request, string_of(&all)), ProxyAction::ReadLine)
                }
            },
            (ConnectionState::PolicyDecision(request, headers), ProxyEvent::Policy(answer)) => {
                match answer {
                    FilterAction::Allow => {
                        let address = address_of(&request);
                        (
                            ConnectionState::UpstreamConnecting(request, headers),
                            ProxyAction::ConnectUpstream { address },
                        )
                    },
                    FilterAction::Deny => (
                        ConnectionState::Denied,
                        ProxyAction::Respond { response: forbidden(&request) },
                    ),
                    FilterAction::NeedsApproval => {
                        let domain = domain_of(&request);
                        (
                            ConnectionState::AwaitingApproval(request, headers),
                            ProxyAction::AwaitApproval { session: session.clone(), domain },
                        )
                    },
                }
            },
            (
                ConnectionState::AwaitingApproval(request, headers),
                ProxyEvent::Decision(decision),
            ) => {
                match decision {
                    DomainDecision::Approved => {
                        let address = address_of(&request);
                        (
                            ConnectionState::UpstreamConnecting(request, headers),
                            ProxyAction::ConnectUpstream { address },
                        )
                    },
                    _ => (
                        ConnectionState::Denied,
                        ProxyAction::Respond { response: forbidden(&request) },
                    ),
                }
            },
            (ConnectionState::UpstreamConnecting(request, headers), ProxyEvent::Connected) => (
                ConnectionState::UpstreamConnected,
                ProxyAction::Relay {
                    to_client: established(&request),
                    to_upstream: preamble(&request, headers.as_str()),
                },
            ),
            (
                ConnectionState::UpstreamConnecting(_request, _headers),
                ProxyEvent::ConnectFailed(error),
            ) => (
                ConnectionState::UpstreamFailed,
                ProxyAction::Respond { response: bad_gateway(error.as_str()) },
            ),
            (state, _) => {
                let next = match state {
                    ConnectionState::UpstreamConnected => ConnectionState::UpstreamConnected,
                    ConnectionState::UpstreamFailed => ConnectionState::UpstreamFailed,
                    ConnectionState::Denied => ConnectionState::Denied,
                    _ => ConnectionState::Failed,
                };
                (next, ProxyAction::Drop { error: ProxyError::UnexpectedEvent })
            },
        };
        (ProxyConnection { session, state: next }, action)
    }
}

/// A copy of the domain that the policy is asked about.
fn domain_of(request: &ProxyRequest) -> (domain: String)
    ensures
        domain@ == request@.domain(),
{
    match request {
        ProxyRequest::Connect { domain, .. } => domain.clone(),
        ProxyRequest::Forward { domain, .. } => domain.clone(),
    }
}

} // verus!
