//! Laws of the connection state machine, proved for every state, event
//! and sequence of events.

use crate::domain_approval::{ApprovalState, DomainDecision, FilterAction};
use crate::network_proxy::ProxyRequestSpec;
use crate::proxy_connection::{
    forbidden_response, step_spec, upstream_address, ActionSpec, EventSpec, StateSpec,
};
use vstd::prelude::*;

verus! {

/// The request that a state carries, if it carries one.
pub open spec fn request_in(state: StateSpec) -> Option<ProxyRequestSpec> {
    match state {
        StateSpec::ConnectHandshake(r) => Some(r),
        StateSpec::HttpForward(r, _) => Some(r),
        StateSpec::PolicyDecision(r, _) => Some(r),
        StateSpec::AwaitingApproval(r, _) => Some(r),
        StateSpec::UpstreamConnecting(r, _) => Some(r),
        _ => None,
    }
}

/// An event by which the policy or an approver lets a request through.
pub open spec fn is_consent(event: EventSpec) -> bool {
    event == EventSpec::Policy(FilterAction::Allow) || event == EventSpec::Decision(
        DomainDecision::Approved,
    )
}

/// The state that a connection reaches from `state` through `events`.
pub open spec fn run(session: Seq<char>, state: StateSpec, events: Seq<EventSpec>) -> StateSpec
    decreases events.len(),
{
    if events.len() == 0 {
        state
    } else {
        step_spec(session, run(session, state, events.drop_last()), events.last()).0
    }
}

/// The machine asks for an upstream connection only when the policy
/// allowed the request or an approver approved it, and then to the host
/// and port of that very request; it starts relaying only once that
/// connection stands.
pub proof fn law_upstream_needs_consent(session: Seq<char>, state: StateSpec, event: EventSpec)
    ensures
        step_spec(session, state, event).1 is ConnectUpstream ==> is_consent(event) && (state
            is PolicyDecision || state is AwaitingApproval) && step_spec(session, state, event).1
            == (ActionSpec::ConnectUpstream { address: upstream_address(request_in(state)->0) }),
        step_spec(session, state, event).1 is Relay ==> state is UpstreamConnecting && event
            is Connected,
        step_spec(session, state, event).0.is_cleared() ==> state.is_cleared() || is_consent(
            event,
        ),
{
}

/// However a connection got there, it is past the policy only if one of
/// the events it saw was the policy's `Allow` or an approver's `Approved`.
pub proof fn law_no_clearance_without_consent(session: Seq<char>, events: Seq<EventSpec>)
    requires
        run(session, StateSpec::AwaitingRequestLine, events).is_cleared(),
    ensures
        exists|i: int| 0 <= i < events.len() && is_consent(#[trigger] events[i]),
    decreases events.len(),
{
    if events.len() == 0 {
    } else {
        let before = run(session, StateSpec::AwaitingRequestLine, events.drop_last());
        law_upstream_needs_consent(session, before, events.last());
        if is_consent(events.last()) {
            assert(is_consent(events[events.len() - 1]));
        } else {
            law_no_clearance_without_consent(session, events.drop_last());
            let i = choose|i: int|
                0 <= i < events.drop_last().len() && is_consent(#[trigger] events.drop_last()[i]);
            assert(events[i] == events.drop_last()[i]);
        }
    }
}

/// With the approval manager as the policy, a request for a domain that
/// the static allowlist admits, or that its session was granted, goes
/// straight on to its upstream; any other request waits for an approver.
pub proof fn law_policy_decides_the_way(
    policy: ApprovalState,
    session: Seq<char>,
    request: ProxyRequestSpec,
    headers: Seq<char>,
)
    ensures
        policy.allowed_by_config(request.domain()) || policy.allowed_by_session(
            session,
            request.domain(),
        ) ==> step_spec(
            session,
            StateSpec::PolicyDecision(request, headers),
            EventSpec::Policy(policy.check(session, request.domain())),
        ) == (
            StateSpec::UpstreamConnecting(request, headers),
            ActionSpec::ConnectUpstream { address: upstream_address(request) },
        ),
        !policy.allowed_by_config(request.domain()) && !policy.allowed_by_session(
            session,
            request.domain(),
        ) ==> step_spec(
            session,
            StateSpec::PolicyDecision(request, headers),
            EventSpec::Policy(policy.check(session, request.domain())),
        ) == (
            StateSpec::AwaitingApproval(request, headers),
            ActionSpec::AwaitApproval { session, domain: request.domain() },
        ),
{
}

/// A request that the policy denies, or that an approver denies or lets
/// time out, is answered with `403 Forbidden`, and the connection ends.
pub proof fn law_refusal_answers_forbidden(
    session: Seq<char>,
    request: ProxyRequestSpec,
    headers: Seq<char>,
    decision: DomainDecision,
)
    requires
        decision != DomainDecision::Approved,
    ensures
        step_spec(
            session,
            StateSpec::PolicyDecision(request, headers),
            EventSpec::Policy(FilterAction::Deny),
        ) == (StateSpec::Denied, ActionSpec::Respond { response: forbidden_response(request) }),
        step_spec(
            session,
            StateSpec::AwaitingApproval(request, headers),
            EventSpec::Decision(decision),
        ) == (StateSpec::Denied, ActionSpec::Respond { response: forbidden_response(request) }),
{
}

/// The policy and the approver are asked about the domain of the request
/// that was read, in the connection's own session.
pub proof fn law_policy_is_asked_about_the_request(
    session: Seq<char>,
    state: StateSpec,
    event: EventSpec,
)
    ensures
        step_spec(session, state, event).1 is CheckPolicy ==> request_in(state).is_some()
            && step_spec(session, state, event).1 == (ActionSpec::CheckPolicy {
            session,
            domain: request_in(state)->0.domain(),
        }) && request_in(step_spec(session, state, event).0) == request_in(state),
        step_spec(session, state, event).1 is AwaitApproval ==> state is PolicyDecision && event
            == EventSpec::Policy(FilterAction::NeedsApproval) && step_spec(session, state, event).1
            == (ActionSpec::AwaitApproval { session, domain: request_in(state)->0.domain() })
            && request_in(step_spec(session, state, event).0) == request_in(state),
{
}

/// Once a request was read, the connection keeps it unchanged for as long
/// as it carries one.
pub proof fn law_request_is_kept(session: Seq<char>, state: StateSpec, event: EventSpec)
    requires
        request_in(state).is_some(),
        request_in(step_spec(session, state, event).0).is_some(),
    ensures
        request_in(step_spec(session, state, event).0) == request_in(state),
{
}

/// No event leaves a terminal state, and none makes it do anything.
pub proof fn law_terminal_states_absorb(session: Seq<char>, state: StateSpec, event: EventSpec)
    requires
        state.is_terminal(),
    ensures
        step_spec(session, state, event).0 == state,
        step_spec(session, state, event).1 is Drop,
{
}

/// An event that a state is not waiting for ends the connection without a
/// response: the machine never acts on it.
pub proof fn law_every_step_is_defined(session: Seq<char>, state: StateSpec, event: EventSpec)
    ensures
        step_spec(session, state, event).1 is Drop ==> step_spec(
            session,
            state,
            event,
        ).0.is_terminal(),
        step_spec(session, state, event).1 is Respond ==> step_spec(
            session,
            state,
            event,
        ).0.is_terminal(),
        step_spec(session, state, event).1 is Relay ==> step_spec(
            session,
            state,
            event,
        ).0.is_terminal(),
        step_spec(session, state, event).0.is_terminal() ==> step_spec(session, state, event).1
            is Drop || step_spec(session, state, event).1 is Respond || step_spec(
            session,
            state,
            event,
        ).1 is Relay,
{
}

} // verus!
