//! Laws of the approval policy, stated over the mathematical state of the
//! manager and proved for every state.

use crate::domain_approval::{ApprovalState, DomainDecision, FilterAction, PendingSpec};
use crate::text::lower;
use vstd::prelude::*;

verus! {

/// A domain that the static allowlist admits is allowed in every session,
/// whatever was granted, revoked, requested or resolved before.
pub proof fn law_config_match_always_allows(
    state: ApprovalState,
    other: ApprovalState,
    session: Seq<char>,
    domain: Seq<char>,
)
    requires
        state.allowed_by_config(domain),
        other.config == state.config,
    ensures
        state.check(session, domain) == FilterAction::Allow,
        other.check(session, domain) == FilterAction::Allow,
{
    let i = choose|i: int|
        0 <= i < state.config.len() && (#[trigger] state.config[i]).matches(domain);
    assert(other.config[i].matches(domain));
}

/// No operation changes the static allowlist.
pub proof fn law_config_is_immutable(
    state: ApprovalState,
    id: Seq<char>,
    session: Seq<char>,
    domain: Seq<char>,
    decision: DomainDecision,
)
    ensures
        state.register(id, session, domain).config == state.config,
        state.resolve(id, decision).config == state.config,
        state.trust(session, domain).config == state.config,
        state.revoke(session, domain).config == state.config,
{
}

/// The policy never answers `Deny`.
pub proof fn law_check_never_denies(state: ApprovalState, session: Seq<char>, domain: Seq<char>)
    ensures
        state.check(session, domain) != FilterAction::Deny,
{
}

/// A grant allows the domain, in any ASCII case, in the session that got
/// it, and changes no decision in any other session.
pub proof fn law_grant_is_scoped_to_its_session(
    state: ApprovalState,
    session: Seq<char>,
    domain: Seq<char>,
    other_session: Seq<char>,
    other_domain: Seq<char>,
)
    requires
        other_session != session,
    ensures
        state.trust(session, domain).check(session, domain) == FilterAction::Allow,
        state.trust(session, domain).check(other_session, other_domain) == state.check(
            other_session,
            other_domain,
        ),
{
    let after = state.trust(session, domain);
    assert(after.allowed_by_config(other_domain) == state.allowed_by_config(other_domain));
    assert(after.allowed_by_config(domain) == state.allowed_by_config(domain));
}

/// A request that is approved is no longer pending, and its domain is
/// allowed in its session from then on.
pub proof fn law_approval_round_trip(
    state: ApprovalState,
    id: Seq<char>,
    session: Seq<char>,
    domain: Seq<char>,
)
    ensures
        state.register(id, session, domain).pending.contains_key(id),
        !state.register(id, session, domain).resolve(
            id,
            DomainDecision::Approved,
        ).pending.contains_key(id),
        state.register(id, session, domain).resolve(id, DomainDecision::Approved).check(
            session,
            domain,
        ) == FilterAction::Allow,
{
}

/// A request that is denied or times out is no longer pending and leaves
/// every policy decision as it was before the request.
pub proof fn law_denial_grants_nothing(
    state: ApprovalState,
    id: Seq<char>,
    session: Seq<char>,
    domain: Seq<char>,
    decision: DomainDecision,
    any_session: Seq<char>,
    any_domain: Seq<char>,
)
    requires
        decision != DomainDecision::Approved,
    ensures
        !state.register(id, session, domain).resolve(id, decision).pending.contains_key(id),
        state.register(id, session, domain).resolve(id, decision).trusted == state.trusted,
        state.register(id, session, domain).resolve(id, decision).check(any_session, any_domain)
            == state.check(any_session, any_domain),
{
    let filed = state.register(id, session, domain);
    assert(filed.pending.contains_key(id));
    let after = filed.resolve(id, decision);
    assert(after.config == state.config);
    assert(after.trusted == state.trusted);
    assert(after.allowed_by_config(any_domain) == state.allowed_by_config(any_domain));
}

/// Only an approval changes what sessions were granted: any other
/// resolution, and every resolution of an unknown id, leaves the grants
/// alone; resolving an unknown id changes nothing at all.
pub proof fn law_only_approval_grants(state: ApprovalState, id: Seq<char>, decision: DomainDecision)
    ensures
        decision != DomainDecision::Approved ==> state.resolve(id, decision).trusted
            == state.trusted,
        !state.pending.contains_key(id) ==> state.resolve(id, decision) == state,
        state.resolve(id, decision).trusted != state.trusted ==> state.pending.contains_key(id)
            && decision == DomainDecision::Approved && state.resolve(id, decision).trusted
            == state.trusted.insert((state.pending[id].session, lower(state.pending[id].domain))),
{
}

/// Taking a domain back from a session makes the policy ask for approval
/// again, unless the static allowlist admits the domain.
pub proof fn law_revocation_restores_approval(
    state: ApprovalState,
    session: Seq<char>,
    domain: Seq<char>,
)
    requires
        !state.allowed_by_config(domain),
    ensures
        state.revoke(session, domain).check(session, domain) == FilterAction::NeedsApproval,
        state.trust(session, domain).revoke(session, domain).check(session, domain)
            == FilterAction::NeedsApproval,
{
    let a = state.revoke(session, domain);
    assert(a.allowed_by_config(domain) == state.allowed_by_config(domain));
    let b = state.trust(session, domain).revoke(session, domain);
    assert(b.allowed_by_config(domain) == state.allowed_by_config(domain));
}

/// The pending table holds exactly the requests that were filed and not
/// yet resolved, each with its domain and session: filing adds one id,
/// resolving removes it, and nothing else touches the table.
pub proof fn law_pending_tracks_outstanding_requests(
    state: ApprovalState,
    id: Seq<char>,
    session: Seq<char>,
    domain: Seq<char>,
    decision: DomainDecision,
)
    ensures
        state.register(id, session, domain).pending.dom() == state.pending.dom().insert(id),
        state.register(id, session, domain).pending[id] == (PendingSpec { domain, session }),
        forall|other: Seq<char>|
            other != id && state.pending.contains_key(other) ==> #[trigger] state.register(
                id,
                session,
                domain,
            ).pending[other] == state.pending[other],
        state.resolve(id, decision).pending.dom() == state.pending.dom().remove(id),
        forall|other: Seq<char>|
            other != id && state.pending.contains_key(other) ==> #[trigger] state.resolve(
                id,
                decision,
            ).pending[other] == state.pending[other],
        state.trust(session, domain).pending == state.pending,
        state.revoke(session, domain).pending == state.pending,
{
    assert(state.register(id, session, domain).pending.dom() =~= state.pending.dom().insert(id));
    assert(state.resolve(id, decision).pending.dom() =~= state.pending.dom().remove(id));
}

/// Two requests for the same domain and session wait side by side under
/// their own ids; resolving one leaves the other waiting.
pub proof fn law_requests_are_independent(
    state: ApprovalState,
    first: Seq<char>,
    second: Seq<char>,
    session: Seq<char>,
    domain: Seq<char>,
    decision: DomainDecision,
)
    requires
        first != second,
    ensures
        state.register(first, session, domain).register(second, session, domain).resolve(
            first,
            decision,
        ).pending.contains_key(second),
{
}

} // verus!
