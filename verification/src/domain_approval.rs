//! The approval manager: the static allowlist, the per-session allowlist
//! and the table of approval requests that are waiting for a decision.

use crate::domain_pattern::{DomainPattern, PatternSpec};
use crate::ids::random_uuid;
use crate::keyed::{lemma_map_at, lemma_map_len, lemma_map_push, lemma_map_remove, map_of};
use crate::text::{chars_of, lower, string_of, to_lower};
use std::time::Duration;
use tokio::sync::oneshot::{Receiver, Sender};
use vstd::prelude::*;

verus! {

/// Action returned by the domain filter.
#[derive(Debug, Clone, Copy, PartialEq, Eq, Structural)]
pub enum FilterAction {
    Allow,
    /// Reserved for explicit deny-lists; the current policy never returns it.
    Deny,
    NeedsApproval,
}

/// Outcome of a domain approval request.
#[derive(Debug, Clone, Copy, PartialEq, Eq, Structural)]
pub enum DomainDecision {
    Approved,
    Denied,
    Timeout,
}

/// How a wait for a decision ended.
#[derive(Debug, Clone, Copy, PartialEq, Eq, Structural)]
pub enum WaitOutcome {
    /// The responder was fired with this decision.
    Received(DomainDecision),
    /// The responder was dropped without being fired.
    Closed,
    /// The approval timeout elapsed first.
    Elapsed,
}

/// Checks whether a domain should be allowed through the proxy.
pub trait DomainFilter {
    fn check(&self, session: &str, domain: &str) -> FilterAction;
}

/// The sending half of tokio's one-shot channel.
#[verifier::external_type_specification]
#[verifier::external_body]
#[verifier::reject_recursive_types(T)]
pub struct ExOneshotSender<T>(Sender<T>);

/// The receiving half of tokio's one-shot channel.
#[verifier::external_type_specification]
#[verifier::external_body]
#[verifier::reject_recursive_types(T)]
pub struct ExOneshotReceiver<T>(Receiver<T>);

/// The error of tokio's one-shot receiver: the responder was dropped.
/// No function here takes or gives it; the receiver's `Future` impl names
/// it, and the receiver cannot be declared without it.
#[verifier::external_type_specification]
#[verifier::external_body]
pub struct ExOneshotRecvError(tokio::sync::oneshot::error::RecvError);

/// `tokio::sync::oneshot::channel` makes a connected pair of a responder
/// and the receiver that listens to it. Nothing is claimed of the pair.
#[verifier::external_body]
fn decision_channel() -> (pair: (Sender<DomainDecision>, Receiver<DomainDecision>)) {
    tokio::sync::oneshot::channel()
}

/// `Sender::send` fires the responder with `decision`, consuming it. Whether
/// the value arrives depends on the receiver still being alive, so nothing
/// is claimed of the outcome.
#[verifier::external_body]
fn fire(tx: Sender<DomainDecision>, decision: DomainDecision) {
    let _ = tx.send(decision);
}

/// A request that is waiting for a decision.
struct PendingDomainRequest {
    id: String,
    tx: Sender<DomainDecision>,
    domain: String,
    session: String,
}

/// One domain that a session was granted.
struct TrustedDomain {
    session: String,
    domain: String,
}

/// The domain and session of a waiting request.
pub ghost struct PendingSpec {
    pub domain: Seq<char>,
    pub session: Seq<char>,
}

/// The mathematical state of a [`DomainApprovalManager`].
#[verifier::ext_equal]
pub ghost struct ApprovalState {
    /// The static allowlist, in configured order.
    pub config: Seq<PatternSpec>,
    /// The `(session, domain)` pairs granted at run time.
    pub trusted: Set<(Seq<char>, Seq<char>)>,
    /// The waiting requests, by id.
    pub pending: Map<Seq<char>, PendingSpec>,
}

impl ApprovalState {
    /// The state of a manager that was just made from `patterns`.
    pub open spec fn initial(patterns: Seq<Seq<char>>) -> ApprovalState {
        ApprovalState {
            config: Seq::new(patterns.len(), |i: int| PatternSpec::parse(patterns[i])),
            trusted: Set::empty(),
            pending: Map::empty(),
        }
    }

    /// Whether some pattern of the static allowlist admits `domain`.
    pub open spec fn allowed_by_config(self, domain: Seq<char>) -> bool {
        exists|i: int| 0 <= i < self.config.len() && (#[trigger] self.config[i]).matches(domain)
    }

    /// Whether `session` was granted `domain`.
    pub open spec fn allowed_by_session(self, session: Seq<char>, domain: Seq<char>) -> bool {
        self.trusted.contains((session, lower(domain)))
    }

    /// The policy decision for `domain` in `session`.
    pub open spec fn check(self, session: Seq<char>, domain: Seq<char>) -> FilterAction {
        if self.allowed_by_config(domain) || self.allowed_by_session(session, domain) {
            FilterAction::Allow
        } else {
            FilterAction::NeedsApproval
        }
    }

    /// The state after a request for `domain` in `session` was filed under
    /// `id`. A request that was waiting under the same id is replaced.
    pub open spec fn register(
        self,
        id: Seq<char>,
        session: Seq<char>,
        domain: Seq<char>,
    ) -> ApprovalState {
        ApprovalState { pending: self.pending.insert(id, PendingSpec { domain, session }), ..self }
    }

    /// The state after the request `id` was resolved with `decision`: the
    /// request is gone, and if it was approved its domain, lower-cased, is
    /// granted to its session. An unknown id changes nothing.
    pub open spec fn resolve(self, id: Seq<char>, decision: DomainDecision) -> ApprovalState {
        if self.pending.contains_key(id) {
            let request = self.pending[id];
            ApprovalState {
                pending: self.pending.remove(id),
                trusted: if decision == DomainDecision::Approved {
                    self.trusted.insert((request.session, lower(request.domain)))
                } else {
                    self.trusted
                },
                ..self
            }
        } else {
            self
        }
    }

    /// The state after `domain` was granted to `session` directly.
    pub open spec fn trust(self, session: Seq<char>, domain: Seq<char>) -> ApprovalState {
        ApprovalState { trusted: self.trusted.insert((session, lower(domain))), ..self }
    }

    /// The state after `domain` was taken back from `session`.
    pub open spec fn revoke(self, session: Seq<char>, domain: Seq<char>) -> ApprovalState {
        ApprovalState { trusted: self.trusted.remove((session, lower(domain))), ..self }
    }

    /// The static allowlist written back as strings, in configured order.
    pub open spec fn rendered_config(self) -> Seq<Seq<char>> {
        Seq::new(self.config.len(), |i: int| self.config[i].render())
    }
}

/// The decision that a wait yields: what was received; `Denied` when the
/// responder was dropped; `Timeout` when the time ran out.
pub open spec fn decision_of(outcome: WaitOutcome) -> DomainDecision {
    match outcome {
        WaitOutcome::Received(d) => d,
        WaitOutcome::Closed => DomainDecision::Denied,
        WaitOutcome::Elapsed => DomainDecision::Timeout,
    }
}

/// The character sequences of a sequence of strings.
pub open spec fn views(v: Seq<String>) -> Seq<Seq<char>> {
    Seq::new(v.len(), |i: int| v[i]@)
}

spec fn pending_spec(p: PendingDomainRequest) -> PendingSpec {
    PendingSpec { domain: p.domain@, session: p.session@ }
}

spec fn pending_ids(s: Seq<PendingDomainRequest>) -> Seq<Seq<char>> {
    Seq::new(s.len(), |i: int| s[i].id@)
}

spec fn pending_specs(s: Seq<PendingDomainRequest>) -> Seq<PendingSpec> {
    Seq::new(s.len(), |i: int| pending_spec(s[i]))
}

spec fn unique_ids(s: Seq<PendingDomainRequest>) -> bool {
    pending_ids(s).no_duplicates()
}

spec fn has_id(s: Seq<PendingDomainRequest>, id: Seq<char>) -> bool {
    pending_ids(s).contains(id)
}

spec fn index_of_id(s: Seq<PendingDomainRequest>, id: Seq<char>) -> int {
    pending_ids(s).index_of(id)
}

spec fn pending_map(s: Seq<PendingDomainRequest>) -> Map<Seq<char>, PendingSpec> {
    map_of(pending_ids(s), pending_specs(s))
}

spec fn pair_of(t: TrustedDomain) -> (Seq<char>, Seq<char>) {
    (t.session@, t.domain@)
}

spec fn unique_pairs(s: Seq<TrustedDomain>) -> bool {
    forall|i: int, j: int|
        0 <= i < s.len() && 0 <= j < s.len() && i != j ==> pair_of(#[trigger] s[i]) != pair_of(
            #[trigger] s[j],
        )
}

spec fn trusted_set(s: Seq<TrustedDomain>) -> Set<(Seq<char>, Seq<char>)> {
    Set::new(
        |p: (Seq<char>, Seq<char>)| exists|i: int| 0 <= i < s.len() && pair_of(#[trigger] s[i]) == p,
    )
}

spec fn config_view(s: Seq<DomainPattern>) -> Seq<PatternSpec> {
    Seq::new(s.len(), |i: int| s[i]@)
}

/// With unique ids, the entry at index `i` is what the map holds under its
/// id.
proof fn lemma_pending_at(s: Seq<PendingDomainRequest>, i: int)
    requires
        unique_ids(s),
        0 <= i < s.len(),
    ensures
        pending_map(s).contains_key(s[i].id@),
        pending_map(s)[s[i].id@] == pending_spec(s[i]),
        index_of_id(s, s[i].id@) == i,
{
    lemma_map_at(pending_ids(s), pending_specs(s), i);
}

/// Taking the entry at `i` out removes its id from the map and nothing else.
proof fn lemma_pending_remove(s: Seq<PendingDomainRequest>, i: int)
    requires
        unique_ids(s),
        0 <= i < s.len(),
    ensures
        unique_ids(s.remove(i)),
        !has_id(s.remove(i), s[i].id@),
        pending_map(s.remove(i)) == pending_map(s).remove(s[i].id@),
{
    lemma_map_remove(pending_ids(s), pending_specs(s), i);
    assert(pending_ids(s.remove(i)) =~= pending_ids(s).remove(i));
    assert(pending_specs(s.remove(i)) =~= pending_specs(s).remove(i));
}

/// Appending an entry with a new id adds it to the map and changes nothing
/// else.
proof fn lemma_pending_push(s: Seq<PendingDomainRequest>, p: PendingDomainRequest)
    requires
        unique_ids(s),
        !has_id(s, p.id@),
    ensures
        unique_ids(s.push(p)),
        pending_map(s.push(p)) == pending_map(s).insert(p.id@, pending_spec(p)),
{
    lemma_map_push(pending_ids(s), pending_specs(s), p.id@, pending_spec(p));
    assert(pending_ids(s.push(p)) =~= pending_ids(s).push(p.id@));
    assert(pending_specs(s.push(p)) =~= pending_specs(s).push(pending_spec(p)));
}

/// With unique ids, the map holds as many requests as the table.
proof fn lemma_pending_len(s: Seq<PendingDomainRequest>)
    requires
        unique_ids(s),
    ensures
        pending_map(s).dom().finite(),
        pending_map(s).dom().len() == s.len(),
{
    lemma_map_len(pending_ids(s), pending_specs(s));
}

/// Appending a pair that is not yet held adds it to the set.
proof fn lemma_trusted_push(s: Seq<TrustedDomain>, t: TrustedDomain)
    requires
        unique_pairs(s),
        !trusted_set(s).contains(pair_of(t)),
    ensures
        unique_pairs(s.push(t)),
        trusted_set(s.push(t)) == trusted_set(s).insert(pair_of(t)),
{
    let u = s.push(t);
    assert(unique_pairs(u)) by {
        assert forall|a: int, b: int| 0 <= a < u.len() && 0 <= b < u.len() && a != b implies pair_of(
            #[trigger] u[a],
        ) != pair_of(#[trigger] u[b]) by {
            if a < s.len() {
                assert(u[a] == s[a]);
            }
            if b < s.len() {
                assert(u[b] == s[b]);
            }
        }
    }
    let s1 = trusted_set(u);
    let s2 = trusted_set(s).insert(pair_of(t));
    assert forall|p: (Seq<char>, Seq<char>)| s1.contains(p) == s2.contains(p) by {
        if s1.contains(p) {
            let k = choose|k: int| 0 <= k < u.len() && pair_of(#[trigger] u[k]) == p;
            if k < s.len() {
                assert(u[k] == s[k]);
            }
        }
        if trusted_set(s).contains(p) {
            let k = choose|k: int| 0 <= k < s.len() && pair_of(#[trigger] s[k]) == p;
            assert(u[k] == s[k]);
        }
        if p == pair_of(t) {
            assert(u[s.len() as int] == t);
        }
    }
    assert(s1 =~= s2);
}

/// Taking the pair at `i` out removes it from the set and nothing else.
proof fn lemma_trusted_remove(s: Seq<TrustedDomain>, i: int)
    requires
        unique_pairs(s),
        0 <= i < s.len(),
    ensures
        unique_pairs(s.remove(i)),
        trusted_set(s.remove(i)) == trusted_set(s).remove(pair_of(s[i])),
{
    let u = s.remove(i);
    assert forall|k: int| 0 <= k < u.len() implies #[trigger] u[k] == s[if k < i {
        k
    } else {
        k + 1
    }] by {}
    assert(unique_pairs(u)) by {
        assert forall|a: int, b: int| 0 <= a < u.len() && 0 <= b < u.len() && a != b implies pair_of(
            #[trigger] u[a],
        ) != pair_of(#[trigger] u[b]) by {
            let a2 = if a < i {
                a
            } else {
                a + 1
            };
            let b2 = if b < i {
                b
            } else {
                b + 1
            };
            assert(u[a] == s[a2] && u[b] == s[b2]);
        }
    }
    let s1 = trusted_set(u);
    let s2 = trusted_set(s).remove(pair_of(s[i]));
    assert forall|p: (Seq<char>, Seq<char>)| s1.contains(p) == s2.contains(p) by {
        if s1.contains(p) {
            let k = choose|k: int| 0 <= k < u.len() && pair_of(#[trigger] u[k]) == p;
            let k2 = if k < i {
                k
            } else {
                k + 1
            };
            assert(u[k] == s[k2]);
        }
        if trusted_set(s).contains(p) && p != pair_of(s[i]) {
            let k = choose|k: int| 0 <= k < s.len() && pair_of(#[trigger] s[k]) == p;
            let k2 = if k < i {
                k
            } else {
                k - 1
            };
            assert(u[k2] == s[k]);
        }
    }
    assert(s1 =~= s2);
}

/// Manages domain allow/deny decisions for trusted network mode.
///
/// Requests that wait for a decision are stored under a UUID and resolved
/// through one-shot channels.
pub struct DomainApprovalManager {
    config_allowlist: Vec<DomainPattern>,
    session_allowlist: Vec<TrustedDomain>,
    pending: Vec<PendingDomainRequest>,
    timeout: Duration,
}

impl View for DomainApprovalManager {
    type V = ApprovalState;

    closed spec fn view(&self) -> ApprovalState {
        ApprovalState {
            config: config_view(self.config_allowlist@),
            trusted: trusted_set(self.session_allowlist@),
            pending: pending_map(self.pending@),
        }
    }
}

impl DomainApprovalManager {
    #[verifier::type_invariant]
    spec fn well_formed(&self) -> bool {
        &&& unique_ids(self.pending@)
        &&& unique_pairs(self.session_allowlist@)
    }

    /// The configured approval timeout.
    pub closed spec fn timeout_spec(&self) -> Duration {
        self.timeout
    }

    /// A manager with the given static allowlist and approval timeout, no
    /// session grants and no waiting requests.
    pub fn new(allowed_domains: &[String], timeout: Duration) -> (m: DomainApprovalManager)
        ensures
            m@ == ApprovalState::initial(views(allowed_domains@)),
            m.timeout_spec() == timeout,
    {
        let mut config_allowlist: Vec<DomainPattern> = Vec::new();
        let mut i: usize = 0;
        while i < allowed_domains.len()
            invariant
                i <= allowed_domains.len(),
                config_allowlist@.len() == i,
                forall|k: int|
                    0 <= k < i ==> (#[trigger] config_allowlist@[k])@ == PatternSpec::parse(
                        allowed_domains@[k]@,
                    ),
            decreases allowed_domains.len() - i,
        {
            config_allowlist.push(DomainPattern::parse(allowed_domains[i].as_str()));
            i += 1;
        }
        let m = DomainApprovalManager {
            config_allowlist,
            session_allowlist: Vec::new(),
            pending: Vec::new(),
            timeout,
        };
        proof {
            let init = ApprovalState::initial(views(allowed_domains@));
            assert(m@.config =~= init.config);
            assert(m@.trusted =~= init.trusted);
            assert(m@.pending =~= init.pending);
        }
        m
    }

    /// Access the configured timeout.
    pub fn timeout(&self) -> (t: Duration)
        ensures
            t == self.timeout_spec(),
    {
        self.timeout
    }

    /// Index of the waiting request `id`, if there is one.
    fn find_pending(&self, id: &String) -> (r: Option<usize>)
        ensures
            match r {
                Some(i) => i < self.pending@.len() && self.pending@[i as int].id@ == id@,
                None => !has_id(self.pending@, id@),
            },
    {
        let mut i: usize = 0;
        while i < self.pending.len()
            invariant
                i <= self.pending@.len(),
                forall|k: int| 0 <= k < i ==> (#[trigger] self.pending@[k]).id@ != id@,
            decreases self.pending@.len() - i,
        {
            if self.pending[i].id == *id {
                return Some(i);
            }
            i += 1;
        }
        None
    }

    /// Index of the grant of `domain` to `session`, if there is one.
    fn find_trusted(&self, session: &String, domain: &String) -> (r: Option<usize>)
        ensures
            match r {
                Some(i) => i < self.session_allowlist@.len() && pair_of(
                    self.session_allowlist@[i as int],
                ) == (session@, domain@),
                None => !trusted_set(self.session_allowlist@).contains((session@, domain@)),
            },
    {
        let mut i: usize = 0;
        while i < self.session_allowlist.len()
            invariant
                i <= self.session_allowlist@.len(),
                forall|k: int|
                    0 <= k < i ==> pair_of(#[trigger] self.session_allowlist@[k]) != (
                        session@,
                        domain@,
                    ),
            decreases self.session_allowlist@.len() - i,
        {
            if self.session_allowlist[i].session == *session && self.session_allowlist[i].domain
                == *domain {
                return Some(i);
            }
            i += 1;
        }
        None
    }

    /// Grants `domain`, taken as it is, to `session`.
    fn grant(&mut self, session: String, domain: String)
        ensures
            final(self)@ == (ApprovalState {
                trusted: old(self)@.trusted.insert((session@, domain@)),
                ..old(self)@
            }),
    {
        proof {
            use_type_invariant(&*self);
        }
        if self.find_trusted(&session, &domain).is_none() {
            let entry = TrustedDomain { session, domain };
            proof {
                lemma_trusted_push(self.session_allowlist@, entry);
            }
            let mut list: Vec<TrustedDomain> = Vec::new();
            std::mem::swap(&mut self.session_allowlist, &mut list);
            list.push(entry);
            std::mem::swap(&mut self.session_allowlist, &mut list);
        } else {
            assert(old(self)@.trusted.insert((session@, domain@)) =~= old(self)@.trusted);
        }
    }

    /// Checks a domain against the static allowlist and the domains granted
    /// to the session. Nothing is changed.
    pub fn check_domain(&self, session: &str, domain: &str) -> (action: FilterAction)
        ensures
            action == self@.check(session@, domain@),
    {
        let mut i: usize = 0;
        while i < self.config_allowlist.len()
            invariant
                i <= self.config_allowlist@.len(),
                forall|k: int|
                    0 <= k < i ==> !(#[trigger] self.config_allowlist@[k])@.matches(domain@),
            decreases self.config_allowlist@.len() - i,
        {
            if self.config_allowlist[i].matches(domain) {
                assert(self@.config[i as int].matches(domain@));
                return FilterAction::Allow;
            }
            i += 1;
        }
        assert(!self@.allowed_by_config(domain@)) by {
            if self@.allowed_by_config(domain@) {
                let k = choose|k: int|
                    0 <= k < self@.config.len() && (#[trigger] self@.config[k]).matches(domain@);
                assert(self.config_allowlist@[k]@.matches(domain@));
            }
        }
        let key = session.to_owned();
        let low = string_of(&to_lower(&chars_of(domain)));
        match self.find_trusted(&key, &low) {
            Some(_) => FilterAction::Allow,
            None => FilterAction::NeedsApproval,
        }
    }

    /// Files a request for `domain` in `session` under the given id and
    /// returns the receiver on which its decision will arrive. A request
    /// that was waiting under the same id is replaced, and its responder
    /// dropped.
    pub fn register_request(&mut self, id: String, session: &str, domain: &str) -> (rx: Receiver<
        DomainDecision,
    >)
        ensures
            final(self)@ == old(self)@.register(id@, session@, domain@),
    {
        proof {
            use_type_invariant(&*self);
        }
        let (tx, rx) = decision_channel();
        let found = self.find_pending(&id);
        let mut table: Vec<PendingDomainRequest> = Vec::new();
        std::mem::swap(&mut self.pending, &mut table);
        match found {
            Some(i) => {
                proof {
                    lemma_pending_remove(table@, i as int);
                    lemma_pending_at(table@, i as int);
                }
                let _replaced = table.remove(i);
            },
            None => {},
        }
        let entry = PendingDomainRequest {
            id,
            tx,
            domain: domain.to_owned(),
            session: session.to_owned(),
        };
        proof {
            lemma_pending_push(table@, entry);
            let spec = PendingSpec { domain: domain@, session: session@ };
            assert(old(self)@.pending.remove(id@).insert(id@, spec) =~= old(self)@.pending.insert(
                id@,
                spec,
            ));
        }
        table.push(entry);
        std::mem::swap(&mut self.pending, &mut table);
        rx
    }

    /// Creates a pending approval request under a random UUID. Returns the
    /// id and a receiver for the decision.
    pub fn create_request(&mut self, session: &str, domain: &str) -> (out: (
        String,
        Receiver<DomainDecision>,
    ))
        ensures
            out.0@.len() == 36,
            final(self)@ == old(self)@.register(out.0@, session@, domain@),
    {
        let id = random_uuid();
        let rx = self.register_request(id.clone(), session, domain);
        (id, rx)
    }

    /// Resolves a pending domain approval request and fires its responder
    /// with the decision. If approved, the domain is granted to the
    /// request's session. An unknown id is ignored.
    pub fn resolve(&mut self, id: &str, decision: DomainDecision)
        ensures
            final(self)@ == old(self)@.resolve(id@, decision),
    {
        proof {
            use_type_invariant(&*self);
        }
        let key = id.to_owned();
        match self.find_pending(&key) {
            Some(i) => {
                proof {
                    lemma_pending_remove(self.pending@, i as int);
                    lemma_pending_at(self.pending@, i as int);
                }
                let mut table: Vec<PendingDomainRequest> = Vec::new();
                std::mem::swap(&mut self.pending, &mut table);
                let request = table.remove(i);
                std::mem::swap(&mut self.pending, &mut table);
                let PendingDomainRequest { id: _, tx, domain, session } = request;
                if decision == DomainDecision::Approved {
                    let low = string_of(&to_lower(&chars_of(domain.as_str())));
                    self.grant(session, low);
                }
                fire(tx, decision);
            },
            None => {},
        }
    }

    /// The decision that a wait for a responder yields: the decision that
    /// was received; `Denied` if the responder was dropped; `Timeout` if the
    /// configured timeout elapsed first. The waiting request stays in the
    /// table.
    pub fn wait_for_decision(&self, outcome: WaitOutcome) -> (decision: DomainDecision)
        ensures
            decision == decision_of(outcome),
    {
        match outcome {
            WaitOutcome::Received(d) => d,
            WaitOutcome::Closed => DomainDecision::Denied,
            WaitOutcome::Elapsed => DomainDecision::Timeout,
        }
    }

    /// Returns every pending request as `(id, domain, session)`, each once.
    pub fn pending_requests(&self) -> (out: Vec<(String, String, String)>)
        ensures
            self@.pending.dom().finite(),
            out@.len() == self@.pending.dom().len(),
            forall|k: int|
                0 <= k < out@.len() ==> self@.pending.contains_key((#[trigger] out@[k]).0@)
                    && self@.pending[out@[k].0@] == (PendingSpec {
                    domain: out@[k].1@,
                    session: out@[k].2@,
                }),
            forall|id: Seq<char>|
                self@.pending.contains_key(id) ==> exists|k: int|
                    0 <= k < out@.len() && (#[trigger] out@[k]).0@ == id,
            forall|a: int, b: int|
                0 <= a < out@.len() && 0 <= b < out@.len() && a != b ==> (#[trigger] out@[a]).0@
                    != (#[trigger] out@[b]).0@,
    {
        proof {
            use_type_invariant(self);
            lemma_pending_len(self.pending@);
        }
        let mut out: Vec<(String, String, String)> = Vec::new();
        let mut i: usize = 0;
        while i < self.pending.len()
            invariant
                i <= self.pending@.len(),
                out@.len() == i,
                forall|k: int|
                    0 <= k < i ==> (#[trigger] out@[k]).0@ == self.pending@[k].id@ && out@[k].1@
                        == self.pending@[k].domain@ && out@[k].2@ == self.pending@[k].session@,
            decreases self.pending@.len() - i,
        {
            let entry = &self.pending[i];
            out.push((entry.id.clone(), entry.domain.clone(), entry.session.clone()));
            i += 1;
        }
        proof {
            let s = self.pending@;
            assert forall|k: int| 0 <= k < out@.len() implies self@.pending.contains_key(
                (#[trigger] out@[k]).0@,
            ) && self@.pending[out@[k].0@] == (PendingSpec {
                domain: out@[k].1@,
                session: out@[k].2@,
            }) by {
                lemma_pending_at(s, k);
            }
            assert forall|id: Seq<char>| self@.pending.contains_key(id) implies exists|k: int|
                0 <= k < out@.len() && (#[trigger] out@[k]).0@ == id by {
                let k = index_of_id(s, id);
                assert(out@[k].0@ == id);
            }
            assert forall|a: int, b: int|
                0 <= a < out@.len() && 0 <= b < out@.len() && a != b implies (
            #[trigger] out@[a]).0@ != (#[trigger] out@[b]).0@ by {
                assert(pending_ids(s)[a] == out@[a].0@);
                assert(pending_ids(s)[b] == out@[b].0@);
            }
        }
        out
    }

    /// Adds a domain to the session allowlist without going through the
    /// approval flow.
    pub fn add_trusted_domain(&mut self, session: &str, domain: &str)
        ensures
            final(self)@ == old(self)@.trust(session@, domain@),
    {
        let low = string_of(&to_lower(&chars_of(domain)));
        self.grant(session.to_owned(), low);
    }

    /// Removes a domain from the session allowlist.
    pub fn remove_trusted_domain(&mut self, session: &str, domain: &str)
        ensures
            final(self)@ == old(self)@.revoke(session@, domain@),
    {
        proof {
            use_type_invariant(&*self);
        }
        let key = session.to_owned();
        let low = string_of(&to_lower(&chars_of(domain)));
        match self.find_trusted(&key, &low) {
            Some(i) => {
                proof {
                    lemma_trusted_remove(self.session_allowlist@, i as int);
                }
                let mut list: Vec<TrustedDomain> = Vec::new();
                std::mem::swap(&mut self.session_allowlist, &mut list);
                let _gone = list.remove(i);
                std::mem::swap(&mut self.session_allowlist, &mut list);
            },
            None => {
                assert(old(self)@.trusted.remove((session@, lower(domain@))) =~= old(
                    self,
                )@.trusted);
            },
        }
    }

    /// Lists all trusted domains for a session, each once: first the static
    /// allowlist written back as strings, in configured order, a pattern
    /// that is configured more than once where it stands first; then the
    /// domains granted to the session that are not among them. Nothing of
    /// another session is listed, and nothing is changed.
    pub fn list_trusted_domains(&self, session: &str) -> (out: Vec<String>)
        ensures
            views(out@).no_duplicates(),
            forall|d: Seq<char>|
                views(out@).contains(d) <==> self@.rendered_config().contains(d)
                    || self@.trusted.contains((session@, d)),
            without_repeats(self@.rendered_config()).is_prefix_of(views(out@)),
    {
        let ghost rendered = self@.rendered_config();
        let mut out: Vec<String> = Vec::new();
        let mut i: usize = 0;
        proof {
            assert(rendered.take(0).len() == 0);
            assert(views(out@) =~= without_repeats(rendered.take(0)));
        }
        while i < self.config_allowlist.len()
            invariant
                i <= self.config_allowlist@.len(),
                rendered == self@.rendered_config(),
                views(out@) == without_repeats(rendered.take(i as int)),
            decreases self.config_allowlist@.len() - i,
        {
            let written = self.config_allowlist[i].render();
            proof {
                let next = rendered.take(i + 1);
                assert(next.drop_last() == rendered.take(i as int));
                assert(next.last() == written@);
            }
            if !contains_string(&out, &written) {
                let ghost before = views(out@);
                out.push(written);
                assert(views(out@) =~= before.push(written@));
            }
            i += 1;
        }
        let ghost base = without_repeats(rendered);
        proof {
            assert(rendered.take(rendered.len() as int) == rendered);
            lemma_without_repeats(rendered);
            assert(views(out@).take(base.len() as int) == base);
        }
        let key = session.to_owned();
        let mut j: usize = 0;
        while j < self.session_allowlist.len()
            invariant
                j <= self.session_allowlist@.len(),
                key@ == session@,
                base.len() <= out@.len(),
                views(out@).take(base.len() as int) == base,
                views(out@).no_duplicates(),
                forall|k: int|
                    base.len() <= k < out@.len() ==> self@.trusted.contains(
                        (session@, #[trigger] views(out@)[k]),
                    ),
                forall|k: int|
                    0 <= k < j && (#[trigger] self.session_allowlist@[k]).session@ == session@
                        ==> views(out@).contains(self.session_allowlist@[k].domain@),
            decreases self.session_allowlist@.len() - j,
        {
            let entry = &self.session_allowlist[j];
            if entry.session == key && !contains_string(&out, &entry.domain) {
                let ghost before = views(out@);
                out.push(entry.domain.clone());
                proof {
                    let after = views(out@);
                    assert(after =~= before.push(entry.domain@));
                    assert(after.take(base.len() as int) =~= before.take(base.len() as int));
                    assert(pair_of(self.session_allowlist@[j as int]) == (session@, entry.domain@));
                    assert(after.no_duplicates()) by {
                        assert forall|x: int, y: int|
                            0 <= x < after.len() && 0 <= y < after.len() && x != y implies after[x]
                            != after[y] by {
                            if x < before.len() {
                                assert(after[x] == before[x]);
                            }
                            if y < before.len() {
                                assert(after[y] == before[y]);
                            }
                        }
                    }
                    assert forall|k: int|
                        0 <= k < j + 1 && (#[trigger] self.session_allowlist@[k]).session@
                            == session@ implies after.contains(
                        self.session_allowlist@[k].domain@,
                    ) by {
                        if k < j {
                            let w = choose|w: int|
                                0 <= w < before.len() && before[w]
                                    == self.session_allowlist@[k].domain@;
                            assert(after[w] == before[w]);
                        } else {
                            assert(after[before.len() as int] == entry.domain@);
                        }
                    }
                }
            }
            j += 1;
        }
        proof {
            let listed = views(out@);
            assert(listed.subrange(0, base.len() as int) == listed.take(base.len() as int));
            assert forall|d: Seq<char>|
                listed.contains(d) <==> rendered.contains(d) || self@.trusted.contains(
                    (session@, d),
                ) by {
                if listed.contains(d) {
                    let w = choose|w: int| 0 <= w < listed.len() && listed[w] == d;
                    if w < base.len() {
                        assert(base[w] == listed.take(base.len() as int)[w]);
                        assert(base.contains(d));
                    }
                }
                if rendered.contains(d) {
                    assert(base.contains(d));
                    let w = choose|w: int| 0 <= w < base.len() && base[w] == d;
                    assert(listed.take(base.len() as int)[w] == listed[w]);
                }
                if self@.trusted.contains((session@, d)) {
                    let k = choose|k: int|
                        0 <= k < self.session_allowlist@.len() && pair_of(
                            #[trigger] self.session_allowlist@[k],
                        ) == (session@, d);
                    assert(self.session_allowlist@[k].session@ == session@);
                }
            }
        }
        out
    }
}

/// `s` without its repeats: each of its members once, where it stands
/// first.
pub open spec fn without_repeats(s: Seq<Seq<char>>) -> Seq<Seq<char>>
    decreases s.len(),
{
    if s.len() == 0 {
        Seq::empty()
    } else if without_repeats(s.drop_last()).contains(s.last()) {
        without_repeats(s.drop_last())
    } else {
        without_repeats(s.drop_last()).push(s.last())
    }
}

/// `without_repeats(s)` holds no member twice, and holds exactly the
/// members of `s`.
pub proof fn lemma_without_repeats(s: Seq<Seq<char>>)
    ensures
        without_repeats(s).no_duplicates(),
        forall|d: Seq<char>| #[trigger] without_repeats(s).contains(d) <==> s.contains(d),
    decreases s.len(),
{
    if s.len() > 0 {
        let init = s.drop_last();
        let head = without_repeats(init);
        let all = without_repeats(s);
        lemma_without_repeats(init);
        assert forall|d: Seq<char>| all.contains(d) <==> s.contains(d) by {
            if all.contains(d) {
                let w = choose|w: int| 0 <= w < all.len() && all[w] == d;
                if w < head.len() {
                    assert(head[w] == d);
                    assert(head.contains(d));
                    assert(init.contains(d));
                    let v = choose|v: int| 0 <= v < init.len() && init[v] == d;
                    assert(s[v] == d);
                } else {
                    assert(s[s.len() - 1] == d);
                }
            }
            if s.contains(d) {
                let v = choose|v: int| 0 <= v < s.len() && s[v] == d;
                if v < init.len() {
                    assert(init[v] == d);
                    assert(init.contains(d));
                    assert(head.contains(d));
                    let w = choose|w: int| 0 <= w < head.len() && head[w] == d;
                    assert(all[w] == d);
                } else if head.contains(d) {
                } else {
                    assert(all[head.len() as int] == d);
                }
            }
        }
        assert(all.no_duplicates()) by {
            if !head.contains(s.last()) {
                assert forall|x: int, y: int|
                    0 <= x < all.len() && 0 <= y < all.len() && x != y implies all[x]
                    != all[y] by {
                    if x < head.len() {
                        assert(all[x] == head[x]);
                    }
                    if y < head.len() {
                        assert(all[y] == head[y]);
                    }
                }
            }
        }
    }
}

/// Whether `list` holds a string equal to `wanted`.
fn contains_string(list: &Vec<String>, wanted: &String) -> (r: bool)
    ensures
        r == views(list@).contains(wanted@),
{
    let mut i: usize = 0;
    while i < list.len()
        invariant
            i <= list@.len(),
            forall|k: int| 0 <= k < i ==> (#[trigger] views(list@)[k]) != wanted@,
        decreases list@.len() - i,
    {
        if list[i] == *wanted {
            assert(views(list@)[i as int] == wanted@);
            return true;
        }
        i += 1;
    }
    false
}

impl DomainFilter for DomainApprovalManager {
    fn check(&self, session: &str, domain: &str) -> (action: FilterAction)
        ensures
            action == self@.check(session@, domain@),
    {
        self.check_domain(session, domain)
    }
}

impl DomainFilter for std::sync::Arc<DomainApprovalManager> {
    fn check(&self, session: &str, domain: &str) -> (action: FilterAction)
        ensures
            action == (**self)@.check(session@, domain@),
    {
        (**self).check_domain(session, domain)
    }
}

} // verus!
