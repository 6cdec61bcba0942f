use moltis_core::domain_approval::{
    DomainApprovalManager, DomainDecision, DomainFilter, FilterAction, WaitOutcome,
};
use std::collections::HashSet;
use std::sync::Arc;
use std::time::Duration;
use tokio::sync::oneshot::error::TryRecvError;

#[test]
fn test_check_domain_config_allowlist() {
    let mgr = DomainApprovalManager::new(&["github.com".into()], Duration::from_secs(60));
    assert_eq!(mgr.check_domain("sess1", "github.com"), FilterAction::Allow);
    assert_eq!(
        mgr.check_domain("sess1", "evil.com"),
        FilterAction::NeedsApproval
    );
}

#[test]
fn test_check_domain_session_allowlist() {
    let mut mgr = DomainApprovalManager::new(&[], Duration::from_secs(60));
    mgr.add_trusted_domain("sess1", "example.com");
    assert_eq!(
        mgr.check_domain("sess1", "example.com"),
        FilterAction::Allow
    );
    // Different session should not have access.
    assert_eq!(
        mgr.check_domain("sess2", "example.com"),
        FilterAction::NeedsApproval
    );
}

#[test]
fn test_create_and_resolve_approved() {
    let mut mgr = DomainApprovalManager::new(&[], Duration::from_secs(60));
    let (id, mut rx) = mgr.create_request("sess1", "example.com");

    // Resolve as approved.
    mgr.resolve(&id, DomainDecision::Approved);
    let decision = rx.try_recv().unwrap();
    assert_eq!(decision, DomainDecision::Approved);

    // Domain should now be in session allowlist.
    assert_eq!(
        mgr.check_domain("sess1", "example.com"),
        FilterAction::Allow
    );
}

#[test]
fn test_create_and_resolve_denied() {
    let mut mgr = DomainApprovalManager::new(&[], Duration::from_secs(60));
    let (id, mut rx) = mgr.create_request("sess1", "evil.com");

    mgr.resolve(&id, DomainDecision::Denied);
    let decision = rx.try_recv().unwrap();
    assert_eq!(decision, DomainDecision::Denied);

    // Domain should NOT be in session allowlist.
    assert_eq!(
        mgr.check_domain("sess1", "evil.com"),
        FilterAction::NeedsApproval
    );
}

#[test]
fn test_wait_for_decision_timeout() {
    let mut mgr = DomainApprovalManager::new(&[], Duration::from_millis(50));
    let (_id, mut rx) = mgr.create_request("sess1", "slow.com");

    // Don't resolve: nothing arrives, and the wait ends by the timeout.
    assert_eq!(rx.try_recv(), Err(TryRecvError::Empty));
    let decision = mgr.wait_for_decision(WaitOutcome::Elapsed);
    assert_eq!(decision, DomainDecision::Timeout);
    assert_eq!(mgr.timeout(), Duration::from_millis(50));
}

#[test]
fn test_list_trusted_domains() {
    let mut mgr = DomainApprovalManager::new(
        &["github.com".into(), "*.npmjs.org".into()],
        Duration::from_secs(60),
    );
    mgr.add_trusted_domain("sess1", "example.com");

    let domains = mgr.list_trusted_domains("sess1");
    assert!(domains.contains(&"github.com".to_string()));
    assert!(domains.contains(&"*.npmjs.org".to_string()));
    assert!(domains.contains(&"example.com".to_string()));
}

#[test]
fn test_remove_trusted_domain() {
    let mut mgr = DomainApprovalManager::new(&[], Duration::from_secs(60));
    mgr.add_trusted_domain("sess1", "example.com");
    assert_eq!(
        mgr.check_domain("sess1", "example.com"),
        FilterAction::Allow
    );

    mgr.remove_trusted_domain("sess1", "example.com");
    assert_eq!(
        mgr.check_domain("sess1", "example.com"),
        FilterAction::NeedsApproval
    );
}

#[test]
fn test_pending_requests() {
    let mut mgr = DomainApprovalManager::new(&[], Duration::from_secs(60));
    let (id1, _rx1) = mgr.create_request("sess1", "a.com");
    let (id2, _rx2) = mgr.create_request("sess1", "b.com");

    let pending = mgr.pending_requests();
    assert_eq!(pending.len(), 2);

    let ids: HashSet<String> = pending.iter().map(|(id, ..)| id.clone()).collect();
    assert!(ids.contains(&id1));
    assert!(ids.contains(&id2));
}

#[test]
fn config_allowlist_wins_in_every_session() {
    let mut mgr = DomainApprovalManager::new(
        &["*.github.com".into(), " PyPI.org ".into()],
        Duration::from_secs(1),
    );
    for session in ["", "s1", "127.0.0.1:4000"] {
        assert_eq!(mgr.check_domain(session, "github.com"), FilterAction::Allow);
        assert_eq!(mgr.check_domain(session, "API.GitHub.com"), FilterAction::Allow);
        assert_eq!(mgr.check_domain(session, "pypi.ORG"), FilterAction::Allow);
        assert_eq!(
            mgr.check_domain(session, "evil.org"),
            FilterAction::NeedsApproval
        );
    }
    // Revoking a domain that the configuration allows changes nothing.
    mgr.remove_trusted_domain("s1", "pypi.org");
    assert_eq!(mgr.check_domain("s1", "pypi.org"), FilterAction::Allow);
}

#[test]
fn wildcard_config_allows_everything() {
    let mgr = DomainApprovalManager::new(&["*".into()], Duration::from_secs(1));
    assert_eq!(mgr.check_domain("s", "anything.example"), FilterAction::Allow);
    assert_eq!(mgr.check_domain("s", ""), FilterAction::Allow);
}

#[test]
fn session_grants_fold_case() {
    let mut mgr = DomainApprovalManager::new(&[], Duration::from_secs(1));
    mgr.add_trusted_domain("s1", "Example.COM");
    assert_eq!(mgr.check_domain("s1", "example.com"), FilterAction::Allow);
    assert_eq!(mgr.check_domain("s1", "EXAMPLE.com"), FilterAction::Allow);
    assert_eq!(mgr.list_trusted_domains("s1"), vec!["example.com".to_string()]);
    mgr.remove_trusted_domain("s1", "EXAMPLE.COM");
    assert_eq!(
        mgr.check_domain("s1", "example.com"),
        FilterAction::NeedsApproval
    );
    assert!(mgr.list_trusted_domains("s1").is_empty());
}

#[test]
fn approval_lower_cases_the_requested_domain() {
    let mut mgr = DomainApprovalManager::new(&[], Duration::from_secs(1));
    let (id, mut rx) = mgr.create_request("s1", "Files.Example.COM");
    assert_eq!(
        mgr.pending_requests(),
        vec![(id.clone(), "Files.Example.COM".to_string(), "s1".to_string())]
    );
    mgr.resolve(&id, DomainDecision::Approved);
    assert_eq!(rx.try_recv(), Ok(DomainDecision::Approved));
    assert_eq!(
        mgr.list_trusted_domains("s1"),
        vec!["files.example.com".to_string()]
    );
    assert_eq!(
        mgr.check_domain("s1", "files.example.com"),
        FilterAction::Allow
    );
    assert_eq!(
        mgr.check_domain("s2", "files.example.com"),
        FilterAction::NeedsApproval
    );
}

#[test]
fn timeout_resolution_grants_nothing() {
    let mut mgr = DomainApprovalManager::new(&[], Duration::from_secs(1));
    let (id, mut rx) = mgr.create_request("s1", "slow.com");
    mgr.resolve(&id, DomainDecision::Timeout);
    assert_eq!(rx.try_recv(), Ok(DomainDecision::Timeout));
    assert_eq!(mgr.check_domain("s1", "slow.com"), FilterAction::NeedsApproval);
    assert!(mgr.pending_requests().is_empty());
    assert!(mgr.list_trusted_domains("s1").is_empty());
}

#[test]
fn resolving_an_unknown_id_is_a_no_op() {
    let mut mgr = DomainApprovalManager::new(&["a.com".into()], Duration::from_secs(1));
    let (id, mut rx) = mgr.create_request("s1", "b.com");
    mgr.resolve("no-such-id", DomainDecision::Approved);
    assert_eq!(rx.try_recv(), Err(TryRecvError::Empty));
    assert_eq!(mgr.pending_requests().len(), 1);
    assert_eq!(mgr.check_domain("s1", "b.com"), FilterAction::NeedsApproval);
    assert_eq!(mgr.list_trusted_domains("s1"), vec!["a.com".to_string()]);

    // A second resolve of an id that was already resolved is one, too.
    mgr.resolve(&id, DomainDecision::Denied);
    assert_eq!(rx.try_recv(), Ok(DomainDecision::Denied));
    mgr.resolve(&id, DomainDecision::Approved);
    assert_eq!(mgr.check_domain("s1", "b.com"), FilterAction::NeedsApproval);
}

#[test]
fn a_late_resolve_after_the_receiver_is_gone_still_takes_effect() {
    let mut mgr = DomainApprovalManager::new(&[], Duration::from_secs(1));
    let (id, rx) = mgr.create_request("s1", "late.com");
    drop(rx);
    mgr.resolve(&id, DomainDecision::Approved);
    assert!(mgr.pending_requests().is_empty());
    assert_eq!(mgr.check_domain("s1", "late.com"), FilterAction::Allow);
}

#[test]
fn pending_requests_shrink_as_each_is_resolved() {
    let mut mgr = DomainApprovalManager::new(&[], Duration::from_secs(1));
    let (id1, _rx1) = mgr.create_request("s1", "a.com");
    let (id2, _rx2) = mgr.create_request("s2", "b.com");
    let (id3, _rx3) = mgr.create_request("s1", "a.com");
    assert_ne!(id1, id2);
    assert_ne!(id1, id3);
    assert_eq!(id1.len(), 36);

    let all: HashSet<(String, String, String)> = mgr.pending_requests().into_iter().collect();
    let mut want = HashSet::new();
    want.insert((id1.clone(), "a.com".to_string(), "s1".to_string()));
    want.insert((id2.clone(), "b.com".to_string(), "s2".to_string()));
    want.insert((id3.clone(), "a.com".to_string(), "s1".to_string()));
    assert_eq!(all, want);

    mgr.resolve(&id2, DomainDecision::Denied);
    let left: HashSet<String> = mgr.pending_requests().into_iter().map(|p| p.0).collect();
    assert_eq!(left.len(), 2);
    assert!(left.contains(&id1) && left.contains(&id3));

    mgr.resolve(&id1, DomainDecision::Approved);
    assert_eq!(
        mgr.pending_requests(),
        vec![(id3.clone(), "a.com".to_string(), "s1".to_string())]
    );
    mgr.resolve(&id3, DomainDecision::Timeout);
    assert!(mgr.pending_requests().is_empty());
}

#[test]
fn register_request_files_under_the_given_id() {
    let mut mgr = DomainApprovalManager::new(&[], Duration::from_secs(1));
    let mut rx = mgr.register_request("req-1".to_string(), "s1", "a.com");
    assert_eq!(
        mgr.pending_requests(),
        vec![("req-1".to_string(), "a.com".to_string(), "s1".to_string())]
    );
    assert_eq!(rx.try_recv(), Err(TryRecvError::Empty));
    mgr.resolve("req-1", DomainDecision::Approved);
    assert_eq!(rx.try_recv(), Ok(DomainDecision::Approved));
}

#[test]
fn registering_an_id_twice_replaces_the_first_request() {
    let mut mgr = DomainApprovalManager::new(&[], Duration::from_secs(1));
    let mut first = mgr.register_request("same".to_string(), "s1", "a.com");
    let mut second = mgr.register_request("same".to_string(), "s2", "b.com");
    assert_eq!(
        mgr.pending_requests(),
        vec![("same".to_string(), "b.com".to_string(), "s2".to_string())]
    );
    // The first responder was dropped: its receiver sees a closed channel.
    assert_eq!(first.try_recv(), Err(TryRecvError::Closed));
    assert_eq!(
        mgr.wait_for_decision(WaitOutcome::Closed),
        DomainDecision::Denied
    );
    mgr.resolve("same", DomainDecision::Approved);
    assert_eq!(second.try_recv(), Ok(DomainDecision::Approved));
    assert_eq!(mgr.check_domain("s2", "b.com"), FilterAction::Allow);
    assert_eq!(mgr.check_domain("s1", "a.com"), FilterAction::NeedsApproval);
}

#[test]
fn wait_for_decision_maps_each_outcome() {
    let mgr = DomainApprovalManager::new(&[], Duration::from_secs(1));
    for d in [
        DomainDecision::Approved,
        DomainDecision::Denied,
        DomainDecision::Timeout,
    ] {
        assert_eq!(mgr.wait_for_decision(WaitOutcome::Received(d)), d);
    }
    assert_eq!(
        mgr.wait_for_decision(WaitOutcome::Closed),
        DomainDecision::Denied
    );
    assert_eq!(
        mgr.wait_for_decision(WaitOutcome::Elapsed),
        DomainDecision::Timeout
    );
}

#[test]
fn list_trusted_domains_keeps_config_order_and_adds_each_grant_once() {
    let mut mgr = DomainApprovalManager::new(
        &["b.com".into(), "*".into(), "*.a.com".into()],
        Duration::from_secs(1),
    );
    mgr.add_trusted_domain("s1", "z.com");
    mgr.add_trusted_domain("s1", "Z.com");
    mgr.add_trusted_domain("s1", "b.com");
    mgr.add_trusted_domain("s2", "other.com");
    let listed = mgr.list_trusted_domains("s1");
    assert_eq!(
        listed,
        vec![
            "b.com".to_string(),
            "*".to_string(),
            "*.a.com".to_string(),
            "z.com".to_string()
        ]
    );
    assert_eq!(mgr.list_trusted_domains("s3").len(), 3);
    // Listing changes nothing.
    assert_eq!(mgr.list_trusted_domains("s1"), listed);
    assert_eq!(mgr.check_domain("s2", "other.com"), FilterAction::Allow);
}

#[test]
fn list_trusted_domains_lists_a_repeated_pattern_once() {
    let mut mgr = DomainApprovalManager::new(
        &[
            "github.com".into(),
            "GitHub.com".into(),
            "*.npmjs.org".into(),
            " github.com ".into(),
            "*".into(),
            "*.NPMJS.org".into(),
            "*".into(),
        ],
        Duration::from_secs(1),
    );
    assert_eq!(
        mgr.list_trusted_domains("s1"),
        vec![
            "github.com".to_string(),
            "*.npmjs.org".to_string(),
            "*".to_string()
        ]
    );
    mgr.add_trusted_domain("s1", "GITHUB.com");
    mgr.add_trusted_domain("s1", "example.com");
    mgr.add_trusted_domain("s1", "*");
    mgr.add_trusted_domain("s2", "elsewhere.com");
    let listed = mgr.list_trusted_domains("s1");
    assert_eq!(
        listed,
        vec![
            "github.com".to_string(),
            "*.npmjs.org".to_string(),
            "*".to_string(),
            "example.com".to_string()
        ]
    );
    let mut once = listed.clone();
    once.sort();
    once.dedup();
    assert_eq!(once.len(), listed.len());
    assert!(!listed.contains(&"elsewhere.com".to_string()));

    let twice = DomainApprovalManager::new(&["a.com".into(), "a.com".into()], Duration::from_secs(1));
    assert_eq!(twice.list_trusted_domains("s"), vec!["a.com".to_string()]);
    let none = DomainApprovalManager::new(&[], Duration::from_secs(1));
    assert!(none.list_trusted_domains("s").is_empty());
}

#[test]
fn the_filter_trait_answers_as_check_domain_does() {
    let mut mgr = DomainApprovalManager::new(&["github.com".into()], Duration::from_secs(1));
    mgr.add_trusted_domain("s1", "example.com");
    assert_eq!(
        DomainFilter::check(&mgr, "s1", "example.com"),
        FilterAction::Allow
    );
    let shared = Arc::new(mgr);
    assert_eq!(shared.check("s2", "github.com"), FilterAction::Allow);
    assert_eq!(shared.check("s2", "example.com"), FilterAction::NeedsApproval);
}
