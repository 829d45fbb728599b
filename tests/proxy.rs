use proxy::{Contract, ProxyError, KEY_VERSION};

fn s(text: &str) -> String {
    text.to_string()
}

#[test]
fn owner_approves_and_worker_gets_signature_request() {
    let mut c = Contract::init(s("alice"));
    assert_eq!(c.approve_codehash(&s("alice"), s("hash1")), Ok(()));
    assert!(c.register_worker(&s("bob"), s("hash1")));
    let req = c
        .get_signature(&s("bob"), vec![1, 2, 3], s("m/0"))
        .expect("gate passes");
    assert_eq!(req.payload, vec![1u8, 2, 3]);
    assert_eq!(req.path, "m/0");
    assert_eq!(req.key_version, 0);
    assert_eq!(KEY_VERSION, 0);
}

#[test]
fn unapproved_worker_is_refused_signature() {
    let mut c = Contract::init(s("alice"));
    assert!(c.register_worker(&s("carol"), s("hash2")));
    let r = c.get_signature(&s("carol"), vec![9, 9], s("m/1"));
    assert!(matches!(r, Err(ProxyError::NotApproved)));
}

#[test]
fn unregistered_account_is_not_found() {
    let mut c = Contract::init(s("alice"));
    assert!(matches!(c.get_worker(&s("dave")), Err(ProxyError::NotFound)));
    c.approve_codehash(&s("alice"), s("hash1")).unwrap();
    c.register_worker(&s("bob"), s("hash1"));
    assert!(matches!(c.get_worker(&s("dave")), Err(ProxyError::NotFound)));
    assert!(matches!(c.get_worker(&s("")), Err(ProxyError::NotFound)));
}

#[test]
fn unregistered_account_is_refused_signature() {
    let mut c = Contract::init(s("alice"));
    c.approve_codehash(&s("alice"), s("hash1")).unwrap();
    let r = c.get_signature(&s("erin"), vec![1], s("m/0"));
    assert!(matches!(r, Err(ProxyError::NotFound)));
    assert_eq!(c.require_approved_codehash(&s("erin")), Err(ProxyError::NotFound));
}

#[test]
fn approve_is_idempotent() {
    let mut c = Contract::init(s("alice"));
    assert!(!c.contains_codehash(&s("hash1")));
    assert_eq!(c.approve_codehash(&s("alice"), s("hash1")), Ok(()));
    assert!(c.contains_codehash(&s("hash1")));
    assert_eq!(c.approve_codehash(&s("alice"), s("hash1")), Ok(()));
    assert!(c.contains_codehash(&s("hash1")));
    assert_eq!(c.approved_codehashes().len(), 1);
}

#[test]
fn non_owner_cannot_approve() {
    let mut c = Contract::init(s("alice"));
    assert_eq!(
        c.approve_codehash(&s("mallory"), s("hash1")),
        Err(ProxyError::NotAuthorized)
    );
    assert!(!c.contains_codehash(&s("hash1")));
    assert!(c.approved_codehashes().is_empty());
    assert_eq!(c.require_owner(&s("mallory")), Err(ProxyError::NotAuthorized));
    assert_eq!(c.require_owner(&s("alice")), Ok(()));
    assert_eq!(c.require_owner(&s("Alice")), Err(ProxyError::NotAuthorized));
}

#[test]
fn last_registration_wins() {
    let mut c = Contract::init(s("alice"));
    assert!(c.register_worker(&s("bob"), s("c1")));
    assert_eq!(c.get_worker(&s("bob")).unwrap().codehash, "c1");
    assert!(c.register_worker(&s("bob"), s("c2")));
    assert_eq!(c.get_worker(&s("bob")).unwrap().codehash, "c2");
    assert_eq!(c.worker_entries().len(), 1);
}

#[test]
fn registration_of_one_account_leaves_others() {
    let mut c = Contract::init(s("alice"));
    c.register_worker(&s("bob"), s("c1"));
    c.register_worker(&s("carol"), s("c2"));
    c.register_worker(&s("bob"), s("c3"));
    assert_eq!(c.get_worker(&s("carol")).unwrap().codehash, "c2");
    assert_eq!(c.get_worker(&s("bob")).unwrap().codehash, "c3");
    assert_eq!(c.worker_entries().len(), 2);
}

#[test]
fn gate_rechecks_current_registration() {
    let mut c = Contract::init(s("alice"));
    c.approve_codehash(&s("alice"), s("good")).unwrap();
    c.register_worker(&s("bob"), s("good"));
    assert_eq!(c.require_approved_codehash(&s("bob")), Ok(()));
    c.register_worker(&s("bob"), s("other"));
    assert_eq!(c.require_approved_codehash(&s("bob")), Err(ProxyError::NotApproved));
    c.register_worker(&s("bob"), s("good"));
    assert!(c.get_signature(&s("bob"), Vec::new(), String::new()).is_ok());
}

#[test]
fn approval_after_registration_opens_gate() {
    let mut c = Contract::init(s("alice"));
    c.register_worker(&s("carol"), s("hash2"));
    assert_eq!(c.require_approved_codehash(&s("carol")), Err(ProxyError::NotApproved));
    c.approve_codehash(&s("alice"), s("hash2")).unwrap();
    assert_eq!(c.require_approved_codehash(&s("carol")), Ok(()));
}

#[test]
fn owner_may_register_as_worker_too() {
    let mut c = Contract::init(s("alice"));
    c.register_worker(&s("alice"), s("h"));
    assert!(matches!(
        c.get_signature(&s("alice"), vec![0], s("p")),
        Err(ProxyError::NotApproved)
    ));
    assert_eq!(c.owner_id(), "alice");
}

#[test]
fn empty_codehash_is_accepted() {
    let mut c = Contract::init(s("alice"));
    c.approve_codehash(&s("alice"), String::new()).unwrap();
    c.register_worker(&s("bob"), String::new());
    assert_eq!(c.get_worker(&s("bob")).unwrap().codehash, "");
    assert_eq!(c.require_approved_codehash(&s("bob")), Ok(()));
}
