use transcript_search::provision::{ProvisionAction, ProvisionReply, ProvisionStep, Provisioning};
use transcript_search::registry::{database_path, tenant_of, NotFound, Registry, DEFAULT_TENANT};
use transcript_search::search::StoreFault;

#[test]
fn empty_registry_resolves_nothing() {
    let registry: Registry<u32> = Registry::new();
    assert_eq!(registry.resolve("default"), None);
    assert!(!registry.is_registered("default"));
}

#[test]
fn provision_registers_once() {
    let mut registry: Registry<&str> = Registry::new();
    assert_eq!(registry.provision("alice", "first handle"), None);
    assert_eq!(registry.resolve("alice"), Some(&"first handle"));
    assert_eq!(registry.provision("alice", "second handle"), Some("second handle"));
    assert_eq!(registry.resolve("alice"), Some(&"first handle"));
    assert!(registry.is_registered("alice"));
}

#[test]
fn tenants_are_kept_apart() {
    let mut registry: Registry<u32> = Registry::new();
    assert_eq!(registry.provision("alice", 1), None);
    assert_eq!(registry.provision("bob", 2), None);
    assert_eq!(registry.provision("Alice", 3), None);
    assert_eq!(registry.resolve("alice"), Some(&1));
    assert_eq!(registry.resolve("bob"), Some(&2));
    assert_eq!(registry.resolve("Alice"), Some(&3));
    assert_eq!(registry.resolve("carol"), None);
    assert_eq!(registry.resolve(""), None);
}

#[test]
fn replace_then_provision_leaves_the_new_handle_only() {
    let mut registry: Registry<u32> = Registry::new();
    assert_eq!(registry.provision("default", 1), None);
    assert_eq!(registry.provision("other", 7), None);
    assert_eq!(registry.replace("default"), Some(1));
    assert_eq!(registry.resolve("default"), None);
    assert_eq!(registry.provision("default", 2), None);
    assert_eq!(registry.resolve("default"), Some(&2));
    assert_eq!(registry.resolve("other"), Some(&7));
    assert_eq!(registry.evict("default"), Ok(2));
    assert_eq!(registry.evict("default"), Err(NotFound {}));
}

#[test]
fn replace_of_absent_tenant_changes_nothing() {
    let mut registry: Registry<u32> = Registry::new();
    assert_eq!(registry.provision("a", 1), None);
    assert_eq!(registry.replace("b"), None);
    assert_eq!(registry.resolve("a"), Some(&1));
}

#[test]
fn evict_hands_the_handle_over_once() {
    let mut registry: Registry<String> = Registry::new();
    assert_eq!(registry.provision("a", "pool a".to_string()), None);
    assert_eq!(registry.provision("b", "pool b".to_string()), None);
    assert_eq!(registry.evict("a"), Ok("pool a".to_string()));
    assert_eq!(registry.resolve("a"), None);
    assert_eq!(registry.evict("a"), Err(NotFound {}));
    assert_eq!(registry.resolve("b"), Some(&"pool b".to_string()));
    assert_eq!(registry.evict("never there"), Err(NotFound {}));
}

#[test]
fn request_without_tenant_is_about_the_default_tenant() {
    assert_eq!(tenant_of(None), "default");
    assert_eq!(tenant_of(None), DEFAULT_TENANT);
    assert_eq!(tenant_of(Some("alice")), "alice");
    assert_eq!(tenant_of(Some("")), "");
}

#[test]
fn each_tenant_has_its_own_database_path() {
    assert_eq!(database_path("default"), "./temp_dbs/default.sqlite");
    assert_eq!(database_path("alice"), "./temp_dbs/alice.sqlite");
    assert_ne!(database_path("a"), database_path("b"));
    assert_eq!(database_path(""), "./temp_dbs/.sqlite");
}

fn next_request(step: ProvisionStep<u32>) -> (Provisioning<u32>, ProvisionAction<u32>) {
    match step {
        ProvisionStep::Next(provisioning, action) => (provisioning, action),
        ProvisionStep::Done(_) => panic!("the provisioning is over"),
    }
}

fn outcome(step: ProvisionStep<u32>) -> Result<Option<u32>, StoreFault> {
    match step {
        ProvisionStep::Done(result) => result,
        ProvisionStep::Next(_, _) => panic!("the provisioning goes on"),
    }
}

#[test]
fn provisioning_registers_once_the_schema_is_applied() {
    let mut registry: Registry<u32> = Registry::new();
    let (provisioning, action) = next_request(Provisioning::open(&registry, "alice"));
    assert!(matches!(action, ProvisionAction::Create));
    let (provisioning, action) = next_request(provisioning.step(ProvisionReply::Created(7), &mut registry));
    assert!(matches!(action, ProvisionAction::ApplySchema));
    assert_eq!(registry.resolve("alice"), None);
    assert_eq!(outcome(provisioning.step(ProvisionReply::Done, &mut registry)), Ok(None));
    assert_eq!(registry.resolve("alice"), Some(&7));
}

#[test]
fn provisioning_of_a_registered_tenant_is_over_at_once() {
    let mut registry: Registry<u32> = Registry::new();
    assert_eq!(registry.provision("alice", 1), None);
    assert_eq!(outcome(Provisioning::open(&registry, "alice")), Ok(None));
    assert_eq!(registry.resolve("alice"), Some(&1));
}

#[test]
fn provisioning_without_schema_registers_nothing_and_discards() {
    let mut registry: Registry<u32> = Registry::new();
    let (provisioning, _) = next_request(Provisioning::open(&registry, "alice"));
    let (provisioning, _) = next_request(provisioning.step(ProvisionReply::Created(7), &mut registry));
    let (provisioning, action) = next_request(provisioning.step(ProvisionReply::Failed, &mut registry));
    assert!(matches!(action, ProvisionAction::Discard(7)));
    assert_eq!(registry.resolve("alice"), None);
    assert_eq!(outcome(provisioning.step(ProvisionReply::Done, &mut registry)), Err(StoreFault {}));
    assert_eq!(registry.resolve("alice"), None);
    let (_, again) = next_request(Provisioning::open(&registry, "alice"));
    assert!(matches!(again, ProvisionAction::Create));
}

#[test]
fn provisioning_without_storage_fails_at_once() {
    let mut registry: Registry<u32> = Registry::new();
    let (provisioning, _) = next_request(Provisioning::open(&registry, "alice"));
    assert_eq!(outcome(provisioning.step(ProvisionReply::Failed, &mut registry)), Err(StoreFault {}));
    let (provisioning, _) = next_request(Provisioning::open(&registry, "alice"));
    assert_eq!(outcome(provisioning.step(ProvisionReply::Done, &mut registry)), Err(StoreFault {}));
    assert_eq!(registry.resolve("alice"), None);
}

#[test]
fn provisioning_hands_back_a_handle_that_came_too_late() {
    let mut registry: Registry<u32> = Registry::new();
    let (provisioning, _) = next_request(Provisioning::open(&registry, "alice"));
    let (provisioning, _) = next_request(provisioning.step(ProvisionReply::Created(7), &mut registry));
    assert_eq!(registry.provision("alice", 1), None);
    assert_eq!(outcome(provisioning.step(ProvisionReply::Done, &mut registry)), Ok(Some(7)));
    assert_eq!(registry.resolve("alice"), Some(&1));
}

#[test]
fn provisioning_discards_on_a_reply_of_another_kind() {
    let mut registry: Registry<u32> = Registry::new();
    let (provisioning, _) = next_request(Provisioning::open(&registry, "alice"));
    let (provisioning, _) = next_request(provisioning.step(ProvisionReply::Created(7), &mut registry));
    let (_, action) = next_request(provisioning.step(ProvisionReply::Created(8), &mut registry));
    assert!(matches!(action, ProvisionAction::Discard(7)));
    assert_eq!(registry.resolve("alice"), None);
}
