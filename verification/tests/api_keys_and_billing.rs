use chunkmydocs::auth::{api_key_records, new_api_key_records, ApiRequest, KeyGenError};
use chunkmydocs::billing::{
    plan_customer, webhook_action, CustomerPlan, HttpFailure, WebhookAction, WebhookEventKind,
};

fn request() -> ApiRequest {
    ApiRequest {
        user_id: Some("akshat".to_string()),
        access_level: Some("ADMIN".to_string()),
        expires_at: Some(1_700_000_000_000_000),
        initial_usage: Some(0),
        usage_limit: Some(1000),
        usage_type: Some("FREE".to_string()),
    }
}

#[test]
fn records_for_a_key() {
    let r = api_key_records(request(), "lu_abc_def".to_string(), 10, 11, 12);
    assert_eq!(r.api_key.key, "lu_abc_def");
    assert_eq!(r.api_key.user_id.as_deref(), Some("akshat"));
    assert_eq!(r.api_key.dataset_id, None);
    assert_eq!(r.api_key.org_id, None);
    assert_eq!(r.api_key.access_level.as_deref(), Some("ADMIN"));
    assert_eq!(r.api_key.active, Some(true));
    assert_eq!(r.api_key.deleted, Some(false));
    assert_eq!(r.api_key.created_at, Some(10));
    assert_eq!(r.api_key.expires_at, Some(1_700_000_000_000_000));
    assert_eq!(r.api_key.deleted_at, None);
    assert_eq!(r.api_key.deleted_by, None);
    assert_eq!(r.usage.id, None);
    assert_eq!(r.usage.api_key, "lu_abc_def");
    assert_eq!(r.usage.usage, Some(0));
    assert_eq!(r.usage.usage_type.as_deref(), Some("FREE"));
    assert_eq!(r.usage.created_at, Some(11));
    assert_eq!(r.limit.api_key, "lu_abc_def");
    assert_eq!(r.limit.usage_limit, Some(1000));
    assert_eq!(r.limit.usage_type.as_deref(), Some("FREE"));
    assert_eq!(r.limit.created_at, Some(12));
}

#[test]
fn generated_key_has_the_prefixed_shape() {
    let r: Result<_, KeyGenError> = new_api_key_records(request());
    let r = r.expect("the OS random source works here");
    let key = r.api_key.key.clone();
    let parts: Vec<&str> = key.split('_').collect();
    assert_eq!(parts.len(), 3);
    assert_eq!(parts[0], "lu");
    let base58 = "123456789ABCDEFGHJKLMNPQRSTUVWXYZabcdefghijkmnopqrstuvwxyz";
    for p in &parts[1..] {
        assert!(!p.is_empty());
        assert!(p.chars().all(|c| base58.contains(c)));
    }
    assert_eq!(r.usage.api_key, key);
    assert_eq!(r.limit.api_key, key);
    assert!(r.api_key.created_at.unwrap() > 1_600_000_000_000_000);
    let other = new_api_key_records(request()).unwrap();
    assert_ne!(other.api_key.key, key);
}

#[test]
fn customer_plans() {
    match plan_customer(Some(Some("cus_1".to_string())), None).unwrap() {
        CustomerPlan::UseExisting(id) => assert_eq!(id, "cus_1"),
        other => panic!("{:?}", other),
    }
    match plan_customer(Some(Some(String::new())), Some("a@b.c".to_string())).unwrap() {
        CustomerPlan::CreateFor(e) => assert_eq!(e, "a@b.c"),
        other => panic!("{:?}", other),
    }
    match plan_customer(None, Some("a@b.c".to_string())).unwrap() {
        CustomerPlan::CreateFor(e) => assert_eq!(e, "a@b.c"),
        other => panic!("{:?}", other),
    }
    match plan_customer(Some(None), None) {
        Err(HttpFailure::BadRequest(m)) => assert_eq!(m, "User email is required"),
        other => panic!("{:?}", other),
    }
}

#[test]
fn webhook_actions() {
    match webhook_action(WebhookEventKind::SetupIntentSucceeded, Some(Some("cus_9".to_string()))) {
        Ok(WebhookAction::UpgradeCustomer(c)) => assert_eq!(c, "cus_9"),
        other => panic!("{:?}", other),
    }
    match webhook_action(WebhookEventKind::SetupIntentSucceeded, Some(None)) {
        Err(HttpFailure::BadRequest(m)) => assert_eq!(m, "No customer ID found"),
        other => panic!("{:?}", other),
    }
    assert!(matches!(
        webhook_action(WebhookEventKind::SetupIntentSucceeded, None),
        Ok(WebhookAction::Acknowledge)
    ));
    for kind in [
        WebhookEventKind::SetupIntentCanceled,
        WebhookEventKind::SetupIntentCreated,
        WebhookEventKind::SetupIntentRequiresAction,
        WebhookEventKind::SetupIntentSetupFailed,
        WebhookEventKind::Other,
    ] {
        assert!(matches!(
            webhook_action(kind, Some(Some("cus_9".to_string()))),
            Ok(WebhookAction::Acknowledge)
        ));
    }
}
