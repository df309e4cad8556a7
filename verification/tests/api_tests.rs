use capsuled::api::{
    compute_at, compute_now, compute_quote, floor_amount, wants_quote, manifest_lookup, mgmt_capsule_list, node_info, node_status, public_capsule_list,
    sorted_insert, supported_schemas, ComputeReply,
};
use capsuled::manifest::{CapsuleId, CapsuleStatus, ComputationClass, Manifest};
use capsuled::registry::Registry;

fn manifest(id: &str, schema: &str, status: CapsuleStatus, floor: &str) -> Manifest {
    Manifest {
        capsule_id: CapsuleId::new(id).unwrap(),
        schema: schema.into(),
        status,
        floor_price: floor.into(),
        computation_classes: vec![ComputationClass::A, ComputationClass::C],
        tags: vec!["glucose".into()],
        payload_cid: None,
        earnings_total: None,
        queries_served: None,
        last_accessed: None,
    }
}

fn sample_registry() -> Registry {
    let mut reg = Registry::new();
    reg.insert(manifest("cap_b2", "capsule://health.glucose", CapsuleStatus::Active, "0.08 USDC/query"));
    reg.insert(manifest("cap_a1", "capsule://fitness.steps", CapsuleStatus::Active, "0.01"));
    reg.insert(manifest("cap_c3", "capsule://health.glucose", CapsuleStatus::Paused, "1 USDC"));
    reg.insert(manifest("cap_d4", "capsule://sleep", CapsuleStatus::Draft, ""));
    reg
}

#[test]
fn floor_amount_extracts_leading_number() {
    assert_eq!(floor_amount("0.08 USDC/query"), "0.08");
    assert_eq!(floor_amount("0.08"), "0.08");
    assert_eq!(floor_amount(""), "0");
}

#[test]
fn floor_amount_skips_leading_whitespace() {
    assert_eq!(floor_amount("  \t1.5 USDC"), "1.5");
    assert_eq!(floor_amount("   "), "0");
    assert_eq!(floor_amount("2\n3"), "2");
}

#[test]
fn floor_amount_without_leading_number_is_zero() {
    assert_eq!(floor_amount("free"), "0");
    assert_eq!(floor_amount("USDC 0.08"), "0");
    assert_eq!(floor_amount("  .5 USDC"), "0");
    assert_eq!(floor_amount("12USDC"), "12USDC");
}

#[test]
fn public_list_shows_active_capsules_in_id_order() {
    let reg = sample_registry();
    let listed = public_capsule_list(&reg);
    let ids: Vec<&str> = listed.iter().map(|s| s.capsule_id.as_str()).collect();
    assert_eq!(ids, vec!["cap_a1", "cap_b2"]);
    assert_eq!(listed[1].floor_price, "0.08 USDC/query");
    assert_eq!(listed[1].tags, vec!["glucose".to_string()]);
}

#[test]
fn mgmt_list_shows_every_capsule_in_id_order() {
    let reg = sample_registry();
    let listed = mgmt_capsule_list(&reg);
    let ids: Vec<&str> = listed.iter().map(|s| s.capsule_id.as_str()).collect();
    assert_eq!(ids, vec!["cap_a1", "cap_b2", "cap_c3", "cap_d4"]);
    assert_eq!(listed[2].status, CapsuleStatus::Paused);
}

#[test]
fn listing_of_empty_registry_is_empty() {
    let reg = Registry::new();
    assert!(public_capsule_list(&reg).is_empty());
    assert!(mgmt_capsule_list(&reg).is_empty());
    assert!(supported_schemas(&reg).is_empty());
}

#[test]
fn supported_schemas_are_distinct_and_sorted() {
    let reg = sample_registry();
    assert_eq!(
        supported_schemas(&reg),
        vec![
            "capsule://fitness.steps".to_string(),
            "capsule://health.glucose".to_string(),
            "capsule://sleep".to_string()
        ]
    );
}

#[test]
fn sorted_insert_keeps_order_and_drops_duplicates() {
    let mut v: Vec<String> = Vec::new();
    for s in ["m", "c", "x", "c", "a", "m"] {
        sorted_insert(&mut v, s.to_string());
    }
    assert_eq!(v, vec!["a", "c", "m", "x"]);
}

#[test]
fn node_info_reports_counts_and_wallet() {
    let reg = sample_registry();
    let info = node_info(&reg, "0.1.0", None);
    assert!(info.did.is_none());
    assert!(info.tier.is_none());
    assert_eq!(info.version, "0.1.0");
    assert_eq!(info.capsule_count, 4);
    assert_eq!(info.supported_schemas.len(), 3);
    assert!(info.wallet_address.is_none());
    let info = node_info(&reg, "0.1.0", Some("0xabc".to_string()));
    assert_eq!(info.wallet_address.as_deref(), Some("0xabc"));
}

#[test]
fn node_status_reports_keyring_state() {
    let reg = sample_registry();
    let status = node_status(&reg, "0.1.0", "locked");
    assert!(status.running);
    assert_eq!(status.version, "0.1.0");
    assert_eq!(status.capsule_count, 4);
    assert_eq!(status.keyring, "locked");
}

#[test]
fn manifest_lookup_finds_known_ids_only() {
    let reg = sample_registry();
    let m = manifest_lookup(&reg, "cap_c3").unwrap();
    assert_eq!(m.status, CapsuleStatus::Paused);
    assert!(manifest_lookup(&reg, "cap_zz99").is_none());
    assert!(manifest_lookup(&reg, "cap_../etc").is_none());
    assert!(manifest_lookup(&reg, "b2").is_none());
}

#[test]
fn compute_unknown_or_malformed_is_not_found() {
    let reg = sample_registry();
    assert!(matches!(compute_quote(&reg, "cap_zz99", Some("0xabc".into()), 0), ComputeReply::NotFound));
    assert!(matches!(compute_quote(&reg, "CAP_A1", Some("0xabc".into()), 0), ComputeReply::NotFound));
}

#[test]
fn compute_paused_or_archived_capsule_is_not_found() {
    let mut reg = sample_registry();
    reg.insert(manifest("cap_e5", "capsule://old", CapsuleStatus::Archived, "1"));
    assert!(matches!(compute_quote(&reg, "cap_c3", Some("0xabc".into()), 0), ComputeReply::NotFound));
    assert!(matches!(compute_quote(&reg, "cap_e5", Some("0xabc".into()), 0), ComputeReply::NotFound));
}

#[test]
fn compute_draft_capsule_is_unavailable() {
    let reg = sample_registry();
    assert!(matches!(compute_quote(&reg, "cap_d4", None, 0), ComputeReply::Inactive));
    assert!(matches!(compute_quote(&reg, "cap_d4", Some("0xabc".into()), 0), ComputeReply::Inactive));
}

#[test]
fn compute_with_locked_keyring_fails_closed() {
    let reg = sample_registry();
    assert!(matches!(compute_quote(&reg, "cap_b2", None, 0), ComputeReply::KeyringLocked));
}

#[test]
fn compute_quotes_payment_terms() {
    let reg = sample_registry();
    let now: i128 = 1_700_000_000_123_000_000;
    match compute_quote(&reg, "cap_b2", Some("0xPayee".into()), now) {
        ComputeReply::PaymentRequired(p) => {
            assert_eq!(p.capsule_cid, "cap_b2");
            assert_eq!(p.price.amount, "0.08");
            assert_eq!(p.price.currency, "USDC");
            assert_eq!(p.price.network, "eip155:8453");
            assert_eq!(p.recipient.as_deref(), Some("0xPayee"));
            assert_eq!(p.expiry.as_deref(), Some("2023-11-14T22:18:20.123Z"));
            assert_eq!(p.supported_schemes, vec!["exact".to_string()]);
            assert_eq!(p.capsule_quality.status, CapsuleStatus::Active);
            assert_eq!(p.capsule_quality.computation_classes, vec![ComputationClass::A, ComputationClass::C]);
        },
        _ => panic!("expected a payment request"),
    }
}

#[test]
fn compute_expiry_is_five_minutes_after_now() {
    let reg = sample_registry();
    match compute_quote(&reg, "cap_a1", Some("0x1".into()), 0) {
        ComputeReply::PaymentRequired(p) => {
            assert_eq!(p.expiry.as_deref(), Some("1970-01-01T00:05:00Z"));
            assert_eq!(p.price.amount, "0.01");
        },
        _ => panic!("expected a payment request"),
    }
}

#[test]
fn compute_status_codes_and_activity() {
    let reg = sample_registry();
    let nf = compute_quote(&reg, "cap_zz99", None, 0);
    assert_eq!(nf.status_code(), 404);
    assert!(!nf.is_activity());
    assert_eq!(compute_quote(&reg, "cap_c3", None, 0).status_code(), 404);
    assert_eq!(compute_quote(&reg, "cap_d4", None, 0).status_code(), 503);
    assert_eq!(compute_quote(&reg, "cap_a1", None, 0).status_code(), 503);
    let quote = compute_quote(&reg, "cap_a1", Some("0x1".into()), 0);
    assert_eq!(quote.status_code(), 402);
    assert!(quote.is_activity());
}

#[test]
fn compute_now_quotes_with_the_system_clock() {
    let reg = sample_registry();
    match compute_now(&reg, "cap_b2", Some("0xPayee".into())) {
        Some(ComputeReply::PaymentRequired(p)) => {
            assert_eq!(p.price.amount, "0.08");
            assert!(p.expiry.unwrap().ends_with('Z'));
        },
        _ => panic!("expected a payment request"),
    }
    assert!(matches!(compute_now(&reg, "cap_b2", None), Some(ComputeReply::KeyringLocked)));
}

#[test]
fn compute_at_needs_a_quotable_instant_only_for_quotes() {
    let reg = sample_registry();
    let late: i128 = 253_402_300_799 * 1_000_000_000;
    assert!(compute_at(&reg, "cap_b2", Some("0x1".into()), late).is_none());
    assert!(matches!(compute_at(&reg, "cap_b2", None, late), Some(ComputeReply::KeyringLocked)));
    assert!(matches!(compute_at(&reg, "cap_c3", Some("0x1".into()), late), Some(ComputeReply::NotFound)));
    assert!(matches!(compute_at(&reg, "cap_d4", Some("0x1".into()), late), Some(ComputeReply::Inactive)));
    assert!(matches!(compute_at(&reg, "cap_b2", Some("0x1".into()), 0), Some(ComputeReply::PaymentRequired(_))));
    assert!(wants_quote(&reg, "cap_b2", &Some("0x1".into())));
    assert!(!wants_quote(&reg, "cap_b2", &None));
    assert!(!wants_quote(&reg, "cap_c3", &Some("0x1".into())));
}
