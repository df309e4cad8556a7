use capsuled::manifest::{CapsuleId, CapsuleStatus, ComputationClass, Manifest};
use capsuled::registry::{
    capsule_id_from_path, check_manifest_filename, handle_removal, handle_upsert, has_json_extension,
    is_manifest_filename, manifest_path, register_loaded, ManifestLoadError, Registry, UpsertOutcome,
};

fn sample_manifest(id: &str) -> Manifest {
    Manifest {
        capsule_id: CapsuleId::new(id).unwrap(),
        schema: "capsule://test".into(),
        status: CapsuleStatus::Active,
        floor_price: "0.01".into(),
        computation_classes: vec![ComputationClass::A],
        tags: vec![],
        payload_cid: None,
        earnings_total: None,
        queries_served: None,
        last_accessed: None,
    }
}

#[test]
fn registry_insert_get_list() {
    let mut reg = Registry::new();
    assert!(reg.is_empty());
    reg.insert(sample_manifest("cap_a1"));
    reg.insert(sample_manifest("cap_b2"));
    assert_eq!(reg.len(), 2);
    let got = reg.get(&CapsuleId::new("cap_a1").unwrap()).unwrap();
    assert_eq!(got.capsule_id.as_str(), "cap_a1");
    let listed = reg.list();
    assert_eq!(listed.len(), 2);
}

#[test]
fn registry_remove() {
    let mut reg = Registry::new();
    reg.insert(sample_manifest("cap_a1"));
    let removed = reg.remove(&CapsuleId::new("cap_a1").unwrap());
    assert!(removed.is_some());
    assert!(reg.is_empty());
}

#[test]
fn registry_insert_replaces_same_id() {
    let mut reg = Registry::new();
    reg.insert(sample_manifest("cap_a1"));
    let mut newer = sample_manifest("cap_a1");
    newer.schema = "capsule://newer".into();
    reg.insert(newer);
    assert_eq!(reg.len(), 1);
    assert_eq!(reg.get(&CapsuleId::new("cap_a1").unwrap()).unwrap().schema, "capsule://newer");
}

#[test]
fn registry_remove_missing_is_none() {
    let mut reg = Registry::new();
    reg.insert(sample_manifest("cap_a1"));
    assert!(reg.remove(&CapsuleId::new("cap_zz").unwrap()).is_none());
    assert_eq!(reg.len(), 1);
    assert!(reg.get(&CapsuleId::new("cap_zz").unwrap()).is_none());
}

#[test]
fn manifest_path_layout() {
    let id = CapsuleId::new("cap_abc").unwrap();
    assert_eq!(manifest_path("/v/.capsule", &id), "/v/.capsule/manifests/cap_abc.json");
    assert_eq!(manifest_path("/v/.capsule/", &id), "/v/.capsule/manifests/cap_abc.json");
}

#[test]
fn capsule_id_from_path_uses_the_stem() {
    assert_eq!(
        capsule_id_from_path("/v/.capsule/manifests/cap_abc.json").unwrap().as_str(),
        "cap_abc"
    );
    assert!(capsule_id_from_path("/v/.capsule/manifests/notes.json").is_none());
    assert!(capsule_id_from_path("/v/.capsule/manifests/..").is_none());
}

#[test]
fn manifest_filename_filter() {
    assert!(is_manifest_filename("/m/cap_abc.json"));
    assert!(!is_manifest_filename("/m/._cap_abc.json"));
    assert!(!is_manifest_filename("/m/cap_abc.json.tmp"));
    assert!(!is_manifest_filename("/m/ignored.txt"));
    assert!(has_json_extension("/m/cap_good.json"));
    assert!(!has_json_extension("/m/.json"));
}

#[test]
fn load_manifest_rejects_filename_mismatch() {
    let err = check_manifest_filename("/tmp/manifests/cap_wrong.json", sample_manifest("cap_right")).unwrap_err();
    assert!(matches!(err, ManifestLoadError::FilenameMismatch { .. }));
    if let ManifestLoadError::FilenameMismatch { expected, found } = err {
        assert_eq!(expected, "cap_right");
        assert_eq!(found, "cap_wrong");
    }
    let ok = check_manifest_filename("/tmp/manifests/cap_right.json", sample_manifest("cap_right")).unwrap();
    assert_eq!(ok.capsule_id.as_str(), "cap_right");
    assert!(matches!(
        check_manifest_filename("/", sample_manifest("cap_right")),
        Err(ManifestLoadError::BadFilename)
    ));
}

#[test]
fn register_loaded_skips_failures() {
    let mut reg = Registry::new();
    let loaded = vec![
        Ok(sample_manifest("cap_good")),
        Err(ManifestLoadError::Parse(serde_json::from_str::<u8>("{ not json").unwrap_err())),
        Ok(sample_manifest("cap_also")),
    ];
    assert_eq!(register_loaded(&mut reg, loaded), 2);
    assert_eq!(reg.len(), 2);
}

#[test]
fn removal_and_upsert_follow_the_file() {
    let mut reg = Registry::new();
    assert!(matches!(handle_upsert(Ok(sample_manifest("cap_w1")), &mut reg), UpsertOutcome::Registered));
    assert_eq!(reg.len(), 1);
    assert!(matches!(handle_upsert(Err(ManifestLoadError::PartialFile), &mut reg), UpsertOutcome::Partial));
    assert!(matches!(
        handle_upsert(Err(ManifestLoadError::BadFilename), &mut reg),
        UpsertOutcome::Failed(_)
    ));
    assert!(handle_removal("/m/notes.json", &mut reg).is_none());
    assert_eq!(reg.len(), 1);
    assert!(handle_removal("/m/cap_w1.json", &mut reg).is_some());
    assert!(reg.is_empty());
}

#[test]
fn manifest_path_names_its_capsule() {
    for raw in ["cap_abc", "cap_0", "cap_8f3a2b"] {
        let id = CapsuleId::new(raw).unwrap();
        for dir in ["/v/.capsule", "/v/.capsule/", "rel", ""] {
            let back = capsule_id_from_path(&manifest_path(dir, &id)).unwrap();
            assert_eq!(back.as_str(), raw);
        }
    }
}

#[test]
fn registry_length_follows_insert_and_remove() {
    let mut reg = Registry::new();
    reg.insert(sample_manifest("cap_a1"));
    reg.insert(sample_manifest("cap_b2"));
    assert_eq!(reg.len(), 2);
    reg.insert(sample_manifest("cap_a1"));
    assert_eq!(reg.len(), 2);
    assert!(reg.remove(&CapsuleId::new("cap_zz").unwrap()).is_none());
    assert_eq!(reg.len(), 2);
    assert!(reg.remove(&CapsuleId::new("cap_b2").unwrap()).is_some());
    assert_eq!(reg.len(), 1);
}

#[test]
fn settled_file_decides_the_entry() {
    let mut fresh = Registry::new();
    let mut stale = Registry::new();
    let mut old = sample_manifest("cap_w2");
    old.schema = "capsule://old".into();
    stale.insert(old);
    for reg in [&mut fresh, &mut stale] {
        handle_upsert(Ok(sample_manifest("cap_w2")), reg);
        assert_eq!(reg.get(&CapsuleId::new("cap_w2").unwrap()).unwrap().schema, "capsule://test");
        handle_removal("/m/cap_w2.json", reg);
        assert!(reg.get(&CapsuleId::new("cap_w2").unwrap()).is_none());
    }
}
