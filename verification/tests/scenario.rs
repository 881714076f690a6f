use c2pa_prov::assertion::{ActionKind, Assertion};
use c2pa_prov::clock::Timestamp;
use c2pa_prov::engine::{active, create, edit, read};
use c2pa_prov::error::{EngineError, ValidationStatus};
use c2pa_prov::metadata::{ModelData, PromptData, StableDiffusionVersion};
use c2pa_prov::resolver::LoadOutcome;
use c2pa_prov::store::ManifestStore;

fn prompt() -> PromptData {
    PromptData::new("p".to_string(), String::new(), "alice".to_string())
}

fn model() -> ModelData {
    ModelData::at(
        "Stable Diffusion".to_string(),
        StableDiffusionVersion::V2_1,
        Timestamp::new(1_700_000_000, 0),
    )
    .unwrap()
}

fn created_store() -> ManifestStore {
    let request = create(
        "a.jpg",
        Some("a_c2pa.jpg"),
        &prompt(),
        &model(),
        "alice",
        Timestamp::new(1_700_000_000, 0),
    )
    .unwrap();
    let mut store = ManifestStore::new();
    store.embed("urn:uuid:0001", "xmp:iid:0001", request.manifest).unwrap();
    store
}

fn edit_once(store: &ManifestStore, kind: ActionKind, n: u32) -> ManifestStore {
    let state = LoadOutcome::Present(store.clone());
    let request = edit(
        "a_c2pa.jpg",
        &state,
        Some("a_c2pa.jpg"),
        kind,
        &prompt(),
        &model(),
        Timestamp::new(1_700_000_100 + n as i64, 0),
    )
    .unwrap();
    let mut next = store.clone();
    next.embed(
        &format!("urn:uuid:{:04}", n + 1),
        &format!("xmp:iid:{:04}", n + 1),
        request.manifest,
    )
    .unwrap();
    next
}

#[test]
fn create_then_read_gives_one_created_manifest() {
    let store = created_store();
    let (store, statuses) = read(LoadOutcome::Present(store)).unwrap();
    assert!(statuses.is_empty());
    let all = store.enumerate();
    assert_eq!(all.len(), 1);
    let (label, manifest) = &all[0];
    assert_eq!(label, "urn:uuid:0001");
    assert_eq!(manifest.title(), "AI Generated Image");
    assert_eq!(manifest.format(), "image/jpeg");
    assert_eq!(manifest.claim_generator(), "C2PA-PROV-GenAI/0.1");
    let actions = manifest.actions();
    assert_eq!(actions.len(), 1);
    assert_eq!(actions[0].kind, ActionKind::Created);
    assert_eq!(actions[0].when, "2023-11-14T22:13:20+00:00");
    assert_eq!(
        actions[0].source_type.as_deref(),
        Some("https://cv.iptc.org/newscodes/digitalsourcetype/trainedAlgorithmicMedia")
    );
    assert_eq!(actions[0].software_agent.as_deref(), Some("Stable Diffusion"));
    assert!(actions[0].parameters.is_empty());
    assert!(manifest.parent().is_none());
    assert_eq!(manifest.assertions().len(), 4);
}

#[test]
fn create_request_carries_its_paths() {
    let request = create("a.jpg", None, &prompt(), &model(), "alice", Timestamp::new(0, 0))
        .unwrap();
    assert_eq!(request.source, "a.jpg");
    assert_eq!(request.dest, "a_c2pa.jpg");
}

#[test]
fn created_manifest_names_author_and_metadata() {
    let store = created_store();
    let manifest = store.active_manifest().unwrap();
    match manifest.find_assertion("stds.schema-org.CreativeWork") {
        Some(Assertion::CreativeWork(claim)) => {
            assert_eq!(claim.authors.len(), 1);
            assert_eq!(claim.authors[0].name, "alice");
            assert_eq!(claim.authors[0].identifier, "C2PA_GENAI_USER");
        }
        other => panic!("no authorship claim: {:?}", other),
    }
    match manifest.find_assertion("edu.upc.fib.C2PA_Prov.model_data") {
        Some(Assertion::CustomData(data)) => {
            assert_eq!(data.field("model").as_deref(), Some("Stable Diffusion"));
            assert_eq!(data.field("version").as_deref(), Some("V2_1"));
            assert_eq!(data.field("system_time").as_deref(), Some("1700000000"));
        }
        other => panic!("no model record: {:?}", other),
    }
    match manifest.find_assertion("edu.upc.fib.C2PA_Prov.prompt_data") {
        Some(Assertion::CustomData(data)) => {
            assert_eq!(data.field("prompt").as_deref(), Some("p"));
            assert_eq!(data.field("negative_prompt").as_deref(), Some(""));
            assert_eq!(data.field("author").as_deref(), Some("alice"));
        }
        other => panic!("no prompt record: {:?}", other),
    }
    assert!(manifest.find_assertion("c2pa.thumbnail").is_none());
}

#[test]
fn edit_after_create_gives_opened_then_cropped() {
    let store = edit_once(&created_store(), ActionKind::Cropped, 1);
    let (store, statuses) = read(LoadOutcome::Present(store)).unwrap();
    assert!(statuses.is_empty());
    let all = store.enumerate();
    assert_eq!(all.len(), 2);
    assert_eq!(all[0].1.actions()[0].kind, ActionKind::Created);
    let second = &all[1].1;
    let actions = second.actions();
    assert_eq!(actions.len(), 2);
    assert_eq!(actions[0].kind, ActionKind::Opened);
    assert_eq!(actions[1].kind, ActionKind::Cropped);
    for action in &actions {
        assert_eq!(action.parameter("identifier").as_deref(), Some("xmp:iid:0001"));
        assert_eq!(action.reason.as_deref(), Some("editing"));
        assert_eq!(action.software_agent.as_deref(), Some("Stable Diffusion"));
        assert_eq!(action.when, "2023-11-14T22:15:01+00:00");
    }
    assert_eq!(actions[0].source_type, None);
    assert_eq!(
        actions[1].source_type.as_deref(),
        Some("http://cv.iptc.org/newscodes/digitalsourcetype/compositeWithTrainedAlgorithmicMedia")
    );
    assert_eq!(second.parent_id().as_deref(), Some("xmp:iid:0001"));
    assert_eq!(second.parent().as_ref().unwrap().source_path, "a_c2pa.jpg");
    assert_eq!(second.assertions().len(), 3);
    let now = active(LoadOutcome::Present(store)).unwrap();
    assert_eq!(&now, second);
}

#[test]
fn edits_form_a_lineage_in_order() {
    let kinds = [ActionKind::Cropped, ActionKind::Filtered, ActionKind::ColorAdjusted];
    let mut store = created_store();
    for (n, kind) in kinds.iter().enumerate() {
        store = edit_once(&store, kind.clone(), n as u32 + 1);
    }
    let all = store.enumerate();
    assert_eq!(all.len(), 4);
    assert_eq!(all[0].1.parent_id(), None);
    assert_eq!(all[0].1.actions()[0].kind, ActionKind::Created);
    for k in 1..all.len() {
        let predecessor = store.get(k - 1).unwrap().instance_id().to_string();
        assert_eq!(all[k].1.parent_id(), Some(predecessor.clone()));
        assert_eq!(store.position_of(&predecessor), Some(k - 1));
        let actions = all[k].1.actions();
        assert_eq!(actions[0].kind, ActionKind::Opened);
        assert_eq!(actions[1].kind, kinds[k - 1]);
        assert_eq!(all[k].0, format!("urn:uuid:{:04}", k + 1));
    }
    assert_eq!(store.len(), 4);
    assert_eq!(store.active_entry().unwrap().label(), "urn:uuid:0004");
}

#[test]
fn embedding_reads_back_what_was_built() {
    let request = create(
        "a.jpg",
        Some("b.jpg"),
        &prompt(),
        &model(),
        "alice",
        Timestamp::new(5, 0),
    )
    .unwrap();
    let built = request.manifest.clone();
    let mut store = ManifestStore::new();
    store.embed("l", "i", request.manifest).unwrap();
    let (store, _) = read(LoadOutcome::Present(store)).unwrap();
    let loaded = store.active_manifest().unwrap();
    assert_eq!(loaded, &built);
    assert_eq!(loaded.assertions(), built.assertions());
    for (a, b) in loaded.assertions().iter().zip(built.assertions().iter()) {
        assert_eq!(a.label(), b.label());
    }
}

#[test]
fn edit_without_manifest_fails_with_no_parent() {
    let r = edit(
        "a.jpg",
        &LoadOutcome::Absent,
        Some("b.jpg"),
        ActionKind::Edited,
        &prompt(),
        &model(),
        Timestamp::new(0, 0),
    );
    assert_eq!(r, Err(EngineError::NoParentToLink));
    let r = edit(
        "a.jpg",
        &LoadOutcome::Present(ManifestStore::new()),
        None,
        ActionKind::Edited,
        &prompt(),
        &model(),
        Timestamp::new(0, 0),
    );
    assert_eq!(r, Err(EngineError::NoParentToLink));
}

#[test]
fn edit_of_unreadable_source_fails() {
    let r = edit(
        "a.jpg",
        &LoadOutcome::Unreadable,
        None,
        ActionKind::Edited,
        &prompt(),
        &model(),
        Timestamp::new(0, 0),
    );
    assert_eq!(r, Err(EngineError::SourceUnreadable));
}

#[test]
fn any_finding_makes_the_store_untrusted() {
    let created = created_store();
    let first = created.active_manifest().unwrap().clone();
    let mut store = ManifestStore::new();
    let found = vec![
        ValidationStatus::new("assertion.dataHash.mismatch", "c2pa.hash.data"),
        ValidationStatus::new("assertion.dataHash.mismatch", "c2pa.hash.data"),
    ];
    store.append("urn:uuid:0001", "xmp:iid:0001", first, found).unwrap();
    let store = edit_once(&store, ActionKind::Edited, 1);
    assert!(!store.is_trusted());
    let statuses = store.validate();
    assert_eq!(
        statuses,
        vec![ValidationStatus::new("assertion.dataHash.mismatch", "c2pa.hash.data")]
    );
    let (_, reported) = read(LoadOutcome::Present(store.clone())).unwrap();
    assert_eq!(reported, statuses);
    assert_eq!(active(LoadOutcome::Present(store)), Err(EngineError::Untrusted(statuses)));
}

#[test]
fn statuses_keep_first_occurrences_in_order() {
    let created = created_store();
    let m = created.active_manifest().unwrap().clone();
    let a = ValidationStatus::new("claimSignature.mismatch", "");
    let b = ValidationStatus::new("assertion.hashedURI.mismatch", "c2pa.actions");
    let mut store = ManifestStore::new();
    store.append("l1", "i1", m.clone(), vec![a.clone(), b.clone()]).unwrap();
    store.append("l2", "i2", m.clone(), vec![]).unwrap();
    store.append("l3", "i3", m, vec![b.clone(), a.clone(), b.clone()]).unwrap();
    assert_eq!(store.validate(), vec![a, b]);
}

#[test]
fn reading_an_asset_without_store() {
    assert_eq!(read(LoadOutcome::Absent), Err(EngineError::NoManifestPresent));
    assert_eq!(read(LoadOutcome::Unreadable), Err(EngineError::SourceUnreadable));
    assert_eq!(active(LoadOutcome::Absent), Err(EngineError::NoManifestPresent));
    assert_eq!(
        active(LoadOutcome::Present(ManifestStore::new())),
        Err(EngineError::NoManifestPresent)
    );
    assert!(!EngineError::NoManifestPresent.is_fatal());
    assert!(EngineError::SourceUnreadable.is_fatal());
}

#[test]
fn create_refuses_empty_required_fields() {
    let now = Timestamp::new(0, 0);
    assert_eq!(
        create("", Some("b.jpg"), &prompt(), &model(), "alice", now),
        Err(EngineError::EmptyField)
    );
    assert_eq!(
        create("a.jpg", Some("b.jpg"), &prompt(), &model(), "", now),
        Err(EngineError::EmptyField)
    );
    assert_eq!(
        create("a.jpg", Some(""), &prompt(), &model(), "alice", now),
        Err(EngineError::EmptyField)
    );
    let nameless = ModelData::at(String::new(), StableDiffusionVersion::Xl, now).unwrap();
    assert_eq!(
        create("a.jpg", Some("b.jpg"), &prompt(), &nameless, "alice", now),
        Err(EngineError::EmptyField)
    );
}

#[test]
fn create_refuses_a_source_without_extension() {
    let r = create("noextension", None, &prompt(), &model(), "alice", Timestamp::new(0, 0));
    assert_eq!(r, Err(EngineError::InvalidFilename));
}

#[test]
fn create_refuses_an_instant_out_of_range() {
    let r = create(
        "a.jpg",
        Some("b.jpg"),
        &prompt(),
        &model(),
        "alice",
        Timestamp::new(i64::MAX, 0),
    );
    assert_eq!(r, Err(EngineError::InvalidParameter));
}

#[test]
fn store_refuses_a_taken_label_or_identifier() {
    let mut store = created_store();
    let m = store.active_manifest().unwrap().clone();
    assert_eq!(
        store.embed("urn:uuid:0001", "xmp:iid:0009", m.clone()),
        Err(EngineError::DuplicateLabel)
    );
    assert_eq!(
        store.embed("urn:uuid:0009", "xmp:iid:0001", m.clone()),
        Err(EngineError::DuplicateLabel)
    );
    assert_eq!(store.len(), 1);
    assert!(store.has_label("urn:uuid:0001"));
    assert!(!store.has_label("urn:uuid:0009"));
    assert_eq!(store.embed("urn:uuid:0009", "xmp:iid:0009", m), Ok(()));
    assert_eq!(store.len(), 2);
    assert!(store.get(2).is_none());
    assert_eq!(store.get(1).unwrap().label(), "urn:uuid:0009");
    assert!(store.get(1).unwrap().findings().is_empty());
    assert!(!store.is_empty());
    assert!(ManifestStore::new().is_empty());
    assert!(ManifestStore::new().active_manifest().is_none());
}
