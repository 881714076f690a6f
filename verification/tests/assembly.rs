use c2pa_prov::assembly::assemble;
use c2pa_prov::assertion::ActionKind;
use c2pa_prov::clock::Timestamp;
use c2pa_prov::engine::{read_manifest, Report};
use c2pa_prov::error::{EngineError, ValidationStatus};
use c2pa_prov::ingredient::Ingredient;
use c2pa_prov::manifest::{build_created, build_edited, Manifest};
use c2pa_prov::metadata::{ModelData, PromptData, StableDiffusionVersion};
use c2pa_prov::resolver::LoadOutcome;
use c2pa_prov::store::{ManifestStore, StoreEntry};

fn model() -> ModelData {
    ModelData::at("M".to_string(), StableDiffusionVersion::Turbo, Timestamp::new(12, 0)).unwrap()
}

fn prompt() -> PromptData {
    PromptData::new("p".to_string(), "n".to_string(), "a".to_string())
}

fn root() -> Manifest {
    build_created(&model(), &prompt(), "alice", "t0")
}

fn child(parent_id: &str) -> Manifest {
    let parent = Ingredient::of_parent(parent_id, "in.jpg");
    build_edited(&parent, ActionKind::Edited, &model(), &prompt(), "t1").unwrap()
}

fn entry(label: &str, id: &str, manifest: Manifest) -> StoreEntry {
    StoreEntry::new(label, id, manifest, Vec::new())
}

fn labels(store: &ManifestStore) -> Vec<String> {
    store.enumerate().into_iter().map(|(label, _)| label).collect()
}

#[test]
fn parts_are_put_in_embedding_order() {
    let parts = vec![
        entry("c", "id-c", child("id-b")),
        entry("a", "id-a", root()),
        entry("d", "id-d", child("id-c")),
        entry("b", "id-b", child("id-a")),
    ];
    let store = assemble(&parts, "d").unwrap();
    assert_eq!(labels(&store), vec!["a", "b", "c", "d"]);
    assert_eq!(store.active_entry().unwrap().label(), "d");
    for k in 1..store.len() {
        let predecessor = store.get(k - 1).unwrap().instance_id().to_string();
        assert_eq!(store.get(k).unwrap().manifest().parent_id(), Some(predecessor));
    }
}

#[test]
fn parts_outside_the_lineage_come_first() {
    let parts = vec![
        entry("d", "id-d", child("id-a")),
        entry("x", "id-x", root()),
        entry("a", "id-a", root()),
        entry("y", "id-y", child("id-missing")),
    ];
    let store = assemble(&parts, "d").unwrap();
    assert_eq!(labels(&store), vec!["x", "y", "a", "d"]);
    let store = assemble(&parts, "a").unwrap();
    assert_eq!(labels(&store), vec!["d", "x", "y", "a"]);
    let store = assemble(&parts, "y").unwrap();
    assert_eq!(labels(&store), vec!["d", "x", "a", "y"]);
}

#[test]
fn assembling_needs_the_active_label() {
    let parts = vec![entry("a", "id-a", root())];
    assert_eq!(assemble(&parts, "b"), Err(EngineError::NoManifestPresent));
    assert_eq!(assemble(&Vec::new(), "a"), Err(EngineError::NoManifestPresent));
    assert_eq!(labels(&assemble(&parts, "a").unwrap()), vec!["a"]);
}

#[test]
fn assembling_refuses_what_stands_twice() {
    let parts = vec![entry("a", "id-a", root()), entry("a", "id-b", child("id-a"))];
    assert_eq!(assemble(&parts, "a"), Err(EngineError::DuplicateLabel));
    let parts = vec![entry("a", "id-a", root()), entry("b", "id-a", root())];
    assert_eq!(assemble(&parts, "b"), Err(EngineError::DuplicateLabel));
}

#[test]
fn a_ring_of_parents_ends_the_walk() {
    let parts = vec![
        entry("a", "id-a", child("id-b")),
        entry("b", "id-b", child("id-a")),
        entry("c", "id-c", root()),
    ];
    assert_eq!(labels(&assemble(&parts, "a").unwrap()), vec!["c", "b", "a"]);
    assert_eq!(labels(&assemble(&parts, "b").unwrap()), vec!["c", "a", "b"]);
    let parts = vec![entry("a", "id-a", child("id-a"))];
    assert_eq!(labels(&assemble(&parts, "a").unwrap()), vec!["a"]);
}

#[test]
fn assembling_keeps_every_part() {
    let parts = vec![
        entry("c", "id-c", child("id-b")),
        entry("a", "id-a", root()),
        entry("x", "id-x", child("id-a")),
        entry("b", "id-b", child("id-a")),
    ];
    for active in ["a", "b", "c", "x"] {
        let store = assemble(&parts, active).unwrap();
        assert_eq!(store.len(), parts.len());
        assert_eq!(store.active_entry().unwrap().label(), active);
        for part in &parts {
            let place = store.position_of(part.instance_id()).unwrap();
            assert_eq!(store.get(place), Some(part));
        }
    }
}

#[test]
fn a_trusted_asset_is_reported() {
    let parts = vec![entry("b", "id-b", child("id-a")), entry("a", "id-a", root())];
    let store = assemble(&parts, "b").unwrap();
    let report = read_manifest(LoadOutcome::Present(store)).unwrap();
    assert_eq!(
        report,
        Report {
            active_label: "b".to_string(),
            active: child("id-a"),
            manifests: vec![("a".to_string(), root()), ("b".to_string(), child("id-a"))],
        }
    );
}

#[test]
fn an_untrusted_asset_is_not_reported() {
    let found = vec![ValidationStatus::new("claimSignature.mismatch", "")];
    let parts = vec![
        entry("b", "id-b", child("id-a")),
        StoreEntry::new("a", "id-a", root(), found.clone()),
    ];
    let store = assemble(&parts, "b").unwrap();
    assert_eq!(
        read_manifest(LoadOutcome::Present(store)),
        Err(EngineError::Untrusted(found))
    );
    assert_eq!(read_manifest(LoadOutcome::Absent), Err(EngineError::NoManifestPresent));
    assert_eq!(read_manifest(LoadOutcome::Unreadable), Err(EngineError::SourceUnreadable));
    assert_eq!(
        read_manifest(LoadOutcome::Present(ManifestStore::new())),
        Err(EngineError::NoManifestPresent)
    );
}

#[test]
fn entries_are_appended_by_copy() {
    let mut store = ManifestStore::new();
    let e = entry("a", "id-a", root());
    assert_eq!(store.append_entry(&e), Ok(()));
    assert_eq!(store.append_entry(&e), Err(EngineError::DuplicateLabel));
    assert_eq!(store.get(0), Some(&e));
    assert_eq!(store.len(), 1);
}
