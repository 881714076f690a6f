use c2pa_prov::assertion::{
    Action, ActionKind, Assertion, CreativeWorkClaim, CustomData, Parameter, Person,
    find_parameter,
};
use c2pa_prov::chain::link_edit;
use c2pa_prov::error::{EngineError, ErrorClass, SigningError, SigningFailure, ValidationStatus};
use c2pa_prov::ingredient::Ingredient;
use c2pa_prov::manifest::{build_created, build_edited, ManifestBuilder};
use c2pa_prov::metadata::{ModelData, PromptData, StableDiffusionVersion};
use c2pa_prov::clock::Timestamp;
use c2pa_prov::resolver::{load, resolve_parent, LoadOutcome};
use c2pa_prov::store::ManifestStore;

#[test]
fn kinds_and_labels_agree() {
    let kinds = [
        (ActionKind::Created, "c2pa.created"),
        (ActionKind::Opened, "c2pa.opened"),
        (ActionKind::Edited, "c2pa.edited"),
        (ActionKind::Cropped, "c2pa.cropped"),
        (ActionKind::Filtered, "c2pa.filtered"),
        (ActionKind::ColorAdjusted, "c2pa.color_adjustments"),
        (ActionKind::Custom("org.example.blur".to_string()), "org.example.blur"),
    ];
    for (kind, label) in kinds.iter() {
        assert_eq!(kind.label(), *label);
        assert_eq!(&ActionKind::from_label(label), kind);
        assert!(kind.same_as(kind));
    }
    assert!(!ActionKind::Created.same_as(&ActionKind::Opened));
    assert!(!ActionKind::Custom("a".to_string()).same_as(&ActionKind::Custom("b".to_string())));
    assert!(!ActionKind::Custom("c2pa.created".to_string()).same_as(&ActionKind::Created));
}

#[test]
fn action_builders_set_their_own_field() {
    let a = Action::new(ActionKind::Edited, "2024-01-01T00:00:00+00:00");
    assert_eq!(a.when, "2024-01-01T00:00:00+00:00");
    assert_eq!(a.source_type, None);
    assert_eq!(a.software_agent, None);
    assert_eq!(a.reason, None);
    assert!(a.parameters.is_empty());
    let a = a
        .set_source_type("urn:source")
        .set_software_agent("agent")
        .set_reason("because")
        .set_when("2025-01-01T00:00:00+00:00");
    assert_eq!(a.kind, ActionKind::Edited);
    assert_eq!(a.source_type.as_deref(), Some("urn:source"));
    assert_eq!(a.software_agent.as_deref(), Some("agent"));
    assert_eq!(a.reason.as_deref(), Some("because"));
    assert_eq!(a.when, "2025-01-01T00:00:00+00:00");
}

#[test]
fn empty_identifier_is_an_invalid_parameter() {
    let a = Action::new(ActionKind::Opened, "t");
    assert_eq!(a.set_parameter("identifier", ""), Err(EngineError::InvalidParameter));
    let a = Action::new(ActionKind::Opened, "t");
    let a = a.set_parameter("note", "").unwrap();
    assert_eq!(a.parameter("note").as_deref(), Some(""));
    let a = a.set_parameter("identifier", "xmp:iid:1").unwrap();
    assert_eq!(a.parameter("identifier").as_deref(), Some("xmp:iid:1"));
    assert_eq!(a.parameter("missing"), None);
}

#[test]
fn later_parameter_overrides_earlier() {
    let a = Action::new(ActionKind::Edited, "t")
        .set_parameter("k", "1")
        .unwrap()
        .set_parameter("j", "2")
        .unwrap()
        .set_parameter("k", "3")
        .unwrap();
    assert_eq!(a.parameter("k").as_deref(), Some("3"));
    assert_eq!(a.parameter("j").as_deref(), Some("2"));
    assert_eq!(a.parameters.len(), 3);
    let list = vec![Parameter::new("x", "1"), Parameter::new("x", "2")];
    assert_eq!(find_parameter(&list, "x").as_deref(), Some("2"));
    assert_eq!(find_parameter(&Vec::new(), "x"), None);
}

#[test]
fn custom_data_needs_a_label() {
    assert_eq!(CustomData::new(""), Err(EngineError::InvalidParameter));
    let d = CustomData::new("org.example.data").unwrap().add_field("a", "1").add_field("b", "2");
    assert_eq!(d.label, "org.example.data");
    assert_eq!(d.fields, vec![Parameter::new("a", "1"), Parameter::new("b", "2")]);
    assert_eq!(d.field("b").as_deref(), Some("2"));
    assert_eq!(d.field("c"), None);
}

#[test]
fn assertion_labels() {
    assert_eq!(Assertion::Actions(Vec::new()).label(), "c2pa.actions");
    assert_eq!(
        Assertion::CreativeWork(CreativeWorkClaim::new()).label(),
        "stds.schema-org.CreativeWork"
    );
    let d = CustomData::new("org.example.data").unwrap();
    assert_eq!(Assertion::CustomData(d).label(), "org.example.data");
    let claim = CreativeWorkClaim::new()
        .add_author(Person::new("a", "1"))
        .add_author(Person::new("b", "2"));
    assert_eq!(claim.authors, vec![Person::new("a", "1"), Person::new("b", "2")]);
}

#[test]
fn linker_orders_opened_before_the_edit() {
    let parent = Ingredient::of_parent("xmp:iid:7", "in.jpg");
    let actions = link_edit(&parent, ActionKind::Filtered, "Model", "t0").unwrap();
    assert_eq!(actions.len(), 2);
    assert_eq!(actions[0].kind, ActionKind::Opened);
    assert_eq!(actions[1].kind, ActionKind::Filtered);
    assert_eq!(actions[0].parameters, vec![Parameter::new("identifier", "xmp:iid:7")]);
    assert_eq!(actions[1].parameters, vec![Parameter::new("identifier", "xmp:iid:7")]);
    assert_eq!(actions[0].reason.as_deref(), Some("editing"));
    assert_eq!(actions[1].reason.as_deref(), Some("editing"));
}

#[test]
fn linker_needs_a_parent() {
    let fresh = Ingredient::first_generation("in.jpg");
    assert!(!fresh.has_parent());
    assert_eq!(
        link_edit(&fresh, ActionKind::Edited, "Model", "t0"),
        Err(EngineError::NoParentToLink)
    );
    let unnamed = Ingredient::of_parent("", "in.jpg");
    assert!(unnamed.has_parent());
    assert_eq!(
        link_edit(&unnamed, ActionKind::Edited, "Model", "t0"),
        Err(EngineError::InvalidParameter)
    );
}

fn model() -> ModelData {
    ModelData::at("M".to_string(), StableDiffusionVersion::Turbo, Timestamp::new(12, 0)).unwrap()
}

fn prompt() -> PromptData {
    PromptData::new("p".to_string(), "n".to_string(), "a".to_string())
}

#[test]
fn builder_refuses_a_manifest_without_actions() {
    let b = ManifestBuilder::new("gen/1");
    assert_eq!(b.build(), Err(EngineError::EmptyManifest));
    let mut b = ManifestBuilder::new("gen/1");
    b.add_assertion(Assertion::Actions(Vec::new())).unwrap();
    b.add_assertion(Assertion::CustomData(prompt().to_custom_data())).unwrap();
    assert_eq!(b.build(), Err(EngineError::EmptyManifest));
}

#[test]
fn builder_refuses_a_label_twice() {
    let mut b = ManifestBuilder::new("gen/1");
    assert_eq!(b.add_assertion(Assertion::CustomData(model().to_custom_data())), Ok(()));
    assert_eq!(
        b.add_assertion(Assertion::CustomData(model().to_custom_data())),
        Err(EngineError::DuplicateLabel)
    );
    let clash = CustomData::new("c2pa.actions").unwrap();
    assert_eq!(b.add_assertion(Assertion::Actions(vec![Action::new(ActionKind::Created, "t")])), Ok(()));
    assert_eq!(
        b.add_assertion(Assertion::CustomData(clash)),
        Err(EngineError::DuplicateLabel)
    );
    let m = b.build().unwrap();
    assert_eq!(m.assertions().len(), 2);
}

#[test]
fn builder_assembles_what_it_was_given() {
    let mut b = ManifestBuilder::new("gen/1");
    b.set_title("T");
    b.set_format("image/png");
    b.set_parent(Ingredient::of_parent("id-1", "in.png"));
    let opened = Action::new(ActionKind::Opened, "t").set_parameter("identifier", "id-1").unwrap();
    b.add_assertion(Assertion::Actions(vec![opened.clone()])).unwrap();
    let m = b.build().unwrap();
    assert_eq!(m.claim_generator(), "gen/1");
    assert_eq!(m.title(), "T");
    assert_eq!(m.format(), "image/png");
    assert_eq!(m.actions(), vec![opened]);
    assert_eq!(m.parent_id().as_deref(), Some("id-1"));
    let plain = ManifestBuilder::new("gen/1");
    let mut plain = plain;
    plain.add_assertion(Assertion::Actions(vec![Action::new(ActionKind::Created, "t")])).unwrap();
    let m = plain.build().unwrap();
    assert_eq!(m.title(), "");
    assert_eq!(m.format(), "application/octet-stream");
    assert_eq!(m.parent_id(), None);
}

#[test]
fn builder_checks_that_actions_refer_to_the_parent() {
    let refers = Action::new(ActionKind::Opened, "t").set_parameter("identifier", "id-1").unwrap();
    let mut b = ManifestBuilder::new("gen/1");
    b.add_assertion(Assertion::Actions(vec![refers.clone()])).unwrap();
    assert_eq!(b.build(), Err(EngineError::NoParentToLink));
    let mut b = ManifestBuilder::new("gen/1");
    b.set_parent(Ingredient::first_generation("in.png"));
    b.add_assertion(Assertion::Actions(vec![refers.clone()])).unwrap();
    assert_eq!(b.build(), Err(EngineError::NoParentToLink));
    let mut b = ManifestBuilder::new("gen/1");
    b.set_parent(Ingredient::of_parent("id-2", "in.png"));
    b.add_assertion(Assertion::Actions(vec![refers])).unwrap();
    assert_eq!(b.build(), Err(EngineError::InvalidParameter));
}

#[test]
fn built_manifests_have_their_assertions_in_order() {
    let m = build_created(&model(), &prompt(), "alice", "t0");
    let labels: Vec<String> = m.assertions().iter().map(|a| a.label()).collect();
    assert_eq!(
        labels,
        vec![
            "c2pa.actions",
            "stds.schema-org.CreativeWork",
            "edu.upc.fib.C2PA_Prov.model_data",
            "edu.upc.fib.C2PA_Prov.prompt_data",
        ]
    );
    let parent = Ingredient::of_parent("id-1", "in.jpg");
    let m = build_edited(&parent, ActionKind::Edited, &model(), &prompt(), "t1").unwrap();
    let labels: Vec<String> = m.assertions().iter().map(|a| a.label()).collect();
    assert_eq!(
        labels,
        vec![
            "c2pa.actions",
            "edu.upc.fib.C2PA_Prov.model_data",
            "edu.upc.fib.C2PA_Prov.prompt_data",
        ]
    );
    assert_eq!(m.parent(), &Some(parent));
    assert_eq!(
        build_edited(&Ingredient::first_generation("x"), ActionKind::Edited, &model(), &prompt(), "t"),
        Err(EngineError::NoParentToLink)
    );
}

#[test]
fn resolver_points_at_the_active_manifest() {
    assert_eq!(
        resolve_parent("a.jpg", &LoadOutcome::Unreadable),
        Err(EngineError::SourceUnreadable)
    );
    assert_eq!(
        resolve_parent("a.jpg", &LoadOutcome::Absent),
        Ok(Ingredient::first_generation("a.jpg"))
    );
    assert_eq!(
        resolve_parent("a.jpg", &LoadOutcome::Present(ManifestStore::new())),
        Ok(Ingredient::first_generation("a.jpg"))
    );
    let mut store = ManifestStore::new();
    store.embed("l1", "i1", build_created(&model(), &prompt(), "alice", "t0")).unwrap();
    store.embed("l2", "i2", build_created(&model(), &prompt(), "alice", "t1")).unwrap();
    assert_eq!(
        resolve_parent("a.jpg", &LoadOutcome::Present(store.clone())),
        Ok(Ingredient::of_parent("i2", "a.jpg"))
    );
    assert_eq!(load(LoadOutcome::Present(store.clone())), Ok(store));
    assert_eq!(load(LoadOutcome::Absent), Err(EngineError::NoManifestPresent));
    assert_eq!(load(LoadOutcome::Unreadable), Err(EngineError::SourceUnreadable));
}

#[test]
fn every_failure_has_its_class() {
    let cases = vec![
        (EngineError::InvalidParameter, ErrorClass::Input),
        (EngineError::InvalidFilename, ErrorClass::Input),
        (EngineError::EmptyField, ErrorClass::Input),
        (EngineError::UnsupportedModel, ErrorClass::Input),
        (EngineError::SourceUnreadable, ErrorClass::Input),
        (EngineError::NoParentToLink, ErrorClass::Chain),
        (EngineError::EmptyManifest, ErrorClass::Chain),
        (EngineError::DuplicateLabel, ErrorClass::Chain),
        (
            EngineError::Untrusted(vec![ValidationStatus::new("c", "l")]),
            ErrorClass::Trust,
        ),
        (
            EngineError::Collaborator(SigningError::new(SigningFailure::KeyUnavailable, "no key")),
            ErrorClass::Collaborator,
        ),
        (EngineError::NoManifestPresent, ErrorClass::NoProvenance),
    ];
    for (error, class) in cases {
        assert_eq!(error.class(), class);
        assert_eq!(error.is_fatal(), class != ErrorClass::NoProvenance);
    }
    let a = ValidationStatus::new("c", "l");
    assert!(a.same_as(&ValidationStatus::new("c", "l")));
    assert!(!a.same_as(&ValidationStatus::new("c", "m")));
    assert!(!a.same_as(&ValidationStatus::new("d", "l")));
}
