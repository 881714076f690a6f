use c2pa_prov::clock::Timestamp;
use c2pa_prov::dispatch::{Command, DispatchEvent, Dispatcher, Phase};
use c2pa_prov::engine::{create, resolve_dest, EmbedRequest};
use c2pa_prov::error::{EngineError, SigningError, SigningFailure};
use c2pa_prov::metadata::{ModelData, PromptData, StableDiffusionVersion};
use c2pa_prov::naming::{derive_dest_path, name_from_parts};
use c2pa_prov::session::{author_or_host, effective_author, Invocation, Operation};
use c2pa_prov::text::{decimal_text, same_text};

#[test]
fn decimal_text_of_numbers() {
    assert_eq!(decimal_text(0), "0");
    assert_eq!(decimal_text(7), "7");
    assert_eq!(decimal_text(10), "10");
    assert_eq!(decimal_text(1234567890), "1234567890");
    assert_eq!(decimal_text(u64::MAX), "18446744073709551615");
    assert!(same_text("abc", "abc"));
    assert!(!same_text("abc", "abd"));
    assert!(!same_text("abc", "ab"));
}

#[test]
fn instants_in_rfc3339() {
    assert_eq!(Timestamp::new(0, 0).to_rfc3339().as_deref(), Some("1970-01-01T00:00:00+00:00"));
    assert_eq!(
        Timestamp::new(1_700_000_000, 0).to_rfc3339().as_deref(),
        Some("2023-11-14T22:13:20+00:00")
    );
    assert_eq!(
        Timestamp::new(1_700_000_000, 500_000_000).to_rfc3339().as_deref(),
        Some("2023-11-14T22:13:20.500+00:00")
    );
    assert_eq!(
        Timestamp::new(-1, 1).to_rfc3339().as_deref(),
        Some("1969-12-31T23:59:59.000000001+00:00")
    );
    assert_eq!(Timestamp::new(i64::MAX, 0).to_rfc3339(), None);
    assert_eq!(Timestamp::new(0, 2_000_000_000).to_rfc3339(), None);
}

#[test]
fn the_clock_gives_an_instant_that_can_be_written() {
    let now = Timestamp::now();
    assert!(now.secs > 1_600_000_000);
    let text = now.to_rfc3339().unwrap();
    assert!(text.ends_with("+00:00"));
    assert_eq!(&text[4..5], "-");
}

#[test]
fn model_data_is_stamped_in_decimal() {
    let m = ModelData::at(
        "Stable Diffusion".to_string(),
        StableDiffusionVersion::V2_1,
        Timestamp::new(1_700_000_000, 5),
    )
    .unwrap();
    assert_eq!(m.model, "Stable Diffusion");
    assert_eq!(m.version, StableDiffusionVersion::V2_1);
    assert_eq!(m.system_time, "1700000000");
    assert_eq!(
        ModelData::at("M".to_string(), StableDiffusionVersion::Xl, Timestamp::new(-1, 0)),
        None
    );
    let zero = ModelData::at("M".to_string(), StableDiffusionVersion::Xl, Timestamp::new(0, 0));
    assert_eq!(zero.unwrap().system_time, "0");
}

#[test]
fn model_data_new_reads_the_clock() {
    let m = ModelData::new("Stable Diffusion".to_string(), StableDiffusionVersion::V1_5).unwrap();
    assert_eq!(m.model, "Stable Diffusion");
    assert_eq!(m.version, StableDiffusionVersion::V1_5);
    assert!(!m.system_time.is_empty());
    assert!(m.system_time.chars().all(|c| c.is_ascii_digit()));
    assert!(m.system_time.parse::<u64>().unwrap() > 1_600_000_000);
}

#[test]
fn prompt_data_keeps_its_fields() {
    let p = PromptData::new("a city".to_string(), "fog".to_string(), "alice".to_string());
    assert_eq!(p.prompt, "a city");
    assert_eq!(p.negative_prompt, "fog");
    assert_eq!(p.author, "alice");
    let d = p.to_custom_data();
    assert_eq!(d.label, "edu.upc.fib.C2PA_Prov.prompt_data");
    assert_eq!(d.fields.len(), 3);
    assert_eq!(d.fields[0].key, "prompt");
    assert_eq!(d.fields[1].key, "negative_prompt");
    assert_eq!(d.fields[2].key, "author");
    assert_eq!(p.clone(), p);
}

#[test]
fn version_names() {
    assert_eq!(StableDiffusionVersion::V1_5.name(), "V1_5");
    assert_eq!(StableDiffusionVersion::V2_1.name(), "V2_1");
    assert_eq!(StableDiffusionVersion::Xl.name(), "Xl");
    assert_eq!(StableDiffusionVersion::Turbo.name(), "Turbo");
    assert_eq!(StableDiffusionVersion::Unversioned.name(), "None");
}

#[test]
fn destination_is_named_after_the_source() {
    assert_eq!(derive_dest_path("test_file.jpg").as_deref(), Ok("test_file_c2pa.jpg"));
    assert_eq!(derive_dest_path("name.ext").as_deref(), Ok("name_c2pa.ext"));
    assert_eq!(derive_dest_path("out/sd_final.jpg").as_deref(), Ok("out/sd_final_c2pa.jpg"));
    assert_eq!(derive_dest_path("archive.tar.gz").as_deref(), Ok("archive.tar_c2pa.gz"));
}

#[test]
fn source_without_extension_has_no_destination() {
    assert_eq!(derive_dest_path("noextension"), Err(EngineError::InvalidFilename));
    assert_eq!(derive_dest_path(""), Err(EngineError::InvalidFilename));
    assert_eq!(derive_dest_path(".jpg"), Err(EngineError::InvalidFilename));
    assert_eq!(derive_dest_path("name."), Err(EngineError::InvalidFilename));
    assert_eq!(derive_dest_path("name.123"), Err(EngineError::InvalidFilename));
}

#[test]
fn name_is_joined_from_its_parts() {
    assert_eq!(
        name_from_parts(Some(("dir/name".to_string(), "png".to_string()))).as_deref(),
        Ok("dir/name_c2pa.png")
    );
    assert_eq!(name_from_parts(None), Err(EngineError::InvalidFilename));
    assert_eq!(resolve_dest("a.jpg", Some("b.jpg")).as_deref(), Ok("b.jpg"));
    assert_eq!(resolve_dest("a.jpg", None).as_deref(), Ok("a_c2pa.jpg"));
    assert_eq!(resolve_dest("a.jpg", Some("")), Err(EngineError::EmptyField));
    assert_eq!(resolve_dest("a", None), Err(EngineError::InvalidFilename));
}

fn request() -> EmbedRequest {
    let model =
        ModelData::at("M".to_string(), StableDiffusionVersion::Turbo, Timestamp::new(1, 0)).unwrap();
    let prompt = PromptData::new("p".to_string(), String::new(), "a".to_string());
    create("in.jpg", Some("out.jpg"), &prompt, &model, "a", Timestamp::new(1, 0)).unwrap()
}

#[test]
fn dispatch_runs_its_full_course() {
    let mut d = Dispatcher::new(request());
    assert_eq!(d.phase(), Phase::Ready);
    assert!(d.outcome().is_none());
    assert_eq!(d.handle(DispatchEvent::StepDone), Command::Nothing);
    assert_eq!(d.handle(DispatchEvent::Start), Command::StageSource);
    assert_eq!(d.phase(), Phase::Staging);
    assert_eq!(d.handle(DispatchEvent::Start), Command::Nothing);
    assert_eq!(d.handle(DispatchEvent::StepDone), Command::Serialize);
    assert_eq!(d.handle(DispatchEvent::StepDone), Command::Sign);
    assert_eq!(d.handle(DispatchEvent::StepDone), Command::Embed);
    assert_eq!(d.handle(DispatchEvent::StepDone), Command::WriteDest);
    assert_eq!(d.phase(), Phase::Writing);
    assert!(d.outcome().is_none());
    assert_eq!(d.handle(DispatchEvent::StepDone), Command::Finish);
    assert_eq!(d.phase(), Phase::Done);
    let asset = d.outcome().unwrap().unwrap();
    assert_eq!(asset.path, "out.jpg");
    assert_eq!(asset.manifest, request().manifest);
    assert_eq!(d.request().source, "in.jpg");
    assert_eq!(d.handle(DispatchEvent::StepDone), Command::Nothing);
    let late = SigningError::new(SigningFailure::EmbedRejected, "late");
    assert_eq!(d.handle(DispatchEvent::StepFailed(late)), Command::Nothing);
    assert_eq!(d.phase(), Phase::Done);
}

#[test]
fn dispatch_stops_at_the_first_failure() {
    let mut d = Dispatcher::new(request());
    let early = SigningError::new(SigningFailure::CorruptSource, "early");
    assert_eq!(d.handle(DispatchEvent::StepFailed(early)), Command::Nothing);
    assert_eq!(d.handle(DispatchEvent::Start), Command::StageSource);
    assert_eq!(d.handle(DispatchEvent::StepDone), Command::Serialize);
    assert_eq!(d.handle(DispatchEvent::StepDone), Command::Sign);
    let failure = SigningError::new(SigningFailure::KeyUnavailable, "no key at ./certs/ps256.pem");
    assert_eq!(d.handle(DispatchEvent::StepFailed(failure.clone())), Command::Abort);
    assert_eq!(d.phase(), Phase::Failed);
    assert_eq!(d.outcome(), Some(Err(failure.clone())));
    assert_eq!(d.handle(DispatchEvent::StepDone), Command::Nothing);
    assert_eq!(d.handle(DispatchEvent::Start), Command::Nothing);
    let other = SigningError::new(SigningFailure::UnsupportedContainer, "other");
    assert_eq!(d.handle(DispatchEvent::StepFailed(other)), Command::Nothing);
    assert_eq!(d.phase(), Phase::Failed);
    assert_eq!(d.outcome(), Some(Err(failure.clone())));
    assert_eq!(d.conclude(), Some(Err(EngineError::Collaborator(failure))));
}

#[test]
fn dispatch_concludes_with_the_embedded_asset() {
    let mut d = Dispatcher::new(request());
    assert_eq!(d.conclude(), None);
    d.handle(DispatchEvent::Start);
    for _ in 0..4 {
        d.handle(DispatchEvent::StepDone);
        assert_eq!(d.conclude(), None);
    }
    assert_eq!(d.handle(DispatchEvent::StepDone), Command::Finish);
    let asset = d.conclude().unwrap().unwrap();
    assert_eq!(asset.path, "out.jpg");
    assert_eq!(asset.manifest, request().manifest);
}

#[test]
fn a_failure_keeps_the_detail_it_was_reported_with() {
    for failure in [
        SigningFailure::KeyUnavailable,
        SigningFailure::UnsupportedAlgorithm,
        SigningFailure::UnsupportedContainer,
        SigningFailure::CorruptSource,
        SigningFailure::EmbedRejected,
    ] {
        let mut d = Dispatcher::new(request());
        d.handle(DispatchEvent::Start);
        let reported = SigningError::new(failure, "as the collaborator said");
        assert_eq!(d.handle(DispatchEvent::StepFailed(reported.clone())), Command::Abort);
        assert_eq!(
            d.conclude(),
            Some(Err(EngineError::Collaborator(SigningError {
                failure,
                detail: "as the collaborator said".to_string()
            })))
        );
        assert_eq!(reported.clone(), reported);
    }
}

fn invocation() -> Invocation {
    Invocation {
        create: false,
        edit: false,
        read: None,
        add: None,
        edit_manifest: None,
        final_image: Some("sd_final.jpg".to_string()),
        img2img: None,
        model: "Stable Diffusion".to_string(),
    }
}

#[test]
fn plan_of_a_creation() {
    let mut inv = invocation();
    inv.create = true;
    assert_eq!(
        inv.plan(),
        Ok(vec![
            Operation::Generate,
            Operation::Create {
                source: "sd_final.jpg".to_string(),
                dest: "sd_final_c2pa.jpg".to_string()
            },
            Operation::Read { path: "sd_final_c2pa.jpg".to_string() },
        ])
    );
}

#[test]
fn plan_of_adding_then_reading() {
    let mut inv = invocation();
    inv.add = Some("photo.png".to_string());
    inv.read = Some("other.jpg".to_string());
    assert_eq!(
        inv.plan(),
        Ok(vec![
            Operation::Create {
                source: "photo.png".to_string(),
                dest: "photo_c2pa.png".to_string()
            },
            Operation::Read { path: "photo_c2pa.png".to_string() },
            Operation::Read { path: "other.jpg".to_string() },
        ])
    );
}

#[test]
fn plan_of_an_edit() {
    let mut inv = invocation();
    inv.edit = true;
    inv.img2img = Some("in.jpg".to_string());
    assert_eq!(
        inv.plan(),
        Ok(vec![
            Operation::Generate,
            Operation::Edit { source: "in.jpg".to_string(), dest: "sd_final.jpg".to_string() },
            Operation::Read { path: "sd_final.jpg".to_string() },
        ])
    );
    let mut inv = invocation();
    inv.edit_manifest = Some("signed.jpg".to_string());
    assert_eq!(
        inv.plan(),
        Ok(vec![
            Operation::Edit { source: "signed.jpg".to_string(), dest: "sd_final.jpg".to_string() },
            Operation::Read { path: "sd_final.jpg".to_string() },
        ])
    );
}

#[test]
fn plan_of_reading_and_of_nothing() {
    let mut inv = invocation();
    inv.read = Some("a.jpg".to_string());
    assert_eq!(inv.plan(), Ok(vec![Operation::Read { path: "a.jpg".to_string() }]));
    assert_eq!(invocation().plan(), Ok(vec![]));
}

#[test]
fn plan_refusals() {
    let mut inv = invocation();
    inv.create = true;
    inv.model = "Other".to_string();
    assert_eq!(inv.plan(), Err(EngineError::UnsupportedModel));
    let mut inv = invocation();
    inv.edit = true;
    inv.img2img = Some("in.jpg".to_string());
    inv.model = "Other".to_string();
    assert_eq!(inv.plan(), Err(EngineError::UnsupportedModel));
    let mut inv = invocation();
    inv.edit = true;
    assert_eq!(inv.plan(), Err(EngineError::EmptyField));
    let mut inv = invocation();
    inv.add = Some("noextension".to_string());
    assert_eq!(inv.plan(), Err(EngineError::InvalidFilename));
    let mut inv = invocation();
    inv.model = "Other".to_string();
    inv.read = Some("a.jpg".to_string());
    assert_eq!(inv.plan(), Ok(vec![Operation::Read { path: "a.jpg".to_string() }]));
}

#[test]
fn version_follows_the_model() {
    let inv = invocation();
    assert!(inv.model_supported());
    assert_eq!(
        inv.effective_version(c2pa_prov::metadata::StableDiffusionVersion::Xl),
        StableDiffusionVersion::Xl
    );
    let mut inv = invocation();
    inv.model = "Other".to_string();
    assert!(!inv.model_supported());
    assert_eq!(
        inv.effective_version(StableDiffusionVersion::Xl),
        StableDiffusionVersion::Unversioned
    );
}

#[test]
fn author_falls_back_to_the_host() {
    assert_eq!(effective_author("alice", Some("host".to_string())).as_deref(), Ok("alice"));
    assert_eq!(effective_author("alice", None).as_deref(), Ok("alice"));
    assert_eq!(effective_author("", Some("host".to_string())).as_deref(), Ok("host"));
    assert_eq!(effective_author("", None), Err(EngineError::EmptyField));
    assert_eq!(author_or_host("alice").as_deref(), Ok("alice"));
    match author_or_host("") {
        Ok(_) => {}
        Err(e) => assert_eq!(e, EngineError::EmptyField),
    }
}
