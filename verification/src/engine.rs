//! The operations a caller invokes: create, edit, read and active.
//!
//! Each works on plain values. Reading and writing the asset is the
//! caller's part: it hands in what loading found and carries out the
//! request that comes back.

use vstd::prelude::*;
use crate::assertion::{ActionKind, ActionKindView};
use crate::clock::Timestamp;
use crate::error::{EngineError, EngineErrorView, ValidationStatus};
use crate::manifest::{
    build_created, build_edited, created_manifest, edited_result, Manifest, ManifestView,
};
use crate::metadata::{ModelData, ModelDataView, PromptData, PromptDataView};
use crate::naming::{derive_dest_path, derived_dest};
use crate::resolver::{load, loaded, parent_of, resolve_parent, LoadOutcome, LoadOutcomeView};
use crate::store::ManifestStore;

verus! {

/// A finished manifest with the asset to take the bytes from and the
/// asset to embed it in.
#[derive(Debug, PartialEq, Eq)]
pub struct EmbedRequest {
    pub manifest: Manifest,
    pub source: String,
    pub dest: String,
}

pub struct EmbedRequestView {
    pub manifest: ManifestView,
    pub source: Seq<char>,
    pub dest: Seq<char>,
}

impl View for EmbedRequest {
    type V = EmbedRequestView;

    open spec fn view(&self) -> EmbedRequestView {
        EmbedRequestView { manifest: self.manifest@, source: self.source@, dest: self.dest@ }
    }
}

/// The destination of an embedding: the one given, which may not be
/// empty, or else the one derived from the source.
pub open spec fn dest_for(source: Seq<char>, dest: Option<Seq<char>>) -> Result<
    Seq<char>,
    EngineError,
> {
    match dest {
        Some(given) => if given.len() == 0 {
            Err(EngineError::EmptyField)
        } else {
            Ok(given)
        },
        None => derived_dest(source),
    }
}

/// Settles the destination of an embedding.
pub fn resolve_dest(source: &str, dest: Option<&str>) -> (r: Result<String, EngineError>)
    ensures
        match dest_for(source@, dest.deep_view()) {
            Ok(name) => r is Ok && r->Ok_0@ == name,
            Err(e) => r is Err && r->Err_0 == e,
        },
{
    match dest {
        Some(given) => {
            if given.is_empty() {
                Err(EngineError::EmptyField)
            } else {
                Ok(given.to_owned())
            }
        },
        None => derive_dest_path(source),
    }
}

/// What `create` gives. The source path, the author and the name of the
/// model are required; the destination must be given or derivable; the
/// instant must be one that can be written down.
pub open spec fn create_result(
    source: Seq<char>,
    dest: Option<Seq<char>>,
    prompt: PromptDataView,
    model: ModelDataView,
    author: Seq<char>,
    now: Timestamp,
) -> Result<EmbedRequestView, EngineError> {
    if source.len() == 0 || author.len() == 0 || model.model.len() == 0 {
        Err(EngineError::EmptyField)
    } else {
        match dest_for(source, dest) {
            Err(e) => Err(e),
            Ok(name) => if !now.representable() {
                Err(EngineError::InvalidParameter)
            } else {
                Ok(
                    EmbedRequestView {
                        manifest: created_manifest(model, prompt, author, now.text()),
                        source,
                        dest: name,
                    },
                )
            },
        }
    }
}

/// Prepares the provenance of a newly generated asset: the manifest that
/// records its creation at the instant `now`, to be embedded in `dest`.
pub fn create(
    source: &str,
    dest: Option<&str>,
    prompt: &PromptData,
    model: &ModelData,
    author: &str,
    now: Timestamp,
) -> (r: Result<EmbedRequest, EngineError>)
    ensures
        match create_result(source@, dest.deep_view(), prompt@, model@, author@, now) {
            Ok(request) => r is Ok && r->Ok_0@ == request && request.manifest.wf(),
            Err(e) => r is Err && r->Err_0 == e,
        },
{
    if source.is_empty() || author.is_empty() || model.model.as_str().is_empty() {
        return Err(EngineError::EmptyField);
    }
    let name = match resolve_dest(source, dest) {
        Ok(name) => name,
        Err(e) => {
            return Err(e);
        },
    };
    let when = match now.to_rfc3339() {
        Some(text) => text,
        None => {
            return Err(EngineError::InvalidParameter);
        },
    };
    let manifest = build_created(model, prompt, author, when.as_str());
    Ok(EmbedRequest { manifest, source: source.to_owned(), dest: name })
}

/// What `edit` gives. An asset that cannot be opened cannot be edited;
/// one without a prior manifest has no parent to link to, whatever else
/// was asked. After that the name of the model is required, the
/// destination must be given or derivable, and the instant must be one
/// that can be written down.
pub open spec fn edit_result(
    source: Seq<char>,
    state: LoadOutcomeView,
    dest: Option<Seq<char>>,
    kind: ActionKindView,
    prompt: PromptDataView,
    model: ModelDataView,
    now: Timestamp,
) -> Result<EmbedRequestView, EngineError> {
    match parent_of(source, state) {
        Err(e) => Err(e),
        Ok(parent) => if parent.instance_id is None {
            Err(EngineError::NoParentToLink)
        } else if model.model.len() == 0 {
            Err(EngineError::EmptyField)
        } else {
            match dest_for(source, dest) {
                Err(e) => Err(e),
                Ok(name) => if !now.representable() {
                    Err(EngineError::InvalidParameter)
                } else {
                    match edited_result(parent, kind, model, prompt, now.text()) {
                        Err(e) => Err(e),
                        Ok(manifest) => Ok(EmbedRequestView { manifest, source, dest: name }),
                    }
                },
            }
        },
    }
}

/// Prepares the provenance of an edit of the asset at `source`, whose
/// loading found `state`: the manifest that names the active manifest of
/// the source as its parent, to be embedded in `dest`.
pub fn edit(
    source: &str,
    state: &LoadOutcome,
    dest: Option<&str>,
    kind: ActionKind,
    prompt: &PromptData,
    model: &ModelData,
    now: Timestamp,
) -> (r: Result<EmbedRequest, EngineError>)
    ensures
        match edit_result(source@, state@, dest.deep_view(), kind@, prompt@, model@, now) {
            Ok(request) => r is Ok && r->Ok_0@ == request && request.manifest.wf(),
            Err(e) => r is Err && r->Err_0 == e,
        },
{
    let parent = match resolve_parent(source, state) {
        Ok(parent) => parent,
        Err(e) => {
            return Err(e);
        },
    };
    if !parent.has_parent() {
        return Err(EngineError::NoParentToLink);
    }
    if model.model.as_str().is_empty() {
        return Err(EngineError::EmptyField);
    }
    let name = match resolve_dest(source, dest) {
        Ok(name) => name,
        Err(e) => {
            return Err(e);
        },
    };
    let when = match now.to_rfc3339() {
        Some(text) => text,
        None => {
            return Err(EngineError::InvalidParameter);
        },
    };
    match build_edited(&parent, kind, model, prompt, when.as_str()) {
        Ok(manifest) => Ok(EmbedRequest { manifest, source: source.to_owned(), dest: name }),
        Err(e) => Err(e),
    }
}

/// Reads an asset: its manifest store together with the validation
/// status of that store.
pub fn read(state: LoadOutcome) -> (r: Result<(ManifestStore, Vec<ValidationStatus>), EngineError>)
    ensures
        match loaded(state@) {
            Ok(store) => r is Ok && r->Ok_0.0@ == store && r->Ok_0.1.deep_view()
                == store.statuses(),
            Err(e) => r is Err && r->Err_0 == e,
        },
{
    match load(state) {
        Ok(store) => {
            let statuses = store.validate();
            Ok((store, statuses))
        },
        Err(e) => Err(e),
    }
}

/// What a reader is shown of a trusted asset: which manifest is the
/// active one, and all manifests from the first embedded to the latest.
#[derive(Debug, PartialEq, Eq)]
pub struct Report {
    pub active_label: String,
    pub active: Manifest,
    pub manifests: Vec<(String, Manifest)>,
}

pub struct ReportView {
    pub active_label: Seq<char>,
    pub active: ManifestView,
    pub manifests: Seq<(Seq<char>, ManifestView)>,
}

impl View for Report {
    type V = ReportView;

    open spec fn view(&self) -> ReportView {
        ReportView {
            active_label: self.active_label@,
            active: self.active@,
            manifests: self.manifests.deep_view(),
        }
    }
}

/// What reading and judging an asset gives. A store against which
/// anything was found is refused with all that was found, before any of
/// its manifests is shown.
pub open spec fn report_of(state: LoadOutcomeView) -> Result<ReportView, EngineErrorView> {
    match loaded(state) {
        Err(e) => Err(e@),
        Ok(store) => if !store.trusted() {
            Err(EngineErrorView::Untrusted(store.statuses()))
        } else {
            match store.active() {
                Some(entry) => Ok(
                    ReportView {
                        active_label: entry.label,
                        active: entry.manifest,
                        manifests: store.listing(),
                    },
                ),
                None => Err(EngineErrorView::NoManifestPresent),
            }
        },
    }
}

/// Reads an asset for a reader who must be able to rely on it: judges
/// the store first, then reports the active manifest and the lineage.
pub fn read_manifest(state: LoadOutcome) -> (r: Result<Report, EngineError>)
    ensures
        match report_of(state@) {
            Ok(report) => r is Ok && r->Ok_0@ == report,
            Err(e) => r is Err && r->Err_0@ == e,
        },
{
    let store = match load(state) {
        Ok(store) => store,
        Err(e) => {
            return Err(e);
        },
    };
    let statuses = store.validate();
    if statuses.len() > 0 {
        return Err(EngineError::Untrusted(statuses));
    }
    match store.active_entry() {
        Some(entry) => Ok(
            Report {
                active_label: entry.label().to_owned(),
                active: entry.manifest().clone(),
                manifests: store.enumerate(),
            },
        ),
        None => Err(EngineError::NoManifestPresent),
    }
}

/// What `active` gives: the active manifest of a trusted store. A store
/// against which anything was found is refused with all that was found,
/// and is never taken for an asset without provenance.
pub open spec fn active_result(state: LoadOutcomeView) -> Result<ManifestView, EngineErrorView> {
    match loaded(state) {
        Err(e) => Err(e@),
        Ok(store) => if !store.trusted() {
            Err(EngineErrorView::Untrusted(store.statuses()))
        } else {
            match store.active() {
                Some(entry) => Ok(entry.manifest),
                None => Err(EngineErrorView::NoManifestPresent),
            }
        },
    }
}

/// The manifest that says what the asset is now.
pub fn active(state: LoadOutcome) -> (r: Result<Manifest, EngineError>)
    ensures
        match active_result(state@) {
            Ok(manifest) => r is Ok && r->Ok_0@ == manifest,
            Err(e) => r is Err && r->Err_0@ == e,
        },
{
    let store = match load(state) {
        Ok(store) => store,
        Err(e) => {
            return Err(e);
        },
    };
    let statuses = store.validate();
    if statuses.len() > 0 {
        return Err(EngineError::Untrusted(statuses));
    }
    match store.active_manifest() {
        Some(manifest) => Ok(manifest.clone()),
        None => Err(EngineError::NoManifestPresent),
    }
}

} // verus!
