//! What loading an asset found, and the parent ingredient that follows
//! from it.

use vstd::prelude::*;
use crate::error::EngineError;
use crate::ingredient::{Ingredient, IngredientView};
use crate::store::{ManifestStore, StoreView};

verus! {

/// What an attempt to load the manifest store of an asset came to.
#[derive(Debug, PartialEq, Eq)]
pub enum LoadOutcome {
    /// The asset could not be opened.
    Unreadable,
    /// The asset was read and carries no manifest store.
    Absent,
    /// The asset carries this store.
    Present(ManifestStore),
}

pub enum LoadOutcomeView {
    Unreadable,
    Absent,
    Present(StoreView),
}

impl LoadOutcomeView {
    /// The instance identifier of the active manifest of the asset, if
    /// the asset has one.
    pub open spec fn active_id(self) -> Option<Seq<char>> {
        match self {
            LoadOutcomeView::Present(store) => store.active_id(),
            _ => None,
        }
    }
}

impl View for LoadOutcome {
    type V = LoadOutcomeView;

    open spec fn view(&self) -> LoadOutcomeView {
        match self {
            LoadOutcome::Unreadable => LoadOutcomeView::Unreadable,
            LoadOutcome::Absent => LoadOutcomeView::Absent,
            LoadOutcome::Present(store) => LoadOutcomeView::Present(store@),
        }
    }
}

/// The parent ingredient of an asset in the given state: none for an
/// asset that cannot be opened; else a reference to its active manifest,
/// or the mark of a first generation where it has none.
pub open spec fn parent_of(source_path: Seq<char>, state: LoadOutcomeView) -> Result<
    IngredientView,
    EngineError,
> {
    match state {
        LoadOutcomeView::Unreadable => Err(EngineError::SourceUnreadable),
        _ => Ok(IngredientView { instance_id: state.active_id(), source_path }),
    }
}

/// Resolves the parent ingredient of the asset at `source_path`, given
/// what loading it found.
pub fn resolve_parent(source_path: &str, state: &LoadOutcome) -> (r: Result<
    Ingredient,
    EngineError,
>)
    ensures
        match parent_of(source_path@, state@) {
            Ok(ingredient) => r is Ok && r->Ok_0@ == ingredient,
            Err(e) => r is Err && r->Err_0 == e,
        },
{
    match state {
        LoadOutcome::Unreadable => Err(EngineError::SourceUnreadable),
        LoadOutcome::Absent => Ok(Ingredient::first_generation(source_path)),
        LoadOutcome::Present(store) => match store.active_entry() {
            Some(entry) => Ok(Ingredient::of_parent(entry.instance_id(), source_path)),
            None => Ok(Ingredient::first_generation(source_path)),
        },
    }
}

/// What loading gives to a reader: the store, or why there is none.
pub open spec fn loaded(state: LoadOutcomeView) -> Result<StoreView, EngineError> {
    match state {
        LoadOutcomeView::Unreadable => Err(EngineError::SourceUnreadable),
        LoadOutcomeView::Absent => Err(EngineError::NoManifestPresent),
        LoadOutcomeView::Present(store) => Ok(store),
    }
}

/// The manifest store of an asset, given what loading it found. An asset
/// without a store is no fault of the asset: it has no provenance.
pub fn load(state: LoadOutcome) -> (r: Result<ManifestStore, EngineError>)
    ensures
        match loaded(state@) {
            Ok(store) => r is Ok && r->Ok_0@ == store,
            Err(e) => r is Err && r->Err_0 == e,
        },
{
    match state {
        LoadOutcome::Unreadable => Err(EngineError::SourceUnreadable),
        LoadOutcome::Absent => Err(EngineError::NoManifestPresent),
        LoadOutcome::Present(store) => Ok(store),
    }
}

} // verus!
