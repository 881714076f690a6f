//! A reference from a new manifest to the manifest it supersedes.

use vstd::prelude::*;

verus! {

/// A reference-only pointer to the active manifest of a previously
/// embedded asset. It never owns or copies the parent's assertions.
#[derive(Debug, PartialEq, Eq)]
pub struct Ingredient {
    /// The parent's instance identifier; `None` marks an asset without
    /// prior provenance.
    pub instance_id: Option<String>,
    pub source_path: String,
}

pub struct IngredientView {
    pub instance_id: Option<Seq<char>>,
    pub source_path: Seq<char>,
}

impl View for Ingredient {
    type V = IngredientView;

    open spec fn view(&self) -> IngredientView {
        IngredientView {
            instance_id: self.instance_id.deep_view(),
            source_path: self.source_path@,
        }
    }
}

impl DeepView for Ingredient {
    type V = IngredientView;

    open spec fn deep_view(&self) -> IngredientView {
        self@
    }
}

impl Clone for Ingredient {
    fn clone(&self) -> (r: Self)
        ensures
            r@ == self@,
    {
        let instance_id = match &self.instance_id {
            Some(id) => Some(id.clone()),
            None => None,
        };
        Ingredient { instance_id, source_path: self.source_path.clone() }
    }
}

impl Ingredient {
    /// The ingredient of an asset that has no provenance yet.
    pub fn first_generation(source_path: &str) -> (r: Ingredient)
        ensures
            r@ == (IngredientView { instance_id: None, source_path: source_path@ }),
    {
        Ingredient { instance_id: None, source_path: source_path.to_owned() }
    }

    /// The ingredient that points at the manifest `instance_id`.
    pub fn of_parent(instance_id: &str, source_path: &str) -> (r: Ingredient)
        ensures
            r@ == (IngredientView {
                instance_id: Some(instance_id@),
                source_path: source_path@,
            }),
    {
        Ingredient {
            instance_id: Some(instance_id.to_owned()),
            source_path: source_path.to_owned(),
        }
    }

    /// Whether this ingredient names a parent.
    pub fn has_parent(&self) -> (r: bool)
        ensures
            r == (self@.instance_id is Some),
    {
        self.instance_id.is_some()
    }
}

} // verus!
