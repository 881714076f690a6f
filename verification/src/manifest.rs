//! Manifests and the builder that assembles them.
//!
//! A manifest is immutable once built: a change is a new manifest that
//! names the old one as its parent.

use vstd::prelude::*;
use crate::assertion::{
    clone_assertions, Action, ActionKind, ActionKindView, ActionView, Assertion,
    AssertionView, CreativeWorkClaim, CreativeWorkClaimView, ParameterView, Person, PersonView,
    lemma_lookup_after_push, lookup,
};
use crate::chain::{link_edit, link_result, linked_actions};
use crate::error::EngineError;
use crate::ingredient::{Ingredient, IngredientView};
use crate::metadata::{ModelData, ModelDataView, PromptData, PromptDataView};
use crate::text::same_text;

verus! {

/// All actions that a list of assertions records, in their order.
pub open spec fn all_actions(assertions: Seq<AssertionView>) -> Seq<ActionView>
    decreases assertions.len(),
{
    if assertions.len() == 0 {
        Seq::empty()
    } else {
        all_actions(assertions.drop_last()) + assertions.last().actions()
    }
}

/// Whether no two assertions of a list share a label.
pub open spec fn labels_distinct(assertions: Seq<AssertionView>) -> bool {
    forall|i: int, j: int|
        0 <= i < j < assertions.len() ==> #[trigger] assertions[i].label()
            != #[trigger] assertions[j].label()
}

/// Whether a list of assertions holds one with the given label.
pub open spec fn has_label(assertions: Seq<AssertionView>, label: Seq<char>) -> bool {
    exists|i: int| 0 <= i < assertions.len() && #[trigger] assertions[i].label() == label
}

/// Whether an action that refers to a parent refers to `parent_id`.
pub open spec fn action_linked(action: ActionView, parent_id: Option<Seq<char>>) -> bool {
    action.parent_reference() is Some ==> parent_id == action.parent_reference()
}

/// Whether every action of a list that refers to a parent refers to
/// `parent_id`.
pub open spec fn actions_linked(actions: Seq<ActionView>, parent_id: Option<Seq<char>>) -> bool {
    forall|k: int| 0 <= k < actions.len() ==> action_linked(#[trigger] actions[k], parent_id)
}

pub struct ManifestView {
    pub claim_generator: Seq<char>,
    pub title: Seq<char>,
    pub format: Seq<char>,
    pub assertions: Seq<AssertionView>,
    pub parent: Option<IngredientView>,
}

impl ManifestView {
    /// The instance identifier of the parent, if the manifest names one.
    pub open spec fn parent_id(self) -> Option<Seq<char>> {
        match self.parent {
            Some(ingredient) => ingredient.instance_id,
            None => None,
        }
    }

    /// All actions of the manifest, in their order.
    pub open spec fn actions(self) -> Seq<ActionView> {
        all_actions(self.assertions)
    }

    /// What every manifest satisfies: its assertions have distinct
    /// labels, it records at least one action, and each action that
    /// refers to a parent refers to the parent of the manifest.
    pub open spec fn wf(self) -> bool {
        &&& labels_distinct(self.assertions)
        &&& self.actions().len() > 0
        &&& actions_linked(self.actions(), self.parent_id())
    }
}

/// A signed record of provenance for one version of an asset.
#[derive(Debug, PartialEq, Eq)]
pub struct Manifest {
    claim_generator: String,
    title: String,
    format: String,
    assertions: Vec<Assertion>,
    parent: Option<Ingredient>,
}

impl View for Manifest {
    type V = ManifestView;

    closed spec fn view(&self) -> ManifestView {
        ManifestView {
            claim_generator: self.claim_generator@,
            title: self.title@,
            format: self.format@,
            assertions: self.assertions.deep_view(),
            parent: self.parent.deep_view(),
        }
    }
}

impl DeepView for Manifest {
    type V = ManifestView;

    open spec fn deep_view(&self) -> ManifestView {
        self@
    }
}

fn clone_parent(parent: &Option<Ingredient>) -> (r: Option<Ingredient>)
    ensures
        r.deep_view() == parent.deep_view(),
{
    match parent {
        Some(ingredient) => Some(ingredient.clone()),
        None => None,
    }
}

/// Gathers the actions of a list of assertions.
fn collect_actions(assertions: &Vec<Assertion>) -> (r: Vec<Action>)
    ensures
        r.deep_view() == all_actions(assertions.deep_view()),
{
    let mut out: Vec<Action> = Vec::new();
    let mut i: usize = 0;
    assert(assertions.deep_view().take(0) =~= Seq::empty());
    assert(out.deep_view() =~= Seq::empty());
    while i < assertions.len()
        invariant
            i <= assertions.len(),
            out.deep_view() == all_actions(assertions.deep_view().take(i as int)),
        decreases assertions.len() - i,
    {
        let ghost before = out.deep_view();
        let ghost next = assertions.deep_view().take(i + 1);
        assert(next.drop_last() =~= assertions.deep_view().take(i as int));
        assert(next.last() == assertions[i as int]@);
        match &assertions[i] {
            Assertion::Actions(list) => {
                let mut j: usize = 0;
                while j < list.len()
                    invariant
                        j <= list.len(),
                        out.deep_view() == before + list.deep_view().take(j as int),
                    decreases list.len() - j,
                {
                    let ghost grown = out.deep_view();
                    out.push(list[j].clone());
                    assert(out.deep_view() =~= grown.push(list[j as int]@));
                    assert(list.deep_view().take(j + 1) =~= list.deep_view().take(j as int).push(
                        list[j as int]@,
                    ));
                    assert(out.deep_view() =~= before + list.deep_view().take(j + 1));
                    j = j + 1;
                }
                assert(list.deep_view().take(j as int) =~= list.deep_view());
            },
            _ => {
                assert(out.deep_view() =~= before + Seq::empty());
            },
        }
        i = i + 1;
    }
    assert(assertions.deep_view().take(i as int) =~= assertions.deep_view());
    out
}

/// Whether a list of assertions holds one with the given label.
fn contains_label(assertions: &Vec<Assertion>, label: &str) -> (r: bool)
    ensures
        r == has_label(assertions.deep_view(), label@),
{
    let mut i: usize = 0;
    while i < assertions.len()
        invariant
            i <= assertions.len(),
            forall|k: int| 0 <= k < i ==> (#[trigger] assertions.deep_view()[k]).label() != label@,
        decreases assertions.len() - i,
    {
        let found = assertions[i].label();
        if same_text(found.as_str(), label) {
            assert(assertions.deep_view()[i as int].label() == label@);
            return true;
        }
        i = i + 1;
    }
    false
}

/// Whether every action that refers to a parent refers to `parent_id`.
fn check_linked(actions: &Vec<Action>, parent_id: &Option<String>) -> (r: bool)
    ensures
        r == actions_linked(actions.deep_view(), parent_id.deep_view()),
{
    let mut k: usize = 0;
    while k < actions.len()
        invariant
            k <= actions.len(),
            forall|m: int|
                0 <= m < k ==> action_linked(
                    #[trigger] actions.deep_view()[m],
                    parent_id.deep_view(),
                ),
        decreases actions.len() - k,
    {
        let reference = actions[k].parameter("identifier");
        let linked = match &reference {
            None => true,
            Some(id) => match parent_id {
                Some(parent) => same_text(id.as_str(), parent.as_str()),
                None => false,
            },
        };
        if !linked {
            assert(!action_linked(actions.deep_view()[k as int], parent_id.deep_view()));
            return false;
        }
        k = k + 1;
    }
    true
}

impl Manifest {
    #[verifier::type_invariant]
    spec fn well_formed(&self) -> bool {
        self@.wf()
    }

    pub fn claim_generator(&self) -> (r: &str)
        ensures
            r@ == self@.claim_generator,
    {
        self.claim_generator.as_str()
    }

    pub fn title(&self) -> (r: &str)
        ensures
            r@ == self@.title,
    {
        self.title.as_str()
    }

    pub fn format(&self) -> (r: &str)
        ensures
            r@ == self@.format,
    {
        self.format.as_str()
    }

    /// The assertions, in the order in which they were added. The
    /// manifest they belong to is well formed, as every manifest is.
    pub fn assertions(&self) -> (r: &Vec<Assertion>)
        ensures
            r.deep_view() == self@.assertions,
            self@.wf(),
    {
        proof {
            use_type_invariant(self);
        }
        &self.assertions
    }

    /// The reference to the parent, where the manifest has one.
    pub fn parent(&self) -> (r: &Option<Ingredient>)
        ensures
            r.deep_view() == self@.parent,
    {
        &self.parent
    }

    /// The instance identifier of the parent, where the manifest names one.
    pub fn parent_id(&self) -> (r: Option<String>)
        ensures
            r.deep_view() == self@.parent_id(),
    {
        match &self.parent {
            Some(ingredient) => match &ingredient.instance_id {
                Some(id) => Some(id.clone()),
                None => None,
            },
            None => None,
        }
    }

    /// All actions of the manifest, in their order. There is at least
    /// one.
    pub fn actions(&self) -> (r: Vec<Action>)
        ensures
            r.deep_view() == self@.actions(),
            r.len() > 0,
            self@.wf(),
    {
        proof {
            use_type_invariant(self);
        }
        collect_actions(&self.assertions)
    }

    /// The assertion with the given label, if there is one. No other
    /// assertion of the manifest has that label.
    pub fn find_assertion(&self, label: &str) -> (r: Option<&Assertion>)
        ensures
            has_label(self@.assertions, label@) <==> r is Some,
            r matches Some(found) ==> found@.label() == label@ && self@.assertions.contains(
                found@,
            ),
            forall|i: int|
                0 <= i < self@.assertions.len() && (#[trigger] self@.assertions[i]).label()
                    == label@ ==> r is Some && r->Some_0@ == self@.assertions[i],
    {
        proof {
            use_type_invariant(self);
        }
        let mut i: usize = 0;
        while i < self.assertions.len()
            invariant
                i <= self.assertions.len(),
                labels_distinct(self@.assertions),
                forall|k: int|
                    0 <= k < i ==> (#[trigger] self.assertions.deep_view()[k]).label() != label@,
            decreases self.assertions.len() - i,
        {
            let found = self.assertions[i].label();
            if same_text(found.as_str(), label) {
                assert(self.assertions.deep_view()[i as int] == self.assertions[i as int]@);
                assert(self@.assertions[i as int].label() == label@);
                assert forall|k: int|
                    0 <= k < self@.assertions.len() && (#[trigger] self@.assertions[k]).label()
                        == label@ implies k == i by {
                    if k > i {
                        assert(self@.assertions[i as int].label() != self@.assertions[k].label());
                    }
                }
                return Some(&self.assertions[i]);
            }
            i = i + 1;
        }
        None
    }
}

impl Clone for Manifest {
    fn clone(&self) -> (r: Self)
        ensures
            r@ == self@,
    {
        proof {
            use_type_invariant(self);
        }
        Manifest {
            claim_generator: self.claim_generator.clone(),
            title: self.title.clone(),
            format: self.format.clone(),
            assertions: clone_assertions(&self.assertions),
            parent: clone_parent(&self.parent),
        }
    }
}

/// What building gives for the assembled parts: a manifest needs an
/// action, and an action may refer to no parent but that of the manifest.
pub open spec fn build_result(parts: ManifestView) -> Result<ManifestView, EngineError> {
    if parts.actions().len() == 0 {
        Err(EngineError::EmptyManifest)
    } else if actions_linked(parts.actions(), parts.parent_id()) {
        Ok(parts)
    } else if parts.parent_id() is None {
        Err(EngineError::NoParentToLink)
    } else {
        Err(EngineError::InvalidParameter)
    }
}

/// A list of assertions with distinct labels stays one when it gains an
/// assertion whose label it does not hold.
pub proof fn lemma_push_keeps_labels_distinct(
    assertions: Seq<AssertionView>,
    assertion: AssertionView,
)
    requires
        labels_distinct(assertions),
        !has_label(assertions, assertion.label()),
    ensures
        labels_distinct(assertions.push(assertion)),
{
    let grown = assertions.push(assertion);
    assert forall|i: int, j: int| 0 <= i < j < grown.len() implies (#[trigger] grown[i]).label()
        != (#[trigger] grown[j]).label() by {
        if j < assertions.len() {
            assert(assertions[i].label() != assertions[j].label());
        } else {
            assert(assertions[i].label() != assertion.label());
        }
    }
}

/// Assembles a manifest piece by piece.
pub struct ManifestBuilder {
    claim_generator: String,
    title: String,
    format: String,
    assertions: Vec<Assertion>,
    parent: Option<Ingredient>,
}

impl View for ManifestBuilder {
    type V = ManifestView;

    closed spec fn view(&self) -> ManifestView {
        ManifestView {
            claim_generator: self.claim_generator@,
            title: self.title@,
            format: self.format@,
            assertions: self.assertions.deep_view(),
            parent: self.parent.deep_view(),
        }
    }
}

impl ManifestBuilder {
    #[verifier::type_invariant]
    spec fn well_formed(&self) -> bool {
        labels_distinct(self@.assertions)
    }

    /// A builder without assertions, title or parent.
    pub fn new(claim_generator: &str) -> (r: ManifestBuilder)
        ensures
            r@ == (ManifestView {
                claim_generator: claim_generator@,
                title: Seq::empty(),
                format: "application/octet-stream"@,
                assertions: Seq::empty(),
                parent: None,
            }),
    {
        let r = ManifestBuilder {
            claim_generator: claim_generator.to_owned(),
            title: String::new(),
            format: "application/octet-stream".to_owned(),
            assertions: Vec::new(),
            parent: None,
        };
        assert(r.assertions.deep_view() =~= Seq::empty());
        r
    }

    pub fn set_title(&mut self, title: &str)
        ensures
            final(self)@ == (ManifestView { title: title@, ..old(self)@ }),
    {
        proof {
            use_type_invariant(&*self);
        }
        self.title = title.to_owned();
    }

    pub fn set_format(&mut self, format: &str)
        ensures
            final(self)@ == (ManifestView { format: format@, ..old(self)@ }),
    {
        proof {
            use_type_invariant(&*self);
        }
        self.format = format.to_owned();
    }

    pub fn set_parent(&mut self, parent: Ingredient)
        ensures
            final(self)@ == (ManifestView { parent: Some(parent@), ..old(self)@ }),
    {
        proof {
            use_type_invariant(&*self);
        }
        self.parent = Some(parent);
    }

    /// Adds an assertion, unless one of the same label is there already:
    /// then the builder stays as it was.
    pub fn add_assertion(&mut self, assertion: Assertion) -> (r: Result<(), EngineError>)
        ensures
            has_label(old(self)@.assertions, assertion@.label()) ==> r == Err::<(), EngineError>(
                EngineError::DuplicateLabel,
            ) && final(self)@ == old(self)@,
            !has_label(old(self)@.assertions, assertion@.label()) ==> r is Ok && final(self)@ == (
                ManifestView { assertions: old(self)@.assertions.push(assertion@), ..old(self)@ }
            ),
    {
        proof {
            use_type_invariant(&*self);
        }
        let label = assertion.label();
        if contains_label(&self.assertions, label.as_str()) {
            return Err(EngineError::DuplicateLabel);
        }
        let ghost before = self.assertions.deep_view();
        proof {
            lemma_push_keeps_labels_distinct(before, assertion@);
        }
        let mut assertions: Vec<Assertion> = Vec::new();
        assert(assertions.deep_view() =~= Seq::empty());
        std::mem::swap(&mut self.assertions, &mut assertions);
        assertions.push(assertion);
        assert(assertions.deep_view() =~= before.push(assertion@));
        std::mem::swap(&mut self.assertions, &mut assertions);
        Ok(())
    }

    /// Finishes the manifest.
    pub fn build(self) -> (r: Result<Manifest, EngineError>)
        ensures
            match build_result(self@) {
                Ok(parts) => r is Ok && r->Ok_0@ == parts && r->Ok_0@.wf(),
                Err(e) => r is Err && r->Err_0 == e,
            },
    {
        proof {
            use_type_invariant(&self);
        }
        let actions = collect_actions(&self.assertions);
        if actions.len() == 0 {
            return Err(EngineError::EmptyManifest);
        }
        let parent_id = match &self.parent {
            Some(ingredient) => match &ingredient.instance_id {
                Some(id) => Some(id.clone()),
                None => None,
            },
            None => None,
        };
        assert(parent_id.deep_view() == self@.parent_id());
        if !check_linked(&actions, &parent_id) {
            if parent_id.is_none() {
                return Err(EngineError::NoParentToLink);
            }
            return Err(EngineError::InvalidParameter);
        }
        Ok(
            Manifest {
                claim_generator: self.claim_generator,
                title: self.title,
                format: self.format,
                assertions: self.assertions,
                parent: self.parent,
            },
        )
    }
}

/// The action that records the creation of a generated asset.
pub open spec fn created_action(agent: Seq<char>, when: Seq<char>) -> ActionView {
    ActionView {
        kind: ActionKindView::Created,
        when,
        source_type: Some(
            "https://cv.iptc.org/newscodes/digitalsourcetype/trainedAlgorithmicMedia"@,
        ),
        software_agent: Some(agent),
        reason: None,
        parameters: Seq::empty(),
    }
}

/// The authorship claim that names `author`.
pub open spec fn author_claim(author: Seq<char>) -> CreativeWorkClaimView {
    CreativeWorkClaimView {
        authors: seq![PersonView { name: author, identifier: "C2PA_GENAI_USER"@ }],
    }
}

/// The manifest of a newly generated asset: one `Created` action by the
/// model, the authorship claim, then the model and the prompt records.
/// It has no parent.
pub open spec fn created_manifest(
    model: ModelDataView,
    prompt: PromptDataView,
    author: Seq<char>,
    when: Seq<char>,
) -> ManifestView {
    ManifestView {
        claim_generator: "C2PA-PROV-GenAI/0.1"@,
        title: "AI Generated Image"@,
        format: "image/jpeg"@,
        assertions: seq![
            AssertionView::Actions(seq![created_action(model.model, when)]),
            AssertionView::CreativeWork(author_claim(author)),
            AssertionView::CustomData(model.custom_data()),
            AssertionView::CustomData(prompt.custom_data()),
        ],
        parent: None,
    }
}

/// The manifest of an edit: the linked actions, then the model and the
/// prompt records, with the parent it supersedes.
pub open spec fn edited_manifest(
    parent: IngredientView,
    actions: Seq<ActionView>,
    model: ModelDataView,
    prompt: PromptDataView,
) -> ManifestView {
    ManifestView {
        claim_generator: "C2PA-PROV-GenAI/0.1"@,
        title: "AI Generated Image"@,
        format: "image/jpeg"@,
        assertions: seq![
            AssertionView::Actions(actions),
            AssertionView::CustomData(model.custom_data()),
            AssertionView::CustomData(prompt.custom_data()),
        ],
        parent: Some(parent),
    }
}

/// What building an edit gives: the failure of the linker, or the
/// manifest around the actions it composed.
pub open spec fn edited_result(
    parent: IngredientView,
    kind: ActionKindView,
    model: ModelDataView,
    prompt: PromptDataView,
    when: Seq<char>,
) -> Result<ManifestView, EngineError> {
    match link_result(parent.instance_id, kind, model.model, when) {
        Ok(actions) => Ok(edited_manifest(parent, actions, model, prompt)),
        Err(e) => Err(e),
    }
}

proof fn lemma_fixed_labels_distinct()
    ensures
        "c2pa.actions"@ != "stds.schema-org.CreativeWork"@,
        "c2pa.actions"@ != "edu.upc.fib.C2PA_Prov.model_data"@,
        "c2pa.actions"@ != "edu.upc.fib.C2PA_Prov.prompt_data"@,
        "stds.schema-org.CreativeWork"@ != "edu.upc.fib.C2PA_Prov.model_data"@,
        "stds.schema-org.CreativeWork"@ != "edu.upc.fib.C2PA_Prov.prompt_data"@,
        "edu.upc.fib.C2PA_Prov.model_data"@ != "edu.upc.fib.C2PA_Prov.prompt_data"@,
{
    reveal_strlit("c2pa.actions");
    reveal_strlit("stds.schema-org.CreativeWork");
    reveal_strlit("edu.upc.fib.C2PA_Prov.model_data");
    reveal_strlit("edu.upc.fib.C2PA_Prov.prompt_data");
    assert("c2pa.actions"@.len() == 12);
    assert("stds.schema-org.CreativeWork"@.len() == 28);
    assert("edu.upc.fib.C2PA_Prov.model_data"@.len() == 32);
    assert("edu.upc.fib.C2PA_Prov.prompt_data"@.len() == 33);
}

/// A created manifest is well formed and records exactly its one
/// `Created` action.
pub proof fn lemma_created_manifest_wf(
    model: ModelDataView,
    prompt: PromptDataView,
    author: Seq<char>,
    when: Seq<char>,
)
    ensures
        created_manifest(model, prompt, author, when).wf(),
        created_manifest(model, prompt, author, when).actions() == seq![
            created_action(model.model, when),
        ],
{
    let m = created_manifest(model, prompt, author, when);
    lemma_fixed_labels_distinct();
    reveal_with_fuel(all_actions, 5);
    let a = m.assertions;
    assert(a.drop_last() =~= seq![a[0], a[1], a[2]]);
    assert(a.drop_last().drop_last() =~= seq![a[0], a[1]]);
    assert(a.drop_last().drop_last().drop_last() =~= seq![a[0]]);
    assert(a.drop_last().drop_last().drop_last().drop_last() =~= Seq::<AssertionView>::empty());
    assert(m.actions() =~= seq![created_action(model.model, when)]);
    assert(lookup(Seq::<ParameterView>::empty(), "identifier"@) is None);
}

/// An edited manifest around the linked actions is well formed and
/// records exactly those actions.
pub proof fn lemma_edited_manifest_wf(
    parent: IngredientView,
    kind: ActionKindView,
    model: ModelDataView,
    prompt: PromptDataView,
    when: Seq<char>,
)
    requires
        parent.instance_id is Some,
    ensures
        ({
            let actions = linked_actions(kind, parent.instance_id->Some_0, model.model, when);
            let m = edited_manifest(parent, actions, model, prompt);
            m.wf() && m.actions() == actions
        }),
{
    let id = parent.instance_id->Some_0;
    let actions = linked_actions(kind, id, model.model, when);
    let m = edited_manifest(parent, actions, model, prompt);
    lemma_fixed_labels_distinct();
    reveal_with_fuel(all_actions, 4);
    let a = m.assertions;
    assert(a.drop_last() =~= seq![a[0], a[1]]);
    assert(a.drop_last().drop_last() =~= seq![a[0]]);
    assert(a.drop_last().drop_last().drop_last() =~= Seq::<AssertionView>::empty());
    assert(m.actions() =~= actions);
    lemma_lookup_after_push(Seq::empty(), "identifier"@, id, "identifier"@);
    assert(Seq::<ParameterView>::empty().push(ParameterView { key: "identifier"@, value: id })
        =~= seq![ParameterView { key: "identifier"@, value: id }]);
    assert(actions[0].parent_reference() == Some(id));
    assert(actions[1].parent_reference() == Some(id));
}

/// Builds the manifest of a newly generated asset.
pub fn build_created(model: &ModelData, prompt: &PromptData, author: &str, when: &str) -> (r:
    Manifest)
    ensures
        r@ == created_manifest(model@, prompt@, author@, when@),
        r@.wf(),
{
    let created = Action::new(ActionKind::Created, when).set_source_type(
        "https://cv.iptc.org/newscodes/digitalsourcetype/trainedAlgorithmicMedia",
    ).set_software_agent(model.model.as_str());
    let mut actions: Vec<Action> = Vec::new();
    actions.push(created);
    assert(actions.deep_view() =~= seq![created_action(model@.model, when@)]);
    let claim = CreativeWorkClaim::new().add_author(Person::new(author, "C2PA_GENAI_USER"));
    assert(claim@.authors =~= author_claim(author@).authors);
    let mut assertions: Vec<Assertion> = Vec::new();
    assertions.push(Assertion::Actions(actions));
    assertions.push(Assertion::CreativeWork(claim));
    assertions.push(Assertion::CustomData(model.to_custom_data()));
    assertions.push(Assertion::CustomData(prompt.to_custom_data()));
    proof {
        assert(assertions.deep_view() =~= created_manifest(
            model@,
            prompt@,
            author@,
            when@,
        ).assertions);
        lemma_created_manifest_wf(model@, prompt@, author@, when@);
    }
    Manifest {
        claim_generator: "C2PA-PROV-GenAI/0.1".to_owned(),
        title: "AI Generated Image".to_owned(),
        format: "image/jpeg".to_owned(),
        assertions,
        parent: None,
    }
}

/// Builds the manifest of an edit of the asset that `parent` points at.
pub fn build_edited(
    parent: &Ingredient,
    kind: ActionKind,
    model: &ModelData,
    prompt: &PromptData,
    when: &str,
) -> (r: Result<Manifest, EngineError>)
    ensures
        match edited_result(parent@, kind@, model@, prompt@, when@) {
            Ok(manifest) => r is Ok && r->Ok_0@ == manifest && manifest.wf(),
            Err(e) => r is Err && r->Err_0 == e,
        },
{
    let actions = match link_edit(parent, kind, model.model.as_str(), when) {
        Ok(actions) => actions,
        Err(e) => {
            return Err(e);
        },
    };
    let ghost linked = actions.deep_view();
    let mut assertions: Vec<Assertion> = Vec::new();
    assertions.push(Assertion::Actions(actions));
    assertions.push(Assertion::CustomData(model.to_custom_data()));
    assertions.push(Assertion::CustomData(prompt.to_custom_data()));
    proof {
        assert(assertions.deep_view() =~= edited_manifest(
            parent@,
            linked,
            model@,
            prompt@,
        ).assertions);
        lemma_edited_manifest_wf(parent@, kind@, model@, prompt@, when@);
    }
    Ok(
        Manifest {
            claim_generator: "C2PA-PROV-GenAI/0.1".to_owned(),
            title: "AI Generated Image".to_owned(),
            format: "image/jpeg".to_owned(),
            assertions,
            parent: Some(parent.clone()),
        },
    )
}

} // verus!
