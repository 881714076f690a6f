//! The store of an asset as manifests are embedded in it one after the
//! other: nothing is lost, the latest is the active one, and edits form
//! an unbroken lineage.

use vstd::prelude::*;
use crate::assertion::{ActionKind, ActionKindView};
use crate::chain::linked_actions;
use crate::clock::Timestamp;
use crate::engine::{create_result, edit, edit_result};
use crate::error::{EngineError, ValidationStatusView};
use crate::manifest::{
    created_action, lemma_created_manifest_wf, lemma_edited_manifest_wf, ManifestView,
};
use crate::metadata::{ModelData, ModelDataView, PromptData, PromptDataView};
use crate::resolver::{loaded, LoadOutcome, LoadOutcomeView};
use crate::store::{
    all_findings, lemma_parent_resolves_to_predecessor, lemma_trusted_iff_no_finding, EntryView,
    ManifestStore, StoreView,
};

verus! {

/// The entry that embedding `manifest` adds to a store: nothing is found
/// against a manifest that was just signed.
pub open spec fn embedded_entry(label: Seq<char>, instance_id: Seq<char>, manifest: ManifestView)
    -> EntryView {
    EntryView { label, instance_id, manifest, findings: Seq::empty() }
}

/// The store without manifests.
pub open spec fn empty_store() -> StoreView {
    StoreView { entries: Seq::empty() }
}

/// Embedding and reading back: the store that gained a manifest is what
/// a reader loads; the manifest it gained is the active one, with every
/// assertion as it was built; and every earlier entry stands where and
/// as it stood.
pub proof fn lemma_embedded_manifest_reads_back(
    store: StoreView,
    label: Seq<char>,
    instance_id: Seq<char>,
    manifest: ManifestView,
)
    ensures
        ({
            let after = store.appended(embedded_entry(label, instance_id, manifest));
            &&& loaded(LoadOutcomeView::Present(after)) == Ok::<StoreView, EngineError>(after)
            &&& after.active() == Some(embedded_entry(label, instance_id, manifest))
            &&& after.active()->Some_0.manifest.assertions == manifest.assertions
            &&& after.active_id() == Some(instance_id)
            &&& after.entries.len() == store.entries.len() + 1
            &&& forall|i: int|
                0 <= i < store.entries.len() ==> #[trigger] after.entries[i] == store.entries[i]
        }),
{
}

/// Embedding a manifest in a trusted store leaves the store trusted, and
/// in a well-formed store, under a fresh label and a fresh instance
/// identifier, leaves it well formed.
pub proof fn lemma_embedding_keeps_trust(
    store: StoreView,
    label: Seq<char>,
    instance_id: Seq<char>,
    manifest: ManifestView,
)
    requires
        store.trusted(),
    ensures
        store.appended(embedded_entry(label, instance_id, manifest)).trusted(),
        store.appended(embedded_entry(label, instance_id, manifest)).statuses()
            == Seq::<ValidationStatusView>::empty(),
        (store.wf() && store.gaining(embedded_entry(label, instance_id, manifest)) is Ok)
            ==> store.appended(embedded_entry(label, instance_id, manifest)).wf(),
{
    let after = store.appended(embedded_entry(label, instance_id, manifest));
    lemma_trusted_iff_no_finding(store);
    lemma_trusted_iff_no_finding(after);
    assert forall|k: int| 0 <= k < after.entries.len() implies (
    #[trigger] after.entries[k]).findings.len() == 0 by {
        if k < store.entries.len() {
            assert(after.entries[k] == store.entries[k]);
        }
    }
    assert(after.statuses() =~= Seq::empty());
}

/// Create, then read: once the manifest that `create` built is embedded
/// in an asset that carried no store, or a trusted one, a reader finds a
/// store whose active manifest records exactly one action, a `Created`
/// one, and whose validation status is empty.
pub proof fn lemma_create_then_read(
    before: StoreView,
    source: Seq<char>,
    dest: Option<Seq<char>>,
    prompt: PromptDataView,
    model: ModelDataView,
    author: Seq<char>,
    now: Timestamp,
    label: Seq<char>,
    instance_id: Seq<char>,
)
    requires
        before.trusted(),
        create_result(source, dest, prompt, model, author, now) is Ok,
    ensures
        ({
            let request = create_result(source, dest, prompt, model, author, now)->Ok_0;
            let after = before.appended(embedded_entry(label, instance_id, request.manifest));
            &&& loaded(LoadOutcomeView::Present(after)) == Ok::<StoreView, EngineError>(after)
            &&& after.active() is Some
            &&& after.active()->Some_0.manifest == request.manifest
            &&& request.manifest.actions().len() == 1
            &&& request.manifest.actions()[0].kind == ActionKindView::Created
            &&& request.manifest.parent is None
            &&& after.statuses() == Seq::<ValidationStatusView>::empty()
        }),
{
    let request = create_result(source, dest, prompt, model, author, now)->Ok_0;
    lemma_created_manifest_wf(model, prompt, author, now.text());
    lemma_embedding_keeps_trust(before, label, instance_id, request.manifest);
}

/// An edit needs a parent: on an asset that carries no store, or a store
/// without manifests, `edit` fails with `NoParentToLink` whatever else
/// it is given. It never falls back to creating.
pub proof fn lemma_edit_without_manifest_fails(
    source: Seq<char>,
    state: LoadOutcomeView,
    dest: Option<Seq<char>>,
    kind: ActionKindView,
    prompt: PromptDataView,
    model: ModelDataView,
    now: Timestamp,
)
    requires
        state is Absent || (state matches LoadOutcomeView::Present(store) && store.entries.len()
            == 0),
    ensures
        edit_result(source, state, dest, kind, prompt, model, now) == Err::<
            crate::engine::EmbedRequestView,
            EngineError,
        >(EngineError::NoParentToLink),
{
}

/// One edit as it is asked for and carried out: the arguments of `edit`,
/// and the label and the instance identifier under which its manifest is
/// embedded.
pub struct EditStep {
    pub source: Seq<char>,
    pub dest: Option<Seq<char>>,
    pub kind: ActionKindView,
    pub prompt: PromptDataView,
    pub model: ModelDataView,
    pub now: Timestamp,
    pub label: Seq<char>,
    pub instance_id: Seq<char>,
}

impl EditStep {
    /// What the edit comes to on an asset that carries `store`: the
    /// failure of `edit`, or what the store becomes when the manifest
    /// that `edit` built is embedded in it.
    pub open spec fn outcome_on(self, store: StoreView) -> Result<StoreView, EngineError> {
        match edit_result(
            self.source,
            LoadOutcomeView::Present(store),
            self.dest,
            self.kind,
            self.prompt,
            self.model,
            self.now,
        ) {
            Err(e) => Err(e),
            Ok(request) => store.gaining(
                embedded_entry(self.label, self.instance_id, request.manifest),
            ),
        }
    }

    /// Whether the edit succeeds on an asset that carries `store`: `edit`
    /// gives a manifest, and the label and the instance identifier are
    /// not taken.
    pub open spec fn applies_to(self, store: StoreView) -> bool {
        self.outcome_on(store) is Ok
    }

    /// The manifest that `edit` builds on an asset that carries `store`.
    pub open spec fn manifest_on(self, store: StoreView) -> ManifestView {
        edit_result(
            self.source,
            LoadOutcomeView::Present(store),
            self.dest,
            self.kind,
            self.prompt,
            self.model,
            self.now,
        )->Ok_0.manifest
    }

    /// The store of the asset once the edit was embedded.
    pub open spec fn applied_to(self, store: StoreView) -> StoreView {
        store.appended(embedded_entry(self.label, self.instance_id, self.manifest_on(store)))
    }
}

/// Whether each edit of a sequence succeeds on the store that the edits
/// before it left.
pub open spec fn edits_apply(store: StoreView, steps: Seq<EditStep>) -> bool
    decreases steps.len(),
{
    if steps.len() == 0 {
        true
    } else {
        edits_apply(store, steps.drop_last()) && steps.last().applies_to(
            after_edits(store, steps.drop_last()),
        )
    }
}

/// The store after a sequence of edits, each embedded in turn.
pub open spec fn after_edits(store: StoreView, steps: Seq<EditStep>) -> StoreView
    decreases steps.len(),
{
    if steps.len() == 0 {
        store
    } else {
        steps.last().applied_to(after_edits(store, steps.drop_last()))
    }
}

/// How far a sequence of edits gets on a store. Each edit is a manifest
/// of its own, built on the store that the edits before it left and
/// embedded before the next is built. The first failure ends the
/// sequence; what was embedded before it stays embedded.
pub open spec fn edits_outcome(store: StoreView, steps: Seq<EditStep>) -> (
    StoreView,
    Option<EngineError>,
)
    decreases steps.len(),
{
    if steps.len() == 0 {
        (store, None)
    } else {
        let (before, failure) = edits_outcome(store, steps.drop_last());
        match failure {
            Some(e) => (before, Some(e)),
            None => match steps.last().outcome_on(before) {
                Ok(after) => (after, None),
                Err(e) => (before, Some(e)),
            },
        }
    }
}

/// One edit to be made and embedded: the arguments of `edit`, and the
/// label and the instance identifier under which its manifest is
/// embedded.
#[derive(Debug, PartialEq, Eq)]
pub struct EditOrder {
    pub source: String,
    pub dest: Option<String>,
    pub kind: ActionKind,
    pub prompt: PromptData,
    pub model: ModelData,
    pub now: Timestamp,
    pub label: String,
    pub instance_id: String,
}

impl View for EditOrder {
    type V = EditStep;

    open spec fn view(&self) -> EditStep {
        EditStep {
            source: self.source@,
            dest: self.dest.deep_view(),
            kind: self.kind@,
            prompt: self.prompt@,
            model: self.model@,
            now: self.now,
            label: self.label@,
            instance_id: self.instance_id@,
        }
    }
}

impl DeepView for EditOrder {
    type V = EditStep;

    open spec fn deep_view(&self) -> EditStep {
        self@
    }
}

/// Records on the store of an asset that the edit `order` was made and
/// embedded. Where the edit fails, the store stays as it was.
pub fn record_edit(store: &mut ManifestStore, order: &EditOrder) -> (r: Result<(), EngineError>)
    ensures
        match order@.outcome_on(old(store)@) {
            Ok(after) => r is Ok && final(store)@ == after,
            Err(e) => r == Err::<(), EngineError>(e) && final(store)@ == old(store)@,
        },
{
    let state = LoadOutcome::Present(store.clone());
    let dest = match &order.dest {
        Some(given) => Some(given.as_str()),
        None => None,
    };
    let request = match edit(
        order.source.as_str(),
        &state,
        dest,
        order.kind.clone(),
        &order.prompt,
        &order.model,
        order.now,
    ) {
        Ok(request) => request,
        Err(e) => {
            return Err(e);
        },
    };
    store.embed(order.label.as_str(), order.instance_id.as_str(), request.manifest)
}

/// Records a sequence of edits, each built on the store that the edits
/// before it left and embedded before the next is built. The first
/// failure ends the sequence; the edits before it stay recorded.
pub fn record_edits(store: &mut ManifestStore, orders: &Vec<EditOrder>) -> (r: Result<
    (),
    EngineError,
>)
    ensures
        final(store)@ == edits_outcome(old(store)@, orders.deep_view()).0,
        match edits_outcome(old(store)@, orders.deep_view()).1 {
            None => r is Ok,
            Some(e) => r == Err::<(), EngineError>(e),
        },
{
    let ghost start = store@;
    let mut k: usize = 0;
    assert(orders.deep_view().take(0) =~= Seq::empty());
    while k < orders.len()
        invariant
            k <= orders.len(),
            start == old(store)@,
            edits_outcome(start, orders.deep_view().take(k as int)) == (
                store@,
                None::<EngineError>,
            ),
        decreases orders.len() - k,
    {
        let ghost next = orders.deep_view().take(k + 1);
        let ghost so_far = store@;
        assert(next.drop_last() =~= orders.deep_view().take(k as int));
        assert(next.last() == orders[k as int]@);
        match record_edit(store, &orders[k]) {
            Ok(()) => {},
            Err(e) => {
                proof {
                    assert(edits_outcome(start, next) == (so_far, Some(e)));
                    lemma_failure_ends_edits(start, orders.deep_view(), k + 1);
                }
                return Err(e);
            },
        }
        k = k + 1;
    }
    assert(orders.deep_view().take(k as int) =~= orders.deep_view());
    Ok(())
}

/// Once a sequence of edits has failed, no further edit is made.
pub proof fn lemma_failure_ends_edits(store: StoreView, steps: Seq<EditStep>, n: int)
    requires
        0 <= n <= steps.len(),
        edits_outcome(store, steps.take(n)).1 is Some,
    ensures
        edits_outcome(store, steps) == edits_outcome(store, steps.take(n)),
    decreases steps.len() - n,
{
    if n == steps.len() {
        assert(steps.take(n) =~= steps);
    } else {
        assert(steps.take(n + 1).drop_last() =~= steps.take(n));
        lemma_failure_ends_edits(store, steps, n + 1);
    }
}

/// A sequence of edits gets through exactly when each edit succeeds on
/// the store that the edits before it left; the store is then the one
/// that holds them all.
pub proof fn lemma_edits_outcome(store: StoreView, steps: Seq<EditStep>)
    ensures
        edits_outcome(store, steps).1 is None <==> edits_apply(store, steps),
        edits_apply(store, steps) ==> edits_outcome(store, steps).0 == after_edits(store, steps),
    decreases steps.len(),
{
    if steps.len() > 0 {
        lemma_edits_outcome(store, steps.drop_last());
    }
}

/// One edit extends a lineage by one: the store keeps every entry, gains
/// the edit as its last, and the manifest of the edit names the manifest
/// that was active before as its parent and records the parent being
/// opened, then modified.
pub proof fn lemma_edit_extends_lineage(store: StoreView, step: EditStep)
    requires
        store.wf(),
        store.is_lineage(),
        step.applies_to(store),
    ensures
        ({
            let after = step.applied_to(store);
            let manifest = step.manifest_on(store);
            &&& after.wf()
            &&& after.is_lineage()
            &&& after.entries.len() == store.entries.len() + 1
            &&& store.entries.len() > 0
            &&& after.entries.take(store.entries.len() as int) == store.entries
            &&& after.entries.last().label == step.label
            &&& after.entries.last().instance_id == step.instance_id
            &&& after.entries.last().manifest == manifest
            &&& manifest.wf()
            &&& manifest.parent_id() == Some(store.entries.last().instance_id)
            &&& manifest.actions() == linked_actions(
                step.kind,
                store.entries.last().instance_id,
                step.model.model,
                step.now.text(),
            )
            &&& store.trusted() ==> after.trusted()
        }),
{
    let after = step.applied_to(store);
    let manifest = step.manifest_on(store);
    if store.trusted() {
        lemma_embedding_keeps_trust(store, step.label, step.instance_id, manifest);
    }
    let parent = crate::ingredient::IngredientView {
        instance_id: store.active_id(),
        source_path: step.source,
    };
    assert(store.active_id() is Some);
    lemma_edited_manifest_wf(parent, step.kind, step.model, step.prompt, step.now.text());
    assert(after.entries.take(store.entries.len() as int) =~= store.entries);
    assert forall|k: int| 0 < k < after.entries.len() implies (
    #[trigger] after.entries[k]).manifest.parent_id() == Some(
        after.entries[k - 1].instance_id,
    ) by {
        if k < store.entries.len() {
            assert(after.entries[k] == store.entries[k]);
            assert(after.entries[k - 1] == store.entries[k - 1]);
        }
    }
}

/// A created asset and every edit of it form one lineage: after `N`
/// edits the store lists `N + 1` manifests, the created one first and
/// the edits in the order in which they were made; it has lost nothing
/// it held; and every manifest after the first names its immediate
/// predecessor as its parent.
pub proof fn lemma_edits_extend_lineage(store: StoreView, steps: Seq<EditStep>)
    requires
        store.wf(),
        store.is_lineage(),
        edits_apply(store, steps),
    ensures
        ({
            let after = after_edits(store, steps);
            &&& after.wf()
            &&& after.is_lineage()
            &&& after.entries.len() == store.entries.len() + steps.len()
            &&& after.entries.take(store.entries.len() as int) == store.entries
            &&& forall|k: int|
                0 <= k < steps.len() ==> (#[trigger] after.entries[store.entries.len() + k]).label
                    == steps[k].label && after.entries[store.entries.len() + k].instance_id
                    == steps[k].instance_id
            &&& forall|k: int|
                0 < k < after.entries.len() ==> (#[trigger] after.entries[k]).manifest.parent_id()
                    == Some(after.entries[k - 1].instance_id)
        }),
    decreases steps.len(),
{
    if steps.len() == 0 {
        assert(store.entries.take(store.entries.len() as int) =~= store.entries);
    } else {
        let earlier = steps.drop_last();
        let middle = after_edits(store, earlier);
        lemma_edits_extend_lineage(store, earlier);
        lemma_edit_extends_lineage(middle, steps.last());
        let after = after_edits(store, steps);
        let n = store.entries.len() as int;
        assert(after.entries.take(n) =~= middle.entries.take(n));
        assert forall|k: int| 0 <= k < steps.len() implies (#[trigger] after.entries[n + k]).label
            == steps[k].label && after.entries[n + k].instance_id == steps[k].instance_id by {
            if k < earlier.len() {
                assert(after.entries[n + k] == middle.entries[n + k]);
                assert(earlier[k] == steps[k]);
            }
        }
    }
}

/// Each edit of a sequence records that its predecessor was opened and
/// then modified in the way that was asked for; and a store that was
/// trusted before the edits is trusted after them.
pub proof fn lemma_edits_record_their_actions(store: StoreView, steps: Seq<EditStep>, k: int)
    requires
        store.wf(),
        store.is_lineage(),
        edits_apply(store, steps),
        0 <= k < steps.len(),
    ensures
        ({
            let after = after_edits(store, steps);
            let place = store.entries.len() + k;
            &&& 0 < place < after.entries.len()
            &&& after.entries[place].manifest.actions() == linked_actions(
                steps[k].kind,
                after.entries[place - 1].instance_id,
                steps[k].model.model,
                steps[k].now.text(),
            )
            &&& store.trusted() ==> after.trusted()
        }),
    decreases steps.len(),
{
    let earlier = steps.drop_last();
    let middle = after_edits(store, earlier);
    let after = after_edits(store, steps);
    lemma_edits_extend_lineage(store, earlier);
    lemma_edit_extends_lineage(middle, steps.last());
    if k < earlier.len() {
        lemma_edits_record_their_actions(store, earlier, k);
        assert(earlier[k] == steps[k]);
        assert(after.entries[store.entries.len() + k] == middle.entries[store.entries.len() + k]);
        assert(after.entries[store.entries.len() + k - 1] == middle.entries[store.entries.len()
            + k - 1]);
    } else {
        if earlier.len() > 0 {
            lemma_edits_record_their_actions(store, earlier, k - 1);
        }
        assert(after.entries[store.entries.len() + k - 1] == middle.entries.last());
    }
}

/// The store of an asset right after the manifest that `create` built
/// for it was embedded in it.
pub open spec fn created_store(
    source: Seq<char>,
    dest: Option<Seq<char>>,
    prompt: PromptDataView,
    model: ModelDataView,
    author: Seq<char>,
    now: Timestamp,
    label: Seq<char>,
    instance_id: Seq<char>,
) -> StoreView {
    empty_store().appended(
        embedded_entry(
            label,
            instance_id,
            create_result(source, dest, prompt, model, author, now)->Ok_0.manifest,
        ),
    )
}

/// The store of an asset right after its creation: one manifest, which
/// records one `Created` action and has no parent, so that the store is
/// a lineage of its own.
pub proof fn lemma_created_store_is_lineage(
    source: Seq<char>,
    dest: Option<Seq<char>>,
    prompt: PromptDataView,
    model: ModelDataView,
    author: Seq<char>,
    now: Timestamp,
    label: Seq<char>,
    instance_id: Seq<char>,
)
    requires
        create_result(source, dest, prompt, model, author, now) is Ok,
    ensures
        ({
            let store = created_store(
                source,
                dest,
                prompt,
                model,
                author,
                now,
                label,
                instance_id,
            );
            &&& store.wf()
            &&& store.is_lineage()
            &&& store.trusted()
            &&& store.entries.len() == 1
            &&& store.entries[0].manifest.actions() == seq![
                created_action(model.model, now.text()),
            ]
        }),
{
    let request = create_result(source, dest, prompt, model, author, now)->Ok_0;
    lemma_created_manifest_wf(model, prompt, author, now.text());
    assert(all_findings(empty_store().entries) =~= Seq::empty());
    lemma_embedding_keeps_trust(empty_store(), label, instance_id, request.manifest);
}

/// Create, then edit `N` times: what a reader enumerates are `N + 1`
/// manifests, the created one first and the edits in the order in which
/// they were made, each under the label it was embedded with; every
/// manifest after the first names its immediate predecessor as its
/// parent, and no other manifest of the store has the identifier it
/// names; and nothing is found against the store.
pub proof fn lemma_created_then_edited(
    source: Seq<char>,
    dest: Option<Seq<char>>,
    prompt: PromptDataView,
    model: ModelDataView,
    author: Seq<char>,
    now: Timestamp,
    label: Seq<char>,
    instance_id: Seq<char>,
    steps: Seq<EditStep>,
)
    requires
        create_result(source, dest, prompt, model, author, now) is Ok,
        edits_apply(
            created_store(source, dest, prompt, model, author, now, label, instance_id),
            steps,
        ),
    ensures
        ({
            let first = create_result(source, dest, prompt, model, author, now)->Ok_0.manifest;
            let store = after_edits(
                created_store(source, dest, prompt, model, author, now, label, instance_id),
                steps,
            );
            &&& store.wf()
            &&& store.trusted()
            &&& store.listing().len() == steps.len() + 1
            &&& store.listing()[0] == (label, first)
            &&& forall|k: int|
                0 <= k < steps.len() ==> (#[trigger] store.listing()[k + 1]).0 == steps[k].label
            &&& forall|k: int|
                0 < k < store.entries.len() ==> (#[trigger] store.entries[k]).manifest.parent_id()
                    == Some(store.entries[k - 1].instance_id)
            &&& forall|k: int, i: int|
                0 < k < store.entries.len() && 0 <= i < store.entries.len() ==> ((
                #[trigger] store.entries[i]).instance_id == (
                #[trigger] store.entries[k]).manifest.parent_id()->Some_0 <==> i == k - 1)
        }),
{
    let start = created_store(source, dest, prompt, model, author, now, label, instance_id);
    let store = after_edits(start, steps);
    lemma_created_store_is_lineage(source, dest, prompt, model, author, now, label, instance_id);
    lemma_edits_extend_lineage(start, steps);
    if steps.len() > 0 {
        lemma_edits_record_their_actions(start, steps, 0);
    }
    assert(store.entries.take(1)[0] == start.entries[0]);
    assert forall|k: int| 0 <= k < steps.len() implies (#[trigger] store.listing()[k + 1]).0
        == steps[k].label by {
        assert(store.entries[1 + k].label == steps[k].label);
    }
    assert forall|k: int, i: int|
        0 < k < store.entries.len() && 0 <= i < store.entries.len() implies ((
    #[trigger] store.entries[i]).instance_id == (
    #[trigger] store.entries[k]).manifest.parent_id()->Some_0 <==> i == k - 1) by {
        lemma_parent_resolves_to_predecessor(store, k);
    }
}

} // verus!
