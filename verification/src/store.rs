//! The manifest store of one asset: every manifest ever embedded in it,
//! in embedding order, with what validation found for each.

use vstd::prelude::*;
use crate::error::{clone_statuses, EngineError, ValidationStatus, ValidationStatusView};
use crate::manifest::{Manifest, ManifestView};
use crate::text::same_text;

verus! {

pub struct EntryView {
    pub label: Seq<char>,
    pub instance_id: Seq<char>,
    pub manifest: ManifestView,
    pub findings: Seq<ValidationStatusView>,
}

/// One embedded manifest: the label that keys it in the store, its
/// instance identifier, and the mismatches that validation found
/// between it and the asset.
#[derive(Debug, PartialEq, Eq)]
pub struct StoreEntry {
    label: String,
    instance_id: String,
    manifest: Manifest,
    findings: Vec<ValidationStatus>,
}

impl View for StoreEntry {
    type V = EntryView;

    closed spec fn view(&self) -> EntryView {
        EntryView {
            label: self.label@,
            instance_id: self.instance_id@,
            manifest: self.manifest@,
            findings: self.findings.deep_view(),
        }
    }
}

impl DeepView for StoreEntry {
    type V = EntryView;

    open spec fn deep_view(&self) -> EntryView {
        self@
    }
}

impl Clone for StoreEntry {
    fn clone(&self) -> (r: Self)
        ensures
            r@ == self@,
    {
        StoreEntry {
            label: self.label.clone(),
            instance_id: self.instance_id.clone(),
            manifest: self.manifest.clone(),
            findings: clone_statuses(&self.findings),
        }
    }
}

impl StoreEntry {
    pub fn new(
        label: &str,
        instance_id: &str,
        manifest: Manifest,
        findings: Vec<ValidationStatus>,
    ) -> (r: StoreEntry)
        ensures
            r@ == (EntryView {
                label: label@,
                instance_id: instance_id@,
                manifest: manifest@,
                findings: findings.deep_view(),
            }),
    {
        StoreEntry {
            label: label.to_owned(),
            instance_id: instance_id.to_owned(),
            manifest,
            findings,
        }
    }

    pub fn label(&self) -> (r: &str)
        ensures
            r@ == self@.label,
    {
        self.label.as_str()
    }

    pub fn instance_id(&self) -> (r: &str)
        ensures
            r@ == self@.instance_id,
    {
        self.instance_id.as_str()
    }

    pub fn manifest(&self) -> (r: &Manifest)
        ensures
            r@ == self@.manifest,
    {
        &self.manifest
    }

    pub fn findings(&self) -> (r: &Vec<ValidationStatus>)
        ensures
            r.deep_view() == self@.findings,
    {
        &self.findings
    }
}

/// The findings of all entries of a list, entry by entry.
pub open spec fn all_findings(entries: Seq<EntryView>) -> Seq<ValidationStatusView>
    decreases entries.len(),
{
    if entries.len() == 0 {
        Seq::empty()
    } else {
        all_findings(entries.drop_last()) + entries.last().findings
    }
}

/// A list of statuses without its repetitions: each status stands once,
/// where it first occurred.
pub open spec fn without_repeats(list: Seq<ValidationStatusView>) -> Seq<ValidationStatusView>
    decreases list.len(),
{
    if list.len() == 0 {
        Seq::empty()
    } else {
        let head = without_repeats(list.drop_last());
        if head.contains(list.last()) {
            head
        } else {
            head.push(list.last())
        }
    }
}

pub struct StoreView {
    pub entries: Seq<EntryView>,
}

impl StoreView {
    /// Whether some entry is keyed by `label`.
    pub open spec fn has_label(self, label: Seq<char>) -> bool {
        exists|i: int| 0 <= i < self.entries.len() && (#[trigger] self.entries[i]).label == label
    }

    /// Whether some entry has the instance identifier `id`.
    pub open spec fn has_instance(self, id: Seq<char>) -> bool {
        exists|i: int| 0 <= i < self.entries.len() && (#[trigger] self.entries[i]).instance_id == id
    }

    /// What every store satisfies: no two entries share a label, and no
    /// two share an instance identifier.
    pub open spec fn wf(self) -> bool {
        &&& forall|i: int, j: int|
            0 <= i < j < self.entries.len() ==> (#[trigger] self.entries[i]).label != (
            #[trigger] self.entries[j]).label
        &&& forall|i: int, j: int|
            0 <= i < j < self.entries.len() ==> (#[trigger] self.entries[i]).instance_id != (
            #[trigger] self.entries[j]).instance_id
    }

    /// The most recently embedded entry: the one that says what the
    /// asset is now.
    pub open spec fn active(self) -> Option<EntryView> {
        if self.entries.len() == 0 {
            None
        } else {
            Some(self.entries.last())
        }
    }

    /// The instance identifier of the active manifest.
    pub open spec fn active_id(self) -> Option<Seq<char>> {
        match self.active() {
            Some(entry) => Some(entry.instance_id),
            None => None,
        }
    }

    /// The store with one more entry at its end.
    pub open spec fn appended(self, entry: EntryView) -> StoreView {
        StoreView { entries: self.entries.push(entry) }
    }

    /// What adding `entry` gives: the store with the entry at its end, or
    /// a refusal where the label or the instance identifier of the entry
    /// is taken.
    pub open spec fn gaining(self, entry: EntryView) -> Result<StoreView, EngineError> {
        if self.has_label(entry.label) || self.has_instance(entry.instance_id) {
            Err(EngineError::DuplicateLabel)
        } else {
            Ok(self.appended(entry))
        }
    }

    /// The validation status of the store: what was found for any of its
    /// manifests, active or not, each status once.
    pub open spec fn statuses(self) -> Seq<ValidationStatusView> {
        without_repeats(all_findings(self.entries))
    }

    /// A store is trusted when nothing was found against any of its
    /// manifests. There is no trust in part.
    pub open spec fn trusted(self) -> bool {
        self.statuses().len() == 0
    }

    /// The manifests of the store with their labels, from the first
    /// embedded to the latest.
    pub open spec fn listing(self) -> Seq<(Seq<char>, ManifestView)> {
        Seq::new(self.entries.len(), |i: int| (self.entries[i].label, self.entries[i].manifest))
    }

    /// Whether the store is one unbroken lineage: its first manifest has
    /// no parent, and every later one names its immediate predecessor.
    pub open spec fn is_lineage(self) -> bool {
        &&& self.entries.len() > 0 ==> self.entries[0].manifest.parent_id() is None
        &&& forall|k: int|
            0 < k < self.entries.len() ==> (#[trigger] self.entries[k]).manifest.parent_id()
                == Some(self.entries[k - 1].instance_id)
    }
}

/// All manifests embedded in one asset over its lifetime.
#[derive(Debug, PartialEq, Eq)]
pub struct ManifestStore {
    entries: Vec<StoreEntry>,
}

impl View for ManifestStore {
    type V = StoreView;

    closed spec fn view(&self) -> StoreView {
        StoreView { entries: self.entries.deep_view() }
    }
}

impl DeepView for ManifestStore {
    type V = StoreView;

    open spec fn deep_view(&self) -> StoreView {
        self@
    }
}

/// Whether a status is in a list.
fn holds_status(list: &Vec<ValidationStatus>, status: &ValidationStatus) -> (r: bool)
    ensures
        r == list.deep_view().contains(status@),
{
    let mut i: usize = 0;
    while i < list.len()
        invariant
            i <= list.len(),
            forall|k: int| 0 <= k < i ==> #[trigger] list.deep_view()[k] != status@,
        decreases list.len() - i,
    {
        if list[i].same_as(status) {
            assert(list.deep_view()[i as int] == status@);
            return true;
        }
        i = i + 1;
    }
    false
}

impl Clone for ManifestStore {
    fn clone(&self) -> (r: Self)
        ensures
            r@ == self@,
    {
        let mut out: Vec<StoreEntry> = Vec::new();
        let mut i: usize = 0;
        while i < self.entries.len()
            invariant
                i <= self.entries.len(),
                out.len() == i,
                forall|j: int| 0 <= j < i ==> out[j]@ == self.entries[j]@,
            decreases self.entries.len() - i,
        {
            out.push(self.entries[i].clone());
            i = i + 1;
        }
        proof {
            use_type_invariant(self);
            assert(out.deep_view() =~= self.entries.deep_view());
        }
        ManifestStore { entries: out }
    }
}

impl ManifestStore {
    #[verifier::type_invariant]
    spec fn well_formed(&self) -> bool {
        self@.wf()
    }

    /// A store without manifests.
    pub fn new() -> (r: ManifestStore)
        ensures
            r@.entries == Seq::<EntryView>::empty(),
            r@.wf(),
    {
        let entries: Vec<StoreEntry> = Vec::new();
        assert(entries.deep_view() =~= Seq::empty());
        ManifestStore { entries }
    }

    /// The number of manifests. The store they stand in is well formed,
    /// as every store is.
    pub fn len(&self) -> (r: usize)
        ensures
            r == self@.entries.len(),
            self@.wf(),
    {
        proof {
            use_type_invariant(self);
        }
        self.entries.len()
    }

    pub fn is_empty(&self) -> (r: bool)
        ensures
            r == (self@.entries.len() == 0),
    {
        self.entries.len() == 0
    }

    /// Whether some entry is keyed by `label`.
    pub fn has_label(&self, label: &str) -> (r: bool)
        ensures
            r == self@.has_label(label@),
    {
        let mut i: usize = 0;
        while i < self.entries.len()
            invariant
                i <= self.entries.len(),
                forall|k: int| 0 <= k < i ==> (#[trigger] self@.entries[k]).label != label@,
            decreases self.entries.len() - i,
        {
            if same_text(self.entries[i].label.as_str(), label) {
                assert(self@.entries[i as int].label == label@);
                return true;
            }
            i = i + 1;
        }
        false
    }

    /// The place of the manifest with the instance identifier `id`. No
    /// other manifest of the store has that identifier.
    pub fn position_of(&self, id: &str) -> (r: Option<usize>)
        ensures
            r is Some <==> self@.has_instance(id@),
            r matches Some(i) ==> i < self@.entries.len() && self@.entries[i as int].instance_id
                == id@,
            forall|k: int|
                0 <= k < self@.entries.len() && (#[trigger] self@.entries[k]).instance_id == id@
                    ==> r == Some(k as usize),
    {
        proof {
            use_type_invariant(self);
        }
        let mut i: usize = 0;
        while i < self.entries.len()
            invariant
                i <= self.entries.len(),
                self@.wf(),
                forall|k: int| 0 <= k < i ==> (#[trigger] self@.entries[k]).instance_id != id@,
            decreases self.entries.len() - i,
        {
            if same_text(self.entries[i].instance_id.as_str(), id) {
                assert(self@.entries[i as int].instance_id == id@);
                assert forall|k: int|
                    0 <= k < self@.entries.len() && (#[trigger] self@.entries[k]).instance_id
                        == id@ implies k == i by {
                    if k > i {
                        assert(self@.entries[i as int].instance_id != self@.entries[k].instance_id);
                    }
                }
                return Some(i);
            }
            i = i + 1;
        }
        None
    }

    /// Adds an entry at the end of the store. Where the label or the
    /// instance identifier is taken, the store stays as it was.
    pub fn append(
        &mut self,
        label: &str,
        instance_id: &str,
        manifest: Manifest,
        findings: Vec<ValidationStatus>,
    ) -> (r: Result<(), EngineError>)
        ensures
            final(self)@.wf(),
            match old(self)@.gaining(
                EntryView {
                    label: label@,
                    instance_id: instance_id@,
                    manifest: manifest@,
                    findings: findings.deep_view(),
                },
            ) {
                Ok(store) => r is Ok && final(self)@ == store,
                Err(e) => r == Err::<(), EngineError>(e) && final(self)@ == old(self)@,
            },
    {
        proof {
            use_type_invariant(&*self);
        }
        if self.has_label(label) {
            return Err(EngineError::DuplicateLabel);
        }
        if self.position_of(instance_id).is_some() {
            return Err(EngineError::DuplicateLabel);
        }
        let ghost before = self@.entries;
        let entry = StoreEntry {
            label: label.to_owned(),
            instance_id: instance_id.to_owned(),
            manifest,
            findings,
        };
        let mut entries: Vec<StoreEntry> = Vec::new();
        assert(entries.deep_view() =~= Seq::empty());
        std::mem::swap(&mut self.entries, &mut entries);
        entries.push(entry);
        assert(entries.deep_view() =~= before.push(entry@));
        assert((StoreView { entries: before.push(entry@) }).wf());
        std::mem::swap(&mut self.entries, &mut entries);
        Ok(())
    }

    /// Adds a copy of `entry` at the end of the store. Where its label or
    /// its instance identifier is taken, the store stays as it was.
    pub fn append_entry(&mut self, entry: &StoreEntry) -> (r: Result<(), EngineError>)
        ensures
            final(self)@.wf(),
            match old(self)@.gaining(entry@) {
                Ok(store) => r is Ok && final(self)@ == store,
                Err(e) => r == Err::<(), EngineError>(e) && final(self)@ == old(self)@,
            },
    {
        self.append(
            entry.label.as_str(),
            entry.instance_id.as_str(),
            entry.manifest.clone(),
            clone_statuses(&entry.findings),
        )
    }

    /// Records that `manifest` was signed and embedded: the store gains
    /// it as its last entry, with nothing found against it, and keeps
    /// every entry it had.
    pub fn embed(&mut self, label: &str, instance_id: &str, manifest: Manifest) -> (r: Result<
        (),
        EngineError,
    >)
        ensures
            final(self)@.wf(),
            match old(self)@.gaining(
                EntryView {
                    label: label@,
                    instance_id: instance_id@,
                    manifest: manifest@,
                    findings: Seq::empty(),
                },
            ) {
                Ok(store) => r is Ok && final(self)@ == store,
                Err(e) => r == Err::<(), EngineError>(e) && final(self)@ == old(self)@,
            },
    {
        let findings: Vec<ValidationStatus> = Vec::new();
        assert(findings.deep_view() =~= Seq::empty());
        self.append(label, instance_id, manifest, findings)
    }

    /// The entry at place `index` in embedding order.
    pub fn get(&self, index: usize) -> (r: Option<&StoreEntry>)
        ensures
            index >= self@.entries.len() ==> r is None,
            index < self@.entries.len() ==> r is Some && r->Some_0@ == self@.entries[index as int],
    {
        if index < self.entries.len() {
            Some(&self.entries[index])
        } else {
            None
        }
    }

    /// The most recently embedded entry.
    pub fn active_entry(&self) -> (r: Option<&StoreEntry>)
        ensures
            r.deep_view() == self@.active(),
    {
        let n = self.entries.len();
        if n == 0 {
            None
        } else {
            Some(&self.entries[n - 1])
        }
    }

    /// The active manifest: the most recently embedded one.
    pub fn active_manifest(&self) -> (r: Option<&Manifest>)
        ensures
            match self@.active() {
                Some(entry) => r is Some && r->Some_0@ == entry.manifest,
                None => r is None,
            },
    {
        match self.active_entry() {
            Some(entry) => Some(&entry.manifest),
            None => None,
        }
    }

    /// All manifests with their labels, from the first embedded to the
    /// latest.
    pub fn enumerate(&self) -> (r: Vec<(String, Manifest)>)
        ensures
            r.deep_view() == self@.listing(),
    {
        let mut out: Vec<(String, Manifest)> = Vec::new();
        let mut i: usize = 0;
        while i < self.entries.len()
            invariant
                i <= self.entries.len(),
                out.len() == i,
                forall|k: int|
                    0 <= k < i ==> (#[trigger] out[k]).0@ == self@.entries[k].label && out[k].1@
                        == self@.entries[k].manifest,
            decreases self.entries.len() - i,
        {
            let entry = &self.entries[i];
            assert(entry@ == self@.entries[i as int]);
            out.push((entry.label.clone(), entry.manifest.clone()));
            i = i + 1;
        }
        assert(out.deep_view() =~= self@.listing());
        out
    }

    /// The validation status of the store: every status found for any of
    /// its manifests, once each, in the order in which they were found.
    pub fn validate(&self) -> (r: Vec<ValidationStatus>)
        ensures
            r.deep_view() == self@.statuses(),
    {
        let mut out: Vec<ValidationStatus> = Vec::new();
        let mut i: usize = 0;
        assert(self@.entries.take(0) =~= Seq::empty());
        assert(out.deep_view() =~= Seq::empty());
        while i < self.entries.len()
            invariant
                i <= self.entries.len(),
                out.deep_view() == without_repeats(all_findings(self@.entries.take(i as int))),
            decreases self.entries.len() - i,
        {
            let ghost seen = all_findings(self@.entries.take(i as int));
            let ghost next = self@.entries.take(i + 1);
            assert(next.drop_last() =~= self@.entries.take(i as int));
            assert(next.last() == self@.entries[i as int]);
            let findings = &self.entries[i].findings;
            assert(findings.deep_view() == self@.entries[i as int].findings);
            let mut j: usize = 0;
            assert(seen + findings.deep_view().take(0) =~= seen);
            while j < findings.len()
                invariant
                    j <= findings.len(),
                    out.deep_view() == without_repeats(seen + findings.deep_view().take(j as int)),
                decreases findings.len() - j,
            {
                let ghost before = seen + findings.deep_view().take(j as int);
                let ghost after = seen + findings.deep_view().take(j + 1);
                assert(after.drop_last() =~= before);
                assert(after.last() == findings[j as int]@);
                if !holds_status(&out, &findings[j]) {
                    let ghost grown = out.deep_view();
                    out.push(findings[j].clone());
                    assert(out.deep_view() =~= grown.push(findings[j as int]@));
                }
                j = j + 1;
            }
            assert(findings.deep_view().take(j as int) =~= findings.deep_view());
            i = i + 1;
        }
        assert(self@.entries.take(i as int) =~= self@.entries);
        out
    }

    /// Whether the store is one unbroken lineage: the first manifest has
    /// no parent, and every later one names its immediate predecessor.
    pub fn is_lineage(&self) -> (r: bool)
        ensures
            r == self@.is_lineage(),
    {
        let n = self.entries.len();
        if n == 0 {
            return true;
        }
        assert(self@.entries[0] == self.entries[0]@);
        if self.entries[0].manifest.parent_id().is_some() {
            return false;
        }
        let mut k: usize = 1;
        while k < n
            invariant
                1 <= k <= n,
                n == self.entries.len(),
                self@.entries[0].manifest.parent_id() is None,
                forall|i: int|
                    0 < i < k ==> (#[trigger] self@.entries[i]).manifest.parent_id() == Some(
                        self@.entries[i - 1].instance_id,
                    ),
            decreases n - k,
        {
            assert(self@.entries[k as int] == self.entries[k as int]@);
            assert(self@.entries[k - 1] == self.entries[k - 1]@);
            let named = match self.entries[k].manifest.parent_id() {
                Some(id) => same_text(id.as_str(), self.entries[k - 1].instance_id.as_str()),
                None => false,
            };
            if !named {
                assert(self@.entries[k as int].manifest.parent_id() != Some(
                    self@.entries[k - 1].instance_id,
                ));
                return false;
            }
            k = k + 1;
        }
        true
    }

    /// Whether nothing was found against any manifest of the store.
    pub fn is_trusted(&self) -> (r: bool)
        ensures
            r == self@.trusted(),
    {
        self.validate().len() == 0
    }
}

/// Dropping repetitions neither loses a status nor invents one.
pub proof fn lemma_without_repeats_members(list: Seq<ValidationStatusView>)
    ensures
        forall|s: ValidationStatusView|
            #[trigger] without_repeats(list).contains(s) <==> list.contains(s),
        without_repeats(list).no_duplicates(),
        without_repeats(list).len() <= list.len(),
    decreases list.len(),
{
    if list.len() > 0 {
        let rest = list.drop_last();
        let head = without_repeats(rest);
        lemma_without_repeats_members(rest);
        assert forall|s: ValidationStatusView|
            #[trigger] without_repeats(list).contains(s) <==> list.contains(s) by {
            if list.contains(s) {
                let i = choose|i: int| 0 <= i < list.len() && list[i] == s;
                if i < list.len() - 1 {
                    assert(rest[i] == s);
                    assert(rest.contains(s));
                    assert(head.contains(s));
                    if !head.contains(list.last()) {
                        let k = choose|k: int| 0 <= k < head.len() && head[k] == s;
                        assert(head.push(list.last())[k] == s);
                    }
                } else {
                    if !head.contains(list.last()) {
                        assert(head.push(list.last())[head.len() as int] == s);
                    }
                }
            }
            if without_repeats(list).contains(s) {
                let k = choose|k: int|
                    0 <= k < without_repeats(list).len() && without_repeats(list)[k] == s;
                if k < head.len() {
                    assert(head[k] == s);
                    assert(head.contains(s));
                    assert(rest.contains(s));
                    let i = choose|i: int| 0 <= i < rest.len() && rest[i] == s;
                    assert(list[i] == s);
                } else {
                    assert(list[list.len() - 1] == s);
                }
            }
        }
    }
}

/// Every finding of every entry is among the findings of the store.
pub proof fn lemma_all_findings_members(entries: Seq<EntryView>, k: int, j: int)
    requires
        0 <= k < entries.len(),
        0 <= j < entries[k].findings.len(),
    ensures
        all_findings(entries).contains(entries[k].findings[j]),
    decreases entries.len(),
{
    let rest = all_findings(entries.drop_last());
    let last = entries.last().findings;
    if k == entries.len() - 1 {
        assert((rest + last)[rest.len() + j] == last[j]);
    } else {
        lemma_all_findings_members(entries.drop_last(), k, j);
        let i = choose|i: int| 0 <= i < rest.len() && rest[i] == entries[k].findings[j];
        assert((rest + last)[i] == rest[i]);
    }
}

/// The findings of a store are empty exactly when the findings of each
/// of its entries are.
pub proof fn lemma_all_findings_empty(entries: Seq<EntryView>)
    ensures
        all_findings(entries).len() == 0 <==> forall|k: int|
            0 <= k < entries.len() ==> (#[trigger] entries[k]).findings.len() == 0,
    decreases entries.len(),
{
    if entries.len() > 0 {
        lemma_all_findings_empty(entries.drop_last());
        if all_findings(entries).len() == 0 {
            assert forall|k: int| 0 <= k < entries.len() implies (
            #[trigger] entries[k]).findings.len() == 0 by {
                if k < entries.len() - 1 {
                    assert(entries.drop_last()[k] == entries[k]);
                }
            }
        }
        if forall|k: int| 0 <= k < entries.len() ==> (#[trigger] entries[k]).findings.len() == 0 {
            assert(entries[entries.len() - 1].findings.len() == 0);
            assert forall|k: int| 0 <= k < entries.drop_last().len() implies (
            #[trigger] entries.drop_last()[k]).findings.len() == 0 by {
                assert(entries.drop_last()[k] == entries[k]);
            }
        }
    }
}

/// No trust in part: a store is untrusted as soon as anything was found
/// against any one of its manifests, whether the active one or an
/// earlier one, and its status then names that finding.
pub proof fn lemma_any_finding_is_reported(store: StoreView, k: int, j: int)
    requires
        0 <= k < store.entries.len(),
        0 <= j < store.entries[k].findings.len(),
    ensures
        store.statuses().contains(store.entries[k].findings[j]),
        !store.trusted(),
{
    lemma_all_findings_members(store.entries, k, j);
    lemma_without_repeats_members(all_findings(store.entries));
}

/// In a store that is one lineage, the parent that a manifest names
/// resolves to its immediate predecessor and to no other manifest.
pub proof fn lemma_parent_resolves_to_predecessor(store: StoreView, k: int)
    requires
        store.wf(),
        store.is_lineage(),
        0 < k < store.entries.len(),
    ensures
        store.entries[k].manifest.parent_id() is Some,
        store.has_instance(store.entries[k].manifest.parent_id()->Some_0),
        forall|i: int|
            0 <= i < store.entries.len() ==> ((#[trigger] store.entries[i]).instance_id
                == store.entries[k].manifest.parent_id()->Some_0 <==> i == k - 1),
{
    let id = store.entries[k].manifest.parent_id()->Some_0;
    assert(store.entries[k - 1].instance_id == id);
    assert forall|i: int| 0 <= i < store.entries.len() implies ((
    #[trigger] store.entries[i]).instance_id == id <==> i == k - 1) by {
        if i < k - 1 {
            assert(store.entries[i].instance_id != store.entries[k - 1].instance_id);
        } else if i > k - 1 {
            assert(store.entries[k - 1].instance_id != store.entries[i].instance_id);
        }
    }
}

/// A store is trusted exactly when nothing was found against any of its
/// manifests; and its status never names anything that was not found.
pub proof fn lemma_trusted_iff_no_finding(store: StoreView)
    ensures
        store.trusted() <==> forall|k: int|
            0 <= k < store.entries.len() ==> (#[trigger] store.entries[k]).findings.len() == 0,
        store.statuses().no_duplicates(),
        forall|s: ValidationStatusView|
            #[trigger] store.statuses().contains(s) <==> all_findings(store.entries).contains(s),
{
    let found = all_findings(store.entries);
    lemma_without_repeats_members(found);
    lemma_all_findings_empty(store.entries);
    if found.len() > 0 {
        assert(found.contains(found[0]));
        assert(without_repeats(found).contains(found[0]));
    }
}

} // verus!
