//! Putting a store in embedding order.
//!
//! A container may hand out the manifests of a store in no particular
//! order, together with the label of the active one. The order is found
//! again from the manifests themselves: the active manifest is the last,
//! before it stands the manifest it names as its parent, and so on back
//! to the first. Manifests that the active one does not descend from
//! keep their order and stand before the lineage.

use vstd::prelude::*;
use crate::error::EngineError;
use crate::store::{EntryView, ManifestStore, StoreEntry, StoreView};
use crate::text::same_text;

verus! {

/// The first place at or after `from` whose entry is keyed by `label`.
pub open spec fn place_of_label(parts: Seq<EntryView>, label: Seq<char>, from: int) -> Option<
    usize,
>
    decreases parts.len() - from,
{
    if from < 0 || from >= parts.len() {
        None
    } else if parts[from].label == label {
        Some(from as usize)
    } else {
        place_of_label(parts, label, from + 1)
    }
}

/// The first place at or after `from` whose entry has the instance
/// identifier `id`.
pub open spec fn place_of_instance(parts: Seq<EntryView>, id: Seq<char>, from: int) -> Option<
    usize,
>
    decreases parts.len() - from,
{
    if from < 0 || from >= parts.len() {
        None
    } else if parts[from].instance_id == id {
        Some(from as usize)
    } else {
        place_of_instance(parts, id, from + 1)
    }
}

/// The place of the parent that the entry at `place` names, if it names
/// one that is among the parts.
pub open spec fn place_of_parent(parts: Seq<EntryView>, place: usize) -> Option<usize> {
    match parts[place as int].manifest.parent_id() {
        Some(id) => place_of_instance(parts, id, 0),
        None => None,
    }
}

/// The places of a lineage read backwards, continued from the places
/// `passed` so far: `start`, the parent it names, the parent of that
/// one, and so on. The walk ends where a manifest names no parent, or
/// one that is not among the parts, or one that was passed already; and
/// in any case after `steps` places.
pub open spec fn lineage_back(
    parts: Seq<EntryView>,
    start: Option<usize>,
    passed: Seq<usize>,
    steps: nat,
) -> Seq<usize>
    decreases steps,
{
    match start {
        Some(place) => if steps == 0 || place >= parts.len() || passed.contains(place) {
            passed
        } else {
            lineage_back(
                parts,
                place_of_parent(parts, place),
                passed.push(place),
                (steps - 1) as nat,
            )
        },
        None => passed,
    }
}

/// The places of the lineage that ends in the entry at `active`, read
/// backwards from there.
pub open spec fn lineage_of(parts: Seq<EntryView>, active: usize) -> Seq<usize> {
    lineage_back(parts, Some(active), Seq::empty(), parts.len())
}

/// The places below `n` that are not in `chain`, in rising order.
pub open spec fn places_outside(chain: Seq<usize>, n: nat) -> Seq<usize>
    decreases n,
{
    if n == 0 {
        Seq::empty()
    } else {
        let below = places_outside(chain, (n - 1) as nat);
        if chain.contains((n - 1) as usize) {
            below
        } else {
            below.push((n - 1) as usize)
        }
    }
}

/// The places of the parts in embedding order, for the lineage that
/// ends in the entry at `active`.
pub open spec fn embedding_order(parts: Seq<EntryView>, active: usize) -> Seq<usize> {
    let chain = lineage_of(parts, active);
    places_outside(chain, parts.len()) + chain.reverse()
}

/// The store that holds the parts at the places `order`, appended one
/// after the other; none where a label or an instance identifier would
/// stand twice.
pub open spec fn store_in_order(parts: Seq<EntryView>, order: Seq<usize>) -> Result<
    StoreView,
    EngineError,
>
    decreases order.len(),
{
    if order.len() == 0 {
        Ok(StoreView { entries: Seq::empty() })
    } else {
        match store_in_order(parts, order.drop_last()) {
            Err(e) => Err(e),
            Ok(store) => store.gaining(parts[order.last() as int]),
        }
    }
}

/// What assembling gives: no store without parts that hold the active
/// label; else the parts in embedding order, unless a label or an
/// instance identifier stands twice among them.
pub open spec fn assembled(parts: Seq<EntryView>, active: Seq<char>) -> Result<
    StoreView,
    EngineError,
> {
    match place_of_label(parts, active, 0) {
        None => Err(EngineError::NoManifestPresent),
        Some(place) => store_in_order(parts, embedding_order(parts, place)),
    }
}

fn find_label(parts: &Vec<StoreEntry>, label: &str) -> (r: Option<usize>)
    ensures
        r == place_of_label(parts.deep_view(), label@, 0),
        r matches Some(place) ==> place < parts.len(),
{
    let mut i: usize = 0;
    while i < parts.len()
        invariant
            i <= parts.len(),
            place_of_label(parts.deep_view(), label@, 0) == place_of_label(
                parts.deep_view(),
                label@,
                i as int,
            ),
        decreases parts.len() - i,
    {
        assert(parts.deep_view()[i as int] == parts[i as int]@);
        if same_text(parts[i].label(), label) {
            return Some(i);
        }
        i = i + 1;
    }
    None
}

fn find_instance(parts: &Vec<StoreEntry>, id: &str) -> (r: Option<usize>)
    ensures
        r == place_of_instance(parts.deep_view(), id@, 0),
        r matches Some(place) ==> place < parts.len(),
{
    let mut i: usize = 0;
    while i < parts.len()
        invariant
            i <= parts.len(),
            place_of_instance(parts.deep_view(), id@, 0) == place_of_instance(
                parts.deep_view(),
                id@,
                i as int,
            ),
        decreases parts.len() - i,
    {
        assert(parts.deep_view()[i as int] == parts[i as int]@);
        if same_text(parts[i].instance_id(), id) {
            return Some(i);
        }
        i = i + 1;
    }
    None
}

fn find_parent(parts: &Vec<StoreEntry>, place: usize) -> (r: Option<usize>)
    requires
        place < parts.len(),
    ensures
        r == place_of_parent(parts.deep_view(), place),
        r matches Some(parent) ==> parent < parts.len(),
{
    assert(parts.deep_view()[place as int] == parts[place as int]@);
    match parts[place].manifest().parent_id() {
        Some(id) => find_instance(parts, id.as_str()),
        None => None,
    }
}

fn holds_place(places: &Vec<usize>, place: usize) -> (r: bool)
    ensures
        r == places@.contains(place),
{
    let mut i: usize = 0;
    while i < places.len()
        invariant
            i <= places.len(),
            forall|k: int| 0 <= k < i ==> places@[k] != place,
        decreases places.len() - i,
    {
        if places[i] == place {
            return true;
        }
        i = i + 1;
    }
    false
}

/// The places of the lineage that ends at `active`, read backwards.
fn trace_lineage(parts: &Vec<StoreEntry>, active: usize) -> (r: Vec<usize>)
    requires
        active < parts.len(),
    ensures
        r@ == lineage_of(parts.deep_view(), active),
        forall|k: int| 0 <= k < r.len() ==> r@[k] < parts.len(),
{
    let mut chain: Vec<usize> = Vec::new();
    let mut current: Option<usize> = Some(active);
    let mut steps: usize = parts.len();
    loop
        invariant
            steps <= parts.len(),
            current matches Some(place) ==> place < parts.len(),
            forall|k: int| 0 <= k < chain.len() ==> chain@[k] < parts.len(),
            lineage_back(parts.deep_view(), current, chain@, steps as nat) == lineage_of(
                parts.deep_view(),
                active,
            ),
        ensures
            chain@ == lineage_of(parts.deep_view(), active),
            forall|k: int| 0 <= k < chain.len() ==> chain@[k] < parts.len(),
        decreases steps,
    {
        let place = match current {
            Some(place) => place,
            None => {
                break;
            },
        };
        if steps == 0 || holds_place(&chain, place) {
            break;
        }
        current = find_parent(parts, place);
        chain.push(place);
        steps = steps - 1;
    }
    chain
}

/// The places in embedding order for the lineage that ends at `active`.
fn order_places(parts: &Vec<StoreEntry>, active: usize) -> (r: Vec<usize>)
    requires
        active < parts.len(),
    ensures
        r@ == embedding_order(parts.deep_view(), active),
        forall|k: int| 0 <= k < r.len() ==> r@[k] < parts.len(),
{
    let chain = trace_lineage(parts, active);
    let mut order: Vec<usize> = Vec::new();
    let mut i: usize = 0;
    while i < parts.len()
        invariant
            i <= parts.len(),
            order@ == places_outside(chain@, i as nat),
            forall|k: int| 0 <= k < order.len() ==> order@[k] < parts.len(),
        decreases parts.len() - i,
    {
        if !holds_place(&chain, i) {
            order.push(i);
        }
        i = i + 1;
    }
    let ghost outside = order@;
    let mut j: usize = chain.len();
    assert(chain@.reverse().take(0) =~= Seq::empty());
    assert(outside + Seq::<usize>::empty() =~= outside);
    while j > 0
        invariant
            j <= chain.len(),
            order@ == outside + chain@.reverse().take(chain.len() - j),
            forall|k: int| 0 <= k < chain.len() ==> chain@[k] < parts.len(),
            forall|k: int| 0 <= k < order.len() ==> order@[k] < parts.len(),
        decreases j,
    {
        j = j - 1;
        let ghost before = order@;
        order.push(chain[j]);
        assert(chain@.reverse()[chain.len() - 1 - j] == chain@[j as int]);
        assert(chain@.reverse().take(chain.len() - j) =~= chain@.reverse().take(
            chain.len() - j - 1,
        ).push(chain@[j as int]));
        assert(order@ =~= outside + chain@.reverse().take(chain.len() - j));
    }
    assert(chain@.reverse().take(chain.len() as int) =~= chain@.reverse());
    order
}

/// Assembles the store of an asset from its entries, given in any order,
/// and the label of the active manifest.
pub fn assemble(parts: &Vec<StoreEntry>, active: &str) -> (r: Result<ManifestStore, EngineError>)
    ensures
        match assembled(parts.deep_view(), active@) {
            Ok(store) => r is Ok && r->Ok_0@ == store,
            Err(e) => r is Err && r->Err_0 == e,
        },
{
    let place = match find_label(parts, active) {
        Some(place) => place,
        None => {
            return Err(EngineError::NoManifestPresent);
        },
    };
    let order = order_places(parts, place);
    let mut store = ManifestStore::new();
    let mut k: usize = 0;
    assert(order@.take(0) =~= Seq::empty());
    while k < order.len()
        invariant
            k <= order.len(),
            place_of_label(parts.deep_view(), active@, 0) == Some(place),
            order@ == embedding_order(parts.deep_view(), place),
            forall|i: int| 0 <= i < order.len() ==> order@[i] < parts.len(),
            store_in_order(parts.deep_view(), order@.take(k as int)) == Ok::<
                StoreView,
                EngineError,
            >(store@),
        decreases order.len() - k,
    {
        let ghost next = order@.take(k + 1);
        assert(next.drop_last() =~= order@.take(k as int));
        assert(next.last() == order@[k as int]);
        assert(parts.deep_view()[order@[k as int] as int] == parts[order@[k as int] as int]@);
        let ghost so_far = store@;
        let ghost entry = parts.deep_view()[order@[k as int] as int];
        match store.append_entry(&parts[order[k]]) {
            Ok(()) => {},
            Err(e) => {
                proof {
                    assert(so_far.has_label(entry.label) || so_far.has_instance(
                        entry.instance_id,
                    ));
                    assert(store_in_order(parts.deep_view(), next) == Err::<
                        StoreView,
                        EngineError,
                    >(EngineError::DuplicateLabel));
                    lemma_failure_stays(parts.deep_view(), order@, k + 1);
                }
                return Err(e);
            },
        }
        k = k + 1;
    }
    assert(order@.take(k as int) =~= order@);
    Ok(store)
}

/// Once the parts at the first `n` places of an order do not make a
/// store, no longer run of the order does.
pub proof fn lemma_failure_stays(parts: Seq<EntryView>, order: Seq<usize>, n: int)
    requires
        0 <= n <= order.len(),
        store_in_order(parts, order.take(n)) is Err,
    ensures
        store_in_order(parts, order) == store_in_order(parts, order.take(n)),
    decreases order.len() - n,
{
    if n == order.len() {
        assert(order.take(n) =~= order);
    } else {
        let longer = order.take(n + 1);
        assert(longer.drop_last() =~= order.take(n));
        lemma_failure_stays(parts, order, n + 1);
    }
}

/// A place that is found is the first at or after `from` that holds what
/// was looked for; none is found exactly when no place holds it.
pub proof fn lemma_place_found(parts: Seq<EntryView>, text: Seq<char>, from: int)
    requires
        parts.len() <= usize::MAX,
        0 <= from,
    ensures
        place_of_label(parts, text, from) matches Some(place) ==> from <= place < parts.len()
            && parts[place as int].label == text,
        place_of_instance(parts, text, from) matches Some(place) ==> from <= place < parts.len()
            && parts[place as int].instance_id == text,
        forall|k: int|
            from <= k < parts.len() && (#[trigger] parts[k]).label == text ==> place_of_label(
                parts,
                text,
                from,
            ) is Some && place_of_label(parts, text, from)->Some_0 <= k,
        forall|k: int|
            from <= k < parts.len() && (#[trigger] parts[k]).instance_id == text
                ==> place_of_instance(parts, text, from) is Some && place_of_instance(
                parts,
                text,
                from,
            )->Some_0 <= k,
    decreases parts.len() - from,
{
    if from < parts.len() {
        lemma_place_found(parts, text, from + 1);
    }
}

/// Whether a run of places stays among the parts, passes no place
/// twice, and goes from each place to the parent that the entry there
/// names.
pub open spec fn is_linked_run(parts: Seq<EntryView>, run: Seq<usize>) -> bool {
    &&& run.no_duplicates()
    &&& forall|i: int| 0 <= i < run.len() ==> (#[trigger] run[i]) < parts.len()
    &&& forall|i: int|
        0 <= i < run.len() - 1 ==> place_of_parent(parts, #[trigger] run[i]) == Some(run[i + 1])
}

/// A walk that continues a linked run gives a linked run that begins as
/// the run began.
pub proof fn lemma_lineage_back_links(
    parts: Seq<EntryView>,
    start: Option<usize>,
    passed: Seq<usize>,
    steps: nat,
)
    requires
        parts.len() <= usize::MAX,
        is_linked_run(parts, passed),
        passed.len() > 0 ==> place_of_parent(parts, passed.last()) == start,
    ensures
        is_linked_run(parts, lineage_back(parts, start, passed, steps)),
        passed.len() <= lineage_back(parts, start, passed, steps).len(),
        forall|i: int|
            0 <= i < passed.len() ==> lineage_back(parts, start, passed, steps)[i] == passed[i],
        (steps > 0 && start is Some && start->Some_0 < parts.len() && !passed.contains(
            start->Some_0,
        )) ==> lineage_back(parts, start, passed, steps).len() > passed.len() && lineage_back(
            parts,
            start,
            passed,
            steps,
        )[passed.len() as int] == start->Some_0,
    decreases steps,
{
    match start {
        Some(place) => {
            if !(steps == 0 || place >= parts.len() || passed.contains(place)) {
                let grown = passed.push(place);
                assert forall|i: int, j: int| 0 <= i < j < grown.len() implies grown[i]
                    != grown[j] by {
                    if j == passed.len() {
                        assert(passed.contains(passed[i]));
                    }
                }
                assert forall|i: int| 0 <= i < grown.len() - 1 implies place_of_parent(
                    parts,
                    #[trigger] grown[i],
                ) == Some(grown[i + 1]) by {
                    if i < passed.len() - 1 {
                        assert(grown[i] == passed[i]);
                        assert(grown[i + 1] == passed[i + 1]);
                    }
                }
                lemma_lineage_back_links(
                    parts,
                    place_of_parent(parts, place),
                    grown,
                    (steps - 1) as nat,
                );
                let chain = lineage_back(parts, start, passed, steps);
                assert forall|i: int| 0 <= i < passed.len() implies chain[i] == passed[i] by {
                    assert(grown[i] == passed[i]);
                }
                assert(chain[passed.len() as int] == grown[passed.len() as int]);
            }
        },
        None => {},
    }
}

/// The lineage that ends at `active` begins there, stays among the
/// parts, passes no place twice, and goes from each place to the parent
/// that the entry there names.
pub proof fn lemma_lineage_of(parts: Seq<EntryView>, active: usize)
    requires
        parts.len() <= usize::MAX,
        active < parts.len(),
    ensures
        is_linked_run(parts, lineage_of(parts, active)),
        lineage_of(parts, active).len() >= 1,
        lineage_of(parts, active)[0] == active,
        forall|i: int|
            0 <= i < lineage_of(parts, active).len() - 1 ==> parts[(
            #[trigger] lineage_of(parts, active)[i]) as int].manifest.parent_id() == Some(
                parts[lineage_of(parts, active)[i + 1] as int].instance_id,
            ),
{
    let chain = lineage_of(parts, active);
    lemma_lineage_back_links(parts, Some(active), Seq::empty(), parts.len());
    assert forall|i: int| 0 <= i < chain.len() - 1 implies parts[(
    #[trigger] chain[i]) as int].manifest.parent_id() == Some(
        parts[chain[i + 1] as int].instance_id,
    ) by {
        assert(place_of_parent(parts, chain[i]) == Some(chain[i + 1]));
        let id = parts[chain[i] as int].manifest.parent_id()->Some_0;
        lemma_place_found(parts, id, 0);
    }
}

/// The places outside a chain are the places below `n` that the chain
/// does not hold, each once.
pub proof fn lemma_places_outside(chain: Seq<usize>, n: nat)
    requires
        n <= usize::MAX,
    ensures
        forall|i: usize|
            #[trigger] places_outside(chain, n).contains(i) <==> (i < n && !chain.contains(i)),
        places_outside(chain, n).no_duplicates(),
    decreases n,
{
    if n > 0 {
        let below = places_outside(chain, (n - 1) as nat);
        let last = (n - 1) as usize;
        lemma_places_outside(chain, (n - 1) as nat);
        if !chain.contains(last) {
            let grown = below.push(last);
            assert forall|i: int, j: int| 0 <= i < j < grown.len() implies grown[i]
                != grown[j] by {
                if j == below.len() {
                    assert(below.contains(below[i]));
                }
            }
        }
        assert forall|i: usize| #[trigger]
            places_outside(chain, n).contains(i) <==> (i < n && !chain.contains(i)) by {
            if chain.contains(last) {
            } else {
                let grown = below.push(last);
                if grown.contains(i) {
                    let k = choose|k: int| 0 <= k < grown.len() && grown[k] == i;
                    if k < below.len() {
                        assert(below[k] == i);
                        assert(below.contains(i));
                    }
                }
                if i < n && !chain.contains(i) {
                    if i == last {
                        assert(grown[below.len() as int] == i);
                    } else {
                        assert(below.contains(i));
                        let k = choose|k: int| 0 <= k < below.len() && below[k] == i;
                        assert(grown[k] == i);
                    }
                }
            }
        }
    }
}

/// The store made of the parts at the places of an order holds those
/// parts in that order, and is well formed.
pub proof fn lemma_store_in_order(parts: Seq<EntryView>, order: Seq<usize>)
    requires
        store_in_order(parts, order) is Ok,
    ensures
        ({
            let store = store_in_order(parts, order)->Ok_0;
            &&& store.wf()
            &&& store.entries.len() == order.len()
            &&& forall|k: int|
                0 <= k < order.len() ==> #[trigger] store.entries[k] == parts[order[k] as int]
        }),
    decreases order.len(),
{
    if order.len() > 0 {
        lemma_store_in_order(parts, order.drop_last());
        let before = store_in_order(parts, order.drop_last())->Ok_0;
        let store = store_in_order(parts, order)->Ok_0;
        assert forall|k: int| 0 <= k < order.len() implies #[trigger] store.entries[k]
            == parts[order[k] as int] by {
            if k < order.len() - 1 {
                assert(store.entries[k] == before.entries[k]);
                assert(order.drop_last()[k] == order[k]);
            }
        }
    }
}

/// What an assembled store is: it is well formed; its active manifest is
/// the one under the active label; it holds every part, and nothing but
/// the parts; and from the active manifest back, each manifest stands
/// right after the parent it names, as far as the parents are among the
/// parts.
pub proof fn lemma_assembled_store(parts: Seq<EntryView>, active: Seq<char>)
    requires
        parts.len() <= usize::MAX,
        assembled(parts, active) is Ok,
    ensures
        ({
            let store = assembled(parts, active)->Ok_0;
            let place = place_of_label(parts, active, 0)->Some_0;
            let chain = lineage_of(parts, place);
            &&& store.wf()
            &&& store.active() is Some
            &&& store.active()->Some_0 == parts[place as int]
            &&& store.active()->Some_0.label == active
            &&& forall|i: int|
                0 <= i < parts.len() ==> store.has_label((#[trigger] parts[i]).label)
            &&& forall|k: int|
                0 <= k < store.entries.len() ==> parts.contains(#[trigger] store.entries[k])
            &&& 1 <= chain.len() <= store.entries.len()
            &&& forall|k: int|
                store.entries.len() - chain.len() < k < store.entries.len() ==> (
                #[trigger] store.entries[k]).manifest.parent_id() == Some(
                    store.entries[k - 1].instance_id,
                )
        }),
{
    lemma_place_found(parts, active, 0);
    let place = place_of_label(parts, active, 0)->Some_0;
    let chain = lineage_of(parts, place);
    let outside = places_outside(chain, parts.len());
    let order = embedding_order(parts, place);
    let store = assembled(parts, active)->Ok_0;
    lemma_lineage_of(parts, place);
    lemma_places_outside(chain, parts.len());
    lemma_store_in_order(parts, order);
    let c = chain.len() as int;
    let m = outside.len() as int;
    assert(order.len() == m + c);
    assert forall|k: int| m <= k < m + c implies #[trigger] order[k] == chain[c - 1 - (k - m)] by {
        assert(chain.reverse()[k - m] == chain[c - 1 - (k - m)]);
    }
    assert(order[m + c - 1] == chain[0]);
    assert(store.entries.last() == parts[place as int]);
    assert forall|i: int| 0 <= i < parts.len() implies store.has_label(
        (#[trigger] parts[i]).label,
    ) by {
        let place_i = i as usize;
        if chain.contains(place_i) {
            let j = choose|j: int| 0 <= j < c && chain[j] == place_i;
            assert(order[m + (c - 1 - j)] == chain[j]);
            assert(store.entries[m + (c - 1 - j)] == parts[i]);
        } else {
            assert(outside.contains(place_i));
            let j = choose|j: int| 0 <= j < m && outside[j] == place_i;
            assert(order[j] == outside[j]);
            assert(store.entries[j] == parts[i]);
        }
    }
    assert forall|k: int| 0 <= k < store.entries.len() implies parts.contains(
        #[trigger] store.entries[k],
    ) by {
        if k < m {
            assert(order[k] == outside[k]);
            assert(outside.contains(outside[k]));
        } else {
            assert(order[m + (k - m)] == chain[c - 1 - (k - m)]);
        }
        assert(store.entries[k] == parts[order[k] as int]);
    }
    assert forall|k: int| store.entries.len() - c < k < store.entries.len() implies (
    #[trigger] store.entries[k]).manifest.parent_id() == Some(
        store.entries[k - 1].instance_id,
    ) by {
        let j = k - m;
        assert(order[m + j] == chain[c - 1 - j]);
        assert(order[m + (j - 1)] == chain[c - 1 - (j - 1)]);
        assert(store.entries[k] == parts[chain[c - 1 - j] as int]);
        assert(store.entries[k - 1] == parts[chain[c - j] as int]);
        let i = c - 1 - j;
        assert(parts[chain[i] as int].manifest.parent_id() == Some(
            parts[chain[i + 1] as int].instance_id,
        ));
    }
}

/// The set of the places below `n` has `n` members.
proof fn lemma_places_below(n: nat)
    requires
        n <= usize::MAX,
    ensures
        Set::new(|i: usize| i < n).finite(),
        Set::new(|i: usize| i < n).len() == n,
    decreases n,
{
    let all = Set::new(|i: usize| i < n);
    if n == 0 {
        assert(all =~= Set::<usize>::empty());
    } else {
        let below = Set::new(|i: usize| i < (n - 1) as nat);
        lemma_places_below((n - 1) as nat);
        assert(all =~= below.insert((n - 1) as usize));
    }
}

/// The embedding order passes every place of the parts exactly once.
pub proof fn lemma_embedding_order_is_rearrangement(parts: Seq<EntryView>, active: usize)
    requires
        parts.len() <= usize::MAX,
        active < parts.len(),
    ensures
        embedding_order(parts, active).len() == parts.len(),
        embedding_order(parts, active).no_duplicates(),
        forall|i: usize| i < parts.len() <==> #[trigger] embedding_order(parts, active).contains(i),
{
    let n = parts.len();
    let chain = lineage_of(parts, active);
    let outside = places_outside(chain, n);
    let order = embedding_order(parts, active);
    lemma_lineage_of(parts, active);
    lemma_places_outside(chain, n);
    let c = chain.len() as int;
    let m = outside.len() as int;
    assert forall|k: int| m <= k < m + c implies #[trigger] order[k] == chain[c - 1 - (k - m)] by {
        assert(chain.reverse()[k - m] == chain[c - 1 - (k - m)]);
    }
    assert forall|i: int, j: int| 0 <= i < j < order.len() implies order[i] != order[j] by {
        if j < m {
            assert(order[i] == outside[i] && order[j] == outside[j]);
        } else if i < m {
            assert(order[i] == outside[i]);
            assert(outside.contains(outside[i]));
            assert(chain.contains(chain[c - 1 - (j - m)]));
        } else {
            assert(chain[c - 1 - (i - m)] != chain[c - 1 - (j - m)]);
        }
    }
    assert forall|i: usize| i < n <==> #[trigger] order.contains(i) by {
        if i < n {
            if chain.contains(i) {
                let j = choose|j: int| 0 <= j < c && chain[j] == i;
                assert(order[m + (c - 1 - j)] == chain[j]);
            } else {
                assert(outside.contains(i));
                let j = choose|j: int| 0 <= j < m && outside[j] == i;
                assert(order[j] == outside[j]);
            }
        }
        if order.contains(i) {
            let k = choose|k: int| 0 <= k < order.len() && order[k] == i;
            if k < m {
                assert(order[k] == outside[k]);
                assert(outside.contains(outside[k]));
            } else {
                assert(order[k] == chain[c - 1 - (k - m)]);
            }
        }
    }
    let all = Set::new(|i: usize| i < n);
    lemma_places_below(n);
    order.unique_seq_to_set();
    assert(order.to_set() =~= all);
}

/// A store can be made of distinct parts in any order that passes no
/// place twice.
pub proof fn lemma_distinct_parts_make_a_store(parts: Seq<EntryView>, order: Seq<usize>)
    requires
        (StoreView { entries: parts }).wf(),
        order.no_duplicates(),
        forall|k: int| 0 <= k < order.len() ==> (#[trigger] order[k]) < parts.len(),
    ensures
        store_in_order(parts, order) is Ok,
    decreases order.len(),
{
    if order.len() > 0 {
        let earlier = order.drop_last();
        assert forall|k: int| 0 <= k < earlier.len() implies (#[trigger] earlier[k])
            < parts.len() by {
            assert(earlier[k] == order[k]);
        }
        lemma_distinct_parts_make_a_store(parts, earlier);
        lemma_store_in_order(parts, earlier);
        let store = store_in_order(parts, earlier)->Ok_0;
        let last = order.last() as int;
        let entry = parts[last];
        assert forall|k: int| 0 <= k < store.entries.len() implies (
        #[trigger] store.entries[k]).label != entry.label && store.entries[k].instance_id
            != entry.instance_id by {
            let place = earlier[k] as int;
            assert(store.entries[k] == parts[place]);
            assert(order[k] != order[order.len() - 1]);
            if place < last {
                assert(parts[place].label != parts[last].label);
                assert(parts[place].instance_id != parts[last].instance_id);
            } else {
                assert(parts[last].label != parts[place].label);
                assert(parts[last].instance_id != parts[place].instance_id);
            }
        }
    }
}

/// When assembling succeeds: exactly when the active label is among the
/// parts and no label and no instance identifier stands twice among
/// them. The store then holds as many manifests as there are parts.
pub proof fn lemma_assembling_succeeds(parts: Seq<EntryView>, active: Seq<char>)
    requires
        parts.len() <= usize::MAX,
    ensures
        assembled(parts, active) is Ok <==> (place_of_label(parts, active, 0) is Some && (
            StoreView { entries: parts }).wf()),
        place_of_label(parts, active, 0) is None ==> assembled(parts, active) == Err::<
            StoreView,
            EngineError,
        >(EngineError::NoManifestPresent),
        assembled(parts, active) matches Ok(store) ==> store.entries.len() == parts.len(),
{
    lemma_place_found(parts, active, 0);
    if place_of_label(parts, active, 0) is Some {
        let place = place_of_label(parts, active, 0)->Some_0;
        let order = embedding_order(parts, place);
        lemma_embedding_order_is_rearrangement(parts, place);
        assert forall|k: int| 0 <= k < order.len() implies (#[trigger] order[k]) < parts.len() by {
            assert(order.contains(order[k]));
        }
        if (StoreView { entries: parts }).wf() {
            lemma_distinct_parts_make_a_store(parts, order);
        }
        if store_in_order(parts, order) is Ok {
            lemma_store_in_order(parts, order);
            let store = store_in_order(parts, order)->Ok_0;
            assert forall|i: int, j: int| 0 <= i < j < parts.len() implies (
            #[trigger] parts[i]).label != (#[trigger] parts[j]).label && parts[i].instance_id
                != parts[j].instance_id by {
                assert(order.contains(i as usize));
                assert(order.contains(j as usize));
                let p = choose|p: int| 0 <= p < order.len() && order[p] == i as usize;
                let q = choose|q: int| 0 <= q < order.len() && order[q] == j as usize;
                assert(store.entries[p] == parts[i]);
                assert(store.entries[q] == parts[j]);
                if p < q {
                    assert(store.entries[p].label != store.entries[q].label);
                    assert(store.entries[p].instance_id != store.entries[q].instance_id);
                } else {
                    assert(store.entries[q].label != store.entries[p].label);
                    assert(store.entries[q].instance_id != store.entries[p].instance_id);
                }
            }
        }
    }
}

} // verus!
