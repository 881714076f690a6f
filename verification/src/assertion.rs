//! The assertion model: actions, custom labelled data and authorship
//! claims. Pure data and builders; nothing here reads or writes an asset.

use vstd::prelude::*;
use crate::error::EngineError;
use crate::text::same_text;

verus! {

/// The kind of a recorded event: a closed set of standard kinds and an
/// open one that carries its own label.
#[derive(Debug, PartialEq, Eq)]
pub enum ActionKind {
    Created,
    Opened,
    Edited,
    Cropped,
    Filtered,
    ColorAdjusted,
    Custom(String),
}

pub enum ActionKindView {
    Created,
    Opened,
    Edited,
    Cropped,
    Filtered,
    ColorAdjusted,
    Custom(Seq<char>),
}

impl ActionKindView {
    /// The label under which a kind is recorded.
    pub open spec fn label(self) -> Seq<char> {
        match self {
            ActionKindView::Created => "c2pa.created"@,
            ActionKindView::Opened => "c2pa.opened"@,
            ActionKindView::Edited => "c2pa.edited"@,
            ActionKindView::Cropped => "c2pa.cropped"@,
            ActionKindView::Filtered => "c2pa.filtered"@,
            ActionKindView::ColorAdjusted => "c2pa.color_adjustments"@,
            ActionKindView::Custom(label) => label,
        }
    }

    /// A kind is canonical unless it is a custom kind that carries the
    /// label of a standard one.
    pub open spec fn is_canonical(self) -> bool {
        self is Custom ==> !is_standard_label(self.label())
    }
}

/// Whether `label` is the label of a standard kind.
pub open spec fn is_standard_label(label: Seq<char>) -> bool {
    ||| label == "c2pa.created"@
    ||| label == "c2pa.opened"@
    ||| label == "c2pa.edited"@
    ||| label == "c2pa.cropped"@
    ||| label == "c2pa.filtered"@
    ||| label == "c2pa.color_adjustments"@
}

/// The kind a label stands for: the standard kind of that label, or a
/// custom kind that carries the label.
pub open spec fn kind_of_label(label: Seq<char>) -> ActionKindView {
    if label == "c2pa.created"@ {
        ActionKindView::Created
    } else if label == "c2pa.opened"@ {
        ActionKindView::Opened
    } else if label == "c2pa.edited"@ {
        ActionKindView::Edited
    } else if label == "c2pa.cropped"@ {
        ActionKindView::Cropped
    } else if label == "c2pa.filtered"@ {
        ActionKindView::Filtered
    } else if label == "c2pa.color_adjustments"@ {
        ActionKindView::ColorAdjusted
    } else {
        ActionKindView::Custom(label)
    }
}

impl View for ActionKind {
    type V = ActionKindView;

    open spec fn view(&self) -> ActionKindView {
        match self {
            ActionKind::Created => ActionKindView::Created,
            ActionKind::Opened => ActionKindView::Opened,
            ActionKind::Edited => ActionKindView::Edited,
            ActionKind::Cropped => ActionKindView::Cropped,
            ActionKind::Filtered => ActionKindView::Filtered,
            ActionKind::ColorAdjusted => ActionKindView::ColorAdjusted,
            ActionKind::Custom(label) => ActionKindView::Custom(label@),
        }
    }
}

impl DeepView for ActionKind {
    type V = ActionKindView;

    open spec fn deep_view(&self) -> ActionKindView {
        self@
    }
}

impl Clone for ActionKind {
    fn clone(&self) -> (r: Self)
        ensures
            r@ == self@,
    {
        match self {
            ActionKind::Created => ActionKind::Created,
            ActionKind::Opened => ActionKind::Opened,
            ActionKind::Edited => ActionKind::Edited,
            ActionKind::Cropped => ActionKind::Cropped,
            ActionKind::Filtered => ActionKind::Filtered,
            ActionKind::ColorAdjusted => ActionKind::ColorAdjusted,
            ActionKind::Custom(label) => ActionKind::Custom(label.clone()),
        }
    }
}

impl ActionKind {
    /// The label under which this kind is recorded.
    pub fn label(&self) -> (r: String)
        ensures
            r@ == self@.label(),
    {
        match self {
            ActionKind::Created => "c2pa.created".to_owned(),
            ActionKind::Opened => "c2pa.opened".to_owned(),
            ActionKind::Edited => "c2pa.edited".to_owned(),
            ActionKind::Cropped => "c2pa.cropped".to_owned(),
            ActionKind::Filtered => "c2pa.filtered".to_owned(),
            ActionKind::ColorAdjusted => "c2pa.color_adjustments".to_owned(),
            ActionKind::Custom(label) => label.clone(),
        }
    }

    /// The kind that `label` stands for.
    pub fn from_label(label: &str) -> (r: ActionKind)
        ensures
            r@ == kind_of_label(label@),
    {
        if same_text(label, "c2pa.created") {
            ActionKind::Created
        } else if same_text(label, "c2pa.opened") {
            ActionKind::Opened
        } else if same_text(label, "c2pa.edited") {
            ActionKind::Edited
        } else if same_text(label, "c2pa.cropped") {
            ActionKind::Cropped
        } else if same_text(label, "c2pa.filtered") {
            ActionKind::Filtered
        } else if same_text(label, "c2pa.color_adjustments") {
            ActionKind::ColorAdjusted
        } else {
            ActionKind::Custom(label.to_owned())
        }
    }

    /// Whether two kinds are the same.
    pub fn same_as(&self, other: &ActionKind) -> (r: bool)
        ensures
            r == (self@ == other@),
    {
        match self {
            ActionKind::Created => matches!(other, ActionKind::Created),
            ActionKind::Opened => matches!(other, ActionKind::Opened),
            ActionKind::Edited => matches!(other, ActionKind::Edited),
            ActionKind::Cropped => matches!(other, ActionKind::Cropped),
            ActionKind::Filtered => matches!(other, ActionKind::Filtered),
            ActionKind::ColorAdjusted => matches!(other, ActionKind::ColorAdjusted),
            ActionKind::Custom(a) => match other {
                ActionKind::Custom(b) => same_text(a.as_str(), b.as_str()),
                _ => false,
            },
        }
    }
}

/// The labels of the standard kinds differ from one another.
pub proof fn lemma_standard_labels_distinct()
    ensures
        "c2pa.created"@ != "c2pa.opened"@,
        "c2pa.created"@ != "c2pa.edited"@,
        "c2pa.created"@ != "c2pa.cropped"@,
        "c2pa.created"@ != "c2pa.filtered"@,
        "c2pa.created"@ != "c2pa.color_adjustments"@,
        "c2pa.opened"@ != "c2pa.edited"@,
        "c2pa.opened"@ != "c2pa.cropped"@,
        "c2pa.opened"@ != "c2pa.filtered"@,
        "c2pa.opened"@ != "c2pa.color_adjustments"@,
        "c2pa.edited"@ != "c2pa.cropped"@,
        "c2pa.edited"@ != "c2pa.filtered"@,
        "c2pa.edited"@ != "c2pa.color_adjustments"@,
        "c2pa.cropped"@ != "c2pa.filtered"@,
        "c2pa.cropped"@ != "c2pa.color_adjustments"@,
        "c2pa.filtered"@ != "c2pa.color_adjustments"@,
{
    reveal_strlit("c2pa.created");
    reveal_strlit("c2pa.opened");
    reveal_strlit("c2pa.edited");
    reveal_strlit("c2pa.cropped");
    reveal_strlit("c2pa.filtered");
    reveal_strlit("c2pa.color_adjustments");
    assert("c2pa.created"@.len() == 12);
    assert("c2pa.opened"@.len() == 11);
    assert("c2pa.edited"@.len() == 11);
    assert("c2pa.cropped"@.len() == 12);
    assert("c2pa.filtered"@.len() == 13);
    assert("c2pa.color_adjustments"@.len() == 22);
    assert("c2pa.created"@[7] != "c2pa.cropped"@[7]);
    assert("c2pa.opened"@[5] != "c2pa.edited"@[5]);
}

/// Reading a kind back from its own label gives the same kind, for every
/// canonical kind.
pub proof fn lemma_kind_label_roundtrip(kind: ActionKindView)
    requires
        kind.is_canonical(),
    ensures
        kind_of_label(kind.label()) == kind,
{
    lemma_standard_labels_distinct();
}

/// The label of the kind read from a label is that label.
pub proof fn lemma_label_kind_roundtrip(label: Seq<char>)
    ensures
        kind_of_label(label).label() == label,
        kind_of_label(label).is_canonical(),
{
}

/// A named value attached to an action or carried in custom data.
#[derive(Debug, PartialEq, Eq)]
pub struct Parameter {
    pub key: String,
    pub value: String,
}

pub struct ParameterView {
    pub key: Seq<char>,
    pub value: Seq<char>,
}

impl View for Parameter {
    type V = ParameterView;

    open spec fn view(&self) -> ParameterView {
        ParameterView { key: self.key@, value: self.value@ }
    }
}

impl DeepView for Parameter {
    type V = ParameterView;

    open spec fn deep_view(&self) -> ParameterView {
        self@
    }
}

impl Clone for Parameter {
    fn clone(&self) -> (r: Self)
        ensures
            r@ == self@,
    {
        Parameter { key: self.key.clone(), value: self.value.clone() }
    }
}

impl Parameter {
    pub fn new(key: &str, value: &str) -> (r: Parameter)
        ensures
            r@ == (ParameterView { key: key@, value: value@ }),
    {
        Parameter { key: key.to_owned(), value: value.to_owned() }
    }
}

/// Copies a list of parameters.
pub fn clone_parameters(list: &Vec<Parameter>) -> (r: Vec<Parameter>)
    ensures
        r.deep_view() == list.deep_view(),
{
    let mut out: Vec<Parameter> = Vec::new();
    let mut i: usize = 0;
    while i < list.len()
        invariant
            i <= list.len(),
            out.len() == i,
            forall|j: int| 0 <= j < i ==> out[j]@ == list[j]@,
        decreases list.len() - i,
    {
        out.push(list[i].clone());
        i = i + 1;
    }
    out
}

/// The value that a list of parameters gives to `key`: that of the last
/// entry with this key, if there is one.
pub open spec fn lookup(list: Seq<ParameterView>, key: Seq<char>) -> Option<Seq<char>>
    decreases list.len(),
{
    if list.len() == 0 {
        None
    } else if list.last().key == key {
        Some(list.last().value)
    } else {
        lookup(list.drop_last(), key)
    }
}

/// What `lookup` finds is the value of the last entry with the key: it
/// finds nothing exactly when no entry has the key.
pub proof fn lemma_lookup_finds_last(list: Seq<ParameterView>, key: Seq<char>)
    ensures
        lookup(list, key) is None <==> forall|i: int|
            0 <= i < list.len() ==> (#[trigger] list[i]).key != key,
        lookup(list, key) is Some ==> exists|i: int|
            0 <= i < list.len() && (#[trigger] list[i]).key == key && lookup(list, key) == Some(
                list[i].value,
            ) && forall|j: int| i < j < list.len() ==> (#[trigger] list[j]).key != key,
    decreases list.len(),
{
    if list.len() > 0 {
        let rest = list.drop_last();
        lemma_lookup_finds_last(rest, key);
        if list.last().key == key {
            let i = list.len() - 1;
            assert(list[i].key == key && lookup(list, key) == Some(list[i].value));
        } else {
            assert forall|i: int| 0 <= i < rest.len() implies rest[i] == list[i] by {}
            if lookup(rest, key) is Some {
                let i = choose|i: int|
                    0 <= i < rest.len() && (#[trigger] rest[i]).key == key && lookup(rest, key)
                        == Some(rest[i].value) && forall|j: int|
                        i < j < rest.len() ==> (#[trigger] rest[j]).key != key;
                assert(list[i].key == key && lookup(list, key) == Some(list[i].value));
                assert forall|j: int| i < j < list.len() implies (#[trigger] list[j]).key
                    != key by {
                    if j < rest.len() {
                        assert(rest[j].key != key);
                    }
                }
            } else {
                assert forall|i: int| 0 <= i < list.len() implies (#[trigger] list[i]).key
                    != key by {
                    if i < rest.len() {
                        assert(rest[i].key != key);
                    }
                }
            }
        }
    }
}

/// Finds the value that a list of parameters gives to `key`.
pub fn find_parameter(list: &Vec<Parameter>, key: &str) -> (r: Option<String>)
    ensures
        r.deep_view() == lookup(list.deep_view(), key@),
{
    let mut i: usize = list.len();
    assert(list.deep_view().take(i as int) =~= list.deep_view());
    while i > 0
        invariant
            i <= list.len(),
            lookup(list.deep_view(), key@) == lookup(list.deep_view().take(i as int), key@),
        decreases i,
    {
        let ghost prefix = list.deep_view().take(i as int);
        assert(prefix.last() == list[i - 1]@);
        assert(prefix.drop_last() =~= list.deep_view().take(i - 1));
        if same_text(list[i - 1].key.as_str(), key) {
            return Some(list[i - 1].value.clone());
        }
        i = i - 1;
    }
    assert(list.deep_view().take(0).len() == 0);
    None
}

/// One recorded event.
#[derive(Debug, PartialEq, Eq)]
pub struct Action {
    pub kind: ActionKind,
    /// When the event took place, as an ISO-8601 text.
    pub when: String,
    /// A URI that classifies where the content came from.
    pub source_type: Option<String>,
    pub software_agent: Option<String>,
    pub reason: Option<String>,
    /// Named values; a later entry overrides an earlier one of the same key.
    pub parameters: Vec<Parameter>,
}

pub struct ActionView {
    pub kind: ActionKindView,
    pub when: Seq<char>,
    pub source_type: Option<Seq<char>>,
    pub software_agent: Option<Seq<char>>,
    pub reason: Option<Seq<char>>,
    pub parameters: Seq<ParameterView>,
}

impl ActionView {
    /// The instance identifier of the parent that this action refers to.
    pub open spec fn parent_reference(self) -> Option<Seq<char>> {
        lookup(self.parameters, "identifier"@)
    }
}

impl View for Action {
    type V = ActionView;

    open spec fn view(&self) -> ActionView {
        ActionView {
            kind: self.kind@,
            when: self.when@,
            source_type: self.source_type.deep_view(),
            software_agent: self.software_agent.deep_view(),
            reason: self.reason.deep_view(),
            parameters: self.parameters.deep_view(),
        }
    }
}

impl DeepView for Action {
    type V = ActionView;

    open spec fn deep_view(&self) -> ActionView {
        self@
    }
}

fn clone_optional_text(text: &Option<String>) -> (r: Option<String>)
    ensures
        r.deep_view() == text.deep_view(),
{
    match text {
        Some(t) => Some(t.clone()),
        None => None,
    }
}

impl Clone for Action {
    fn clone(&self) -> (r: Self)
        ensures
            r@ == self@,
    {
        Action {
            kind: self.kind.clone(),
            when: self.when.clone(),
            source_type: clone_optional_text(&self.source_type),
            software_agent: clone_optional_text(&self.software_agent),
            reason: clone_optional_text(&self.reason),
            parameters: clone_parameters(&self.parameters),
        }
    }
}

impl Action {
    /// An action of the given kind at the given time, with nothing else set.
    pub fn new(kind: ActionKind, when: &str) -> (r: Action)
        ensures
            r@ == (ActionView {
                kind: kind@,
                when: when@,
                source_type: None,
                software_agent: None,
                reason: None,
                parameters: Seq::empty(),
            }),
    {
        let r = Action {
            kind,
            when: when.to_owned(),
            source_type: None,
            software_agent: None,
            reason: None,
            parameters: Vec::new(),
        };
        assert(r.parameters.deep_view() =~= Seq::empty());
        r
    }

    pub fn set_source_type(self, uri: &str) -> (r: Action)
        ensures
            r@ == (ActionView { source_type: Some(uri@), ..self@ }),
    {
        let mut r = self;
        r.source_type = Some(uri.to_owned());
        r
    }

    pub fn set_software_agent(self, agent: &str) -> (r: Action)
        ensures
            r@ == (ActionView { software_agent: Some(agent@), ..self@ }),
    {
        let mut r = self;
        r.software_agent = Some(agent.to_owned());
        r
    }

    pub fn set_reason(self, reason: &str) -> (r: Action)
        ensures
            r@ == (ActionView { reason: Some(reason@), ..self@ }),
    {
        let mut r = self;
        r.reason = Some(reason.to_owned());
        r
    }

    pub fn set_when(self, when: &str) -> (r: Action)
        ensures
            r@ == (ActionView { when: when@, ..self@ }),
    {
        let mut r = self;
        r.when = when.to_owned();
        r
    }

    /// Adds a parameter. An empty `identifier` is refused: a reference to
    /// a parent must name it.
    pub fn set_parameter(self, key: &str, value: &str) -> (r: Result<Action, EngineError>)
        ensures
            (key@ == "identifier"@ && value@.len() == 0) ==> r == Err::<Action, EngineError>(
                EngineError::InvalidParameter,
            ),
            !(key@ == "identifier"@ && value@.len() == 0) ==> r is Ok && r->Ok_0@ == (ActionView {
                parameters: self@.parameters.push(ParameterView { key: key@, value: value@ }),
                ..self@
            }),
    {
        if same_text(key, "identifier") && value.is_empty() {
            return Err(EngineError::InvalidParameter);
        }
        let mut r = self;
        r.parameters.push(Parameter::new(key, value));
        assert(r.parameters.deep_view() =~= self.parameters.deep_view().push(
            ParameterView { key: key@, value: value@ },
        ));
        Ok(r)
    }

    /// The value this action gives to the parameter `key`.
    pub fn parameter(&self, key: &str) -> (r: Option<String>)
        ensures
            r.deep_view() == lookup(self@.parameters, key@),
    {
        find_parameter(&self.parameters, key)
    }
}

/// After a parameter was set, looking its key up gives its value, and
/// every other key is found as before.
pub proof fn lemma_lookup_after_push(
    list: Seq<ParameterView>,
    key: Seq<char>,
    value: Seq<char>,
    other: Seq<char>,
)
    ensures
        lookup(list.push(ParameterView { key, value }), key) == Some(value),
        other != key ==> lookup(list.push(ParameterView { key, value }), other) == lookup(
            list,
            other,
        ),
{
    let extended = list.push(ParameterView { key, value });
    assert(extended.last() == (ParameterView { key, value }));
    assert(extended.drop_last() =~= list);
}

/// Copies a list of actions.
pub fn clone_actions(list: &Vec<Action>) -> (r: Vec<Action>)
    ensures
        r.deep_view() == list.deep_view(),
{
    let mut out: Vec<Action> = Vec::new();
    let mut i: usize = 0;
    while i < list.len()
        invariant
            i <= list.len(),
            out.len() == i,
            forall|j: int| 0 <= j < i ==> out[j]@ == list[j]@,
        decreases list.len() - i,
    {
        out.push(list[i].clone());
        i = i + 1;
    }
    out
}

/// Labelled data that the engine carries verbatim and never interprets.
#[derive(Debug, PartialEq, Eq)]
pub struct CustomData {
    pub label: String,
    pub fields: Vec<Parameter>,
}

pub struct CustomDataView {
    pub label: Seq<char>,
    pub fields: Seq<ParameterView>,
}

impl View for CustomData {
    type V = CustomDataView;

    open spec fn view(&self) -> CustomDataView {
        CustomDataView { label: self.label@, fields: self.fields.deep_view() }
    }
}

impl DeepView for CustomData {
    type V = CustomDataView;

    open spec fn deep_view(&self) -> CustomDataView {
        self@
    }
}

impl Clone for CustomData {
    fn clone(&self) -> (r: Self)
        ensures
            r@ == self@,
    {
        CustomData { label: self.label.clone(), fields: clone_parameters(&self.fields) }
    }
}

impl CustomData {
    /// Custom data without fields. An empty label is refused.
    pub fn new(label: &str) -> (r: Result<CustomData, EngineError>)
        ensures
            label@.len() == 0 ==> r == Err::<CustomData, EngineError>(
                EngineError::InvalidParameter,
            ),
            label@.len() > 0 ==> r is Ok && r->Ok_0@ == (CustomDataView {
                label: label@,
                fields: Seq::empty(),
            }),
    {
        if label.is_empty() {
            return Err(EngineError::InvalidParameter);
        }
        let r = CustomData { label: label.to_owned(), fields: Vec::new() };
        assert(r.fields.deep_view() =~= Seq::empty());
        Ok(r)
    }

    /// Appends a field.
    pub fn add_field(self, name: &str, value: &str) -> (r: CustomData)
        ensures
            r@ == (CustomDataView {
                fields: self@.fields.push(ParameterView { key: name@, value: value@ }),
                ..self@
            }),
    {
        let mut r = self;
        r.fields.push(Parameter::new(name, value));
        assert(r.fields.deep_view() =~= self.fields.deep_view().push(
            ParameterView { key: name@, value: value@ },
        ));
        r
    }

    /// The value of the field `name`.
    pub fn field(&self, name: &str) -> (r: Option<String>)
        ensures
            r.deep_view() == lookup(self@.fields, name@),
    {
        find_parameter(&self.fields, name)
    }
}

/// Someone named as an author.
#[derive(Debug, PartialEq, Eq)]
pub struct Person {
    pub name: String,
    pub identifier: String,
}

pub struct PersonView {
    pub name: Seq<char>,
    pub identifier: Seq<char>,
}

impl View for Person {
    type V = PersonView;

    open spec fn view(&self) -> PersonView {
        PersonView { name: self.name@, identifier: self.identifier@ }
    }
}

impl DeepView for Person {
    type V = PersonView;

    open spec fn deep_view(&self) -> PersonView {
        self@
    }
}

impl Clone for Person {
    fn clone(&self) -> (r: Self)
        ensures
            r@ == self@,
    {
        Person { name: self.name.clone(), identifier: self.identifier.clone() }
    }
}

impl Person {
    pub fn new(name: &str, identifier: &str) -> (r: Person)
        ensures
            r@ == (PersonView { name: name@, identifier: identifier@ }),
    {
        Person { name: name.to_owned(), identifier: identifier.to_owned() }
    }
}

/// A claim of authorship over the asset.
#[derive(Debug, PartialEq, Eq)]
pub struct CreativeWorkClaim {
    pub authors: Vec<Person>,
}

pub struct CreativeWorkClaimView {
    pub authors: Seq<PersonView>,
}

impl View for CreativeWorkClaim {
    type V = CreativeWorkClaimView;

    open spec fn view(&self) -> CreativeWorkClaimView {
        CreativeWorkClaimView { authors: self.authors.deep_view() }
    }
}

impl DeepView for CreativeWorkClaim {
    type V = CreativeWorkClaimView;

    open spec fn deep_view(&self) -> CreativeWorkClaimView {
        self@
    }
}

impl Clone for CreativeWorkClaim {
    fn clone(&self) -> (r: Self)
        ensures
            r@ == self@,
    {
        let mut out: Vec<Person> = Vec::new();
        let mut i: usize = 0;
        while i < self.authors.len()
            invariant
                i <= self.authors.len(),
                out.len() == i,
                forall|j: int| 0 <= j < i ==> out[j]@ == self.authors[j]@,
            decreases self.authors.len() - i,
        {
            out.push(self.authors[i].clone());
            i = i + 1;
        }
        let r = CreativeWorkClaim { authors: out };
        assert(r.authors.deep_view() =~= self.authors.deep_view());
        r
    }
}

impl CreativeWorkClaim {
    /// A claim that names nobody yet.
    pub fn new() -> (r: CreativeWorkClaim)
        ensures
            r@.authors == Seq::<PersonView>::empty(),
    {
        let r = CreativeWorkClaim { authors: Vec::new() };
        assert(r.authors.deep_view() =~= Seq::empty());
        r
    }

    /// Names one more author.
    pub fn add_author(self, author: Person) -> (r: CreativeWorkClaim)
        ensures
            r@.authors == self@.authors.push(author@),
    {
        let mut r = self;
        r.authors.push(author);
        assert(r.authors.deep_view() =~= self.authors.deep_view().push(author@));
        r
    }
}

/// A labelled unit of evidence inside a manifest.
#[derive(Debug, PartialEq, Eq)]
pub enum Assertion {
    Actions(Vec<Action>),
    CustomData(CustomData),
    CreativeWork(CreativeWorkClaim),
}

pub enum AssertionView {
    Actions(Seq<ActionView>),
    CustomData(CustomDataView),
    CreativeWork(CreativeWorkClaimView),
}

impl AssertionView {
    /// The label that identifies an assertion within its manifest.
    pub open spec fn label(self) -> Seq<char> {
        match self {
            AssertionView::Actions(_) => "c2pa.actions"@,
            AssertionView::CustomData(data) => data.label,
            AssertionView::CreativeWork(_) => "stds.schema-org.CreativeWork"@,
        }
    }

    /// The actions that an assertion records; none unless it is a list of
    /// actions.
    pub open spec fn actions(self) -> Seq<ActionView> {
        match self {
            AssertionView::Actions(list) => list,
            _ => Seq::empty(),
        }
    }
}

impl View for Assertion {
    type V = AssertionView;

    open spec fn view(&self) -> AssertionView {
        match self {
            Assertion::Actions(list) => AssertionView::Actions(list.deep_view()),
            Assertion::CustomData(data) => AssertionView::CustomData(data@),
            Assertion::CreativeWork(claim) => AssertionView::CreativeWork(claim@),
        }
    }
}

impl DeepView for Assertion {
    type V = AssertionView;

    open spec fn deep_view(&self) -> AssertionView {
        self@
    }
}

impl Clone for Assertion {
    fn clone(&self) -> (r: Self)
        ensures
            r@ == self@,
    {
        match self {
            Assertion::Actions(list) => Assertion::Actions(clone_actions(list)),
            Assertion::CustomData(data) => Assertion::CustomData(data.clone()),
            Assertion::CreativeWork(claim) => Assertion::CreativeWork(claim.clone()),
        }
    }
}

impl Assertion {
    /// The label that identifies this assertion within its manifest.
    pub fn label(&self) -> (r: String)
        ensures
            r@ == self@.label(),
    {
        match self {
            Assertion::Actions(_) => "c2pa.actions".to_owned(),
            Assertion::CustomData(data) => data.label.clone(),
            Assertion::CreativeWork(_) => "stds.schema-org.CreativeWork".to_owned(),
        }
    }
}

/// Copies a list of assertions.
pub fn clone_assertions(list: &Vec<Assertion>) -> (r: Vec<Assertion>)
    ensures
        r.deep_view() == list.deep_view(),
{
    let mut out: Vec<Assertion> = Vec::new();
    let mut i: usize = 0;
    while i < list.len()
        invariant
            i <= list.len(),
            out.len() == i,
            forall|j: int| 0 <= j < i ==> out[j]@ == list[j]@,
        decreases list.len() - i,
    {
        out.push(list[i].clone());
        i = i + 1;
    }
    out
}

} // verus!
