//! The chain linker: the actions that tie an edit to the manifest it
//! supersedes.

use vstd::prelude::*;
use crate::assertion::{Action, ActionKind, ActionKindView, ActionView, ParameterView};
use crate::error::EngineError;
use crate::ingredient::Ingredient;

verus! {

/// The action that records that the parent was opened.
pub open spec fn opened_action(parent_id: Seq<char>, agent: Seq<char>, when: Seq<char>)
    -> ActionView {
    ActionView {
        kind: ActionKindView::Opened,
        when,
        source_type: None,
        software_agent: Some(agent),
        reason: Some("editing"@),
        parameters: seq![ParameterView { key: "identifier"@, value: parent_id }],
    }
}

/// The action that records the edit itself.
pub open spec fn edit_action(
    kind: ActionKindView,
    parent_id: Seq<char>,
    agent: Seq<char>,
    when: Seq<char>,
) -> ActionView {
    ActionView {
        kind,
        when,
        source_type: Some(
            "http://cv.iptc.org/newscodes/digitalsourcetype/compositeWithTrainedAlgorithmicMedia"@,
        ),
        software_agent: Some(agent),
        reason: Some("editing"@),
        parameters: seq![ParameterView { key: "identifier"@, value: parent_id }],
    }
}

/// The actions of an edit, in their order: the parent is opened, then
/// modified.
pub open spec fn linked_actions(
    kind: ActionKindView,
    parent_id: Seq<char>,
    agent: Seq<char>,
    when: Seq<char>,
) -> Seq<ActionView> {
    seq![opened_action(parent_id, agent, when), edit_action(kind, parent_id, agent, when)]
}

/// What linking an edit to `parent_id` gives: no link without a parent,
/// none to a parent with an empty identifier, else the two actions.
pub open spec fn link_result(
    parent_id: Option<Seq<char>>,
    kind: ActionKindView,
    agent: Seq<char>,
    when: Seq<char>,
) -> Result<Seq<ActionView>, EngineError> {
    match parent_id {
        None => Err(EngineError::NoParentToLink),
        Some(id) => if id.len() == 0 {
            Err(EngineError::InvalidParameter)
        } else {
            Ok(linked_actions(kind, id, agent, when))
        },
    }
}

/// Composes the ordered actions of an edit of kind `kind`, each of them
/// referring to the parent's instance identifier.
pub fn link_edit(parent: &Ingredient, kind: ActionKind, agent: &str, when: &str) -> (r: Result<
    Vec<Action>,
    EngineError,
>)
    ensures
        match link_result(parent@.instance_id, kind@, agent@, when@) {
            Ok(actions) => r is Ok && r->Ok_0.deep_view() == actions,
            Err(e) => r is Err && r->Err_0 == e,
        },
{
    let parent_id = match &parent.instance_id {
        Some(id) => id,
        None => {
            return Err(EngineError::NoParentToLink);
        },
    };
    let opened = Action::new(ActionKind::Opened, when).set_parameter(
        "identifier",
        parent_id.as_str(),
    );
    let opened = match opened {
        Ok(action) => action.set_reason("editing").set_software_agent(agent),
        Err(e) => {
            return Err(e);
        },
    };
    let edited = Action::new(kind, when).set_parameter("identifier", parent_id.as_str());
    let edited = match edited {
        Ok(action) => action.set_reason("editing").set_source_type(
            "http://cv.iptc.org/newscodes/digitalsourcetype/compositeWithTrainedAlgorithmicMedia",
        ).set_software_agent(agent),
        Err(e) => {
            return Err(e);
        },
    };
    let ghost expected = linked_actions(kind@, parent_id@, agent@, when@);
    assert(opened@.parameters =~= expected[0].parameters);
    assert(edited@.parameters =~= expected[1].parameters);
    let mut actions: Vec<Action> = Vec::new();
    actions.push(opened);
    actions.push(edited);
    assert(actions.deep_view() =~= expected);
    Ok(actions)
}

} // verus!
