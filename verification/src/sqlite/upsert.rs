//! Storing a repository, turn by turn: what the database is asked next, given its
//! answers so far.

use vstd::prelude::*;

use crate::error::{invalid, CoreError, CoreErrorView};
use crate::model::{Resource, ResourceView};
use crate::sqlite::resources;
use crate::sqlite::resources::{
    new_source, plan_manual, upsert_plan, ManualStep, ResourcePlan, ResourcePlanView,
    ResourceWithSource,
};

verus! {

/// What the database is to do next.
#[derive(Debug, PartialEq, Eq)]
pub enum UpsertAction {
    /// Find the repository of this name, whatever its status.
    Find(String),
    /// Give a repository that was entered by hand a new name and place, and make
    /// it active.
    Update { id: String, name: String, remote_url: String },
    /// Make the repository of this name active.
    Reactivate(String),
    /// Store a new repository with this source.
    Insert { lore_repository_id: String, name: String, remote_url: String, source: &'static str },
}

/// The view of [`UpsertAction`].
pub enum UpsertActionView {
    Find(Seq<char>),
    Update { id: Seq<char>, name: Seq<char>, remote_url: Seq<char> },
    Reactivate(Seq<char>),
    Insert {
        lore_repository_id: Seq<char>,
        name: Seq<char>,
        remote_url: Seq<char>,
        source: Seq<char>,
    },
}

impl View for UpsertAction {
    type V = UpsertActionView;

    open spec fn view(&self) -> UpsertActionView {
        match self {
            UpsertAction::Find(id) => UpsertActionView::Find(id@),
            UpsertAction::Update { id, name, remote_url } => UpsertActionView::Update {
                id: id@,
                name: name@,
                remote_url: remote_url@,
            },
            UpsertAction::Reactivate(id) => UpsertActionView::Reactivate(id@),
            UpsertAction::Insert {
                lore_repository_id,
                name,
                remote_url,
                source,
            } => UpsertActionView::Insert {
                lore_repository_id: lore_repository_id@,
                name: name@,
                remote_url: remote_url@,
                source: source@,
            },
        }
    }
}

/// What the database answered.
#[derive(Debug, PartialEq, Eq)]
pub enum UpsertEvent {
    /// The repository that was found.
    Found(Option<ResourceWithSource>),
    /// So many rows were changed.
    Changed(usize),
}

/// The view of [`UpsertEvent`].
pub enum UpsertEventView {
    Found(Option<(ResourceView, Seq<char>)>),
    Changed(nat),
}

impl View for UpsertEvent {
    type V = UpsertEventView;

    open spec fn view(&self) -> UpsertEventView {
        match self {
            UpsertEvent::Found(found) => UpsertEventView::Found(
                match found {
                    Some(e) => Some((e.resource@, e.created_by_source@)),
                    None => None,
                },
            ),
            UpsertEvent::Changed(n) => UpsertEventView::Changed(*n as nat),
        }
    }
}

/// How far it is.
#[derive(Debug, PartialEq, Eq)]
pub enum UpsertState {
    /// The repository is being looked for.
    Finding(ResourcePlan),
    /// The repository is being changed.
    Updating,
    /// The repository is being made active.
    Reactivating(ResourcePlan),
    /// The repository is being added.
    Inserting,
}

/// The view of [`UpsertState`].
pub enum UpsertStateView {
    Finding(ResourcePlanView),
    Updating,
    Reactivating(ResourcePlanView),
    Inserting,
}

impl View for UpsertState {
    type V = UpsertStateView;

    open spec fn view(&self) -> UpsertStateView {
        match self {
            UpsertState::Finding(plan) => UpsertStateView::Finding(plan@),
            UpsertState::Updating => UpsertStateView::Updating,
            UpsertState::Reactivating(plan) => UpsertStateView::Reactivating(plan@),
            UpsertState::Inserting => UpsertStateView::Inserting,
        }
    }
}

/// What follows an answer.
#[derive(Debug, PartialEq, Eq)]
pub enum UpsertTurn {
    /// The database is asked for more.
    Ask(UpsertState, UpsertAction),
    /// The repository is stored.
    Finish,
    /// The repository is refused.
    Refuse(CoreError),
}

/// The view of [`UpsertTurn`].
pub enum UpsertTurnView {
    Ask(UpsertStateView, UpsertActionView),
    Finish,
    Refuse(CoreErrorView),
}

impl View for UpsertTurn {
    type V = UpsertTurnView;

    open spec fn view(&self) -> UpsertTurnView {
        match self {
            UpsertTurn::Ask(s, a) => UpsertTurnView::Ask(s@, a@),
            UpsertTurn::Finish => UpsertTurnView::Finish,
            UpsertTurn::Refuse(e) => UpsertTurnView::Refuse(e@),
        }
    }
}

/// The turn that adds a repository.
pub open spec fn insertion(plan: ResourcePlanView) -> UpsertTurnView {
    UpsertTurnView::Ask(
        UpsertStateView::Inserting,
        UpsertActionView::Insert {
            lore_repository_id: plan.lore_repository_id,
            name: plan.name,
            remote_url: plan.remote_url,
            source: resources::source_of(plan.manual),
        },
    )
}

/// The first turn: a repository that was entered by hand is looked for, any other
/// is made active.
pub open spec fn first_turn(resource: ResourceView) -> UpsertTurnView {
    match resources::plan_of(resource) {
        Err(e) => UpsertTurnView::Refuse(e),
        Ok(plan) => if plan.manual {
            UpsertTurnView::Ask(
                UpsertStateView::Finding(plan),
                UpsertActionView::Find(plan.lore_repository_id),
            )
        } else {
            UpsertTurnView::Ask(
                UpsertStateView::Reactivating(plan),
                UpsertActionView::Reactivate(plan.lore_repository_id),
            )
        },
    }
}

/// The turn after an answer of the database. An answer to another question than
/// the one that was asked ends it.
pub open spec fn turn(state: UpsertStateView, event: UpsertEventView) -> UpsertTurnView {
    match (state, event) {
        (UpsertStateView::Finding(plan), UpsertEventView::Found(found)) => {
            match resources::manual_step(found) {
                Err(e) => UpsertTurnView::Refuse(e),
                Ok(None) => insertion(plan),
                Ok(Some(id)) => UpsertTurnView::Ask(
                    UpsertStateView::Updating,
                    UpsertActionView::Update { id, name: plan.name, remote_url: plan.remote_url },
                ),
            }
        },
        (UpsertStateView::Updating, UpsertEventView::Changed(n)) => if n == 0 {
            UpsertTurnView::Refuse(CoreErrorView::NotFound)
        } else {
            UpsertTurnView::Finish
        },
        (UpsertStateView::Reactivating(plan), UpsertEventView::Changed(n)) => if n == 0 {
            insertion(plan)
        } else {
            UpsertTurnView::Finish
        },
        (UpsertStateView::Inserting, UpsertEventView::Changed(_)) => UpsertTurnView::Finish,
        _ => UpsertTurnView::Refuse(
            CoreErrorView::InvalidArgument("sqlite: unexpected answer to a repository"@),
        ),
    }
}

fn insert_turn(plan: ResourcePlan) -> (r: UpsertTurn)
    ensures
        r@ == insertion(plan@),
{
    let source = new_source(plan.manual);
    UpsertTurn::Ask(
        UpsertState::Inserting,
        UpsertAction::Insert {
            lore_repository_id: plan.lore_repository_id,
            name: plan.name,
            remote_url: plan.remote_url,
            source,
        },
    )
}

/// Begins to store a repository.
pub fn begin_upsert(resource: Resource) -> (r: UpsertTurn)
    ensures
        r@ == first_turn(resource@),
{
    match upsert_plan(resource) {
        Err(e) => UpsertTurn::Refuse(e),
        Ok(plan) => {
            let id = plan.lore_repository_id.clone();
            if plan.manual {
                UpsertTurn::Ask(UpsertState::Finding(plan), UpsertAction::Find(id))
            } else {
                UpsertTurn::Ask(UpsertState::Reactivating(plan), UpsertAction::Reactivate(id))
            }
        },
    }
}

/// Takes an answer of the database.
pub fn continue_upsert(state: UpsertState, event: UpsertEvent) -> (r: UpsertTurn)
    ensures
        r@ == turn(state@, event@),
{
    match (state, event) {
        (UpsertState::Finding(plan), UpsertEvent::Found(found)) => match plan_manual(found) {
            Err(e) => UpsertTurn::Refuse(e),
            Ok(ManualStep::Insert) => insert_turn(plan),
            Ok(ManualStep::Update(id)) => UpsertTurn::Ask(
                UpsertState::Updating,
                UpsertAction::Update { id, name: plan.name, remote_url: plan.remote_url },
            ),
        },
        (UpsertState::Updating, UpsertEvent::Changed(n)) => if n == 0 {
            UpsertTurn::Refuse(CoreError::NotFound)
        } else {
            UpsertTurn::Finish
        },
        (UpsertState::Reactivating(plan), UpsertEvent::Changed(n)) => if n == 0 {
            insert_turn(plan)
        } else {
            UpsertTurn::Finish
        },
        (UpsertState::Inserting, UpsertEvent::Changed(_)) => UpsertTurn::Finish,
        _ => UpsertTurn::Refuse(invalid("sqlite: unexpected answer to a repository")),
    }
}

/// How many answers are still waited for.
pub open spec fn answers_left(state: UpsertStateView) -> nat {
    match state {
        UpsertStateView::Finding(_) => 2,
        UpsertStateView::Reactivating(_) => 2,
        UpsertStateView::Updating => 1,
        UpsertStateView::Inserting => 1,
    }
}

/// Storing a repository comes to an end, whatever the database answers.
pub proof fn law_upsert_ends(state: UpsertStateView, event: UpsertEventView)
    ensures
        turn(state, event) matches UpsertTurnView::Ask(next, _) ==> answers_left(next)
            < answers_left(state),
{
}

/// What was not entered by hand is not changed by hand: a repository gets a new
/// name and place only if it was found, under this name, as one that was entered
/// by hand.
pub proof fn law_managed_repository_is_left_alone(state: UpsertStateView, event: UpsertEventView)
    ensures
        turn(state, event) matches UpsertTurnView::Ask(
            _,
            UpsertActionView::Update { id, .. },
        ) ==> {
            &&& event matches UpsertEventView::Found(Some((resource, source)))
            &&& source == "manual"@
            &&& id == resource.id
        },
        event matches UpsertEventView::Found(Some((_, source))) ==> source != "manual"@
            ==> turn(state, event) is Refuse,
{
}

} // verus!
