//! A change by an administrator and the record of it, turn by turn: both are made in
//! one transaction, so that both are kept or neither is.

use vstd::prelude::*;

use crate::error::{invalid, CoreError, CoreErrorView};
use crate::model::{AdminAuditEntry, AdminAuditEntryView};
use crate::sqlite::audited::admin_audit_failed;

verus! {

/// What the database is to do next.
#[derive(Debug, PartialEq, Eq)]
pub enum ChangeAction {
    /// Open a transaction.
    Open,
    /// Make the change in it.
    Change,
    /// Write this record in it.
    Record(AdminAuditEntry),
    /// Keep what was done in it.
    Commit,
}

/// The view of [`ChangeAction`].
pub enum ChangeActionView {
    Open,
    Change,
    Record(AdminAuditEntryView),
    Commit,
}

impl View for ChangeAction {
    type V = ChangeActionView;

    open spec fn view(&self) -> ChangeActionView {
        match self {
            ChangeAction::Open => ChangeActionView::Open,
            ChangeAction::Change => ChangeActionView::Change,
            ChangeAction::Record(entry) => ChangeActionView::Record(entry@),
            ChangeAction::Commit => ChangeActionView::Commit,
        }
    }
}

/// What came of it.
#[derive(Debug, PartialEq, Eq)]
pub enum ChangeEvent {
    /// It is done.
    Done,
    /// The change is made, and this is to be recorded of it, if anything is.
    Changed(Option<AdminAuditEntry>),
    /// It failed, with this error, which reads like this.
    Failed { error: CoreError, text: String },
}

/// The view of [`ChangeEvent`].
pub enum ChangeEventView {
    Done,
    Changed(Option<AdminAuditEntryView>),
    Failed { error: CoreErrorView, text: Seq<char> },
}

impl View for ChangeEvent {
    type V = ChangeEventView;

    open spec fn view(&self) -> ChangeEventView {
        match self {
            ChangeEvent::Done => ChangeEventView::Done,
            ChangeEvent::Changed(entry) => ChangeEventView::Changed(
                match entry {
                    Some(entry) => Some(entry@),
                    None => None,
                },
            ),
            ChangeEvent::Failed { error, text } => ChangeEventView::Failed {
                error: error@,
                text: text@,
            },
        }
    }
}

/// How far it is.
#[derive(Debug, PartialEq, Eq)]
pub enum ChangeState {
    /// The transaction is being opened.
    Opening,
    /// The change is being made.
    Changing,
    /// The record is being written.
    Recording,
    /// The transaction is being committed.
    Committing,
}

/// What follows.
#[derive(Debug, PartialEq, Eq)]
pub enum ChangeTurn {
    /// There is more to do.
    Ask(ChangeState, ChangeAction),
    /// The change is made.
    Finish,
    /// There is no change: what was done is to be undone.
    Undo(CoreError),
}

/// The view of [`ChangeTurn`].
pub enum ChangeTurnView {
    Ask(ChangeState, ChangeActionView),
    Finish,
    Undo(CoreErrorView),
}

impl View for ChangeTurn {
    type V = ChangeTurnView;

    open spec fn view(&self) -> ChangeTurnView {
        match self {
            ChangeTurn::Ask(s, a) => ChangeTurnView::Ask(*s, a@),
            ChangeTurn::Finish => ChangeTurnView::Finish,
            ChangeTurn::Undo(e) => ChangeTurnView::Undo(e@),
        }
    }
}

/// The first turn of a change.
pub open spec fn first_turn() -> ChangeTurnView {
    ChangeTurnView::Ask(ChangeState::Opening, ChangeActionView::Open)
}

/// The turn after an answer of the database. A failure to record is told as such; an
/// answer to another question than the one that was asked undoes the change.
pub open spec fn turn(state: ChangeState, event: ChangeEventView) -> ChangeTurnView {
    match (state, event) {
        (ChangeState::Opening, ChangeEventView::Done) => ChangeTurnView::Ask(
            ChangeState::Changing,
            ChangeActionView::Change,
        ),
        (ChangeState::Changing, ChangeEventView::Changed(Some(entry))) => ChangeTurnView::Ask(
            ChangeState::Recording,
            ChangeActionView::Record(entry),
        ),
        (ChangeState::Changing, ChangeEventView::Changed(None)) => ChangeTurnView::Ask(
            ChangeState::Committing,
            ChangeActionView::Commit,
        ),
        (ChangeState::Recording, ChangeEventView::Done) => ChangeTurnView::Ask(
            ChangeState::Committing,
            ChangeActionView::Commit,
        ),
        (ChangeState::Committing, ChangeEventView::Done) => ChangeTurnView::Finish,
        (ChangeState::Recording, ChangeEventView::Failed { text, .. }) => ChangeTurnView::Undo(
            CoreErrorView::AdminAuditFailed(text),
        ),
        (_, ChangeEventView::Failed { error, .. }) => ChangeTurnView::Undo(error),
        _ => ChangeTurnView::Undo(
            CoreErrorView::InvalidArgument("sqlite: unexpected answer to a change"@),
        ),
    }
}

/// Begins a change.
pub fn begin_change() -> (r: ChangeTurn)
    ensures
        r@ == first_turn(),
{
    ChangeTurn::Ask(ChangeState::Opening, ChangeAction::Open)
}

/// Takes an answer of the database.
pub fn continue_change(state: ChangeState, event: ChangeEvent) -> (r: ChangeTurn)
    ensures
        r@ == turn(state, event@),
{
    match (state, event) {
        (ChangeState::Opening, ChangeEvent::Done) => ChangeTurn::Ask(
            ChangeState::Changing,
            ChangeAction::Change,
        ),
        (ChangeState::Changing, ChangeEvent::Changed(Some(entry))) => ChangeTurn::Ask(
            ChangeState::Recording,
            ChangeAction::Record(entry),
        ),
        (ChangeState::Changing, ChangeEvent::Changed(None)) => ChangeTurn::Ask(
            ChangeState::Committing,
            ChangeAction::Commit,
        ),
        (ChangeState::Recording, ChangeEvent::Done) => ChangeTurn::Ask(
            ChangeState::Committing,
            ChangeAction::Commit,
        ),
        (ChangeState::Committing, ChangeEvent::Done) => ChangeTurn::Finish,
        (ChangeState::Recording, ChangeEvent::Failed { error: _, text }) => ChangeTurn::Undo(
            admin_audit_failed(text.as_str()),
        ),
        (_, ChangeEvent::Failed { error, text: _ }) => ChangeTurn::Undo(error),
        _ => ChangeTurn::Undo(invalid("sqlite: unexpected answer to a change")),
    }
}

// ---------------------------------------------------------------------------
// What the tables hold
// ---------------------------------------------------------------------------

/// The tables: what a change is made to, and the records of changes.
#[verifier::ext_equal]
pub struct TablesView<D> {
    pub data: D,
    pub records: Seq<AdminAuditEntryView>,
}

/// A database: what is kept, which is all that others see of it, and what it would be
/// after the transaction that is open, if one is.
#[verifier::ext_equal]
pub struct DatabaseView<D> {
    pub kept: TablesView<D>,
    pub open: Option<TablesView<D>>,
}

/// An error, and how it reads.
pub struct FailureView {
    pub error: CoreErrorView,
    pub text: Seq<char>,
}

/// What the database makes of each thing that it is asked for: a failure, or else
/// what is asked for. A change makes something of the data, and has something to be
/// recorded, or fails.
pub struct FateView<D> {
    pub open: Option<FailureView>,
    pub change: Result<(D, Option<AdminAuditEntryView>), FailureView>,
    pub record: Option<FailureView>,
    pub commit: Option<FailureView>,
}

/// The answer to something that is done or fails.
pub open spec fn answer(failure: Option<FailureView>) -> ChangeEventView {
    match failure {
        None => ChangeEventView::Done,
        Some(f) => ChangeEventView::Failed { error: f.error, text: f.text },
    }
}

impl<D> DatabaseView<D> {
    /// A database without a transaction.
    pub open spec fn at_rest(kept: TablesView<D>) -> DatabaseView<D> {
        DatabaseView { kept, open: None }
    }

    /// The database after something was asked for, and its answer.
    pub open spec fn perform(self, action: ChangeActionView, fate: FateView<D>) -> (
        DatabaseView<D>,
        ChangeEventView,
    ) {
        match action {
            ChangeActionView::Open => (
                if fate.open is None {
                    DatabaseView { open: Some(self.kept), ..self }
                } else {
                    self
                },
                answer(fate.open),
            ),
            ChangeActionView::Change => match fate.change {
                Ok((data, entry)) => (
                    DatabaseView { open: Some(TablesView { data, ..self.open->0 }), ..self },
                    ChangeEventView::Changed(entry),
                ),
                Err(f) => (self, answer(Some(f))),
            },
            ChangeActionView::Record(entry) => (
                if fate.record is None {
                    DatabaseView {
                        open: Some(
                            TablesView {
                                records: self.open->0.records.push(entry),
                                ..self.open->0
                            },
                        ),
                        ..self
                    }
                } else {
                    self
                },
                answer(fate.record),
            ),
            ChangeActionView::Commit => (
                if fate.commit is None {
                    DatabaseView::at_rest(self.open->0)
                } else {
                    self
                },
                answer(fate.commit),
            ),
        }
    }

    /// The database and the turn after at most `n` answers.
    pub open spec fn run(self, turn: ChangeTurnView, fate: FateView<D>, n: nat) -> (
        DatabaseView<D>,
        ChangeTurnView,
    )
        decreases n,
    {
        match turn {
            ChangeTurnView::Ask(state, action) => if n == 0 {
                (self, turn)
            } else {
                let (after, event) = self.perform(action, fate);
                after.run(self::turn(state, event), fate, (n - 1) as nat)
            },
            _ => (self, turn),
        }
    }
}

/// What is kept in the tables after a change, and how it ends: a transaction that is
/// still open then is undone.
pub open spec fn changed<D>(t: TablesView<D>, fate: FateView<D>) -> (TablesView<D>, ChangeTurnView) {
    let (after, turn) = DatabaseView::at_rest(t).run(first_turn(), fate, 4);
    (after.kept, turn)
}

/// The records with one more, if there is one.
pub open spec fn with_record(
    records: Seq<AdminAuditEntryView>,
    entry: Option<AdminAuditEntryView>,
) -> Seq<AdminAuditEntryView> {
    match entry {
        Some(entry) => records.push(entry),
        None => records,
    }
}

// ---------------------------------------------------------------------------
// Laws
// ---------------------------------------------------------------------------

/// A change and its record are kept together or not at all, whatever fails. The
/// change is made exactly where nothing fails that is asked for; then the tables hold
/// what it made of the data, and one more record, if it is to be recorded. Otherwise
/// they hold what they held before.
pub proof fn law_change_and_record_go_together<D>(t: TablesView<D>, fate: FateView<D>)
    ensures
        ({
            let (after, turn) = changed(t, fate);
            match turn {
                ChangeTurnView::Finish => fate.change matches Ok((data, entry)) && after == (
                TablesView { data, records: with_record(t.records, entry) }),
                ChangeTurnView::Undo(_) => after == t,
                ChangeTurnView::Ask(_, _) => false,
            }
        }),
        changed(t, fate).1 is Finish <==> {
            &&& fate.open is None
            &&& fate.change matches Ok((_, entry)) && (entry is Some ==> fate.record is None)
            &&& fate.commit is None
        },
{
    reveal_with_fuel(DatabaseView::run, 5);
}

/// A change that cannot be recorded is undone, and told of as one that could not be
/// recorded.
pub proof fn law_unrecorded_change_is_undone<D>(
    t: TablesView<D>,
    fate: FateView<D>,
    data: D,
    entry: AdminAuditEntryView,
    failure: FailureView,
)
    requires
        fate.open is None,
        fate.change == Ok::<_, FailureView>((data, Some(entry))),
        fate.record == Some(failure),
    ensures
        changed(t, fate) == (
            t,
            ChangeTurnView::Undo(CoreErrorView::AdminAuditFailed(failure.text)),
        ),
{
    reveal_with_fuel(DatabaseView::run, 5);
}

/// What fails for another reason is undone and told of with that reason.
pub proof fn law_failed_change_is_undone<D>(t: TablesView<D>, fate: FateView<D>)
    ensures
        fate.open matches Some(f) ==> changed(t, fate) == (t, ChangeTurnView::Undo(f.error)),
        fate.open is None && fate.change is Err ==> changed(t, fate) == (
            t,
            ChangeTurnView::Undo(fate.change->Err_0.error),
        ),
{
    reveal_with_fuel(DatabaseView::run, 5);
}

} // verus!
