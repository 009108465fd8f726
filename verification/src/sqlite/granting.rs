//! Granting a role, turn by turn: what the database is asked next, given its answers
//! so far.

use vstd::prelude::*;

use crate::audit;
use crate::authz::gather;
use crate::authz::query::SubjectKind;
use crate::email;
use crate::email::normalize_email;
use crate::error;
use crate::error::{invalid, CoreError, CoreErrorView};
use crate::ids;
use crate::ids::new_id;
use crate::model::{AdminAuditEntryView, Grant, GrantView};
use crate::roles;
use crate::sqlite::grants;
use crate::sqlite::grants::{
    check_role, grant_subject_id, grant_subject_kind, new_grant_with_id,
};
use crate::sqlite::recording;
use crate::sqlite::recording::{ChangeTurnView, FailureView, FateView, TablesView};
use crate::text;

verus! {

// ---------------------------------------------------------------------------
// Finding a user
// ---------------------------------------------------------------------------

/// How a user is looked for.
#[derive(Debug, PartialEq, Eq)]
pub enum UserSearch {
    /// By the identifier.
    ById(String),
    /// By the address, normalized.
    ByAddress(String),
}

/// The view of [`UserSearch`].
pub enum UserSearchView {
    ById(Seq<char>),
    ByAddress(Seq<char>),
}

impl View for UserSearch {
    type V = UserSearchView;

    open spec fn view(&self) -> UserSearchView {
        match self {
            UserSearch::ById(id) => UserSearchView::ById(id@),
            UserSearch::ByAddress(address) => UserSearchView::ByAddress(address@),
        }
    }
}

/// How a user is looked for first: what was given is taken for an identifier.
pub fn begin_search(who: &str) -> (r: UserSearch)
    ensures
        r@ == UserSearchView::ById(who@),
{
    UserSearch::ById(who.to_owned())
}

/// What follows a search: another one, or the end of it.
pub open spec fn search_turn(search: UserSearchView, found: Option<Seq<char>>) -> Result<
    UserSearchView,
    Option<Seq<char>>,
> {
    match (search, found) {
        (UserSearchView::ById(who), None) => Ok(UserSearchView::ByAddress(email::normalized(who))),
        _ => Err(found),
    }
}

/// Takes what a search found: what was no identifier is taken for an address. Where
/// there is nothing more to look for, it is what was found.
pub fn continue_search(search: UserSearch, found: Option<String>) -> (r: Result<
    UserSearch,
    Option<String>,
>)
    ensures
        match r {
            Ok(next) => search_turn(search@, text::opt_text(found)) == Ok::<_, Option<Seq<char>>>(
                next@,
            ),
            Err(last) => search_turn(search@, text::opt_text(found)) == Err::<UserSearchView, _>(
                text::opt_text(last),
            ),
        },
{
    match (search, found) {
        (UserSearch::ById(who), None) => Ok(UserSearch::ByAddress(normalize_email(who.as_str()))),
        (_, found) => Err(found),
    }
}

/// A user is found by the identifier wherever one has it, and else by the address.
/// `by_id` and `by_address` are whom the searches find.
pub proof fn law_user_is_found_by_id_or_address(
    who: Seq<char>,
    by_id: Option<Seq<char>>,
    by_address: Option<Seq<char>>,
)
    ensures
        by_id is Some ==> search_turn(UserSearchView::ById(who), by_id) == Err::<UserSearchView, _>(
            by_id,
        ),
        by_id is None ==> {
            &&& search_turn(UserSearchView::ById(who), by_id) == Ok::<_, Option<Seq<char>>>(
                UserSearchView::ByAddress(email::normalized(who)),
            )
            &&& search_turn(UserSearchView::ByAddress(email::normalized(who)), by_address) == Err::<
                UserSearchView,
                _,
            >(by_address)
        },
{
}

// ---------------------------------------------------------------------------
// The turns
// ---------------------------------------------------------------------------

/// What is to be granted, as it is asked for: to a user or a group, by identifier or
/// name, on a repository, by name.
#[derive(Debug, PartialEq, Eq)]
pub struct GrantRequest {
    pub subject_type: String,
    pub subject: String,
    pub repo: String,
    pub role: String,
}

/// The view of [`GrantRequest`].
#[verifier::ext_equal]
pub struct GrantRequestView {
    pub subject_type: Seq<char>,
    pub subject: Seq<char>,
    pub repo: Seq<char>,
    pub role: Seq<char>,
}

impl View for GrantRequest {
    type V = GrantRequestView;

    open spec fn view(&self) -> GrantRequestView {
        GrantRequestView {
            subject_type: self.subject_type@,
            subject: self.subject@,
            repo: self.repo@,
            role: self.role@,
        }
    }
}

/// What the database is to do next.
#[derive(Debug, PartialEq, Eq)]
pub enum GrantAction {
    /// Find who the grant is to.
    FindSubject(SubjectKind, String),
    /// Find the active repository of this name.
    FindRepository(String),
    /// Store the grant.
    Add(Grant),
}

/// The view of [`GrantAction`].
pub enum GrantActionView {
    FindSubject(SubjectKind, Seq<char>),
    FindRepository(Seq<char>),
    Add(GrantView),
}

impl View for GrantAction {
    type V = GrantActionView;

    open spec fn view(&self) -> GrantActionView {
        match self {
            GrantAction::FindSubject(kind, name) => GrantActionView::FindSubject(*kind, name@),
            GrantAction::FindRepository(name) => GrantActionView::FindRepository(name@),
            GrantAction::Add(grant) => GrantActionView::Add(grant@),
        }
    }
}

/// What the database answered.
#[derive(Debug, PartialEq, Eq)]
pub enum GrantEvent {
    /// The identifier of the subject, or why there is none.
    Subject(Result<String, CoreError>),
    /// The identifier of the repository, if there is one.
    Repository(Option<String>),
    /// The grant is stored.
    Added,
}

/// The view of [`GrantEvent`].
pub enum GrantEventView {
    Subject(Result<Seq<char>, CoreErrorView>),
    Repository(Option<Seq<char>>),
    Added,
}

impl View for GrantEvent {
    type V = GrantEventView;

    open spec fn view(&self) -> GrantEventView {
        match self {
            GrantEvent::Subject(found) => GrantEventView::Subject(error::outcome(*found)),
            GrantEvent::Repository(found) => GrantEventView::Repository(text::opt_text(*found)),
            GrantEvent::Added => GrantEventView::Added,
        }
    }
}

/// How far it is.
#[derive(Debug, PartialEq, Eq)]
pub enum GrantState {
    /// The subject is being looked for.
    Naming(SubjectKind, GrantRequest),
    /// The repository is being looked for; this is the subject.
    Placing(GrantRequest, String),
    /// The grant is being stored.
    Adding(Grant),
}

/// The view of [`GrantState`].
pub enum GrantStateView {
    Naming(SubjectKind, GrantRequestView),
    Placing(GrantRequestView, Seq<char>),
    Adding(GrantView),
}

impl View for GrantState {
    type V = GrantStateView;

    open spec fn view(&self) -> GrantStateView {
        match self {
            GrantState::Naming(kind, req) => GrantStateView::Naming(*kind, req@),
            GrantState::Placing(req, subject) => GrantStateView::Placing(req@, subject@),
            GrantState::Adding(grant) => GrantStateView::Adding(grant@),
        }
    }
}

/// What follows.
#[derive(Debug, PartialEq, Eq)]
pub enum GrantTurn {
    /// The database is asked for more.
    Ask(GrantState, GrantAction),
    /// There is a new grant.
    Finish(Grant),
    /// There is none.
    Refuse(CoreError),
}

/// The view of [`GrantTurn`].
pub enum GrantTurnView {
    Ask(GrantStateView, GrantActionView),
    Finish(GrantView),
    Refuse(CoreErrorView),
}

impl View for GrantTurn {
    type V = GrantTurnView;

    open spec fn view(&self) -> GrantTurnView {
        match self {
            GrantTurn::Ask(s, a) => GrantTurnView::Ask(s@, a@),
            GrantTurn::Finish(grant) => GrantTurnView::Finish(grant@),
            GrantTurn::Refuse(e) => GrantTurnView::Refuse(e@),
        }
    }
}

/// The first turn: the role is looked at before the subject is looked for.
pub open spec fn first_turn(req: GrantRequestView) -> GrantTurnView {
    if roles::role_named(req.role) is None {
        GrantTurnView::Refuse(gather::unknown_role(req.role))
    } else {
        match grants::kind_named(req.subject_type) {
            Err(e) => GrantTurnView::Refuse(e),
            Ok(kind) => GrantTurnView::Ask(
                GrantStateView::Naming(kind, req),
                GrantActionView::FindSubject(kind, req.subject),
            ),
        }
    }
}

/// The grant that is made of a request.
pub open spec fn grant_of(
    req: GrantRequestView,
    subject_id: Seq<char>,
    repository_id: Seq<char>,
    id: Seq<char>,
) -> GrantView {
    GrantView { id, subject_type: req.subject_type, subject_id, repository_id, role: req.role }
}

/// The turn after an answer of the database. `id` is the identifier of the grant that
/// may come of it. An answer to another question than the one that was asked ends it.
pub open spec fn turn(state: GrantStateView, event: GrantEventView, id: Seq<char>) -> GrantTurnView {
    match (state, event) {
        (GrantStateView::Naming(kind, req), GrantEventView::Subject(found)) => {
            match grants::subject_found(kind, req.subject, found) {
                Err(e) => GrantTurnView::Refuse(e),
                Ok(subject) => GrantTurnView::Ask(
                    GrantStateView::Placing(req, subject),
                    GrantActionView::FindRepository(req.repo),
                ),
            }
        },
        (GrantStateView::Placing(req, subject), GrantEventView::Repository(found)) => {
            match found {
                None => GrantTurnView::Refuse(CoreErrorView::NotFound),
                Some(repository) => {
                    let grant = grant_of(req, subject, repository, id);
                    GrantTurnView::Ask(GrantStateView::Adding(grant), GrantActionView::Add(grant))
                },
            }
        },
        (GrantStateView::Adding(grant), GrantEventView::Added) => GrantTurnView::Finish(grant),
        _ => GrantTurnView::Refuse(
            CoreErrorView::InvalidArgument("sqlite: unexpected answer to a grant"@),
        ),
    }
}

/// Begins to grant a role.
pub fn begin_grant(req: GrantRequest) -> (r: GrantTurn)
    ensures
        r@ == first_turn(req@),
{
    if let Err(e) = check_role(req.role.as_str()) {
        return GrantTurn::Refuse(e);
    }
    match grant_subject_kind(req.subject_type.as_str()) {
        Err(e) => GrantTurn::Refuse(e),
        Ok(kind) => {
            let subject = req.subject.clone();
            GrantTurn::Ask(GrantState::Naming(kind, req), GrantAction::FindSubject(kind, subject))
        },
    }
}

/// Takes an answer of the database. `id` is the identifier of the grant that may come
/// of it.
pub fn continue_grant_with_id(state: GrantState, event: GrantEvent, id: String) -> (r: GrantTurn)
    ensures
        r@ == turn(state@, event@, id@),
{
    match (state, event) {
        (GrantState::Naming(kind, req), GrantEvent::Subject(found)) => match grant_subject_id(
            kind,
            req.subject.as_str(),
            found,
        ) {
            Err(e) => GrantTurn::Refuse(e),
            Ok(subject) => {
                let repo = req.repo.clone();
                GrantTurn::Ask(GrantState::Placing(req, subject), GrantAction::FindRepository(repo))
            },
        },
        (GrantState::Placing(req, subject), GrantEvent::Repository(found)) => match found {
            None => GrantTurn::Refuse(CoreError::NotFound),
            Some(repository) => {
                let grant = new_grant_with_id(
                    req.subject_type.as_str(),
                    subject,
                    repository,
                    req.role.as_str(),
                    id,
                );
                let copy = grant.clone();
                GrantTurn::Ask(GrantState::Adding(grant), GrantAction::Add(copy))
            },
        },
        (GrantState::Adding(grant), GrantEvent::Added) => GrantTurn::Finish(grant),
        _ => GrantTurn::Refuse(invalid("sqlite: unexpected answer to a grant")),
    }
}

/// Takes an answer of the database. The grant that comes of it has a new identifier.
pub fn continue_grant(state: GrantState, event: GrantEvent) -> (r: GrantTurn)
    ensures
        exists|id: Seq<char>|
            ids::is_uuid(id) && r@ == #[trigger] turn(state@, event@, id),
{
    let id = new_id();
    let ghost drawn = id@;
    let r = continue_grant_with_id(state, event, id);
    assert(r@ == turn(state@, event@, drawn));
    r
}

// ---------------------------------------------------------------------------
// What the table holds
// ---------------------------------------------------------------------------

/// What the database answers while a role is granted: who the subject is, which
/// repository it is, an identifier for the grant, and whether storing it fails for any
/// other reason than what the table holds.
pub struct AnswersView {
    pub subject: Result<Seq<char>, CoreErrorView>,
    pub repository: Option<Seq<char>>,
    pub id: Seq<char>,
    pub fails: bool,
}

/// Whether one grant says what another one says.
pub open spec fn says_the_same(a: GrantView, b: GrantView) -> bool {
    a == (GrantView { id: a.id, ..b })
}

/// Whether the table takes a grant: it has none yet that says the same, and none under
/// that identifier.
pub open spec fn takes(table: Seq<GrantView>, grant: GrantView) -> bool {
    forall|i: int|
        0 <= i < table.len() ==> !says_the_same(#[trigger] table[i], grant) && table[i].id
            != grant.id
}

/// The table after an answer was asked for, and the answer; none where storing the
/// grant fails, as it does where the table does not take it.
pub open spec fn perform(
    table: Seq<GrantView>,
    action: GrantActionView,
    answers: AnswersView,
) -> Option<(Seq<GrantView>, GrantEventView)> {
    match action {
        GrantActionView::FindSubject(_, _) => Some(
            (table, GrantEventView::Subject(answers.subject)),
        ),
        GrantActionView::FindRepository(_) => Some(
            (table, GrantEventView::Repository(answers.repository)),
        ),
        GrantActionView::Add(grant) => if takes(table, grant) && !answers.fails {
            Some((table.push(grant), GrantEventView::Added))
        } else {
            None
        },
    }
}

/// The table and the turn after at most `n` answers; none where storing the grant
/// fails.
pub open spec fn run(
    table: Seq<GrantView>,
    turn: GrantTurnView,
    answers: AnswersView,
    n: nat,
) -> Option<(Seq<GrantView>, GrantTurnView)>
    decreases n,
{
    match turn {
        GrantTurnView::Ask(state, action) => if n == 0 {
            Some((table, turn))
        } else {
            match perform(table, action, answers) {
                Some((after, event)) => run(
                    after,
                    self::turn(state, event, answers.id),
                    answers,
                    (n - 1) as nat,
                ),
                None => None,
            }
        },
        _ => Some((table, turn)),
    }
}

/// Whether a grant can be made of a request: there is such a role, such a kind of
/// subject, such a subject and such a repository, the table takes the grant, and storing
/// it does not fail.
pub open spec fn can_be_granted(
    table: Seq<GrantView>,
    req: GrantRequestView,
    answers: AnswersView,
) -> bool {
    &&& roles::role_named(req.role) is Some
    &&& grants::kind_named(req.subject_type) is Ok
    &&& answers.subject is Ok
    &&& answers.repository is Some
    &&& !answers.fails
    &&& takes(table, grant_of(req, answers.subject->Ok_0, answers.repository->0, answers.id))
}

/// Whether `change` is what comes of granting a role: the table with the grant, and
/// what is to be recorded of what this actor did, or else a failure.
pub open spec fn is_granting(
    change: Result<(Seq<GrantView>, Option<AdminAuditEntryView>), FailureView>,
    table: Seq<GrantView>,
    req: GrantRequestView,
    answers: AnswersView,
    actor: Seq<char>,
) -> bool {
    match run(table, first_turn(req), answers, 3) {
        Some((after, GrantTurnView::Finish(grant))) => change matches Ok((data, Some(entry)))
            && data == after && audit::is_entry(
            entry,
            actor,
            "grant.add"@,
            "grant"@,
            grant.id,
            audit::grant_details(req.subject_type, req.subject, req.repo, req.role),
        ),
        _ => change is Err,
    }
}

/// A grant is made exactly where it can be, and is then the last one in the table;
/// otherwise the table is left as it is.
pub proof fn law_grant_is_made_where_it_can_be(
    table: Seq<GrantView>,
    req: GrantRequestView,
    answers: AnswersView,
)
    ensures
        match run(table, first_turn(req), answers, 3) {
            Some((after, GrantTurnView::Finish(grant))) => {
                &&& can_be_granted(table, req, answers)
                &&& grant == grant_of(
                    req,
                    answers.subject->Ok_0,
                    answers.repository->0,
                    answers.id,
                )
                &&& after == table.push(grant)
            },
            Some((after, GrantTurnView::Refuse(_))) => !can_be_granted(table, req, answers)
                && after == table,
            Some((_, GrantTurnView::Ask(_, _))) => false,
            None => !can_be_granted(table, req, answers),
        },
{
    reveal_with_fuel(run, 4);
}

/// A grant and the record of it are both in the tables afterwards, or neither is. Both
/// are exactly where the grant can be made and nothing fails. Where only the record
/// fails, the grants are as they were, and that is told.
pub proof fn law_grant_is_made_with_its_record(
    t: TablesView<Seq<GrantView>>,
    req: GrantRequestView,
    answers: AnswersView,
    actor: Seq<char>,
    fate: FateView<Seq<GrantView>>,
)
    requires
        is_granting(fate.change, t.data, req, answers, actor),
    ensures
        ({
            let (after, turn) = recording::changed(t, fate);
            let grant = grant_of(req, answers.subject->Ok_0, answers.repository->0, answers.id);
            &&& turn is Finish ==> {
                &&& can_be_granted(t.data, req, answers)
                &&& after.data == t.data.push(grant)
                &&& after.records.len() == t.records.len() + 1
                &&& after.records.drop_last() == t.records
                &&& after.records.last().actor == actor
                &&& after.records.last().action == "grant.add"@
                &&& after.records.last().object_id == grant.id
            }
            &&& turn !is Finish ==> after == t
            &&& turn is Finish <==> can_be_granted(t.data, req, answers) && fate.open is None
                && fate.record is None && fate.commit is None
            &&& fate.open is None && can_be_granted(t.data, req, answers)
                && fate.record is Some ==> turn == ChangeTurnView::Undo(
                CoreErrorView::AdminAuditFailed(fate.record->0.text),
            )
        }),
{
    law_grant_is_made_where_it_can_be(t.data, req, answers);
    recording::law_change_and_record_go_together(t, fate);
    if fate.open is None && can_be_granted(t.data, req, answers) && fate.record is Some {
        let (data, entry) = fate.change->Ok_0;
        recording::law_unrecorded_change_is_undone(t, fate, data, entry->0, fate.record->0);
    }
    let (after, turn) = recording::changed(t, fate);
    if turn is Finish {
        let (data, entry) = fate.change->Ok_0;
        assert(t.records.push(entry->0).drop_last() =~= t.records);
    }
}

} // verus!
