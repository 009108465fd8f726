//! Asking whether a user may do something, turn by turn: what the database and the
//! engine are asked next, given their answers so far.

use vstd::prelude::*;

use crate::authz::agreement;
use crate::authz::checks;
use crate::authz::checks::{next_access_step, AccessStep, CheckOutcome};
use crate::authz::database;
use crate::authz::database::DatabaseView;
use crate::authz::gather;
use crate::authz::query::GrantRowView;
use crate::authz::snapshot;
use crate::authz::snapshot::{
    member_tuples_from_rows, repository_tuples, validate_snapshot_can_access_roles, GrantRow,
    MemberRow,
};
use crate::authz::{Tuple, TupleView};
use crate::error::{invalid, CoreError, CoreErrorView};
use crate::order;
use crate::resource_id;
use crate::resource_id::ResourceID;
use crate::roles;

verus! {

/// What is asked: whether this user may do that with this resource.
#[derive(Debug, PartialEq, Eq)]
pub struct AccessRequest {
    pub user_id: String,
    pub resource_id: String,
    pub action: String,
}

/// The view of [`AccessRequest`].
#[verifier::ext_equal]
pub struct AccessRequestView {
    pub user_id: Seq<char>,
    pub resource_id: Seq<char>,
    pub action: Seq<char>,
}

impl View for AccessRequest {
    type V = AccessRequestView;

    open spec fn view(&self) -> AccessRequestView {
        AccessRequestView {
            user_id: self.user_id@,
            resource_id: self.resource_id@,
            action: self.action@,
        }
    }
}

/// What is to be done next.
#[derive(Debug, PartialEq, Eq)]
pub enum AccessAction {
    /// Read the active repository with this identifier, and the grants on it.
    ReadRepository(String),
    /// Read the groups of this user, and how they are nested.
    ReadGroups(String),
    /// Load the engine with these tuples, in place of any that it had.
    Load(Vec<Tuple>),
    /// Check whether the user has this relation to the resource.
    Check(String),
}

/// The view of [`AccessAction`].
pub enum AccessActionView {
    ReadRepository(Seq<char>),
    ReadGroups(Seq<char>),
    Load(Seq<TupleView>),
    Check(Seq<char>),
}

impl View for AccessAction {
    type V = AccessActionView;

    open spec fn view(&self) -> AccessActionView {
        match self {
            AccessAction::ReadRepository(id) => AccessActionView::ReadRepository(id@),
            AccessAction::ReadGroups(id) => AccessActionView::ReadGroups(id@),
            AccessAction::Load(tuples) => AccessActionView::Load(order::views(tuples@)),
            AccessAction::Check(relation) => AccessActionView::Check(relation@),
        }
    }
}

/// What came of it.
#[derive(Debug, PartialEq, Eq)]
pub enum AccessEvent {
    /// The rows of the repository.
    Repository(Vec<GrantRow>),
    /// The groups that the user is directly in, and how groups are nested.
    Groups { users: Vec<MemberRow>, groups: Vec<MemberRow> },
    /// The engine is loaded.
    Loaded,
    /// The answer of the engine.
    Checked(CheckOutcome),
}

/// The view of [`AccessEvent`].
pub enum AccessEventView {
    Repository(Seq<(Seq<char>, Option<GrantRowView>)>),
    Groups { users: Seq<(Seq<char>, Seq<char>)>, groups: Seq<(Seq<char>, Seq<char>)> },
    Loaded,
    Checked(CheckOutcome),
}

impl View for AccessEvent {
    type V = AccessEventView;

    open spec fn view(&self) -> AccessEventView {
        match self {
            AccessEvent::Repository(rows) => AccessEventView::Repository(order::views(rows@)),
            AccessEvent::Groups { users, groups } => AccessEventView::Groups {
                users: order::views(users@),
                groups: order::views(groups@),
            },
            AccessEvent::Loaded => AccessEventView::Loaded,
            AccessEvent::Checked(outcome) => AccessEventView::Checked(*outcome),
        }
    }
}

/// How far it is.
#[derive(Debug, PartialEq, Eq)]
pub enum AccessState {
    /// The repository is being read.
    Placing(AccessRequest),
    /// The groups are being read; these are the tuples of the repository.
    Joining(AccessRequest, Vec<Tuple>),
    /// The engine is being loaded.
    Loading(AccessRequest),
    /// The engine is being asked; these are its answers so far.
    Checking(AccessRequest, Vec<CheckOutcome>),
}

/// The view of [`AccessState`].
pub enum AccessStateView {
    Placing(AccessRequestView),
    Joining(AccessRequestView, Seq<TupleView>),
    Loading(AccessRequestView),
    Checking(AccessRequestView, Seq<CheckOutcome>),
}

impl View for AccessState {
    type V = AccessStateView;

    open spec fn view(&self) -> AccessStateView {
        match self {
            AccessState::Placing(req) => AccessStateView::Placing(req@),
            AccessState::Joining(req, tuples) => AccessStateView::Joining(
                req@,
                order::views(tuples@),
            ),
            AccessState::Loading(req) => AccessStateView::Loading(req@),
            AccessState::Checking(req, outcomes) => AccessStateView::Checking(req@, outcomes@),
        }
    }
}

/// What follows.
#[derive(Debug, PartialEq, Eq)]
pub enum AccessTurn {
    /// There is more to ask.
    Ask(AccessState, AccessAction),
    /// It is decided.
    Answer(Result<bool, CoreError>),
}

/// The view of [`AccessTurn`].
pub enum AccessTurnView {
    Ask(AccessStateView, AccessActionView),
    Answer(Result<bool, CoreErrorView>),
}

impl View for AccessTurn {
    type V = AccessTurnView;

    open spec fn view(&self) -> AccessTurnView {
        match self {
            AccessTurn::Ask(s, a) => AccessTurnView::Ask(s@, a@),
            AccessTurn::Answer(Ok(b)) => AccessTurnView::Answer(Ok(*b)),
            AccessTurn::Answer(Err(e)) => AccessTurnView::Answer(Err(e@)),
        }
    }
}

/// The first turn: the repository of the resource is read.
pub open spec fn first_turn(req: AccessRequestView) -> AccessTurnView {
    AccessTurnView::Ask(
        AccessStateView::Placing(req),
        AccessActionView::ReadRepository(resource_id::repository_of(req.resource_id)),
    )
}

/// The turn after some answers of the engine.
pub open spec fn checked_turn(req: AccessRequestView, outcomes: Seq<CheckOutcome>) -> AccessTurnView {
    match checks::access_step(req.action, outcomes) {
        Ok(relation) => AccessTurnView::Ask(
            AccessStateView::Checking(req, outcomes),
            AccessActionView::Check(relation),
        ),
        Err(answer) => AccessTurnView::Answer(answer),
    }
}

/// The turn after an answer. An answer to another question than the one that was asked
/// ends it.
pub open spec fn turn(state: AccessStateView, event: AccessEventView) -> AccessTurnView {
    match (state, event) {
        (AccessStateView::Placing(req), AccessEventView::Repository(rows)) => if rows.len() == 0 {
            AccessTurnView::Answer(Err(CoreErrorView::NotFound))
        } else {
            AccessTurnView::Ask(
                AccessStateView::Joining(req, snapshot::grant_tuples(rows)),
                AccessActionView::ReadGroups(req.user_id),
            )
        },
        (AccessStateView::Joining(req, tuples), AccessEventView::Groups { users, groups }) => {
            let all = tuples + snapshot::member_tuples(users, groups);
            match snapshot::role_fault(all, req.user_id, req.action) {
                Some(e) => AccessTurnView::Answer(Err(e)),
                None => AccessTurnView::Ask(
                    AccessStateView::Loading(req),
                    AccessActionView::Load(all),
                ),
            }
        },
        (AccessStateView::Loading(req), AccessEventView::Loaded) => checked_turn(req, Seq::empty()),
        (AccessStateView::Checking(req, outcomes), AccessEventView::Checked(outcome)) => {
            checked_turn(req, outcomes.push(outcome))
        },
        _ => AccessTurnView::Answer(
            Err(CoreErrorView::InvalidArgument("authz: unexpected answer to a question"@)),
        ),
    }
}

/// Begins to ask. Nothing is known from any question before.
pub fn begin_access(req: AccessRequest) -> (r: AccessTurn)
    ensures
        r@ == first_turn(req@),
{
    let repository = ResourceID::repository_id_from_resource_id(req.resource_id.as_str());
    AccessTurn::Ask(AccessState::Placing(req), AccessAction::ReadRepository(repository))
}

fn engine_answered(req: AccessRequest, outcomes: Vec<CheckOutcome>) -> (r: AccessTurn)
    ensures
        r@ == checked_turn(req@, outcomes@),
{
    match next_access_step(req.action.as_str(), &outcomes) {
        AccessStep::Ask(relation) => AccessTurn::Ask(
            AccessState::Checking(req, outcomes),
            AccessAction::Check(relation),
        ),
        AccessStep::Answer(answer) => AccessTurn::Answer(answer),
    }
}

fn append_tuples(tuples: Vec<Tuple>, more: Vec<Tuple>) -> (r: Vec<Tuple>)
    ensures
        order::views(r@) == order::views(tuples@) + order::views(more@),
{
    let mut out = tuples;
    let mut rest = more;
    out.append(&mut rest);
    assert(order::views(out@) =~= order::views(tuples@) + order::views(more@));
    out
}

/// Takes an answer.
pub fn continue_access(state: AccessState, event: AccessEvent) -> (r: AccessTurn)
    ensures
        r@ == turn(state@, event@),
{
    match (state, event) {
        (AccessState::Placing(req), AccessEvent::Repository(rows)) => match repository_tuples(
            rows,
        ) {
            Err(e) => AccessTurn::Answer(Err(e)),
            Ok(tuples) => {
                let user = req.user_id.clone();
                AccessTurn::Ask(AccessState::Joining(req, tuples), AccessAction::ReadGroups(user))
            },
        },
        (AccessState::Joining(req, tuples), AccessEvent::Groups { users, groups }) => {
            let all = append_tuples(tuples, member_tuples_from_rows(&users, &groups));
            match validate_snapshot_can_access_roles(
                &all,
                req.user_id.as_str(),
                req.action.as_str(),
            ) {
                Err(e) => AccessTurn::Answer(Err(e)),
                Ok(()) => AccessTurn::Ask(AccessState::Loading(req), AccessAction::Load(all)),
            }
        },
        (AccessState::Loading(req), AccessEvent::Loaded) => {
            let none: Vec<CheckOutcome> = Vec::new();
            assert(none@ =~= Seq::<CheckOutcome>::empty());
            engine_answered(req, none)
        },
        (AccessState::Checking(req, outcomes), AccessEvent::Checked(outcome)) => {
            let mut all = outcomes;
            all.push(outcome);
            engine_answered(req, all)
        },
        _ => AccessTurn::Answer(Err(invalid("authz: unexpected answer to a question"))),
    }
}

// ---------------------------------------------------------------------------
// What the tables hold
// ---------------------------------------------------------------------------

/// The tables: the repositories that are active, and all that is granted on them and
/// grouped.
pub struct TablesView {
    pub repositories: Set<Seq<char>>,
    pub rows: DatabaseView,
}

/// What an engine answers, by the tuples that it is loaded with: whether a user has a
/// relation to a resource.
pub struct EngineView {
    pub answers: spec_fn(Seq<TupleView>, Seq<char>, Seq<char>, Seq<char>) -> CheckOutcome,
}

impl EngineView {
    /// The answer on a resource, a relation and a user.
    pub open spec fn answer(
        self,
        tuples: Seq<TupleView>,
        resource: Seq<char>,
        relation: Seq<char>,
        user: Seq<char>,
    ) -> CheckOutcome {
        (self.answers)(tuples, resource, relation, user)
    }

    /// Whether the engine answers by the relations that there are.
    pub open spec fn is_right(self) -> bool {
        forall|v: Seq<TupleView>, resource: Seq<char>, relation: Seq<char>, user: Seq<char>|
            #[trigger]
            self.answer(v, resource, relation, user) == checks::plain(
                agreement::related(v, resource, relation, user),
            )
    }
}

impl TablesView {
    /// The rows of a repository: none where it is not active, and one without a grant
    /// where nothing is granted on it.
    pub open spec fn repository_rows(self, repository: Seq<char>) -> Seq<
        (Seq<char>, Option<GrantRowView>),
    > {
        let found = self.rows.grants.filter(agreement::is_on(seq![repository]));
        if !self.repositories.contains(repository) {
            Seq::empty()
        } else if found.len() == 0 {
            seq![(repository, None)]
        } else {
            database::granted(found)
        }
    }

    /// What comes of an action: the tuples that the engine is loaded with then, and
    /// the answer.
    pub open spec fn perform(
        self,
        engine: EngineView,
        loaded: Seq<TupleView>,
        req: AccessRequestView,
        action: AccessActionView,
    ) -> (Seq<TupleView>, AccessEventView) {
        match action {
            AccessActionView::ReadRepository(id) => (
                loaded,
                AccessEventView::Repository(self.repository_rows(id)),
            ),
            AccessActionView::ReadGroups(user) => (
                loaded,
                AccessEventView::Groups {
                    users: self.rows.rows_of_user(user),
                    groups: self.rows.rows_upward(user),
                },
            ),
            AccessActionView::Load(tuples) => (tuples, AccessEventView::Loaded),
            AccessActionView::Check(relation) => (
                loaded,
                AccessEventView::Checked(
                    engine.answer(loaded, req.resource_id, relation, req.user_id),
                ),
            ),
        }
    }

    /// The tuples that the engine is loaded with, and the turn, after at most `n`
    /// answers.
    pub open spec fn run(
        self,
        engine: EngineView,
        loaded: Seq<TupleView>,
        req: AccessRequestView,
        turn: AccessTurnView,
        n: nat,
    ) -> (Seq<TupleView>, AccessTurnView)
        decreases n,
    {
        match turn {
            AccessTurnView::Ask(state, action) => if n == 0 {
                (loaded, turn)
            } else {
                let (after, event) = self.perform(engine, loaded, req, action);
                self.run(engine, after, req, self::turn(state, event), (n - 1) as nat)
            },
            AccessTurnView::Answer(_) => (loaded, turn),
        }
    }

    /// What a question comes to on these tables: whether the user has one of the
    /// relations that permit the action, by the engine loaded with what is read of the
    /// repository and of the user's groups.
    pub open spec fn decided(self, engine: EngineView, req: AccessRequestView) -> Result<
        bool,
        CoreErrorView,
    > {
        let repository = resource_id::repository_of(req.resource_id);
        let tuples = self.rows.tuples_on(seq![repository], req.user_id);
        if !self.repositories.contains(repository) {
            Err(CoreErrorView::NotFound)
        } else {
            match snapshot::role_fault(tuples, req.user_id, req.action) {
                Some(e) => Err(e),
                None => checks::any_holds(self.outcomes(engine, tuples, req)),
            }
        }
    }

    /// What the engine answers on each relation that permits the action.
    pub open spec fn outcomes(
        self,
        engine: EngineView,
        tuples: Seq<TupleView>,
        req: AccessRequestView,
    ) -> Seq<CheckOutcome> {
        checks::relations_for(req.action).map_values(
            |relation: Seq<char>| engine.answer(tuples, req.resource_id, relation, req.user_id),
        )
    }
}

/// What happens to a policy: somebody changes the database, or it is asked something.
pub enum HappeningView {
    Commit(TablesView),
    Ask(AccessRequestView),
}

/// A policy: the database that it reads, and what its engine was last loaded with.
pub struct PolicyView {
    pub tables: TablesView,
    pub loaded: Seq<TupleView>,
}

impl PolicyView {
    /// A policy that was not asked anything yet.
    pub open spec fn fresh(tables: TablesView) -> PolicyView {
        PolicyView { tables, loaded: Seq::empty() }
    }

    /// What the policy answers to a question.
    pub open spec fn answer(self, engine: EngineView, req: AccessRequestView) -> AccessTurnView {
        self.tables.run(engine, self.loaded, req, first_turn(req), 6).1
    }

    /// The policy after something happened.
    pub open spec fn after(self, engine: EngineView, what: HappeningView) -> PolicyView {
        match what {
            HappeningView::Commit(tables) => PolicyView { tables, ..self },
            HappeningView::Ask(req) => PolicyView {
                loaded: self.tables.run(engine, self.loaded, req, first_turn(req), 6).0,
                ..self
            },
        }
    }

    /// The policy after all of this happened, one after the other.
    pub open spec fn after_all(self, engine: EngineView, history: Seq<HappeningView>) -> PolicyView
        decreases history.len(),
    {
        if history.len() == 0 {
            self
        } else {
            self.after_all(engine, history.drop_last()).after(engine, history.last())
        }
    }
}

// ---------------------------------------------------------------------------
// Laws
// ---------------------------------------------------------------------------

proof fn lemma_checks(
    t: TablesView,
    engine: EngineView,
    tuples: Seq<TupleView>,
    req: AccessRequestView,
    k: nat,
    n: nat,
)
    requires
        k <= checks::relations_for(req.action).len(),
        k + n >= checks::relations_for(req.action).len(),
    ensures
        t.run(
            engine,
            tuples,
            req,
            checked_turn(req, t.outcomes(engine, tuples, req).take(k as int)),
            n,
        ).1 == AccessTurnView::Answer(checks::any_holds(t.outcomes(engine, tuples, req))),
    decreases n,
{
    let all = t.outcomes(engine, tuples, req);
    let made = all.take(k as int);
    assert(made + all.skip(k as int) =~= all);
    match checks::access_step(req.action, made) {
        Ok(relation) => {
            assert(all[k as int] == engine.answer(
                tuples,
                req.resource_id,
                relation,
                req.user_id,
            ));
            assert(made.push(all[k as int]) =~= all.take((k + 1) as int));
            lemma_checks(t, engine, tuples, req, k + 1, (n - 1) as nat);
        },
        Err(_) => {
            if checks::any_holds(made) != Ok::<bool, CoreErrorView>(false) {
                checks::law_first_answer_decides(made, all.skip(k as int));
            } else {
                assert(made =~= all);
            }
        },
    }
}

proof fn lemma_policy_answers(p: PolicyView, engine: EngineView, req: AccessRequestView)
    ensures
        p.answer(engine, req) == AccessTurnView::Answer(p.tables.decided(engine, req)),
{
    let t = p.tables;
    let repository = resource_id::repository_of(req.resource_id);
    let rows = t.repository_rows(repository);
    let tuples = t.rows.tuples_on(seq![repository], req.user_id);
    if t.repositories.contains(repository) {
        let found = t.rows.grants.filter(agreement::is_on(seq![repository]));
        assert(rows.len() > 0);
        assert(snapshot::grant_tuples(rows) == snapshot::grant_tuples(database::granted(found)))
            by {
            if found.len() == 0 {
                assert(rows.drop_last() =~= Seq::empty());
                assert(database::granted(found) =~= Seq::empty());
                reveal_with_fuel(snapshot::grant_tuples, 2);
            }
        }
        assert(snapshot::grant_tuples(rows) + t.rows.user_tuples(req.user_id) == tuples);
        if snapshot::role_fault(tuples, req.user_id, req.action) is None {
            lemma_checks(t, engine, tuples, req, 0, 3);
            assert(t.outcomes(engine, tuples, req).take(0) =~= Seq::empty());
        }
    }
    reveal_with_fuel(TablesView::run, 4);
}

/// A policy that is asked answers by the database as it stands then: what it was asked
/// before, and what the database held then, has no influence. It answers what a policy
/// answers that was never asked anything, whatever happened before.
pub proof fn law_answer_is_by_the_database_as_it_stands(
    p: PolicyView,
    engine: EngineView,
    history: Seq<HappeningView>,
    req: AccessRequestView,
)
    ensures
        ({
            let now = p.after_all(engine, history);
            &&& now.answer(engine, req) == AccessTurnView::Answer(now.tables.decided(engine, req))
            &&& now.answer(engine, req) == PolicyView::fresh(now.tables).answer(engine, req)
        }),
{
    let now = p.after_all(engine, history);
    lemma_policy_answers(now, engine, req);
    lemma_policy_answers(PolicyView::fresh(now.tables), engine, req);
}

/// A policy that is asked, and asked again after somebody changed the database, answers
/// the second time by what the database holds then.
pub proof fn law_second_answer_is_by_the_change(
    p: PolicyView,
    engine: EngineView,
    first: AccessRequestView,
    changed: TablesView,
    second: AccessRequestView,
)
    ensures
        p.after(engine, HappeningView::Ask(first)).after(
            engine,
            HappeningView::Commit(changed),
        ).answer(engine, second) == PolicyView::fresh(changed).answer(engine, second),
{
    let now = p.after(engine, HappeningView::Ask(first)).after(
        engine,
        HappeningView::Commit(changed),
    );
    lemma_policy_answers(now, engine, second);
    lemma_policy_answers(PolicyView::fresh(changed), engine, second);
}

proof fn lemma_known_roles_allow(names: Seq<Seq<char>>, action: Seq<char>)
    requires
        forall|i: int| 0 <= i < names.len() ==> roles::role_named(#[trigger] names[i]) is Some,
    ensures
        gather::any_role_allows(names, action) is Ok,
    decreases names.len(),
{
    if names.len() > 0 {
        assert forall|i: int| 0 <= i < names.skip(1).len() implies roles::role_named(
            #[trigger] names.skip(1)[i],
        ) is Some by {
            assert(names.skip(1)[i] == names[i + 1]);
        }
        lemma_known_roles_allow(names.skip(1), action);
    }
}

proof fn lemma_roles_in_are_known(s: Seq<TupleView>, v: Seq<TupleView>, user: Seq<char>)
    requires
        forall|i: int|
            0 <= i < s.len() && (#[trigger] s[i]).object_type == "resource"@ ==> roles::role_named(
                s[i].relation,
            ) is Some,
    ensures
        forall|i: int|
            0 <= i < snapshot::roles_in(s, v, user).len() ==> roles::role_named(
                #[trigger] snapshot::roles_in(s, v, user)[i],
            ) is Some,
    decreases s.len(),
{
    if s.len() > 0 {
        let front = s.drop_last();
        assert forall|i: int|
            0 <= i < front.len() && (#[trigger] front[i]).object_type
                == "resource"@ implies roles::role_named(front[i].relation) is Some by {
            assert(front[i] == s[i]);
        }
        lemma_roles_in_are_known(front, v, user);
        assert(s[s.len() - 1] == s.last());
    }
}

/// A grant that was taken back is no longer honoured, and one that was made is: a
/// policy that is asked says yes exactly where the user has, as the database stands
/// then, a role that permits the action, whatever happened before.
pub proof fn law_grants_are_honoured_as_they_stand(
    p: PolicyView,
    engine: EngineView,
    history: Seq<HappeningView>,
    req: AccessRequestView,
)
    requires
        engine.is_right(),
        p.after_all(engine, history).tables.rows.wf(),
        p.after_all(engine, history).tables.repositories.contains(
            resource_id::repository_of(req.resource_id),
        ),
    ensures
        ({
            let now = p.after_all(engine, history);
            now.answer(engine, req) == AccessTurnView::Answer(
                Ok(
                    exists|k: int|
                        0 <= k < checks::relations_for(req.action).len() && now.tables.rows.holds(
                            req.user_id,
                            req.resource_id,
                            #[trigger] checks::relations_for(req.action)[k],
                        ),
                ),
            )
        }),
{
    let now = p.after_all(engine, history);
    let db = now.tables.rows;
    let repositories = seq![resource_id::repository_of(req.resource_id)];
    let tuples = db.tuples_on(repositories, req.user_id);
    law_answer_is_by_the_database_as_it_stands(p, engine, history, req);
    assert(snapshot::role_fault(tuples, req.user_id, req.action) is None) by {
        let found = db.grants.filter(agreement::is_on(repositories));
        let grants = snapshot::grant_tuples(database::granted(found));
        reveal_strlit("resource");
        reveal_strlit("group");
        assert("resource"@.len() != "group"@.len());
        database::lemma_tuples_of_grants(found);
        assert forall|i: int|
            0 <= i < tuples.len() && (#[trigger] tuples[i]).object_type
                == "resource"@ implies roles::role_named(tuples[i].relation) is Some by {
            if i < grants.len() {
                assert(tuples[i] == snapshot::tuple_of_grant(found[i]));
                assert(found.contains(found[i]));
                database::lemma_filter_keeps(db.grants, agreement::is_on(repositories), found[i]);
                let k = choose|k: int| 0 <= k < db.grants.len() && db.grants[k] == found[i];
                assert(roles::role_named(db.grants[k].role) is Some);
            } else {
                assert(tuples[i] == db.user_tuples(req.user_id)[i - grants.len()]);
            }
        }
        lemma_roles_in_are_known(tuples, tuples, req.user_id);
        let names = snapshot::roles_in(tuples, tuples, req.user_id);
        snapshot::lemma_roles_are_sorted(tuples, req.user_id);
        let sorted = snapshot::sorted_roles(tuples, req.user_id);
        order::lemma_sorted_copy::<String>(sorted, names);
        assert forall|i: int| 0 <= i < sorted.len() implies roles::role_named(
            #[trigger] sorted[i],
        ) is Some by {
            assert(sorted.contains(sorted[i]));
            assert(names.contains(sorted[i]));
        }
        lemma_known_roles_allow(sorted, req.action);
    }
    assert(now.tables.outcomes(engine, tuples, req) =~= db.access_outcomes(
        req.user_id,
        req.resource_id,
        req.action,
    ));
    agreement::law_access_is_by_roles(db, req.user_id, req.resource_id, req.action);
}

} // verus!
