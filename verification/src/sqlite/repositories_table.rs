//! Storing repositories in one table, statement by statement, and what the table
//! holds afterwards.

use vstd::prelude::*;

use crate::model::ResourceView;
use crate::sqlite::resources;
use crate::sqlite::upsert;
use crate::sqlite::upsert::{UpsertActionView, UpsertEventView, UpsertTurnView};

verus! {

/// A row of the table of repositories.
#[verifier::ext_equal]
pub struct RepositoryRowView {
    pub id: Seq<char>,
    pub name: Seq<char>,
    pub remote_url: Seq<char>,
    pub lore_repository_id: Seq<char>,
    pub status: Seq<char>,
    pub source: Seq<char>,
}

impl RepositoryRowView {
    /// The repository as it is read.
    pub open spec fn resource(self) -> ResourceView {
        resources::resource_in(
            self.id,
            self.name,
            self.remote_url,
            self.lore_repository_id,
            self.status,
        )
    }
}

/// The table of repositories.
#[verifier::ext_equal]
pub struct RepositoriesView {
    pub rows: Seq<RepositoryRowView>,
}

impl RepositoriesView {
    /// Whether the row at `i` is of that repository.
    pub open spec fn is_row_of(self, i: int, repository: Seq<char>) -> bool {
        0 <= i < self.rows.len() && self.rows[i].lore_repository_id == repository
    }

    /// Whether the row at `i` has that identifier.
    pub open spec fn has_id(self, i: int, id: Seq<char>) -> bool {
        0 <= i < self.rows.len() && self.rows[i].id == id
    }

    /// No two rows are of one repository or have one identifier: the table allows
    /// neither.
    pub open spec fn wf(self) -> bool {
        forall|i: int, j: int|
            0 <= i < self.rows.len() && 0 <= j < self.rows.len() && i != j ==> {
                &&& (#[trigger] self.rows[i]).lore_repository_id != (
                #[trigger] self.rows[j]).lore_repository_id
                &&& self.rows[i].id != self.rows[j].id
            }
    }

    /// The row of a repository.
    pub open spec fn row_of(self, repository: Seq<char>) -> Option<int> {
        if exists|i: int| self.is_row_of(i, repository) {
            Some(choose|i: int| self.is_row_of(i, repository))
        } else {
            None
        }
    }

    /// The row with an identifier.
    pub open spec fn row_with_id(self, id: Seq<char>) -> Option<int> {
        if exists|i: int| self.has_id(i, id) {
            Some(choose|i: int| self.has_id(i, id))
        } else {
            None
        }
    }

    /// Whether a row other than the one at `i` has that name.
    pub open spec fn is_taken(self, name: Seq<char>, i: int) -> bool {
        exists|j: int| 0 <= j < self.rows.len() && j != i && (#[trigger] self.rows[j]).name == name
    }

    /// The table with another row at `i`.
    pub open spec fn with_row(self, i: int, row: RepositoryRowView) -> RepositoriesView {
        RepositoriesView { rows: self.rows.update(i, row) }
    }

    /// The table after a statement, and what the database answers; none where the
    /// statement would give two rows one name, or one repository two rows. `id` is
    /// the identifier of a new row.
    pub open spec fn perform(self, action: UpsertActionView, id: Seq<char>) -> Option<
        (RepositoriesView, UpsertEventView),
    > {
        match action {
            UpsertActionView::Find(repository) => Some(
                (
                    self,
                    UpsertEventView::Found(
                        match self.row_of(repository) {
                            Some(i) => Some((self.rows[i].resource(), self.rows[i].source)),
                            None => None,
                        },
                    ),
                ),
            ),
            UpsertActionView::Update { id, name, remote_url } => match self.row_with_id(id) {
                Some(i) => if self.rows[i].source != "manual"@ {
                    Some((self, UpsertEventView::Changed(0)))
                } else if self.is_taken(name, i) {
                    None
                } else {
                    let row = RepositoryRowView {
                        name,
                        remote_url,
                        status: "active"@,
                        ..self.rows[i]
                    };
                    Some((self.with_row(i, row), UpsertEventView::Changed(1)))
                },
                None => Some((self, UpsertEventView::Changed(0))),
            },
            UpsertActionView::Reactivate(repository) => match self.row_of(repository) {
                Some(i) => {
                    let row = RepositoryRowView { status: "active"@, ..self.rows[i] };
                    Some((self.with_row(i, row), UpsertEventView::Changed(1)))
                },
                None => Some((self, UpsertEventView::Changed(0))),
            },
            UpsertActionView::Insert { lore_repository_id, name, remote_url, source } => {
                if self.row_of(lore_repository_id) is Some || self.is_taken(name, -1) {
                    None
                } else {
                    let row = RepositoryRowView {
                        id,
                        name,
                        remote_url,
                        lore_repository_id,
                        status: "active"@,
                        source,
                    };
                    Some(
                        (
                            RepositoriesView { rows: self.rows.push(row) },
                            UpsertEventView::Changed(1),
                        ),
                    )
                }
            },
        }
    }

    /// The table and the turn after what is asked for, if anything is; none where
    /// the database refuses it.
    pub open spec fn after(self, turn: UpsertTurnView, id: Seq<char>) -> Option<
        (RepositoriesView, UpsertTurnView),
    > {
        match turn {
            UpsertTurnView::Ask(state, action) => match self.perform(action, id) {
                Some((table, event)) => Some((table, upsert::turn(state, event))),
                None => None,
            },
            _ => Some((self, turn)),
        }
    }

    /// The table and the last turn after a repository was stored; none where the
    /// database refuses a statement.
    pub open spec fn stored(self, resource: ResourceView, id: Seq<char>) -> Option<
        (RepositoriesView, UpsertTurnView),
    > {
        match self.after(upsert::first_turn(resource), id) {
            Some((table, turn)) => table.after(turn, id),
            None => None,
        }
    }
}

/// Storing a repository takes no more than two statements.
pub proof fn law_two_statements_are_enough(
    t: RepositoriesView,
    resource: ResourceView,
    id: Seq<char>,
)
    ensures
        t.stored(resource, id) matches Some((_, turn)) ==> turn !is Ask,
{
}

/// Once a repository was stored there is exactly one row for it, and it is active.
/// A row that was there, deleted or not, keeps its identifier and its source; a new
/// one has the name that was given, or that of the repository where none was, and a
/// source that says whether it was entered by hand. Every other row stays as it was.
pub proof fn law_stored_repository_has_one_active_row(
    t: RepositoriesView,
    resource: ResourceView,
    id: Seq<char>,
)
    requires
        t.wf(),
        t.row_with_id(id) is None,
        t.stored(resource, id) is Some,
        t.stored(resource, id)->Some_0.1 is Finish,
    ensures
        ({
            let after = t.stored(resource, id)->Some_0.0;
            let plan = resources::plan_of(resource)->Ok_0;
            let x = plan.lore_repository_id;
            &&& resources::plan_of(resource) is Ok
            &&& after.wf()
            &&& after.row_of(x) matches Some(i) && {
                &&& after.rows[i].lore_repository_id == x
                &&& after.rows[i].status == "active"@
                &&& forall|j: int| #[trigger] after.is_row_of(j, x) ==> j == i
                &&& match t.row_of(x) {
                    Some(before) => {
                        &&& i == before
                        &&& after.rows.len() == t.rows.len()
                        &&& after.rows[i].id == t.rows[i].id
                        &&& after.rows[i].source == t.rows[i].source
                    },
                    None => {
                        &&& after.rows.len() == t.rows.len() + 1
                        &&& i == t.rows.len()
                        &&& after.rows[i].id == id
                        &&& after.rows[i].name == plan.name
                        &&& after.rows[i].remote_url == plan.remote_url
                        &&& after.rows[i].source == resources::source_of(plan.manual)
                    },
                }
                &&& forall|j: int|
                    0 <= j < t.rows.len() && j != i ==> #[trigger] after.rows[j] == t.rows[j]
            }
        }),
{
    let plan = resources::plan_of(resource)->Ok_0;
    let x = plan.lore_repository_id;
    let after = t.stored(resource, id)->Some_0.0;
    match t.row_of(x) {
        Some(i) => {
            assert(t.is_row_of(i, x));
            if plan.manual {
                let row = t.rows[i];
                assert(t.has_id(i, row.id));
                let k = t.row_with_id(row.id)->0;
                assert(t.has_id(k, row.id));
                assert(k == i);
            }
            assert(after.is_row_of(i, x));
            assert(after.wf());
            assert forall|j: int| #[trigger] after.is_row_of(j, x) implies j == i by {
                if j != i {
                    assert(after.rows[j].lore_repository_id != after.rows[i].lore_repository_id);
                }
            }
        },
        None => {
            let i = t.rows.len() as int;
            assert(after.is_row_of(i, x));
            assert forall|j: int| #[trigger] after.is_row_of(j, x) implies j == i by {
                if j < t.rows.len() {
                    assert(t.is_row_of(j, x));
                }
            }
            assert forall|a: int, b: int|
                0 <= a < after.rows.len() && 0 <= b < after.rows.len() && a != b implies {
                &&& (#[trigger] after.rows[a]).lore_repository_id != (
                #[trigger] after.rows[b]).lore_repository_id
                &&& after.rows[a].id != after.rows[b].id
            } by {
                if a == i {
                    assert(!t.is_row_of(b, x));
                    assert(!t.has_id(b, id));
                } else if b == i {
                    assert(!t.is_row_of(a, x));
                    assert(!t.has_id(a, id));
                } else {
                    assert(t.rows[a].lore_repository_id != t.rows[b].lore_repository_id);
                }
            }
        },
    }
}

/// A repository is stored unless it cannot be meant, its name is taken by another
/// one, or it was entered by hand while the one that is there was not.
pub proof fn law_repository_is_stored_unless_it_clashes(
    t: RepositoriesView,
    resource: ResourceView,
    id: Seq<char>,
)
    requires
        t.wf(),
        resources::plan_of(resource) is Ok,
    ensures
        ({
            let plan = resources::plan_of(resource)->Ok_0;
            let done = t.stored(resource, id) matches Some((_, turn)) && turn is Finish;
            match t.row_of(plan.lore_repository_id) {
                Some(i) => done <==> !plan.manual || (t.rows[i].source == "manual"@ && !t.is_taken(
                    plan.name,
                    i,
                )),
                None => done <==> !t.is_taken(plan.name, -1),
            }
        }),
{
    let plan = resources::plan_of(resource)->Ok_0;
    let x = plan.lore_repository_id;
    if let Some(i) = t.row_of(x) {
        assert(t.is_row_of(i, x));
        let row = t.rows[i];
        assert(t.has_id(i, row.id));
        let k = t.row_with_id(row.id)->0;
        assert(t.has_id(k, row.id));
        assert(k == i);
    }
}

} // verus!
