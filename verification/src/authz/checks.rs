//! Which relations to check, and what the answers amount to.

use vstd::prelude::*;

use crate::error::{invalid, CoreError, CoreErrorView};
use crate::model::{ResourcePermission, ResourcePermissionView};
use crate::order;
use crate::permissions;
use crate::permissions::PermissionSet;
use crate::roles;
use crate::roles::Permission;
use crate::text;
use crate::text::{cat2, join, same};

verus! {

/// What the engine answers when a relation is checked.
#[derive(Debug, PartialEq, Eq)]
pub enum CheckOutcome {
    Allowed,
    Denied,
    /// It depends on these parameters.
    ConditionRequired(Vec<String>),
    /// The check failed, and why.
    Failed(String),
}

/// Whether a relation holds, by what the engine answers.
pub open spec fn answer_of(outcome: CheckOutcome) -> Result<bool, CoreErrorView> {
    match outcome {
        CheckOutcome::Allowed => Ok(true),
        CheckOutcome::Denied => Ok(false),
        CheckOutcome::ConditionRequired(params) => Err(
            CoreErrorView::InvalidArgument(
                "authz: condition required: "@ + text::joined(text::texts(params@), ", "@),
            ),
        ),
        CheckOutcome::Failed(why) => Err(CoreErrorView::InvalidArgument("authz: "@ + why@)),
    }
}

/// Whether a relation holds, by what the engine answers.
pub fn check_allowed(outcome: &CheckOutcome) -> (r: Result<bool, CoreError>)
    ensures
        match r {
            Ok(b) => answer_of(*outcome) == Ok::<bool, CoreErrorView>(b),
            Err(e) => answer_of(*outcome) == Err::<bool, _>(e@),
        },
{
    match outcome {
        CheckOutcome::Allowed => Ok(true),
        CheckOutcome::Denied => Ok(false),
        CheckOutcome::ConditionRequired(params) => Err(
            invalid(cat2("authz: condition required: ", join(params, ", ").as_str()).as_str()),
        ),
        CheckOutcome::Failed(why) => Err(invalid(cat2("authz: ", why.as_str()).as_str())),
    }
}

/// The relations any of which permits an action. An administrator may do
/// anything; what is no known action is for administrators alone.
pub open spec fn relations_for(action: Seq<char>) -> Seq<Seq<char>> {
    if action == "read"@ {
        seq!["reader"@, "writer"@, "admin"@]
    } else if action == "write"@ {
        seq!["writer"@, "admin"@]
    } else {
        seq!["admin"@]
    }
}

/// The relations any of which permits an action, in the order in which they are
/// checked.
pub fn action_relations(action: &str) -> (r: Vec<String>)
    ensures
        text::texts(r@) == relations_for(action@),
{
    let mut out: Vec<String> = Vec::new();
    if same(action, "read") {
        out.push("reader".to_owned());
        out.push("writer".to_owned());
    } else if same(action, "write") {
        out.push("writer".to_owned());
    }
    out.push("admin".to_owned());
    assert(text::texts(out@) =~= relations_for(action@));
    out
}

/// Whether any of some relations holds. The answers are taken one after the
/// other, and the first that is not no decides.
pub open spec fn any_holds(outcomes: Seq<CheckOutcome>) -> Result<bool, CoreErrorView>
    decreases outcomes.len(),
{
    if outcomes.len() == 0 {
        Ok(false)
    } else if answer_of(outcomes[0]) == Ok::<bool, CoreErrorView>(false) {
        any_holds(outcomes.skip(1))
    } else {
        answer_of(outcomes[0])
    }
}

/// Whether any of the relations that were checked holds.
pub fn check_any_relation(outcomes: &Vec<CheckOutcome>) -> (r: Result<bool, CoreError>)
    ensures
        match r {
            Ok(b) => any_holds(outcomes@) == Ok::<bool, CoreErrorView>(b),
            Err(e) => any_holds(outcomes@) == Err::<bool, _>(e@),
        },
{
    let mut i: usize = 0;
    assert(outcomes@.skip(0) =~= outcomes@);
    while i < outcomes.len()
        invariant
            i <= outcomes@.len(),
            any_holds(outcomes@) == any_holds(outcomes@.skip(i as int)),
        decreases outcomes@.len() - i,
    {
        assert(outcomes@.skip(i as int)[0] == outcomes@[i as int]);
        assert(outcomes@.skip(i as int).skip(1) =~= outcomes@.skip(i + 1));
        match check_allowed(&outcomes[i]) {
            Ok(false) => {},
            Ok(true) => return Ok(true),
            Err(e) => return Err(e),
        }
        i += 1;
    }
    Ok(false)
}

/// What to do after some checks for an action.
#[derive(Debug, PartialEq, Eq)]
pub enum AccessStep {
    /// Check whether the user has this relation.
    Ask(String),
    /// It is decided.
    Answer(Result<bool, CoreError>),
}

/// The relation to check after these outcomes, or what they amount to. The
/// relations of an action are checked in turn, until one is not denied.
pub open spec fn access_step(action: Seq<char>, outcomes: Seq<CheckOutcome>) -> Result<
    Seq<char>,
    Result<bool, CoreErrorView>,
> {
    let relations = relations_for(action);
    if any_holds(outcomes) == Ok::<bool, CoreErrorView>(false) && outcomes.len() < relations.len() {
        Ok(relations[outcomes.len() as int])
    } else {
        Err(any_holds(outcomes))
    }
}

/// The relation to check after these outcomes, or what they amount to.
pub fn next_access_step(action: &str, outcomes: &Vec<CheckOutcome>) -> (r: AccessStep)
    ensures
        match r {
            AccessStep::Ask(relation) => access_step(action@, outcomes@) == Ok::<
                Seq<char>,
                Result<bool, CoreErrorView>,
            >(relation@),
            AccessStep::Answer(Ok(b)) => access_step(action@, outcomes@) == Err::<
                Seq<char>,
                Result<bool, CoreErrorView>,
            >(Ok(b)),
            AccessStep::Answer(Err(e)) => access_step(action@, outcomes@) == Err::<
                Seq<char>,
                Result<bool, CoreErrorView>,
            >(Err(e@)),
        },
{
    match check_any_relation(outcomes) {
        Ok(false) => {
            let relations = action_relations(action);
            assert(text::texts(relations@).len() == relations@.len());
            if outcomes.len() < relations.len() {
                assert(text::texts(relations@)[outcomes@.len() as int]
                    == relations@[outcomes@.len() as int]@);
                AccessStep::Ask(relations[outcomes.len()].clone())
            } else {
                AccessStep::Answer(Ok(false))
            }
        },
        decided => AccessStep::Answer(decided),
    }
}

/// What the relations of a user to a resource permit.
pub open spec fn permitted(admin: bool, reader: bool, writer: bool) -> Set<Permission> {
    Set::new(
        |p: Permission|
            match p {
                Permission::Read => admin || writer || reader,
                Permission::Write => admin || writer,
                Permission::Admin => admin,
            },
    )
}

/// What the relations of a user to a resource permit, the least first.
pub fn permissions_from_relations(admin: bool, reader: bool, writer: bool) -> (r: Vec<Permission>)
    ensures
        r@ == permissions::listed(permitted(admin, reader, writer)),
{
    if admin {
        let mut out: Vec<Permission> = Vec::new();
        out.push(Permission::Read);
        out.push(Permission::Write);
        out.push(Permission::Admin);
        assert(out@ =~= permissions::listed(permitted(admin, reader, writer)));
        return out;
    }
    let mut set = PermissionSet::default();
    if reader || writer {
        set.insert(Permission::Read);
    }
    if writer {
        set.insert(Permission::Write);
    }
    assert(set@ =~= permitted(admin, reader, writer));
    set.into_permissions()
}

/// What to do after some checks for the permissions on a resource.
#[derive(Debug, PartialEq, Eq)]
pub enum PermissionStep {
    /// Check whether the user has this relation.
    Ask(&'static str),
    /// It is decided.
    Answer(Result<Vec<Permission>, CoreError>),
}

/// The relation to check after these outcomes, or what they permit. An
/// administrator may do everything; of others it is asked whether they may read,
/// then whether they may write. A check that fails decides.
pub open spec fn permission_step(outcomes: Seq<CheckOutcome>) -> Result<
    Seq<char>,
    Result<Seq<Permission>, CoreErrorView>,
> {
    if outcomes.len() == 0 {
        Ok("admin"@)
    } else {
        match answer_of(outcomes[0]) {
            Err(e) => Err(Err(e)),
            Ok(true) => Err(Ok(permissions::listed(permitted(true, false, false)))),
            Ok(false) => if outcomes.len() == 1 {
                Ok("reader"@)
            } else {
                match answer_of(outcomes[1]) {
                    Err(e) => Err(Err(e)),
                    Ok(reader) => if outcomes.len() == 2 {
                        Ok("writer"@)
                    } else {
                        match answer_of(outcomes[2]) {
                            Err(e) => Err(Err(e)),
                            Ok(writer) => Err(
                                Ok(permissions::listed(permitted(false, reader, writer))),
                            ),
                        }
                    },
                }
            },
        }
    }
}

/// The relation to check after these outcomes, or what they permit.
pub fn next_permission_step(outcomes: &Vec<CheckOutcome>) -> (r: PermissionStep)
    ensures
        match r {
            PermissionStep::Ask(relation) => permission_step(outcomes@) == Ok::<
                Seq<char>,
                Result<Seq<Permission>, CoreErrorView>,
            >(relation@),
            PermissionStep::Answer(Ok(list)) => permission_step(outcomes@) == Err::<
                Seq<char>,
                Result<Seq<Permission>, CoreErrorView>,
            >(Ok(list@)),
            PermissionStep::Answer(Err(e)) => permission_step(outcomes@) == Err::<
                Seq<char>,
                Result<Seq<Permission>, CoreErrorView>,
            >(Err(e@)),
        },
{
    if outcomes.len() == 0 {
        return PermissionStep::Ask("admin");
    }
    match check_allowed(&outcomes[0]) {
        Err(e) => return PermissionStep::Answer(Err(e)),
        Ok(true) => return PermissionStep::Answer(
            Ok(permissions_from_relations(true, false, false)),
        ),
        Ok(false) => {},
    }
    if outcomes.len() == 1 {
        return PermissionStep::Ask("reader");
    }
    let reader = match check_allowed(&outcomes[1]) {
        Err(e) => return PermissionStep::Answer(Err(e)),
        Ok(reader) => reader,
    };
    if outcomes.len() == 2 {
        return PermissionStep::Ask("writer");
    }
    match check_allowed(&outcomes[2]) {
        Err(e) => PermissionStep::Answer(Err(e)),
        Ok(writer) => PermissionStep::Answer(
            Ok(permissions_from_relations(false, reader, writer)),
        ),
    }
}

/// Adds what is permitted on a resource to a list, if anything is.
pub fn push_accessible(
    out: &mut Vec<ResourcePermission>,
    resource_id: String,
    permission: Vec<Permission>,
)
    ensures
        order::views(final(out)@) == if permission@.len() > 0 {
            order::views(old(out)@).push(
                ResourcePermissionView { resource_id: resource_id@, permission: permission@ },
            )
        } else {
            order::views(old(out)@)
        },
{
    if permission.len() > 0 {
        let ghost before = order::views(out@);
        out.push(ResourcePermission { resource_id, permission });
        assert(order::views(out@) =~= before.push(
            ResourcePermissionView { resource_id: resource_id@, permission: permission@ },
        ));
    }
}

/// Whether one of the relations for an action holds is whether the action is
/// among what the relations permit, for an action that there is; for any other it
/// is whether the user is an administrator.
pub proof fn law_relations_agree_with_permissions(
    admin: bool,
    reader: bool,
    writer: bool,
    action: Seq<char>,
)
    ensures
        ({
            let holds = |relation: Seq<char>|
                (relation == "admin"@ && admin) || (relation == "reader"@ && reader) || (relation
                    == "writer"@ && writer);
            let any = exists|i: int|
                0 <= i < relations_for(action).len() && #[trigger] holds(relations_for(action)[i]);
            let permitted_by_name = exists|p: Permission|
                permitted(admin, reader, writer).contains(p) && #[trigger] roles::permission_name(p)
                    == action;
            any <==> permitted_by_name || admin
        }),
{
    reveal_strlit("admin");
    reveal_strlit("reader");
    reveal_strlit("writer");
    reveal_strlit("read");
    reveal_strlit("write");
    let rs = relations_for(action);
    let holds = |relation: Seq<char>|
        (relation == "admin"@ && admin) || (relation == "reader"@ && reader) || (relation
            == "writer"@ && writer);
    assert("reader"@[0] != "writer"@[0]);
    assert("admin"@.len() != "reader"@.len());
    assert("admin"@.len() != "writer"@.len());
    assert("read"@.len() != "write"@.len());
    assert("read"@.len() != "admin"@.len());
    assert("write"@[0] != "admin"@[0]);
    let last = rs.len() - 1;
    assert(rs[last] == "admin"@);
    if admin {
        assert(holds(rs[last]));
    }
    if action == "read"@ {
        assert(roles::permission_name(Permission::Read) == action);
        if reader {
            assert(holds(rs[0]));
        }
        if writer {
            assert(holds(rs[1]));
        }
    } else if action == "write"@ {
        assert(roles::permission_name(Permission::Write) == action);
        if writer {
            assert(holds(rs[0]));
        }
    }
    let permitted_by_name = exists|p: Permission|
        permitted(admin, reader, writer).contains(p) && #[trigger] roles::permission_name(p)
            == action;
    if permitted_by_name {
        let p = choose|p: Permission|
            permitted(admin, reader, writer).contains(p) && #[trigger] roles::permission_name(p)
                == action;
        assert(roles::permission_name(p) == action);
    }
}

/// Once an answer is not no, those behind it do not matter.
pub proof fn law_first_answer_decides(outcomes: Seq<CheckOutcome>, more: Seq<CheckOutcome>)
    requires
        any_holds(outcomes) != Ok::<bool, CoreErrorView>(false),
    ensures
        any_holds(outcomes + more) == any_holds(outcomes),
    decreases outcomes.len(),
{
    if outcomes.len() > 0 {
        assert((outcomes + more)[0] == outcomes[0]);
        assert((outcomes + more).skip(1) =~= outcomes.skip(1) + more);
        if answer_of(outcomes[0]) == Ok::<bool, CoreErrorView>(false) {
            law_first_answer_decides(outcomes.skip(1), more);
        }
    }
}

/// No more relations are asked for than an action has, and three at most for the
/// permissions on a resource.
pub proof fn law_checks_end(action: Seq<char>, outcomes: Seq<CheckOutcome>)
    ensures
        access_step(action, outcomes) is Ok ==> outcomes.len() < relations_for(action).len() <= 3,
        permission_step(outcomes) is Ok ==> outcomes.len() < 3,
{
}

/// The outcome of a check.
pub open spec fn plain(holds: bool) -> CheckOutcome {
    if holds {
        CheckOutcome::Allowed
    } else {
        CheckOutcome::Denied
    }
}

/// Where no check fails, what is permitted in the end is what all three relations
/// permit: nothing is lost by not asking an administrator for the other two.
pub proof fn law_permissions_are_those_of_the_relations(admin: bool, reader: bool, writer: bool)
    ensures
        ({
            let all = seq![plain(admin), plain(reader), plain(writer)];
            let asked = if admin {
                all.take(1)
            } else {
                all
            };
            permission_step(asked) == Err::<Seq<char>, Result<Seq<Permission>, CoreErrorView>>(
                Ok(permissions::listed(permitted(admin, reader, writer))),
            )
        }),
{
    if admin {
        assert(permitted(true, false, false) =~= permitted(admin, reader, writer));
    }
}

/// What a check says: yes or no, and an error where it cannot tell.
pub proof fn law_what_a_check_says(params: Vec<String>, why: String)
    ensures
        answer_of(CheckOutcome::Allowed) == Ok::<bool, CoreErrorView>(true),
        answer_of(CheckOutcome::Denied) == Ok::<bool, CoreErrorView>(false),
        answer_of(CheckOutcome::ConditionRequired(params)) is Err,
        answer_of(CheckOutcome::Failed(why)) is Err,
{
}

/// By which relations an action is allowed: reading by any of the three, writing by
/// `writer` and `admin`, and everything else by `admin` alone.
pub proof fn law_relations_that_allow(action: Seq<char>, relation: Seq<char>)
    ensures
        action == "read"@ ==> (relations_for(action).contains(relation) <==> relation == "reader"@
            || relation == "writer"@ || relation == "admin"@),
        action == "write"@ ==> (relations_for(action).contains(relation) <==> relation
            == "writer"@ || relation == "admin"@),
        action != "read"@ && action != "write"@ ==> (relations_for(action).contains(relation)
            <==> relation == "admin"@),
{
    reveal_strlit("read");
    reveal_strlit("write");
    assert("read"@.len() == 4);
    assert("write"@.len() == 5);
    let read = seq!["reader"@, "writer"@, "admin"@];
    let write = seq!["writer"@, "admin"@];
    let other = seq!["admin"@];
    assert(read[0] == "reader"@ && read[1] == "writer"@ && read[2] == "admin"@);
    assert(write[0] == "writer"@ && write[1] == "admin"@);
    assert(other[0] == "admin"@);
}

/// A question is asked relation by relation as long as all are denied. The first that is
/// allowed is the answer, and where all were denied the answer is no.
pub proof fn law_relations_are_asked_in_turn(
    action: Seq<char>,
    denied: Seq<CheckOutcome>,
)
    requires
        denied.len() <= relations_for(action).len(),
        forall|i: int| 0 <= i < denied.len() ==> #[trigger] denied[i] == CheckOutcome::Denied,
    ensures
        denied.len() < relations_for(action).len() ==> access_step(action, denied) == Ok::<
            Seq<char>,
            Result<bool, CoreErrorView>,
        >(relations_for(action)[denied.len() as int]),
        denied.len() == relations_for(action).len() ==> access_step(action, denied) == Err::<
            Seq<char>,
            Result<bool, CoreErrorView>,
        >(Ok(false)),
        access_step(action, denied.push(CheckOutcome::Allowed)) == Err::<
            Seq<char>,
            Result<bool, CoreErrorView>,
        >(Ok(true)),
{
    lemma_all_denied(denied);
}

proof fn lemma_all_denied(denied: Seq<CheckOutcome>)
    requires
        forall|i: int| 0 <= i < denied.len() ==> #[trigger] denied[i] == CheckOutcome::Denied,
    ensures
        any_holds(denied) == Ok::<bool, CoreErrorView>(false),
        any_holds(denied.push(CheckOutcome::Allowed)) == Ok::<bool, CoreErrorView>(true),
    decreases denied.len(),
{
    let more = denied.push(CheckOutcome::Allowed);
    if denied.len() > 0 {
        let rest = denied.skip(1);
        assert forall|i: int| 0 <= i < rest.len() implies #[trigger] rest[i]
            == CheckOutcome::Denied by {
            assert(rest[i] == denied[i + 1]);
        }
        lemma_all_denied(rest);
        assert(more[0] == denied[0]);
        assert(more.skip(1) =~= rest.push(CheckOutcome::Allowed));
    } else {
        assert(more[0] == CheckOutcome::Allowed);
    }
}

/// What a user may do is asked by three relations: an admin may do everything and is asked
/// no more; otherwise a writer may read and write and a reader may read.
pub proof fn law_permissions_by_three_checks(reader: bool, writer: bool)
    ensures
        permission_step(Seq::empty()) == Ok::<Seq<char>, Result<Seq<Permission>, CoreErrorView>>(
            "admin"@,
        ),
        permission_step(seq![CheckOutcome::Allowed]) matches Err(Ok(all)) && all.contains(
            Permission::Read,
        ) && all.contains(Permission::Write) && all.contains(Permission::Admin) && all.len() == 3,
        permission_step(seq![CheckOutcome::Denied]) == Ok::<
            Seq<char>,
            Result<Seq<Permission>, CoreErrorView>,
        >("reader"@),
        permission_step(
            seq![
                CheckOutcome::Denied,
                if reader {
                    CheckOutcome::Allowed
                } else {
                    CheckOutcome::Denied
                },
            ],
        ) == Ok::<Seq<char>, Result<Seq<Permission>, CoreErrorView>>("writer"@),
        permission_step(
            seq![
                CheckOutcome::Denied,
                if reader {
                    CheckOutcome::Allowed
                } else {
                    CheckOutcome::Denied
                },
                if writer {
                    CheckOutcome::Allowed
                } else {
                    CheckOutcome::Denied
                },
            ],
        ) matches Err(Ok(some)) && {
            &&& some.contains(Permission::Read) <==> reader || writer
            &&& some.contains(Permission::Write) <==> writer
            &&& !some.contains(Permission::Admin)
            &&& some.no_duplicates()
        },
{
    let all = permitted(true, false, false);
    permissions::law_listed_holds_the_set(all, Permission::Read);
    permissions::law_listed_holds_the_set(all, Permission::Write);
    permissions::law_listed_holds_the_set(all, Permission::Admin);
    let some = permitted(false, reader, writer);
    permissions::law_listed_holds_the_set(some, Permission::Read);
    permissions::law_listed_holds_the_set(some, Permission::Write);
    permissions::law_listed_holds_the_set(some, Permission::Admin);
    permissions::law_listed_once_in_order(some);
}

} // verus!
