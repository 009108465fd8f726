//! Authorization by relations: who is a reader, a writer or an administrator of
//! what, and who belongs to which group.

pub mod agreement;
pub mod asking;
pub mod checks;
pub mod database;
pub mod gather;
pub mod laws;
pub mod query;
pub mod snapshot;

use vstd::prelude::*;

use crate::order;
use crate::text;
use crate::text::same;

verus! {

/// The relations there are, as the engine that checks them reads it.
pub const AUTHZ_DSL: &'static str = "
type user {}

type group {
    relations
        define member: [user | group#member]
}

type resource {
    relations
        define reader: [user | group#member]
        define writer: [user | group#member]
        define admin: [user | group#member]
    permissions
        define read = reader + writer + admin
        define write = writer + admin
}
";

/// That a subject stands in a relation to an object.
#[derive(Debug, PartialEq, Eq)]
pub struct Tuple {
    pub object_type: String,
    pub object_id: String,
    pub relation: String,
    pub subject_type: String,
    pub subject_id: String,
}

/// The view of [`Tuple`].
#[verifier::ext_equal]
pub struct TupleView {
    pub object_type: Seq<char>,
    pub object_id: Seq<char>,
    pub relation: Seq<char>,
    pub subject_type: Seq<char>,
    pub subject_id: Seq<char>,
}

impl View for Tuple {
    type V = TupleView;

    open spec fn view(&self) -> TupleView {
        TupleView {
            object_type: self.object_type@,
            object_id: self.object_id@,
            relation: self.relation@,
            subject_type: self.subject_type@,
            subject_id: self.subject_id@,
        }
    }
}

impl Clone for Tuple {
    fn clone(&self) -> (r: Self)
        ensures
            r@ == self@,
    {
        Tuple {
            object_type: self.object_type.clone(),
            object_id: self.object_id.clone(),
            relation: self.relation.clone(),
            subject_type: self.subject_type.clone(),
            subject_id: self.subject_id.clone(),
        }
    }
}

/// Which tuples to read: those with what is given.
#[derive(Debug, PartialEq, Eq)]
pub struct TupleFilter {
    pub object_type: Option<String>,
    pub object_id: Option<String>,
    pub relation: Option<String>,
    pub subject_type: Option<String>,
    pub subject_id: Option<String>,
}

/// The view of [`TupleFilter`].
#[verifier::ext_equal]
pub struct TupleFilterView {
    pub object_type: Option<Seq<char>>,
    pub object_id: Option<Seq<char>>,
    pub relation: Option<Seq<char>>,
    pub subject_type: Option<Seq<char>>,
    pub subject_id: Option<Seq<char>>,
}

impl View for TupleFilter {
    type V = TupleFilterView;

    open spec fn view(&self) -> TupleFilterView {
        TupleFilterView {
            object_type: text::opt_text(self.object_type),
            object_id: text::opt_text(self.object_id),
            relation: text::opt_text(self.relation),
            subject_type: text::opt_text(self.subject_type),
            subject_id: text::opt_text(self.subject_id),
        }
    }
}

/// Whether a value is the one that is asked for, if any is.
pub open spec fn fits(value: Seq<char>, wanted: Option<Seq<char>>) -> bool {
    wanted matches Some(w) ==> w == value
}

/// Whether a tuple is one to read.
pub open spec fn fits_filter(t: TupleView, f: TupleFilterView) -> bool {
    &&& fits(t.object_type, f.object_type)
    &&& fits(t.object_id, f.object_id)
    &&& fits(t.relation, f.relation)
    &&& fits(t.subject_type, f.subject_type)
    &&& fits(t.subject_id, f.subject_id)
}

/// The tuples to read, in their order.
pub open spec fn fitting(v: Seq<TupleView>, f: TupleFilterView) -> Seq<TupleView> {
    v.filter(|t: TupleView| fits_filter(t, f))
}

/// The first of some tuples.
pub open spec fn first_of(v: Seq<TupleView>) -> Option<TupleView> {
    if v.len() == 0 {
        None
    } else {
        Some(v[0])
    }
}

/// The view of a tuple that there may be.
pub open spec fn opt_tuple(t: Option<Tuple>) -> Option<TupleView> {
    match t {
        Some(t) => Some(t@),
        None => None,
    }
}

/// Whether a value is the one that is asked for, if any is.
pub fn matches_filter_value(value: &str, filter: &Option<String>) -> (r: bool)
    ensures
        r == fits(value@, text::opt_text(*filter)),
{
    match filter {
        Some(expected) => same(expected.as_str(), value),
        None => true,
    }
}

/// Whether a tuple is one to read.
pub fn tuple_matches_filter(tuple: &Tuple, filter: &TupleFilter) -> (r: bool)
    ensures
        r == fits_filter(tuple@, filter@),
{
    matches_filter_value(tuple.object_type.as_str(), &filter.object_type) && matches_filter_value(
        tuple.object_id.as_str(),
        &filter.object_id,
    ) && matches_filter_value(tuple.relation.as_str(), &filter.relation) && matches_filter_value(
        tuple.subject_type.as_str(),
        &filter.subject_type,
    ) && matches_filter_value(tuple.subject_id.as_str(), &filter.subject_id)
}

/// The filter for one tuple.
pub open spec fn exactly(
    object_type: Seq<char>,
    object_id: Seq<char>,
    relation: Seq<char>,
    subject_type: Seq<char>,
    subject_id: Seq<char>,
) -> TupleFilterView {
    TupleFilterView {
        object_type: Some(object_type),
        object_id: Some(object_id),
        relation: Some(relation),
        subject_type: Some(subject_type),
        subject_id: Some(subject_id),
    }
}

/// The filter for one tuple.
pub fn exact_filter(
    object_type: &str,
    object_id: &str,
    relation: &str,
    subject_type: &str,
    subject_id: &str,
) -> (r: TupleFilter)
    ensures
        r@ == exactly(object_type@, object_id@, relation@, subject_type@, subject_id@),
{
    TupleFilter {
        object_type: Some(object_type.to_owned()),
        object_id: Some(object_id.to_owned()),
        relation: Some(relation.to_owned()),
        subject_type: Some(subject_type.to_owned()),
        subject_id: Some(subject_id.to_owned()),
    }
}

/// The filter for the groups in a relation to an object.
pub open spec fn groups_of_object(
    object_type: Seq<char>,
    object_id: Seq<char>,
    relation: Seq<char>,
) -> TupleFilterView {
    TupleFilterView {
        object_type: Some(object_type),
        object_id: Some(object_id),
        relation: Some(relation),
        subject_type: Some("group"@),
        subject_id: None,
    }
}

/// The filter for the groups in a relation to an object.
pub fn userset_filter(object_type: &str, object_id: &str, relation: &str) -> (r: TupleFilter)
    ensures
        r@ == groups_of_object(object_type@, object_id@, relation@),
{
    TupleFilter {
        object_type: Some(object_type.to_owned()),
        object_id: Some(object_id.to_owned()),
        relation: Some(relation.to_owned()),
        subject_type: Some("group".to_owned()),
        subject_id: None,
    }
}

/// The filter for what a subject is in any relation to.
pub open spec fn of_subject(subject_type: Seq<char>, subject_id: Seq<char>) -> TupleFilterView {
    TupleFilterView {
        object_type: None,
        object_id: None,
        relation: None,
        subject_type: Some(subject_type),
        subject_id: Some(subject_id),
    }
}

/// The filter for what a subject is in any relation to.
pub fn subject_filter(subject_type: &str, subject_id: &str) -> (r: TupleFilter)
    ensures
        r@ == of_subject(subject_type@, subject_id@),
{
    TupleFilter {
        object_type: None,
        object_id: None,
        relation: None,
        subject_type: Some(subject_type.to_owned()),
        subject_id: Some(subject_id.to_owned()),
    }
}

/// The tuples that one question is answered from. They are read anew for each
/// question, so a change counts from the next one on.
pub struct SnapshotTupleReader {
    tuples: Vec<Tuple>,
}

impl View for SnapshotTupleReader {
    type V = Seq<TupleView>;

    closed spec fn view(&self) -> Seq<TupleView> {
        order::views(self.tuples@)
    }
}

/// The first tuple of a subject in one of several relations to an object.
pub open spec fn first_in_relations(
    v: Seq<TupleView>,
    object_type: Seq<char>,
    object_id: Seq<char>,
    relations: Seq<Seq<char>>,
    subject_type: Seq<char>,
    subject_id: Seq<char>,
) -> Option<TupleView>
    decreases relations.len(),
{
    if relations.len() == 0 {
        None
    } else {
        let f = exactly(object_type, object_id, relations[0], subject_type, subject_id);
        match first_of(fitting(v, f)) {
            Some(t) => Some(t),
            None => first_in_relations(
                v,
                object_type,
                object_id,
                relations.skip(1),
                subject_type,
                subject_id,
            ),
        }
    }
}

impl SnapshotTupleReader {
    /// A reader of these tuples.
    pub fn new(tuples: Vec<Tuple>) -> (r: SnapshotTupleReader)
        ensures
            r@ == order::views(tuples@),
    {
        SnapshotTupleReader { tuples }
    }

    /// The tuples to read.
    pub fn filtered_tuples(&self, filter: &TupleFilter) -> (r: Vec<Tuple>)
        ensures
            order::views(r@) == fitting(self@, filter@),
    {
        let ghost wanted = |t: TupleView| fits_filter(t, filter@);
        let ghost all = order::views(self.tuples@);
        let mut out: Vec<Tuple> = Vec::new();
        let mut i: usize = 0;
        assert(all.take(0).filter(wanted) =~= Seq::<TupleView>::empty()) by {
            reveal(Seq::filter);
        }
        while i < self.tuples.len()
            invariant
                i <= self.tuples@.len(),
                all == order::views(self.tuples@),
                wanted == |t: TupleView| fits_filter(t, filter@),
                order::views(out@) == all.take(i as int).filter(wanted),
            decreases self.tuples@.len() - i,
        {
            let ghost before = order::views(out@);
            assert(all.take(i + 1).drop_last() =~= all.take(i as int));
            assert(all.take(i + 1).last() == self.tuples@[i as int]@);
            proof {
                reveal(Seq::filter);
            }
            if tuple_matches_filter(&self.tuples[i], filter) {
                out.push(self.tuples[i].clone());
                assert(order::views(out@) =~= before.push(self.tuples@[i as int]@));
            }
            i += 1;
        }
        assert(all.take(i as int) =~= all);
        out
    }

    /// The tuples to read.
    pub fn read_tuples(&self, filter: &TupleFilter) -> (r: Vec<Tuple>)
        ensures
            order::views(r@) == fitting(self@, filter@),
    {
        self.filtered_tuples(filter)
    }

    /// The tuple of a subject in a relation to an object.
    pub fn read_user_tuple(
        &self,
        object_type: &str,
        object_id: &str,
        relation: &str,
        subject_type: &str,
        subject_id: &str,
    ) -> (r: Option<Tuple>)
        ensures
            opt_tuple(r) == first_of(
                fitting(
                    self@,
                    exactly(object_type@, object_id@, relation@, subject_type@, subject_id@),
                ),
            ),
    {
        let filter = exact_filter(object_type, object_id, relation, subject_type, subject_id);
        let found = self.filtered_tuples(&filter);
        assert(order::views(found@).len() == found@.len());
        if found.len() == 0 {
            return None;
        }
        assert(order::views(found@)[0] == found@[0]@);
        Some(found[0].clone())
    }

    /// The groups in a relation to an object.
    pub fn read_userset_tuples(&self, object_type: &str, object_id: &str, relation: &str) -> (r: Vec<
        Tuple,
    >)
        ensures
            order::views(r@) == fitting(
                self@,
                groups_of_object(object_type@, object_id@, relation@),
            ),
    {
        self.filtered_tuples(&userset_filter(object_type, object_id, relation))
    }

    /// What a subject is in any relation to.
    pub fn read_starting_with_user(&self, subject_type: &str, subject_id: &str) -> (r: Vec<Tuple>)
        ensures
            order::views(r@) == fitting(self@, of_subject(subject_type@, subject_id@)),
    {
        self.filtered_tuples(&subject_filter(subject_type, subject_id))
    }

    /// The tuple of a subject in the first of several relations to an object.
    pub fn read_user_tuple_batch(
        &self,
        object_type: &str,
        object_id: &str,
        relations: &Vec<String>,
        subject_type: &str,
        subject_id: &str,
    ) -> (r: Option<Tuple>)
        ensures
            opt_tuple(r) == first_in_relations(
                self@,
                object_type@,
                object_id@,
                text::texts(relations@),
                subject_type@,
                subject_id@,
            ),
    {
        let ghost all = text::texts(relations@);
        let mut i: usize = 0;
        assert(all.skip(0) =~= all);
        while i < relations.len()
            invariant
                i <= relations@.len(),
                all == text::texts(relations@),
                first_in_relations(
                    self@,
                    object_type@,
                    object_id@,
                    all,
                    subject_type@,
                    subject_id@,
                ) == first_in_relations(
                    self@,
                    object_type@,
                    object_id@,
                    all.skip(i as int),
                    subject_type@,
                    subject_id@,
                ),
            decreases relations@.len() - i,
        {
            assert(all.skip(i as int)[0] == relations@[i as int]@);
            assert(all.skip(i as int).skip(1) =~= all.skip(i + 1));
            let found = self.read_user_tuple(
                object_type,
                object_id,
                relations[i].as_str(),
                subject_type,
                subject_id,
            );
            if found.is_some() {
                return found;
            }
            i += 1;
        }
        None
    }
}

} // verus!
