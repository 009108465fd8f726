//! The identifiers of repositories.

use vstd::prelude::*;

use crate::text;
use crate::text::{cat2, characters, strip_prefix};

verus! {

/// The identifiers of resources: `urc-` followed by the identifier of a repository.
pub struct ResourceID;

/// The repository that a resource stands for. What has no `urc-` in front is
/// the identifier of a repository already.
pub open spec fn repository_of(resource_id: Seq<char>) -> Seq<char> {
    match text::without_prefix(resource_id, "urc-"@) {
        Some(rest) => rest,
        None => resource_id,
    }
}

/// The resource that stands for a repository, unless the repository has no identifier.
pub open spec fn resource_for(repository_id: Seq<char>) -> Option<Seq<char>> {
    let id = repository_of(text::trimmed(repository_id));
    if id.len() == 0 {
        None
    } else {
        Some("urc-"@ + id)
    }
}

/// The characters of a repository's identifier.
pub open spec fn is_repository_char(c: char) -> bool {
    ||| 'a' <= c <= 'z'
    ||| 'A' <= c <= 'Z'
    ||| '0' <= c <= '9'
    ||| c == '-'
    ||| c == '_'
}

/// Whether `id` can be the identifier of a repository.
pub open spec fn is_repository_id(id: Seq<char>) -> bool {
    &&& 1 <= id.len() <= 128
    &&& forall|i: int| 0 <= i < id.len() ==> is_repository_char(#[trigger] id[i])
}

/// The identifier of a repository without the whitespace around it, if it is one.
pub open spec fn valid_repository_id(value: Seq<char>) -> Option<Seq<char>> {
    if is_repository_id(text::trimmed(value)) {
        Some(text::trimmed(value))
    } else {
        None
    }
}

impl ResourceID {
    /// The repository that a resource stands for.
    pub fn repository_id_from_resource_id(resource_id: &str) -> (r: String)
        ensures
            r@ == repository_of(resource_id@),
    {
        match strip_prefix(resource_id, "urc-") {
            Some(rest) => rest,
            None => resource_id.to_owned(),
        }
    }

    /// The resource that stands for a repository.
    pub fn for_repository_id(repository_id: &str) -> (r: Option<String>)
        ensures
            text::opt_text(r) == resource_for(repository_id@),
    {
        let id = Self::repository_id_from_resource_id(repository_id.trim());
        if id.is_empty() {
            None
        } else {
            Some(cat2("urc-", id.as_str()))
        }
    }
}

/// The identifier of a repository without the whitespace around it, if it is one.
pub fn normalize_valid_lore_repository_id(value: &str) -> (r: Option<String>)
    ensures
        text::opt_text(r) == valid_repository_id(value@),
{
    let id = value.trim();
    let chars = characters(id);
    if chars.len() == 0 || chars.len() > 128 {
        return None;
    }
    let mut i: usize = 0;
    while i < chars.len()
        invariant
            i <= chars@.len(),
            chars@ == id@,
            id@ == text::trimmed(value@),
            forall|j: int| 0 <= j < i ==> is_repository_char(#[trigger] id@[j]),
        decreases chars@.len() - i,
    {
        let c = chars[i];
        if !(('a' <= c && c <= 'z') || ('A' <= c && c <= 'Z') || ('0' <= c && c <= '9') || c == '-'
            || c == '_') {
            assert(!is_repository_char(id@[i as int]));
            return None;
        }
        i += 1;
    }
    Some(id.to_owned())
}

/// A resource stands for the repository that it was made for, as long as the
/// identifier does not itself begin with `urc-`.
pub proof fn law_resource_stands_for_its_repository(id: Seq<char>)
    requires
        is_repository_id(id),
        !text::has_prefix(id, "urc-"@),
    ensures
        resource_for(id) == Some("urc-"@ + id),
        repository_of("urc-"@ + id) == id,
{
    lemma_repository_id_is_trimmed(id);
    lemma_prefix_comes_off("urc-"@, id);
}

/// The resource of a resource is the resource itself.
pub proof fn law_resource_for_is_idempotent(id: Seq<char>)
    requires
        is_repository_id(id),
    ensures
        resource_for("urc-"@ + id) == Some("urc-"@ + id),
{
    reveal_strlit("urc-");
    let whole = "urc-"@ + id;
    lemma_prefix_comes_off("urc-"@, id);
    assert(!text::is_space(whole[0]));
    assert(whole.last() == id.last());
    assert(is_repository_char(id[id.len() - 1]));
    assert(!text::is_space(whole.last()));
    assert(text::trimmed(whole) == whole);
}

/// Nothing is trimmed off the identifier of a repository.
pub proof fn lemma_repository_id_is_trimmed(id: Seq<char>)
    requires
        is_repository_id(id),
    ensures
        text::trimmed(id) == id,
{
    assert(is_repository_char(id[0]));
    assert(is_repository_char(id[id.len() - 1]));
    assert(!text::is_space(id[0]));
    assert(!text::is_space(id.last()));
}

proof fn lemma_prefix_comes_off(p: Seq<char>, s: Seq<char>)
    ensures
        text::without_prefix(p + s, p) == Some(s),
{
    assert((p + s).subrange(0, p.len() as int) =~= p);
    assert((p + s).skip(p.len() as int) =~= s);
}

/// The repository of a resource is what stands behind `urc-`, and what has no `urc-` in
/// front is a repository itself; a repository without an identifier has no resource.
pub proof fn law_what_stands_behind_the_prefix(id: Seq<char>, rest: Seq<char>)
    ensures
        repository_of("urc-"@ + rest) == rest,
        !text::has_prefix(id, "urc-"@) ==> repository_of(id) == id,
        text::trimmed(id).len() == 0 ==> resource_for(id) is None,
        text::trimmed(id) == "urc-"@ ==> resource_for(id) is None,
        text::trimmed(id) == "urc-"@ + rest && rest.len() > 0 ==> resource_for(id) == Some(
            "urc-"@ + rest,
        ),
        text::trimmed(id).len() > 0 && !text::has_prefix(text::trimmed(id), "urc-"@)
            ==> resource_for(id) == Some("urc-"@ + text::trimmed(id)),
{
    lemma_prefix_comes_off("urc-"@, rest);
    lemma_prefix_comes_off("urc-"@, Seq::empty());
    assert("urc-"@ + Seq::<char>::empty() =~= "urc-"@);
    if text::trimmed(id).len() == 0 {
        reveal_strlit("urc-");
    }
}

/// An identifier of a repository is up to 128 letters, digits, `-` and `_`. Whitespace
/// around it is taken off, and nothing else is changed.
pub proof fn law_which_repository_ids_are_valid(value: Seq<char>)
    ensures
        valid_repository_id(value) is Some <==> {
            let id = text::trimmed(value);
            &&& 1 <= id.len() <= 128
            &&& forall|i: int|
                0 <= i < id.len() ==> ('a' <= #[trigger] id[i] <= 'z' || 'A' <= id[i] <= 'Z' || '0'
                    <= id[i] <= '9' || id[i] == '-' || id[i] == '_')
        },
        valid_repository_id(value) matches Some(id) ==> id == text::trimmed(value),
{
    let id = text::trimmed(value);
    assert(forall|i: int| 0 <= i < id.len() ==> is_repository_char(#[trigger] id[i]) == ('a'
        <= id[i] <= 'z' || 'A' <= id[i] <= 'Z' || '0' <= id[i] <= '9' || id[i] == '-' || id[i]
        == '_'));
}

} // verus!
