//! The store in a SQLite database: what is written to it and what is made of
//! what is read, apart from the connection itself.

pub mod accounts;
pub mod accounts_table;
pub mod audited;
pub mod devices;
pub mod granting;
pub mod grants;
pub mod groups;
pub mod laws;
pub mod login;
pub mod migrations;
pub mod recording;
pub mod repositories_table;
pub mod resources;
pub mod state;
pub mod tokens;
pub mod upsert;

pub use devices::{CreateDeviceAuthorizationParams, DeviceAuthorization};

use vstd::prelude::*;

use crate::accounts::effective_limit;
use crate::error::CoreError;
use crate::model::{User, UserView};
use crate::text;
use crate::text::{cat3, characters, is_blank};

verus! {

/// The provider of a principal that did not come from an identity provider.
pub const BRIDGE_PROVIDER_ID: &'static str = "bridge";

/// The strategy of an identity that names none.
pub const DEFAULT_SUBJECT_STRATEGY: &'static str = "oidc_sub";

/// The policy of an invitation that names none.
pub const VERIFIED_EMAIL_INVITATION: &'static str = "verified_email_invitation";

/// What is stored of a text that may be missing: nothing where it is blank.
pub open spec fn stored(value: Seq<char>) -> Option<Seq<char>> {
    if text::trimmed(value).len() == 0 {
        None
    } else {
        Some(text::trimmed(value))
    }
}

/// What is read where a text may be missing.
pub open spec fn read_back(value: Option<Seq<char>>) -> Seq<char> {
    match value {
        Some(v) => v,
        None => Seq::empty(),
    }
}

/// What is stored of a text that may be missing.
pub fn none_if_empty(value: &str) -> (r: Option<String>)
    ensures
        text::opt_text(r) == stored(value@),
{
    if is_blank(value) {
        None
    } else {
        Some(value.trim().to_owned())
    }
}

/// What is read where a text may be missing.
pub fn or_empty(value: Option<String>) -> (r: String)
    ensures
        r@ == read_back(text::opt_text(value)),
{
    match value {
        Some(v) => v,
        None => {
            let nothing = String::new();
            assert(nothing@ =~= Seq::<char>::empty());
            nothing
        },
    }
}

/// What is stored of a time that may be missing.
pub fn none_i64_if_zero(value: i64) -> (r: Option<i64>)
    ensures
        r == if value == 0 {
            None
        } else {
            Some(value)
        },
{
    if value == 0 {
        None
    } else {
        Some(value)
    }
}

/// What is read where a time may be missing.
pub fn or_zero(value: Option<i64>) -> (r: i64)
    ensures
        r == match value {
            Some(v) => v,
            None => 0,
        },
{
    match value {
        Some(v) => v,
        None => 0,
    }
}

/// How a truth value is stored.
pub fn bool_to_i64(value: bool) -> (r: i64)
    ensures
        r == if value {
            1i64
        } else {
            0i64
        },
{
    if value {
        1
    } else {
        0
    }
}

/// Fails with `not_found` where nothing was changed.
pub fn require_affected(changed: usize, not_found: CoreError) -> (r: Result<(), CoreError>)
    ensures
        match r {
            Ok(()) => changed > 0,
            Err(e) => changed == 0 && e == not_found,
        },
{
    if changed == 0 {
        Err(not_found)
    } else {
        Ok(())
    }
}

/// The first of some rows, or `not_found`.
pub fn found_or<T>(row: Option<T>, not_found: CoreError) -> (r: Result<T, CoreError>)
    ensures
        match (r, row) {
            (Ok(v), Some(w)) => v == w,
            (Err(e), None) => e == not_found,
            _ => false,
        },
{
    match row {
        Some(v) => Ok(v),
        None => Err(not_found),
    }
}

/// A user as it is read.
pub fn user_from_row(
    id: String,
    email: Option<String>,
    display_name: Option<String>,
    status: String,
    last_login_at: i64,
) -> (r: User)
    ensures
        r@ == (UserView {
            id: id@,
            email: read_back(text::opt_text(email)),
            display_name: read_back(text::opt_text(display_name)),
            status: status@,
            last_login_at,
        }),
{
    User { id, email: or_empty(email), display_name: or_empty(display_name), status, last_login_at }
}

// ---------------------------------------------------------------------------
// Searching
// ---------------------------------------------------------------------------

/// Whether a character stands for something else in a pattern.
pub open spec fn is_wildcard(c: char) -> bool {
    c == '\\' || c == '%' || c == '_'
}

/// A text as a pattern that means nothing but itself.
pub open spec fn escaped(s: Seq<char>) -> Seq<char>
    decreases s.len(),
{
    if s.len() == 0 {
        Seq::empty()
    } else if is_wildcard(s[0]) {
        seq!['\\', s[0]] + escaped(s.skip(1))
    } else {
        seq![s[0]] + escaped(s.skip(1))
    }
}

/// Whether a text is like a pattern: `%` stands for anything, `_` for any
/// character, and a backslash takes what follows it as it is.
pub open spec fn like(pattern: Seq<char>, s: Seq<char>) -> bool
    decreases pattern.len(), s.len(),
{
    if pattern.len() == 0 {
        s.len() == 0
    } else if pattern[0] == '%' {
        like(pattern.skip(1), s) || (s.len() > 0 && like(pattern, s.skip(1)))
    } else if pattern[0] == '\\' && pattern.len() >= 2 {
        s.len() > 0 && s[0] == pattern[1] && like(pattern.skip(2), s.skip(1))
    } else if pattern[0] == '_' {
        s.len() > 0 && like(pattern.skip(1), s.skip(1))
    } else {
        s.len() > 0 && s[0] == pattern[0] && like(pattern.skip(1), s.skip(1))
    }
}

/// The pattern for what contains a text.
pub open spec fn containing(s: Seq<char>) -> Seq<char> {
    "%"@ + escaped(s) + "%"@
}

/// A text as a pattern that means nothing but itself.
pub fn escape_like(value: &str) -> (r: String)
    ensures
        r@ == escaped(value@),
{
    let chars = characters(value);
    let mut out = String::new();
    let mut i: usize = 0;
    assert(out@ + escaped(chars@.skip(0)) =~= escaped(value@)) by {
        assert(chars@.skip(0) =~= chars@);
    }
    while i < chars.len()
        invariant
            i <= chars@.len(),
            chars@ == value@,
            out@ + escaped(chars@.skip(i as int)) == escaped(value@),
        decreases chars@.len() - i,
    {
        let ghost before = out@;
        let ghost rest = chars@.skip(i as int);
        let c = chars[i];
        assert(rest[0] == c);
        assert(rest.skip(1) =~= chars@.skip(i + 1));
        if c == '\\' || c == '%' || c == '_' {
            out.push('\\');
        }
        out.push(c);
        assert(out@ + escaped(rest.skip(1)) =~= before + escaped(rest));
        i += 1;
    }
    assert(chars@.skip(i as int).len() == 0);
    assert(out@ + escaped(chars@.skip(i as int)) =~= out@);
    out
}

/// What users are searched by.
pub struct UserSearch {
    /// The text that was asked for, in lower case.
    pub query: String,
    /// The pattern for what contains it.
    pub like: String,
    pub limit: i64,
}

/// What users are searched by.
pub fn user_search(query: &str, limit: usize) -> (r: UserSearch)
    ensures
        r.query@ == text::lower(text::trimmed(query@)),
        r.like@ == containing(r.query@),
        r.limit == if limit == 0 {
            1int
        } else if limit > i64::MAX {
            i64::MAX as int
        } else {
            limit as int
        },
{
    let query = query.trim().to_ascii_lowercase();
    let like = cat3("%", escape_like(query.as_str()).as_str(), "%");
    let most: u64 = effective_limit(limit) as u64;
    let limit: i64 = if most <= 0x7fff_ffff_ffff_ffff {
        most as i64
    } else {
        i64::MAX
    };
    UserSearch { query, like, limit }
}

/// A pattern behind `%` may begin anywhere.
proof fn lemma_like_behind_anything(pattern: Seq<char>, s: Seq<char>)
    requires
        pattern.len() > 0,
        pattern[0] == '%',
    ensures
        like(pattern, s) <==> exists|i: int|
            0 <= i <= s.len() && #[trigger] like(pattern.skip(1), s.skip(i)),
    decreases s.len(),
{
    let rest = pattern.skip(1);
    assert(s.skip(0) =~= s);
    if s.len() > 0 {
        let tail = s.skip(1);
        lemma_like_behind_anything(pattern, tail);
        if like(pattern, tail) {
            let i = choose|i: int| 0 <= i <= tail.len() && #[trigger] like(rest, tail.skip(i));
            assert(tail.skip(i) =~= s.skip(i + 1));
            assert(like(rest, s.skip(i + 1)));
        }
        if exists|i: int| 0 <= i <= s.len() && #[trigger] like(rest, s.skip(i)) {
            let i = choose|i: int| 0 <= i <= s.len() && #[trigger] like(rest, s.skip(i));
            if i > 0 {
                assert(tail.skip(i - 1) =~= s.skip(i));
                assert(like(rest, tail.skip(i - 1)));
            }
        }
    }
    if like(pattern, s) && like(rest, s) {
        assert(like(rest, s.skip(0)));
    }
}

proof fn lemma_escaped_prefix(q: Seq<char>, s: Seq<char>)
    ensures
        like(escaped(q) + "%"@, s) <==> text::has_prefix(s, q),
    decreases q.len(),
{
    reveal_strlit("%");
    let p = escaped(q) + "%"@;
    if q.len() == 0 {
        assert(p =~= seq!['%']);
        assert(p.skip(1) =~= Seq::empty());
        assert(s.skip(s.len() as int) =~= Seq::empty());
        lemma_like_behind_anything(p, s);
        assert(like(p.skip(1), s.skip(s.len() as int)));
        assert(s.subrange(0, 0) =~= q);
    } else {
        let rest = q.skip(1);
        if is_wildcard(q[0]) {
            assert(p[0] == '\\' && p[1] == q[0]);
            assert(p.skip(2) =~= escaped(rest) + "%"@);
        } else {
            assert(p[0] == q[0]);
            assert(p.skip(1) =~= escaped(rest) + "%"@);
        }
        if s.len() > 0 {
            lemma_escaped_prefix(rest, s.skip(1));
            if text::has_prefix(s, q) {
                assert(s.subrange(0, q.len() as int)[0] == q[0]);
                assert(s.skip(1).subrange(0, rest.len() as int) =~= rest);
            }
            if s[0] == q[0] && text::has_prefix(s.skip(1), rest) {
                assert(s.subrange(0, q.len() as int) =~= q) by {
                    assert forall|i: int| 0 <= i < q.len() implies s[i] == q[i] by {
                        if i > 0 {
                            assert(s.skip(1).subrange(0, rest.len() as int)[i - 1] == rest[i - 1]);
                        }
                    }
                }
            }
        }
    }
}

/// A search finds what contains the text that was asked for, whatever characters
/// are in it.
pub proof fn law_search_takes_the_text_as_it_is(q: Seq<char>, s: Seq<char>)
    ensures
        like(containing(q), s) <==> text::has_text(s, q),
{
    reveal_strlit("%");
    let p = containing(q);
    let inner = escaped(q) + "%"@;
    assert(p[0] == '%');
    assert(p.skip(1) =~= inner);
    lemma_like_behind_anything(p, s);
    if like(p, s) {
        let i = choose|i: int| 0 <= i <= s.len() && #[trigger] like(p.skip(1), s.skip(i));
        lemma_escaped_prefix(q, s.skip(i));
        assert(s.subrange(i, i + q.len()) =~= s.skip(i).subrange(0, q.len() as int));
        assert(text::matches_at(s, q, i));
    }
    if text::has_text(s, q) {
        let i = choose|i: int| #[trigger] text::matches_at(s, q, i);
        lemma_escaped_prefix(q, s.skip(i));
        assert(s.subrange(i, i + q.len()) =~= s.skip(i).subrange(0, q.len() as int));
        assert(like(p.skip(1), s.skip(i)));
    }
}

/// A text that may be missing is read back as it was stored, without the
/// whitespace around it.
pub proof fn law_stored_text_is_read_back(value: Seq<char>)
    ensures
        read_back(stored(value)) == text::trimmed(value),
{
    if text::trimmed(value).len() == 0 {
        assert(text::trimmed(value) =~= Seq::<char>::empty());
    }
}

} // verus!
