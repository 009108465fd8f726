//! E-mail addresses of accounts.

use vstd::prelude::*;

use crate::error::{invalid, CoreError, CoreErrorView};
use crate::text;
use crate::text::{behind_last, contains_space, has_char, same_ignoring_case};

verus! {

/// An address without the whitespace around it, in lower case.
pub open spec fn normalized(email: Seq<char>) -> Seq<char> {
    text::lower(text::trimmed(email))
}

/// Whether an address can be that of an account: it has an `@` and no whitespace inside.
pub open spec fn is_account_email(email: Seq<char>) -> bool {
    let e = normalized(email);
    e.contains('@') && !text::has_space(e)
}

/// The address of an account without the whitespace around it, if it can be one.
pub open spec fn valid_email(value: Seq<char>) -> Result<Seq<char>, CoreErrorView> {
    if is_account_email(text::trimmed(value)) {
        Ok(text::trimmed(value))
    } else {
        Err(CoreErrorView::InvalidArgument("email must contain '@' and no whitespace"@))
    }
}

/// What stands behind the last `@` of an address, in lower case.
pub open spec fn domain_of(email: Seq<char>) -> Option<Seq<char>> {
    match text::after_last(normalized(email), '@') {
        Some(d) => if d.len() == 0 {
            None
        } else {
            Some(d)
        },
        None => None,
    }
}

/// Whether an address is in one of the domains; no domains allow every address.
pub open spec fn domain_allowed(email: Seq<char>, allowed: Seq<Seq<char>>) -> bool {
    allowed.len() == 0 || match domain_of(email) {
        None => false,
        Some(d) => exists|i: int|
            0 <= i < allowed.len() && text::lower(text::trimmed(#[trigger] allowed[i]))
                == text::lower(d),
    }
}

/// An address without the whitespace around it, in lower case.
pub fn normalize_email(email: &str) -> (r: String)
    ensures
        r@ == normalized(email@),
{
    email.trim().to_ascii_lowercase()
}

/// The normalized address, if it can be that of an account.
pub fn normalize_valid_account_email(email: &str) -> (r: Option<String>)
    ensures
        match r {
            Some(e) => is_account_email(email@) && e@ == normalized(email@),
            None => !is_account_email(email@),
        },
{
    let e = normalize_email(email);
    if has_char(e.as_str(), '@') && !contains_space(e.as_str()) {
        Some(e)
    } else {
        None
    }
}

/// The address of an account without the whitespace around it, if it can be one.
pub fn validated_account_email(value: &str) -> (r: Result<String, CoreError>)
    ensures
        crate::error::outcome(r) == valid_email(value@),
{
    let email = value.trim();
    match normalize_valid_account_email(email) {
        Some(_) => Ok(email.to_owned()),
        None => Err(invalid("email must contain '@' and no whitespace")),
    }
}

/// What stands behind the last `@` of an address, in lower case.
pub fn email_domain(email: &str) -> (r: Option<String>)
    ensures
        text::opt_text(r) == domain_of(email@),
{
    let email = normalize_email(email);
    match behind_last(email.as_str(), '@') {
        Some(d) => if d.is_empty() {
            None
        } else {
            Some(d)
        },
        None => None,
    }
}

/// Whether an address is in one of the domains.
pub fn email_domain_allowed(email: &str, allowed: &Vec<String>) -> (r: bool)
    ensures
        r == domain_allowed(email@, text::texts(allowed@)),
{
    if allowed.len() == 0 {
        return true;
    }
    let domain = match email_domain(email) {
        Some(d) => d,
        None => {
            return false;
        },
    };
    let ghost names = text::texts(allowed@);
    let mut i: usize = 0;
    while i < allowed.len()
        invariant
            i <= allowed@.len(),
            names == text::texts(allowed@),
            domain_of(email@) == Some(domain@),
            forall|j: int|
                0 <= j < i ==> text::lower(text::trimmed(#[trigger] names[j])) != text::lower(domain@),
        decreases allowed@.len() - i,
    {
        if same_ignoring_case(allowed[i].as_str().trim(), domain.as_str()) {
            assert(names[i as int] == allowed@[i as int]@);
            return true;
        }
        i += 1;
    }
    false
}

/// Nothing is trimmed off a normalized address.
pub proof fn lemma_normalized_is_trimmed(email: Seq<char>)
    ensures
        text::trimmed(normalized(email)) == normalized(email),
{
    let t = text::trimmed(email);
    let n = normalized(email);
    text::lemma_trimmed_ends(email);
    if n.len() > 0 {
        text::lemma_lower_keeps_spaces(t[0]);
        text::lemma_lower_keeps_spaces(t.last());
        assert(!text::is_space(n[0]));
        assert(!text::is_space(n.last()));
    }
}

/// An address is accepted exactly if, without the whitespace around it, it has an `@`
/// and no whitespace in it; it is then kept as it was typed.
pub proof fn law_address_has_an_at_sign(value: Seq<char>)
    ensures
        valid_email(value) is Ok <==> {
            &&& text::trimmed(value).contains('@')
            &&& forall|i: int|
                0 <= i < text::trimmed(value).len() ==> !text::is_space(
                    #[trigger] text::trimmed(value)[i],
                )
        },
        valid_email(value) matches Ok(e) ==> e == text::trimmed(value),
{
    let t = text::trimmed(value);
    text::lemma_trimmed_twice(value);
    let l = text::lower(t);
    assert(normalized(t) == l);
    assert forall|i: int| 0 <= i < t.len() implies {
        &&& #[trigger] l[i] == '@' <==> t[i] == '@'
        &&& text::is_space(l[i]) <==> text::is_space(t[i])
    } by {
        let c = t[i];
        if 'A' <= c <= 'Z' {
            let u = c as u32;
            assert(65 <= u <= 90);
            assert(l[i] as u32 == u + 32);
        }
    }
    if t.contains('@') {
        let i = choose|i: int| 0 <= i < t.len() && t[i] == '@';
        assert(l[i] == '@');
    }
    if l.contains('@') {
        let i = choose|i: int| 0 <= i < l.len() && l[i] == '@';
        assert(t[i] == '@');
    }
    if text::has_space(l) {
        let i = choose|i: int| 0 <= i < l.len() && text::is_space(#[trigger] l[i]);
        assert(text::is_space(t[i]));
    } else {
        assert forall|i: int| 0 <= i < t.len() implies !text::is_space(#[trigger] t[i]) by {
            assert(!text::is_space(l[i]));
        }
    }
}

/// An address is let through by a list of domains exactly if the list is empty or
/// names what stands behind the last `@`, whatever the case of its letters.
pub proof fn law_domain_must_be_listed(
    address: Seq<char>,
    local: Seq<char>,
    domain: Seq<char>,
    allowed: Seq<Seq<char>>,
)
    requires
        text::lower(text::trimmed(address)) == local.push('@') + domain,
        !domain.contains('@'),
    ensures
        domain_allowed(address, Seq::empty()),
        domain.len() > 0 && allowed.len() > 0 ==> (domain_allowed(address, allowed) <==> exists|i: int|
            0 <= i < allowed.len() && text::lower(text::trimmed(#[trigger] allowed[i])) == domain),
        domain.len() == 0 && allowed.len() > 0 ==> !domain_allowed(address, allowed),
{
    text::law_behind_the_last(local, '@', local, domain);
    let e = text::lower(text::trimmed(address));
    assert(text::lower(domain) =~= domain) by {
        assert forall|i: int| 0 <= i < domain.len() implies text::ascii_lower(domain[i])
            == domain[i] by {
            let at = local.len() + 1 + i;
            assert(e[at] == domain[i]);
            assert(e[at] == text::ascii_lower(text::trimmed(address)[at]));
            let c = text::trimmed(address)[at];
            if 'A' <= c <= 'Z' {
                let u = c as u32;
                assert(65 <= u <= 90);
                assert(domain[i] as u32 == u + 32);
            }
        }
    }
}

/// An address without an `@` is let through only by an empty list.
pub proof fn law_no_domain_is_not_listed(address: Seq<char>, allowed: Seq<Seq<char>>)
    requires
        !text::lower(text::trimmed(address)).contains('@'),
        allowed.len() > 0,
    ensures
        !domain_allowed(address, allowed),
{
    text::law_behind_the_last(text::lower(text::trimmed(address)), '@', Seq::empty(), Seq::empty());
}

} // verus!
