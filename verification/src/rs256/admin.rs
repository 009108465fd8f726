//! New signing keys: what may be asked for, and what is recorded of them.

use std::sync::Arc;

use vstd::prelude::*;

use crate::error;
use crate::error::{invalid, CoreError, CoreErrorView};
use crate::model::{SigningKeyMeta, SigningKeyMetaView};
use crate::rs256::keys::{SigningKey, SigningKeyView};
use crate::rs256::wire;
use crate::rs256::wire::jwk_text;
use crate::rs256::ALG_RS256;
use crate::text;
use crate::text::{cat2, cat3, characters, debug_text, has_nothing, same};

verus! {

/// Where new keys are kept: their files in a directory, their records in a store.
pub struct SigningKeyAdmin<S> {
    dir: String,
    store: Arc<S>,
}

/// The characters that the name of a key may have.
pub open spec fn is_kid_char(c: char) -> bool {
    ||| 'a' <= c <= 'z'
    ||| 'A' <= c <= 'Z'
    ||| '0' <= c <= '9'
    ||| c == '_'
    ||| c == '.'
    ||| c == '-'
}

/// Whether a key may have that name.
pub open spec fn is_kid(kid: Seq<char>) -> bool {
    &&& kid.len() > 0
    &&& forall|i: int| 0 <= i < kid.len() ==> is_kid_char(#[trigger] kid[i])
}

/// What is wrong with a request for a new key.
pub open spec fn request_objection(kid: Seq<char>, alg: Seq<char>) -> Option<CoreErrorView> {
    if alg.len() > 0 && alg != ALG_RS256@ {
        Some(CoreErrorView::InvalidArgument("only RS256 is supported"@))
    } else if !is_kid(kid) {
        Some(CoreErrorView::InvalidArgument("kid contains unsupported characters"@))
    } else {
        None
    }
}

/// What stands against a new key of that name, by what is recorded under it.
pub open spec fn name_objection(
    kid: Seq<char>,
    found: Result<SigningKeyMetaView, CoreErrorView>,
) -> Option<CoreErrorView> {
    match found {
        Ok(_) => Some(
            CoreErrorView::InvalidArgument(
                "signing key kid "@ + text::debug_quoted(kid) + " already exists"@,
            ),
        ),
        Err(CoreErrorView::NotFound) => None,
        Err(e) => Some(e),
    }
}

/// What is recorded of a new key.
pub open spec fn new_key_record(key: SigningKeyView, private_path: Seq<char>) -> SigningKeyMetaView {
    SigningKeyMetaView {
        kid: key.kid,
        alg: key.alg,
        public_jwk_json: wire::jwk_json(key.jwk()),
        private_key_path: private_path,
        status: "active"@,
    }
}

/// Whether a key may have that name.
pub fn valid_kid(kid: &str) -> (r: bool)
    ensures
        r == is_kid(kid@),
{
    let chars = characters(kid);
    let mut i: usize = 0;
    while i < chars.len()
        invariant
            i <= chars@.len(),
            chars@ == kid@,
            forall|j: int| 0 <= j < i ==> is_kid_char(#[trigger] kid@[j]),
        decreases chars@.len() - i,
    {
        let c = chars[i];
        if !(('a' <= c && c <= 'z') || ('A' <= c && c <= 'Z') || ('0' <= c && c <= '9') || c == '_'
            || c == '.' || c == '-') {
            assert(!is_kid_char(kid@[i as int]));
            return false;
        }
        i += 1;
    }
    chars.len() > 0
}

/// Tests a request for a new key.
pub fn check_request(kid: &str, alg: &str) -> (r: Result<(), CoreError>)
    ensures
        match r {
            Ok(()) => request_objection(kid@, alg@) is None,
            Err(e) => request_objection(kid@, alg@) == Some(e@),
        },
{
    if !has_nothing(alg) && !same(alg, ALG_RS256) {
        return Err(invalid("only RS256 is supported"));
    }
    if !valid_kid(kid) {
        return Err(invalid("kid contains unsupported characters"));
    }
    Ok(())
}

/// Tests the name of a new key against what is recorded under it.
pub fn check_name(kid: &str, found: Result<SigningKeyMeta, CoreError>) -> (r: Result<(), CoreError>)
    ensures
        match r {
            Ok(()) => name_objection(kid@, error::outcome(found)) is None,
            Err(e) => name_objection(kid@, error::outcome(found)) == Some(e@),
        },
{
    match found {
        Ok(_) => Err(
            invalid(
                cat3("signing key kid ", debug_text(kid).as_str(), " already exists").as_str(),
            ),
        ),
        Err(CoreError::NotFound) => Ok(()),
        Err(e) => Err(e),
    }
}

/// The name of the file that holds the private key.
pub fn key_file(kid: &str) -> (r: String)
    ensures
        r@ == kid@ + ".pem"@,
{
    cat2(kid, ".pem")
}

/// What is recorded of a new key.
pub fn new_key_meta(key: &SigningKey, private_path: &str) -> (r: SigningKeyMeta)
    ensures
        r@ == new_key_record(key@, private_path@),
{
    SigningKeyMeta {
        kid: key.kid().to_owned(),
        alg: key.alg().to_owned(),
        public_jwk_json: jwk_text(&key.jwk()),
        private_key_path: private_path.to_owned(),
        status: "active".to_owned(),
    }
}

impl<S> SigningKeyAdmin<S> {
    /// The directory of the key files.
    pub closed spec fn dir_text(&self) -> Seq<char> {
        self.dir@
    }

    /// The store of the records.
    pub closed spec fn record_store(&self) -> Arc<S> {
        self.store
    }

    /// Keeps key files in `dir` and records in `store`.
    pub fn new(dir: String, store: Arc<S>) -> (r: Self)
        ensures
            r.dir_text() == dir@,
            r.record_store() == store,
    {
        SigningKeyAdmin { dir, store }
    }

    /// The directory of the key files.
    pub fn dir(&self) -> (r: &str)
        ensures
            r@ == self.dir_text(),
    {
        self.dir.as_str()
    }

    /// The store of the records.
    pub fn store(&self) -> (r: &Arc<S>)
        ensures
            *r == self.record_store(),
    {
        &self.store
    }
}

/// The name of a key that may be made names no other directory: the file is in
/// the one that was given.
pub proof fn law_kid_names_a_file(kid: Seq<char>)
    requires
        is_kid(kid),
    ensures
        !kid.contains('/'),
        !kid.contains('\\'),
{
    assert forall|i: int| 0 <= i < kid.len() implies kid[i] != '/' && kid[i] != '\\' by {
        assert(is_kid_char(kid[i]));
    }
}

} // verus!
