//! URLs, as the `url` crate reads and writes them.

use vstd::prelude::*;

use crate::text;
use crate::text::{cat4, characters, same, text_of};

verus! {

/// The parts of a URL that are looked at.
#[derive(Debug, PartialEq, Eq)]
pub struct UrlParts {
    pub scheme: String,
    /// The host, an IPv6 address without brackets; none where the URL has no host.
    pub host: Option<String>,
    pub path: String,
}

impl View for UrlParts {
    type V = (Seq<char>, Option<Seq<char>>, Seq<char>);

    open spec fn view(&self) -> (Seq<char>, Option<Seq<char>>, Seq<char>) {
        (self.scheme@, text::opt_text(self.host), self.path@)
    }
}

/// The scheme, the host and the path of a URL, or what is wrong with it.
pub uninterp spec fn url_parts(value: Seq<char>) -> Result<
    (Seq<char>, Option<Seq<char>>, Seq<char>),
    Seq<char>,
>;

/// `url::Url::parse`, taken apart by `scheme`, `host` and `path`: what comes out,
/// or the text of the error, depends on the string alone.
#[verifier::external_body]
pub(crate) fn parse_parts(value: &str) -> (r: Result<UrlParts, String>)
    ensures
        match r {
            Ok(parts) => url_parts(value@) matches Ok(p) && p == parts@,
            Err(e) => url_parts(value@) matches Err(m) && m == e@,
        },
{
    let parsed = url::Url::parse(value).map_err(|e| e.to_string())?;
    let host = match parsed.host() {
        Some(url::Host::Domain(host)) => Some(host.to_owned()),
        Some(url::Host::Ipv4(host)) => Some(host.to_string()),
        Some(url::Host::Ipv6(host)) => Some(host.to_string()),
        None => None,
    };
    Ok(UrlParts { scheme: parsed.scheme().to_owned(), host, path: parsed.path().to_owned() })
}

/// A name and a value of a query.
#[derive(Debug, PartialEq, Eq)]
pub struct QueryPair {
    pub name: String,
    pub value: String,
}

impl View for QueryPair {
    type V = (Seq<char>, Seq<char>);

    open spec fn view(&self) -> (Seq<char>, Seq<char>) {
        (self.name@, self.value@)
    }
}

/// The names and values of a query.
pub open spec fn pairs_of(v: Seq<QueryPair>) -> Seq<(Seq<char>, Seq<char>)> {
    Seq::new(v.len(), |i: int| v[i]@)
}

/// How many characters names and values have together.
pub open spec fn pairs_len(pairs: Seq<(Seq<char>, Seq<char>)>) -> nat
    decreases pairs.len(),
{
    if pairs.len() == 0 {
        0
    } else {
        pairs_len(pairs.drop_last()) + pairs.last().0.len() + pairs.last().1.len()
    }
}

/// Whether a URL with this query stays far below four gigabytes, which no URL may reach.
pub open spec fn fits(url: Seq<char>, pairs: Seq<(Seq<char>, Seq<char>)>) -> bool {
    url.len() + pairs_len(pairs) + pairs.len() <= 0x0800_0000
}

/// A URL with names and values added to its query, or what is wrong with it.
pub uninterp spec fn with_params(url: Seq<char>, pairs: Seq<(Seq<char>, Seq<char>)>) -> Result<
    Seq<char>,
    Seq<char>,
>;

/// `url::Url::parse_with_params`, written out again: the URL, or the text of the
/// error, depends on the string and the names and values alone. Beyond four
/// gigabytes the function panics.
#[verifier::external_body]
pub(crate) fn add_params(url: &str, pairs: &Vec<QueryPair>) -> (r: Result<String, String>)
    requires
        fits(url@, pairs_of(pairs@)),
    ensures
        match r {
            Ok(s) => with_params(url@, pairs_of(pairs@)) matches Ok(t) && t == s@,
            Err(e) => with_params(url@, pairs_of(pairs@)) matches Err(m) && m == e@,
        },
{
    let params = pairs.iter().map(|pair| (pair.name.as_str(), pair.value.as_str()));
    match url::Url::parse_with_params(url, params) {
        Ok(parsed) => Ok(parsed.to_string()),
        Err(e) => Err(e.to_string()),
    }
}

/// The names and values in the query of a URL, in order; none where it is no URL.
pub uninterp spec fn query_of(url: Seq<char>) -> Option<Seq<(Seq<char>, Seq<char>)>>;

/// `url::Url::query_pairs`: the names and values depend on the string alone.
#[verifier::external_body]
fn query_pairs(url: &str) -> (r: Option<Vec<QueryPair>>)
    ensures
        match r {
            Some(pairs) => query_of(url@) == Some(pairs_of(pairs@)),
            None => query_of(url@) is None,
        },
{
    let parsed = url::Url::parse(url).ok()?;
    let pairs = parsed.query_pairs().map(
        |(name, value)| QueryPair { name: name.into_owned(), value: value.into_owned() },
    );
    Some(pairs.collect())
}

/// A URL without its query; none where it is no URL.
pub uninterp spec fn queryless(url: Seq<char>) -> Option<Seq<char>>;

/// `url::Url::set_query` with no query, written out again: the URL depends on
/// the string alone.
#[verifier::external_body]
fn drop_query(url: &str) -> (r: Option<String>)
    ensures
        match r {
            Some(s) => queryless(url@) == Some(s@),
            None => queryless(url@) is None,
        },
{
    let mut parsed = url::Url::parse(url).ok()?;
    parsed.set_query(None);
    Some(parsed.to_string())
}

/// The names and values other than those with the name `key`, in the same order.
pub open spec fn other_pairs(pairs: Seq<(Seq<char>, Seq<char>)>, key: Seq<char>) -> Seq<
    (Seq<char>, Seq<char>),
>
    decreases pairs.len(),
{
    if pairs.len() == 0 {
        Seq::empty()
    } else {
        let before = other_pairs(pairs.drop_last(), key);
        if pairs.last().0 == key {
            before
        } else {
            before.push(pairs.last())
        }
    }
}

/// The names and values other than those with the name `key`.
pub fn drop_pairs(pairs: Vec<QueryPair>, key: &str) -> (r: Vec<QueryPair>)
    ensures
        pairs_of(r@) == other_pairs(pairs_of(pairs@), key@),
{
    let ghost all = pairs_of(pairs@);
    let mut out: Vec<QueryPair> = Vec::new();
    let mut i: usize = 0;
    assert(pairs_of(out@) =~= other_pairs(all.take(0), key@));
    while i < pairs.len()
        invariant
            i <= pairs@.len(),
            all == pairs_of(pairs@),
            pairs_of(out@) == other_pairs(all.take(i as int), key@),
        decreases pairs@.len() - i,
    {
        let ghost before = pairs_of(out@);
        assert(all.take(i + 1).drop_last() =~= all.take(i as int));
        assert(all.take(i + 1).last() == pairs@[i as int]@);
        if !same(pairs[i].name.as_str(), key) {
            let pair = QueryPair { name: pairs[i].name.clone(), value: pairs[i].value.clone() };
            out.push(pair);
            assert(pairs_of(out@) =~= before.push(pairs@[i as int]@));
        }
        i += 1;
    }
    assert(all.take(i as int) =~= all);
    out
}

/// Names and values written out as a query.
pub uninterp spec fn form_encoded(pairs: Seq<(Seq<char>, Seq<char>)>) -> Seq<char>;

/// `url::form_urlencoded::Serializer`: the query depends on the names and values
/// alone.
#[verifier::external_body]
fn form_encode(pairs: &Vec<QueryPair>) -> (r: String)
    ensures
        r@ == form_encoded(pairs_of(pairs@)),
{
    let mut query = url::form_urlencoded::Serializer::new(String::new());
    query.extend_pairs(pairs.iter().map(|pair| (pair.name.as_str(), pair.value.as_str())));
    query.finish()
}

/// A URL that has no query with a query, which stands before the fragment.
pub open spec fn with_query(bare: Seq<char>, query: Seq<char>) -> Seq<char> {
    match bare.index_of_first('#') {
        Some(i) => bare.take(i) + "?"@ + query + bare.skip(i),
        None => bare + "?"@ + query,
    }
}

/// A URL that has no query with a query.
pub fn put_query(bare: &str, query: &str) -> (r: String)
    ensures
        r@ == with_query(bare@, query@),
{
    let chars = characters(bare);
    let mut i: usize = 0;
    while i < chars.len() && chars[i] != '#'
        invariant
            i <= chars@.len(),
            chars@ == bare@,
            forall|j: int| 0 <= j < i ==> bare@[j] != '#',
        decreases chars@.len() - i,
    {
        i += 1;
    }
    let before = text_of(&chars, 0, i);
    let behind = text_of(&chars, i, chars.len());
    let r = cat4(before.as_str(), "?", query, behind.as_str());
    proof {
        bare@.index_of_first_ensures('#');
        if i < chars@.len() {
            assert(bare@[i as int] == '#');
            assert(bare@.index_of_first('#') == Some(i as int));
            assert(r@ =~= bare@.take(i as int) + "?"@ + query@ + bare@.skip(i as int));
        } else {
            assert(!bare@.contains('#'));
            assert(r@ =~= bare@ + "?"@ + query@);
        }
    }
    r
}

/// A URL without the names `key` in its query; none where it is no URL.
pub open spec fn without_param(url: Seq<char>, key: Seq<char>) -> Option<Seq<char>> {
    match (query_of(url), queryless(url)) {
        (Some(pairs), Some(bare)) => Some(
            with_query(bare, form_encoded(other_pairs(pairs, key))),
        ),
        _ => None,
    }
}

/// A URL without the names `key` in its query.
pub fn remove_query_param(url: &str, key: &str) -> (r: Option<String>)
    ensures
        text::opt_text(r) == without_param(url@, key@),
{
    let pairs = match query_pairs(url) {
        Some(pairs) => pairs,
        None => {
            return None;
        },
    };
    let bare = match drop_query(url) {
        Some(bare) => bare,
        None => {
            return None;
        },
    };
    let query = form_encode(&drop_pairs(pairs, key));
    Some(put_query(bare.as_str(), query.as_str()))
}

/// The pairs without those of a key are the others, in the same order.
pub proof fn law_other_pairs_are_the_others(
    pairs: Seq<(Seq<char>, Seq<char>)>,
    key: Seq<char>,
    more: (Seq<char>, Seq<char>),
)
    ensures
        other_pairs(Seq::empty(), key).len() == 0,
        more.0 == key ==> other_pairs(pairs.push(more), key) == other_pairs(pairs, key),
        more.0 != key ==> other_pairs(pairs.push(more), key) == other_pairs(pairs, key).push(more),
        forall|i: int|
            0 <= i < other_pairs(pairs, key).len() ==> (#[trigger] other_pairs(pairs, key)[i]).0
                != key,
    decreases pairs.len(),
{
    assert(pairs.push(more).drop_last() =~= pairs);
    if pairs.len() > 0 {
        law_other_pairs_are_the_others(pairs.drop_last(), key, more);
    }
}

/// A query goes behind the address and before the fragment, if there is one.
pub proof fn law_query_goes_before_the_fragment(
    address: Seq<char>,
    fragment: Seq<char>,
    query: Seq<char>,
)
    requires
        !address.contains('#'),
    ensures
        with_query(address, query) == address + "?"@ + query,
        with_query(address + "#"@ + fragment, query) == address + "?"@ + query + "#"@ + fragment,
{
    reveal_strlit("#");
    let bare = address + "#"@ + fragment;
    assert(bare[address.len() as int] == '#');
    address.index_of_first_ensures('#');
    bare.index_of_first_ensures('#');
    let at = bare.index_of_first('#')->0;
    assert(bare.contains('#'));
    assert(at == address.len()) by {
        if at < address.len() {
            assert(address[at] == '#');
        }
    }
    assert(bare.take(at) =~= address);
    assert(bare.skip(at) =~= "#"@ + fragment);
    assert(with_query(bare, query) =~= address + "?"@ + query + "#"@ + fragment);
}

} // verus!
