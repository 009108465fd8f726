//! JSON as text.

use vstd::prelude::*;

use crate::text;
use crate::text::{cat2, cat3, decimal_text, join};

verus! {

/// A string as JSON writes it: quoted and escaped.
pub uninterp spec fn quoted(s: Seq<char>) -> Seq<char>;

/// The `Display` impl of `serde_json::Value`, of a string: the text depends on
/// the string alone.
#[verifier::external_body]
pub(crate) fn quote(s: &str) -> (r: String)
    ensures
        r@ == quoted(s@),
{
    serde_json::Value::String(s.to_owned()).to_string()
}

/// Each string as JSON writes it.
pub open spec fn all_quoted(v: Seq<Seq<char>>) -> Seq<Seq<char>> {
    Seq::new(v.len(), |i: int| quoted(v[i]))
}

/// A number as JSON writes it.
pub open spec fn number(n: i64) -> Seq<char> {
    if n < 0 {
        "-"@ + text::decimal((-n) as nat)
    } else {
        text::decimal(n as nat)
    }
}

/// A truth value as JSON writes it.
pub open spec fn truth(b: bool) -> Seq<char> {
    if b {
        "true"@
    } else {
        "false"@
    }
}

/// An object with these members, without whitespace.
pub open spec fn object(members: Seq<Seq<char>>) -> Seq<char> {
    "{"@ + text::joined(members, ","@) + "}"@
}

/// An array of these values, without whitespace.
pub open spec fn array(values: Seq<Seq<char>>) -> Seq<char> {
    "["@ + text::joined(values, ","@) + "]"@
}

/// A number as JSON writes it.
pub fn number_text(n: i64) -> (r: String)
    ensures
        r@ == number(n),
{
    if n < 0 {
        let size: u64 = (-(n + 1)) as u64 + 1;
        cat2("-", decimal_text(size).as_str())
    } else {
        decimal_text(n as u64)
    }
}

/// A truth value as JSON writes it.
pub fn truth_text(b: bool) -> (r: String)
    ensures
        r@ == truth(b),
{
    if b {
        "true".to_owned()
    } else {
        "false".to_owned()
    }
}

/// An object with these members.
pub fn object_text(members: &Vec<String>) -> (r: String)
    ensures
        r@ == object(text::texts(members@)),
{
    let inner = join(members, ",");
    cat3("{", inner.as_str(), "}")
}

/// An array of these values.
pub fn array_text(values: &Vec<String>) -> (r: String)
    ensures
        r@ == array(text::texts(values@)),
{
    let inner = join(values, ",");
    cat3("[", inner.as_str(), "]")
}

/// Each string as JSON writes it.
pub fn quote_all(v: &Vec<String>) -> (r: Vec<String>)
    ensures
        text::texts(r@) == all_quoted(text::texts(v@)),
{
    let mut out: Vec<String> = Vec::new();
    let mut i: usize = 0;
    while i < v.len()
        invariant
            i <= v@.len(),
            out@.len() == i,
            forall|j: int| 0 <= j < i ==> (#[trigger] out@[j])@ == quoted(v@[j]@),
        decreases v@.len() - i,
    {
        out.push(quote(v[i].as_str()));
        i += 1;
    }
    assert(text::texts(out@) =~= all_quoted(text::texts(v@)));
    out
}

/// A member whose value is a string; `name` holds the quotes and the colon.
pub fn text_member(name: &str, value: &str) -> (r: String)
    ensures
        r@ == name@ + quoted(value@),
{
    cat2(name, quote(value).as_str())
}

/// An object stands in curly brackets with every member in it.
pub proof fn law_object_holds_its_members(members: Seq<Seq<char>>, member: Seq<char>)
    requires
        members.contains(member),
    ensures
        text::has_text(object(members), member),
        object(members)[0] == '{',
        object(members).last() == '}',
{
    reveal_strlit("{");
    reveal_strlit("}");
    let inside = text::joined(members, ","@);
    text::lemma_part_occurs(members, ","@, member);
    text::lemma_text_in_text(object(members), inside, "{"@, "}"@);
    text::lemma_text_occurs_through(object(members), inside, member);
}

/// An array stands in square brackets with every value in it.
pub proof fn law_array_holds_its_values(values: Seq<Seq<char>>, value: Seq<char>)
    requires
        values.contains(value),
    ensures
        text::has_text(array(values), value),
        array(values)[0] == '[',
        array(values).last() == ']',
{
    reveal_strlit("[");
    reveal_strlit("]");
    let inside = text::joined(values, ","@);
    text::lemma_part_occurs(values, ","@, value);
    text::lemma_text_in_text(array(values), inside, "["@, "]"@);
    text::lemma_text_occurs_through(array(values), inside, value);
}

/// Objects and arrays of one and of two are written with nothing but a comma between.
pub proof fn law_small_collections(a: Seq<char>, b: Seq<char>)
    ensures
        object(seq![a]) == "{"@ + a + "}"@,
        object(seq![a, b]) == "{"@ + a + ","@ + b + "}"@,
        array(Seq::empty()) == "["@ + "]"@,
        array(seq![a]) == "["@ + a + "]"@,
        array(seq![a, b]) == "["@ + a + ","@ + b + "]"@,
{
    text::law_joined_in_order(seq![a], b, ","@);
    assert(seq![a].push(b) =~= seq![a, b]);
    assert(object(seq![a, b]) =~= "{"@ + a + ","@ + b + "}"@);
    assert(array(seq![a, b]) =~= "["@ + a + ","@ + b + "]"@);
    assert(array(Seq::empty()) =~= "["@ + "]"@);
}

/// A number that is not negative is written by its digits, and a negative one with a
/// minus sign before the digits of its opposite. The two truth values are `true` and
/// `false`.
pub proof fn law_numbers_and_truth_values(n: i64)
    ensures
        n >= 0 ==> number(n) == text::decimal(n as nat),
        n < 0 ==> number(n) == "-"@ + text::decimal((-n) as nat),
        truth(true) == "true"@,
        truth(false) == "false"@,
{
}

} // verus!
