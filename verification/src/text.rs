//! Strings as sequences of characters: the operations that the other modules
//! use, and what each of them returns.

use vstd::prelude::*;

verus! {

// ---------------------------------------------------------------------------
// Standard library functions on strings
// ---------------------------------------------------------------------------

/// The characters with the Unicode property `White_Space`.
pub open spec fn is_space(c: char) -> bool {
    let u = c as u32;
    ||| 0x09 <= u <= 0x0d
    ||| u == 0x20
    ||| u == 0x85
    ||| u == 0xa0
    ||| u == 0x1680
    ||| 0x2000 <= u <= 0x200a
    ||| u == 0x2028
    ||| u == 0x2029
    ||| u == 0x202f
    ||| u == 0x205f
    ||| u == 0x3000
}

/// `s` without its leading whitespace.
pub open spec fn trimmed_start(s: Seq<char>) -> Seq<char>
    decreases s.len(),
{
    if s.len() > 0 && is_space(s[0]) {
        trimmed_start(s.skip(1))
    } else {
        s
    }
}

/// `s` without its trailing whitespace.
pub open spec fn trimmed_end(s: Seq<char>) -> Seq<char>
    decreases s.len(),
{
    if s.len() > 0 && is_space(s.last()) {
        trimmed_end(s.drop_last())
    } else {
        s
    }
}

/// `s` without its leading and trailing whitespace.
pub open spec fn trimmed(s: Seq<char>) -> Seq<char> {
    trimmed_end(trimmed_start(s))
}

/// `str::trim` takes the whitespace off both ends of a string and leaves the
/// rest as it is.
pub assume_specification[ str::trim ](s: &str) -> (r: &str)
    ensures
        r@ == trimmed(s@),
;

/// The lower case of an ASCII letter; any other character is its own.
pub open spec fn ascii_lower(c: char) -> char {
    if 'A' <= c <= 'Z' {
        (c as u32 + 32) as char
    } else {
        c
    }
}

/// The upper case of an ASCII letter; any other character is its own.
pub open spec fn ascii_upper(c: char) -> char {
    if 'a' <= c <= 'z' {
        (c as u32 - 32) as char
    } else {
        c
    }
}

/// Every character of `s` in ASCII lower case.
pub open spec fn lower(s: Seq<char>) -> Seq<char> {
    Seq::new(s.len(), |i: int| ascii_lower(s[i]))
}

/// Every character of `s` in ASCII upper case.
pub open spec fn upper(s: Seq<char>) -> Seq<char> {
    Seq::new(s.len(), |i: int| ascii_upper(s[i]))
}

/// `str::to_ascii_lowercase` maps the letters A to Z to a to z and leaves every
/// other character unchanged.
pub assume_specification[ str::to_ascii_lowercase ](s: &str) -> (r: String)
    ensures
        r@ == lower(s@),
;

/// `str::to_ascii_uppercase` maps the letters a to z to A to Z and leaves every
/// other character unchanged.
pub assume_specification[ str::to_ascii_uppercase ](s: &str) -> (r: String)
    ensures
        r@ == upper(s@),
;

/// The lower case of a string by the Unicode tables.
pub uninterp spec fn unicode_lower(s: Seq<char>) -> Seq<char>;

/// `str::to_lowercase` follows the Unicode tables: its result depends on the
/// string alone.
pub assume_specification[ str::to_lowercase ](s: &str) -> (r: String)
    ensures
        r@ == unicode_lower(s@),
;

/// `String::push` appends one character.
pub assume_specification[ String::push ](s: &mut String, ch: char)
    ensures
        final(s)@ == old(s)@.push(ch),
;

/// `String::is_empty` tells whether the string has no characters.
pub assume_specification[ String::is_empty ](s: &String) -> (r: bool)
    ensures
        r == (s@.len() == 0),
;

/// `==` on string slices holds exactly if they have the same characters.
pub assume_specification[ <str as PartialEq>::eq ](a: &str, b: &str) -> (r: bool)
    ensures
        r == (a@ == b@),
;

/// A string as `{:?}` prints it: quoted, with the escapes of the standard library.
pub uninterp spec fn debug_quoted(s: Seq<char>) -> Seq<char>;

/// The text that `format!` gives for `{:?}` of a string, which depends on the
/// string alone.
#[verifier::external_body]
pub(crate) fn debug_text(s: &str) -> (r: String)
    ensures
        r@ == debug_quoted(s@),
{
    format!("{:?}", s)
}

/// The decimal digit with the value `d`.
pub open spec fn digit(d: nat) -> char {
    (48 + d) as char
}

/// `n` in decimal notation, without leading zeros.
pub open spec fn decimal(n: nat) -> Seq<char>
    decreases n,
{
    if n < 10 {
        seq![digit(n)]
    } else {
        decimal(n / 10).push(digit(n % 10))
    }
}

/// `n` in decimal notation.
pub fn decimal_text(n: u64) -> (r: String)
    ensures
        r@ == decimal(n as nat),
    decreases n,
{
    if n < 10 {
        let mut out = String::new();
        out.push(digit_char(n));
        assert(out@ =~= seq![digit(n as nat)]);
        out
    } else {
        let mut out = decimal_text(n / 10);
        out.push(digit_char(n % 10));
        out
    }
}

fn digit_char(d: u64) -> (r: char)
    requires
        d < 10,
    ensures
        r == digit(d as nat),
{
    (48 + d as u8) as char
}

/// A trimmed string neither begins nor ends with whitespace.
pub proof fn lemma_trimmed_ends(s: Seq<char>)
    ensures
        trimmed(s).len() > 0 ==> !is_space(trimmed(s)[0]) && !is_space(trimmed(s).last()),
{
    lemma_trimmed_start(s);
    let t = trimmed_start(s);
    lemma_trimmed_end(t);
}

proof fn lemma_trimmed_start(s: Seq<char>)
    ensures
        trimmed_start(s).len() > 0 ==> !is_space(trimmed_start(s)[0]),
    decreases s.len(),
{
    if s.len() > 0 && is_space(s[0]) {
        lemma_trimmed_start(s.skip(1));
    }
}

proof fn lemma_trimmed_end(s: Seq<char>)
    ensures
        trimmed_end(s).len() > 0 ==> !is_space(trimmed_end(s).last()) && trimmed_end(s)[0] == s[0],
    decreases s.len(),
{
    if s.len() > 0 && is_space(s.last()) {
        lemma_trimmed_end(s.drop_last());
    }
}

/// To trim twice is the same as to trim once.
pub proof fn lemma_trimmed_twice(s: Seq<char>)
    ensures
        trimmed(trimmed(s)) == trimmed(s),
{
    lemma_trimmed_ends(s);
    let t = trimmed(s);
    assert(trimmed_start(t) == t);
    assert(trimmed_end(t) == t);
}

/// The lower case of a character is whitespace exactly if the character is.
pub proof fn lemma_lower_keeps_spaces(c: char)
    ensures
        is_space(ascii_lower(c)) == is_space(c),
{
}

/// The lower case of the lower case is the lower case.
pub proof fn lemma_lower_twice(c: char)
    ensures
        ascii_lower(ascii_lower(c)) == ascii_lower(c),
{
}

// ---------------------------------------------------------------------------
// Questions about strings
// ---------------------------------------------------------------------------

/// Whether `s` consists of whitespace only.
pub fn is_blank(s: &str) -> (r: bool)
    ensures
        r == (trimmed(s@).len() == 0),
{
    s.trim().is_empty()
}

/// Whether `s` has no characters.
pub fn has_nothing(s: &str) -> (r: bool)
    ensures
        r == (s@.len() == 0),
{
    proof {
        reveal_strlit("");
        assert(s@.len() == 0 ==> s@ =~= ""@);
    }
    same(s, "")
}

/// Whether `a` and `b` have the same characters.
pub fn same(a: &str, b: &str) -> (r: bool)
    ensures
        r == (a@ == b@),
{
    a.eq(b)
}

/// Whether `a` and `b` differ at most in the case of ASCII letters.
pub fn same_ignoring_case(a: &str, b: &str) -> (r: bool)
    ensures
        r == (lower(a@) == lower(b@)),
{
    let a = a.to_ascii_lowercase();
    let b = b.to_ascii_lowercase();
    a == b
}

/// The characters of `s`.
pub fn characters(s: &str) -> (r: Vec<char>)
    ensures
        r@ == s@,
{
    let mut out: Vec<char> = Vec::new();
    for c in it: s.chars()
        invariant
            it.seq() == s@,
            out@ == s@.take(it.index() as int),
    {
        out.push(c);
    }
    out
}

/// The string with the characters from `from` up to `to` of `chars`.
pub fn text_of(chars: &Vec<char>, from: usize, to: usize) -> (r: String)
    requires
        from <= to <= chars@.len(),
    ensures
        r@ == chars@.subrange(from as int, to as int),
{
    let mut out = String::new();
    let mut i: usize = from;
    while i < to
        invariant
            from <= i <= to <= chars@.len(),
            out@ == chars@.subrange(from as int, i as int),
        decreases to - i,
    {
        out.push(chars[i]);
        i += 1;
        assert(chars@.subrange(from as int, i as int) == chars@.subrange(from as int, i - 1).push(
            chars@[i - 1],
        ));
    }
    out
}

/// Whether the character `c` occurs in `s`.
pub fn has_char(s: &str, c: char) -> (r: bool)
    ensures
        r == s@.contains(c),
{
    let chars = characters(s);
    let mut i: usize = 0;
    while i < chars.len()
        invariant
            i <= chars@.len(),
            chars@ == s@,
            forall|j: int| 0 <= j < i ==> s@[j] != c,
        decreases chars@.len() - i,
    {
        if chars[i] == c {
            assert(s@[i as int] == c);
            return true;
        }
        i += 1;
    }
    false
}

/// Whether some whitespace occurs in `s`.
pub open spec fn has_space(s: Seq<char>) -> bool {
    exists|i: int| 0 <= i < s.len() && is_space(#[trigger] s[i])
}

/// Whether some whitespace occurs in `s`.
pub fn contains_space(s: &str) -> (r: bool)
    ensures
        r == has_space(s@),
{
    let chars = characters(s);
    let mut i: usize = 0;
    while i < chars.len()
        invariant
            i <= chars@.len(),
            chars@ == s@,
            forall|j: int| 0 <= j < i ==> !is_space(#[trigger] s@[j]),
        decreases chars@.len() - i,
    {
        let u: u32 = chars[i] as u32;
        if (0x09 <= u && u <= 0x0d) || u == 0x20 || u == 0x85 || u == 0xa0 || u == 0x1680 || (0x2000
            <= u && u <= 0x200a) || u == 0x2028 || u == 0x2029 || u == 0x202f || u == 0x205f || u
            == 0x3000 {
            assert(is_space(s@[i as int]));
            return true;
        }
        i += 1;
    }
    false
}

/// Whether the characters of `p` stand in `s` from `at` on.
pub open spec fn matches_at(s: Seq<char>, p: Seq<char>, at: int) -> bool {
    &&& 0 <= at
    &&& at + p.len() <= s.len()
    &&& s.subrange(at, at + p.len()) == p
}

/// Whether `p` occurs in `s`.
pub open spec fn has_text(s: Seq<char>, p: Seq<char>) -> bool {
    exists|at: int| matches_at(s, p, at)
}

fn chars_match_at(s: &Vec<char>, p: &Vec<char>, at: usize) -> (r: bool)
    requires
        at <= s@.len(),
    ensures
        r == matches_at(s@, p@, at as int),
{
    if s.len() - at < p.len() {
        return false;
    }
    let len: usize = s.len();
    let mut i: usize = 0;
    while i < p.len()
        invariant
            i <= p@.len(),
            len == s@.len(),
            at + p@.len() <= len,
            forall|j: int| 0 <= j < i ==> s@[at + j] == p@[j],
        decreases p@.len() - i,
    {
        if s[at + i] != p[i] {
            assert(s@.subrange(at as int, at + p@.len())[i as int] != p@[i as int]);
            return false;
        }
        i += 1;
    }
    assert(s@.subrange(at as int, at + p@.len()) =~= p@);
    true
}

/// Whether `p` occurs in `s`.
pub fn contains_text(s: &str, p: &str) -> (r: bool)
    ensures
        r == has_text(s@, p@),
{
    let chars = characters(s);
    let part = characters(p);
    let mut at: usize = 0;
    while at < chars.len()
        invariant
            at <= chars@.len(),
            chars@ == s@,
            part@ == p@,
            forall|j: int| 0 <= j < at ==> !matches_at(s@, p@, j),
        decreases chars@.len() - at,
    {
        if chars_match_at(&chars, &part, at) {
            return true;
        }
        at += 1;
    }
    let last = chars_match_at(&chars, &part, at);
    assert(!last ==> forall|j: int| !matches_at(s@, p@, j));
    last
}

/// Whether `s` begins with `p`.
pub open spec fn has_prefix(s: Seq<char>, p: Seq<char>) -> bool {
    matches_at(s, p, 0)
}

/// Whether `s` ends with `p`.
pub open spec fn has_suffix(s: Seq<char>, p: Seq<char>) -> bool {
    matches_at(s, p, s.len() - p.len())
}

/// Whether `s` begins with `p`.
pub fn begins_with(s: &str, p: &str) -> (r: bool)
    ensures
        r == has_prefix(s@, p@),
{
    let s = characters(s);
    let p = characters(p);
    chars_match_at(&s, &p, 0)
}

/// What stands behind the prefix `p` of `s`, if `s` begins with it.
pub open spec fn without_prefix(s: Seq<char>, p: Seq<char>) -> Option<Seq<char>> {
    if has_prefix(s, p) {
        Some(s.skip(p.len() as int))
    } else {
        None
    }
}

/// What stands before the suffix `p` of `s`, if `s` ends with it.
pub open spec fn without_suffix(s: Seq<char>, p: Seq<char>) -> Option<Seq<char>> {
    if has_suffix(s, p) {
        Some(s.take(s.len() - p.len()))
    } else {
        None
    }
}

/// The view of an optional string.
pub open spec fn opt_text(s: Option<String>) -> Option<Seq<char>> {
    match s {
        Some(s) => Some(s@),
        None => None,
    }
}

/// What stands behind the prefix `p` of `s`.
pub fn strip_prefix(s: &str, p: &str) -> (r: Option<String>)
    ensures
        opt_text(r) == without_prefix(s@, p@),
{
    let s = characters(s);
    let p = characters(p);
    if chars_match_at(&s, &p, 0) {
        Some(text_of(&s, p.len(), s.len()))
    } else {
        None
    }
}

/// What stands before the suffix `p` of `s`.
pub fn strip_suffix(s: &str, p: &str) -> (r: Option<String>)
    ensures
        opt_text(r) == without_suffix(s@, p@),
{
    let s = characters(s);
    let p = characters(p);
    if p.len() > s.len() {
        return None;
    }
    let at: usize = s.len() - p.len();
    if chars_match_at(&s, &p, at) {
        Some(text_of(&s, 0, at))
    } else {
        None
    }
}

/// What stands behind the last occurrence of `c` in `s`, if there is one.
pub open spec fn after_last(s: Seq<char>, c: char) -> Option<Seq<char>>
    decreases s.len(),
{
    if s.len() == 0 {
        None
    } else if s.last() == c {
        Some(Seq::empty())
    } else {
        match after_last(s.drop_last(), c) {
            Some(t) => Some(t.push(s.last())),
            None => None,
        }
    }
}

proof fn lemma_after_last(s: Seq<char>, c: char, at: int)
    requires
        0 <= at < s.len(),
        s[at] == c,
        forall|j: int| at < j < s.len() ==> s[j] != c,
    ensures
        after_last(s, c) == Some(s.skip(at + 1)),
    decreases s.len(),
{
    if s.last() != c {
        lemma_after_last(s.drop_last(), c, at);
        assert(s.drop_last().skip(at + 1).push(s.last()) =~= s.skip(at + 1));
    } else {
        assert(s.skip(at + 1) =~= Seq::<char>::empty());
    }
}

proof fn lemma_after_last_none(s: Seq<char>, c: char)
    requires
        forall|j: int| 0 <= j < s.len() ==> s[j] != c,
    ensures
        after_last(s, c) is None,
    decreases s.len(),
{
    if s.len() > 0 {
        assert(s.last() == s[s.len() - 1]);
        lemma_after_last_none(s.drop_last(), c);
    }
}

/// What stands behind the last occurrence of `c` in `s`.
pub fn behind_last(s: &str, c: char) -> (r: Option<String>)
    ensures
        opt_text(r) == after_last(s@, c),
{
    let chars = characters(s);
    let mut end: usize = chars.len();
    while end > 0
        invariant
            end <= chars@.len(),
            forall|j: int| end <= j < chars@.len() ==> chars@[j] != c,
            chars@ == s@,
        decreases end,
    {
        if chars[end - 1] == c {
            proof {
                lemma_after_last(s@, c, end - 1);
            }
            return Some(text_of(&chars, end, chars.len()));
        }
        end -= 1;
    }
    proof {
        lemma_after_last_none(s@, c);
    }
    None
}

/// What stands behind the first occurrence of `p` in `s`, if there is one.
pub open spec fn after_first(s: Seq<char>, p: Seq<char>) -> Option<Seq<char>>
    decreases s.len(),
{
    if has_prefix(s, p) {
        Some(s.skip(p.len() as int))
    } else if s.len() == 0 {
        None
    } else {
        after_first(s.skip(1), p)
    }
}

/// What stands behind the first occurrence of `p` in `s`.
pub fn behind_first(s: &str, p: &str) -> (r: Option<String>)
    ensures
        opt_text(r) == after_first(s@, p@),
{
    let chars = characters(s);
    let part = characters(p);
    let len: usize = chars.len();
    let mut at: usize = 0;
    assert(s@.skip(0) =~= s@);
    loop
        invariant
            at <= len,
            len == chars@.len(),
            chars@ == s@,
            part@ == p@,
            after_first(s@, p@) == after_first(s@.skip(at as int), p@),
        decreases len - at,
    {
        let ghost rest = s@.skip(at as int);
        assert(matches_at(s@, p@, at as int) == has_prefix(rest, p@)) by {
            if at + p@.len() <= s@.len() {
                assert(s@.subrange(at as int, at + p@.len()) =~= rest.subrange(0, p@.len() as int));
            }
        }
        if chars_match_at(&chars, &part, at) {
            assert(rest.skip(p@.len() as int) =~= s@.skip(at + p@.len()));
            let from: usize = at + part.len();
            return Some(text_of(&chars, from, len));
        }
        if at == len {
            return None;
        }
        assert(rest.skip(1) =~= s@.skip(at + 1));
        at += 1;
    }
}

/// The parts of `s` between the occurrences of `c`: one more than there are
/// occurrences.
pub open spec fn split_on(s: Seq<char>, c: char) -> Seq<Seq<char>>
    decreases s.len(),
{
    if s.len() == 0 {
        seq![Seq::empty()]
    } else {
        let parts = split_on(s.drop_last(), c);
        if s.last() == c {
            parts.push(Seq::empty())
        } else {
            parts.drop_last().push(parts.last().push(s.last()))
        }
    }
}

/// A list of strings as the list of their characters.
pub open spec fn texts(v: Seq<String>) -> Seq<Seq<char>> {
    Seq::new(v.len(), |i: int| v[i]@)
}

/// `split_on` never gives an empty list.
pub proof fn lemma_split_on_nonempty(s: Seq<char>, c: char)
    ensures
        split_on(s, c).len() >= 1,
    decreases s.len(),
{
    if s.len() > 0 {
        lemma_split_on_nonempty(s.drop_last(), c);
    }
}

/// A string without `c` in it is one part.
pub proof fn lemma_split_on_plain(s: Seq<char>, c: char)
    requires
        !s.contains(c),
    ensures
        split_on(s, c) == seq![s],
    decreases s.len(),
{
    if s.len() > 0 {
        let front = s.drop_last();
        assert(!front.contains(c)) by {
            if front.contains(c) {
                let i = choose|i: int| 0 <= i < front.len() && front[i] == c;
                assert(s[i] == c);
            }
        }
        assert(s[s.len() - 1] == s.last());
        lemma_split_on_plain(front, c);
        assert(front.push(s.last()) =~= s);
        assert(split_on(s, c) =~= seq![s]);
    } else {
        assert(s =~= Seq::empty());
        assert(split_on(s, c) =~= seq![s]);
    }
}

/// A string without `c` in it, behind a `c`, is one more part.
pub proof fn lemma_split_on_more(a: Seq<char>, b: Seq<char>, c: char)
    requires
        !b.contains(c),
    ensures
        split_on(a.push(c) + b, c) == split_on(a, c).push(b),
    decreases b.len(),
{
    let s = a.push(c) + b;
    if b.len() == 0 {
        assert(s =~= a.push(c));
        assert(s.drop_last() =~= a);
        assert(b =~= Seq::empty());
    } else {
        let front = b.drop_last();
        assert(!front.contains(c)) by {
            if front.contains(c) {
                let i = choose|i: int| 0 <= i < front.len() && front[i] == c;
                assert(b[i] == c);
            }
        }
        assert(b[b.len() - 1] == b.last());
        lemma_split_on_more(a, front, c);
        assert(s.drop_last() =~= a.push(c) + front);
        assert(s.last() == b.last());
        assert(front.push(b.last()) =~= b);
        assert(split_on(s, c) =~= split_on(a, c).push(b));
    }
}

/// The parts of `s` between the occurrences of `c`.
pub fn split(s: &str, c: char) -> (r: Vec<String>)
    ensures
        texts(r@) == split_on(s@, c),
        r@.len() >= 1,
{
    let chars = characters(s);
    let mut done: Vec<String> = Vec::new();
    let mut current = String::new();
    let mut i: usize = 0;
    assert(texts(done@).push(current@) =~= split_on(chars@.take(0), c));
    while i < chars.len()
        invariant
            i <= chars@.len(),
            texts(done@).push(current@) == split_on(chars@.take(i as int), c),
        decreases chars@.len() - i,
    {
        let ghost before = texts(done@).push(current@);
        let next = chars[i];
        i += 1;
        assert(chars@.take(i as int).drop_last() =~= chars@.take(i - 1));
        assert(chars@.take(i as int).last() == next);
        assert(before.drop_last() =~= texts(done@));
        if next == c {
            done.push(current);
            current = String::new();
            assert(texts(done@) =~= before);
            assert(texts(done@).push(current@) =~= before.push(Seq::empty()));
        } else {
            current.push(next);
        }
    }
    assert(chars@.take(i as int) =~= chars@);
    let ghost before = texts(done@).push(current@);
    done.push(current);
    assert(texts(done@) =~= before);
    done
}

// ---------------------------------------------------------------------------
// Building strings
// ---------------------------------------------------------------------------

/// `a` followed by `b`.
pub fn cat2(a: &str, b: &str) -> (r: String)
    ensures
        r@ == a@ + b@,
{
    let mut out = a.to_owned();
    out.append(b);
    out
}

/// `a`, `b` and `c` in a row.
pub fn cat3(a: &str, b: &str, c: &str) -> (r: String)
    ensures
        r@ == a@ + b@ + c@,
{
    let mut out = cat2(a, b);
    out.append(c);
    out
}

/// `a`, `b`, `c` and `d` in a row.
pub fn cat4(a: &str, b: &str, c: &str, d: &str) -> (r: String)
    ensures
        r@ == a@ + b@ + c@ + d@,
{
    let mut out = cat3(a, b, c);
    out.append(d);
    out
}

/// `a`, `b`, `c`, `d` and `e` in a row.
pub fn cat5(a: &str, b: &str, c: &str, d: &str, e: &str) -> (r: String)
    ensures
        r@ == a@ + b@ + c@ + d@ + e@,
{
    let mut out = cat4(a, b, c, d);
    out.append(e);
    out
}

/// The parts in a row with `sep` between neighbours.
pub open spec fn joined(parts: Seq<Seq<char>>, sep: Seq<char>) -> Seq<char>
    decreases parts.len(),
{
    if parts.len() == 0 {
        Seq::empty()
    } else if parts.len() == 1 {
        parts[0]
    } else {
        joined(parts.drop_last(), sep) + sep + parts.last()
    }
}

/// The parts in a row with `sep` between neighbours.
pub fn join(parts: &Vec<String>, sep: &str) -> (r: String)
    ensures
        r@ == joined(texts(parts@), sep@),
{
    let mut out = String::new();
    let mut i: usize = 0;
    assert(texts(parts@).take(0) =~= Seq::<Seq<char>>::empty());
    while i < parts.len()
        invariant
            i <= parts@.len(),
            out@ == joined(texts(parts@).take(i as int), sep@),
        decreases parts@.len() - i,
    {
        if i > 0 {
            out.append(sep);
        }
        out.append(parts[i].as_str());
        i += 1;
        let ghost upto = texts(parts@).take(i as int);
        assert(upto.drop_last() =~= texts(parts@).take(i - 1));
        assert(upto.last() == parts@[i - 1]@);
        if i == 1 {
            assert(out@ =~= upto[0]);
        }
    }
    assert(texts(parts@).take(i as int) =~= texts(parts@));
    out
}

// ---------------------------------------------------------------------------
// Lists of strings
// ---------------------------------------------------------------------------

/// A copy of a list of strings.
pub fn copy_texts(v: &Vec<String>) -> (r: Vec<String>)
    ensures
        texts(r@) == texts(v@),
{
    let mut out: Vec<String> = Vec::new();
    let mut i: usize = 0;
    while i < v.len()
        invariant
            i <= v@.len(),
            texts(out@) == texts(v@).take(i as int),
        decreases v@.len() - i,
    {
        let ghost before = texts(out@);
        out.push(v[i].clone());
        i += 1;
        assert(texts(out@) =~= before.push(v@[i - 1]@));
        assert(texts(v@).take(i as int) =~= texts(v@).take(i - 1).push(texts(v@)[i - 1]));
    }
    assert(texts(v@).take(i as int) =~= texts(v@));
    out
}

/// Whether `s` is one of the strings of `v`.
pub fn has_member(v: &Vec<String>, s: &str) -> (r: bool)
    ensures
        r == texts(v@).contains(s@),
{
    let mut i: usize = 0;
    while i < v.len()
        invariant
            i <= v@.len(),
            forall|j: int| 0 <= j < i ==> v@[j]@ != s@,
        decreases v@.len() - i,
    {
        if same(v[i].as_str(), s) {
            assert(texts(v@)[i as int] == s@);
            return true;
        }
        i += 1;
    }
    assert forall|j: int| 0 <= j < texts(v@).len() implies texts(v@)[j] != s@ by {
        assert(v@[j]@ != s@);
    }
    false
}

/// The strings of `v` other than `x`, in the same order.
pub open spec fn without(v: Seq<Seq<char>>, x: Seq<char>) -> Seq<Seq<char>>
    decreases v.len(),
{
    if v.len() == 0 {
        Seq::empty()
    } else {
        let before = without(v.drop_last(), x);
        if v.last() == x {
            before
        } else {
            before.push(v.last())
        }
    }
}

/// The strings of `v` other than `x`.
pub fn drop_text(v: &Vec<String>, x: &str) -> (r: Vec<String>)
    ensures
        texts(r@) == without(texts(v@), x@),
{
    let ghost all = texts(v@);
    let mut out: Vec<String> = Vec::new();
    let mut i: usize = 0;
    assert(texts(out@) =~= without(all.take(0), x@));
    while i < v.len()
        invariant
            i <= v@.len(),
            all == texts(v@),
            texts(out@) == without(all.take(i as int), x@),
        decreases v@.len() - i,
    {
        let ghost before = texts(out@);
        assert(all.take(i + 1).drop_last() =~= all.take(i as int));
        assert(all.take(i + 1).last() == v@[i as int]@);
        if !same(v[i].as_str(), x) {
            out.push(v[i].clone());
            assert(texts(out@) =~= before.push(v@[i as int]@));
        }
        i += 1;
    }
    assert(all.take(i as int) =~= all);
    out
}

// ---------------------------------------------------------------------------
// What the operations on strings come to
// ---------------------------------------------------------------------------

/// One text occurs in another exactly if the other is it with something, or nothing,
/// on either side.
pub proof fn law_text_occurs(s: Seq<char>, p: Seq<char>)
    ensures
        has_text(s, p) <==> exists|a: Seq<char>, b: Seq<char>| s == #[trigger] (a + p + b),
{
    if has_text(s, p) {
        let at = choose|at: int| matches_at(s, p, at);
        let a = s.take(at);
        let b = s.skip(at + p.len());
        assert(s =~= a + s.subrange(at, at + p.len()) + b);
        assert(s == a + p + b);
    }
    if exists|a: Seq<char>, b: Seq<char>| s == #[trigger] (a + p + b) {
        let (a, b) = choose|a: Seq<char>, b: Seq<char>| s == #[trigger] (a + p + b);
        assert((a + p + b).subrange(a.len() as int, a.len() as int + p.len()) =~= p);
        assert(matches_at(s, p, a.len() as int));
    }
}

/// One text begins with another exactly if it is the other with something, or
/// nothing, behind it, and that is what is left without the prefix.
pub proof fn law_prefix_and_rest(s: Seq<char>, p: Seq<char>, rest: Seq<char>)
    ensures
        has_prefix(p + rest, p),
        without_prefix(p + rest, p) == Some(rest),
        has_prefix(s, p) ==> exists|b: Seq<char>| s == #[trigger] (p + b),
        !has_prefix(s, p) <==> without_prefix(s, p) is None,
{
    assert((p + rest).subrange(0, p.len() as int) =~= p);
    assert((p + rest).skip(p.len() as int) =~= rest);
    if has_prefix(s, p) {
        let b = s.skip(p.len() as int);
        assert(s =~= s.subrange(0, p.len() as int) + b);
        assert(s == p + b);
    }
}

/// One text ends with another exactly if it is the other with something, or nothing,
/// before it, and that is what is left without the suffix.
pub proof fn law_suffix_and_rest(s: Seq<char>, p: Seq<char>, rest: Seq<char>)
    ensures
        has_suffix(rest + p, p),
        without_suffix(rest + p, p) == Some(rest),
        has_suffix(s, p) ==> exists|a: Seq<char>| s == #[trigger] (a + p),
        !has_suffix(s, p) <==> without_suffix(s, p) is None,
{
    let t = rest + p;
    assert(t.subrange(t.len() - p.len(), t.len() as int) =~= p);
    assert(t.take(t.len() - p.len()) =~= rest);
    if has_suffix(s, p) {
        let a = s.take(s.len() - p.len());
        assert(s =~= a + s.subrange(s.len() - p.len(), s.len() as int));
        assert(s == a + p);
    }
}

/// What stands behind the last of a character has none of it, and begins right
/// behind it.
pub proof fn law_behind_the_last(s: Seq<char>, c: char, front: Seq<char>, rest: Seq<char>)
    ensures
        !rest.contains(c) ==> after_last(front.push(c) + rest, c) == Some(rest),
        after_last(s, c) is None <==> !s.contains(c),
{
    if !rest.contains(c) {
        let t = front.push(c) + rest;
        assert forall|j: int| front.len() < j < t.len() implies t[j] != c by {
            assert(t[j] == rest[j - front.len() - 1]);
        }
        lemma_after_last(t, c, front.len() as int);
        assert(t.skip(front.len() as int + 1) =~= rest);
    }
    if s.contains(c) {
        lemma_after_last_some(s, c);
    } else {
        assert forall|j: int| 0 <= j < s.len() implies s[j] != c by {}
        lemma_after_last_none(s, c);
    }
}

proof fn lemma_after_last_some(s: Seq<char>, c: char)
    requires
        s.contains(c),
    ensures
        after_last(s, c) is Some,
    decreases s.len(),
{
    let i = choose|i: int| 0 <= i < s.len() && s[i] == c;
    if s.last() != c {
        assert(s.drop_last()[i] == c);
        lemma_after_last_some(s.drop_last(), c);
    }
}

/// What stands behind the first occurrence of a text begins right behind it, and the
/// text does not occur earlier.
pub proof fn law_behind_the_first(s: Seq<char>, p: Seq<char>)
    ensures
        after_first(s, p) is Some <==> has_text(s, p),
        after_first(s, p) matches Some(rest) ==> {
            let at = s.len() - p.len() - rest.len();
            &&& 0 <= at
            &&& s == s.take(at) + p + rest
            &&& forall|j: int| 0 <= j < at ==> !#[trigger] matches_at(s, p, j)
        },
    decreases s.len(),
{
    if has_prefix(s, p) {
        let rest = s.skip(p.len() as int);
        assert(s =~= s.take(0) + s.subrange(0, p.len() as int) + rest);
        assert(matches_at(s, p, 0));
    } else if s.len() > 0 {
        let t = s.skip(1);
        law_behind_the_first(t, p);
        assert forall|j: int| 0 <= j implies matches_at(t, p, j) == #[trigger] matches_at(
            s,
            p,
            j + 1,
        ) by {
            if j + 1 + p.len() <= s.len() {
                assert(t.subrange(j, j + p.len()) =~= s.subrange(j + 1, j + 1 + p.len()));
            }
        }
        if has_text(s, p) {
            let at = choose|at: int| matches_at(s, p, at);
            assert(matches_at(s, p, (at - 1) + 1));
            assert(matches_at(t, p, at - 1));
        }
        if has_text(t, p) {
            let at = choose|at: int| matches_at(t, p, at);
            assert(matches_at(s, p, at + 1));
        }
        if let Some(rest) = after_first(t, p) {
            let at = t.len() - p.len() - rest.len();
            assert(s =~= s.take(1) + t);
            assert(s.take(at + 1) =~= s.take(1) + t.take(at));
            assert(s =~= s.take(at + 1) + p + rest);
            assert forall|j: int| 0 <= j < at + 1 implies !#[trigger] matches_at(s, p, j) by {
                if j > 0 {
                    assert(matches_at(s, p, (j - 1) + 1) == matches_at(t, p, j - 1));
                }
            }
        }
    } else {
        assert forall|j: int| !matches_at(s, p, j) by {
            if matches_at(s, p, j) {
                assert(j == 0);
            }
        }
    }
}

/// The parts of a text, put back together with the character between them, are the
/// text; no part has the character in it.
pub proof fn law_parts_make_the_text(s: Seq<char>, c: char)
    ensures
        joined(split_on(s, c), seq![c]) == s,
        forall|i: int| 0 <= i < split_on(s, c).len() ==> !(#[trigger] split_on(s, c)[i]).contains(c),
    decreases s.len(),
{
    lemma_split_on_nonempty(s, c);
    if s.len() == 0 {
        assert(s =~= Seq::empty());
    } else {
        let front = s.drop_last();
        let before = split_on(front, c);
        let now = split_on(s, c);
        law_parts_make_the_text(front, c);
        lemma_split_on_nonempty(front, c);
        if s.last() == c {
            assert(now.drop_last() =~= before);
            assert(s =~= front + seq![c] + Seq::empty());
        } else {
            assert(now.drop_last() =~= before.drop_last());
            assert(s =~= front.push(s.last()));
            if before.len() == 1 {
                assert(now.len() == 1);
            } else {
                assert(joined(now, seq![c]) =~= joined(before, seq![c]).push(s.last()));
            }
            assert forall|i: int| 0 <= i < now.len() implies !(#[trigger] now[i]).contains(c) by {
                if i < now.len() - 1 {
                    assert(now[i] == before[i]);
                } else {
                    let last = before.last();
                    assert(now[i] == last.push(s.last()));
                    assert(!before[before.len() - 1].contains(c));
                    if now[i].contains(c) {
                        let j = choose|j: int| 0 <= j < now[i].len() && now[i][j] == c;
                        assert(last[j] == c);
                    }
                }
            }
        }
    }
}

/// Joined texts stand one after the other with the separator between neighbours, and
/// none before the first or behind the last.
pub proof fn law_joined_in_order(parts: Seq<Seq<char>>, more: Seq<char>, sep: Seq<char>)
    ensures
        joined(Seq::empty(), sep).len() == 0,
        joined(seq![more], sep) == more,
        parts.len() > 0 ==> joined(parts.push(more), sep) == joined(parts, sep) + sep + more,
{
    assert(parts.push(more).drop_last() =~= parts);
}

/// A list without a text has everything else that the list has, in the same order,
/// and that text nowhere.
pub proof fn law_without_takes_out_one_text(v: Seq<Seq<char>>, more: Seq<char>, x: Seq<char>)
    ensures
        !without(v, x).contains(x),
        forall|y: Seq<char>| y != x ==> (#[trigger] without(v, x).contains(y) <==> v.contains(y)),
        !v.contains(x) ==> without(v, x) == v,
        more != x ==> without(v.push(more), x) == without(v, x).push(more),
        without(v.push(x), x) == without(v, x),
    decreases v.len(),
{
    assert(v.push(more).drop_last() =~= v);
    assert(v.push(x).drop_last() =~= v);
    if v.len() > 0 {
        let front = v.drop_last();
        law_without_takes_out_one_text(front, more, x);
        assert(v =~= front.push(v.last()));
        let before = without(front, x);
        assert forall|y: Seq<char>| v.contains(y) <==> front.contains(y) || y == v.last() by {
            if v.contains(y) {
                let i = choose|i: int| 0 <= i < v.len() && v[i] == y;
                if i < front.len() {
                    assert(front[i] == y);
                }
            }
            if front.contains(y) {
                let i = choose|i: int| 0 <= i < front.len() && front[i] == y;
                assert(v[i] == y);
            }
            assert(v[v.len() - 1] == v.last());
        }
        let longer = before.push(v.last());
        assert forall|y: Seq<char>| longer.contains(y) <==> before.contains(y) || y == v.last() by {
            if longer.contains(y) {
                let i = choose|i: int| 0 <= i < longer.len() && longer[i] == y;
                if i < before.len() {
                    assert(before[i] == y);
                }
            }
            if before.contains(y) {
                let i = choose|i: int| 0 <= i < before.len() && before[i] == y;
                assert(longer[i] == y);
            }
            assert(longer[before.len() as int] == v.last());
        }
    } else {
        assert(without(v, x) =~= v);
    }
}

/// A number is written with the digits of its quotient by ten and then that of its
/// remainder, and one below ten with the one digit that stands for it.
pub proof fn law_decimal_digits(n: nat, d: nat)
    requires
        d < 10,
    ensures
        decimal(d).len() == 1,
        decimal(d)[0] as u32 == '0' as u32 + d,
        n > 0 ==> decimal(10 * n + d) == decimal(n) + decimal(d),
{
    if n > 0 {
        assert((10 * n + d) / 10 == n);
        assert((10 * n + d) % 10 == d);
        assert(decimal(10 * n + d) =~= decimal(n) + decimal(d));
    }
}

/// Trimming takes whitespace off both ends and nothing else.
pub proof fn law_trimming_takes_whitespace(s: Seq<char>)
    ensures
        exists|a: Seq<char>, b: Seq<char>|
            {
                &&& s == #[trigger] (a + trimmed(s) + b)
                &&& forall|i: int| 0 <= i < a.len() ==> is_space(#[trigger] a[i])
                &&& forall|i: int| 0 <= i < b.len() ==> is_space(#[trigger] b[i])
            },
        trimmed(s).len() > 0 ==> !is_space(trimmed(s)[0]) && !is_space(trimmed(s).last()),
{
    lemma_trimmed_ends(s);
    let a = lemma_trimmed_start_parts(s);
    let t = trimmed_start(s);
    let b = lemma_trimmed_end_parts(t);
    assert(s =~= a + trimmed(s) + b);
}

proof fn lemma_trimmed_start_parts(s: Seq<char>) -> (a: Seq<char>)
    ensures
        s == a + trimmed_start(s),
        forall|i: int| 0 <= i < a.len() ==> is_space(#[trigger] a[i]),
    decreases s.len(),
{
    if s.len() > 0 && is_space(s[0]) {
        let rest = lemma_trimmed_start_parts(s.skip(1));
        let a = seq![s[0]] + rest;
        assert(s =~= seq![s[0]] + s.skip(1));
        assert(a + trimmed_start(s) =~= seq![s[0]] + (rest + trimmed_start(s)));
        a
    } else {
        assert(s =~= Seq::<char>::empty() + s);
        Seq::empty()
    }
}

proof fn lemma_trimmed_end_parts(s: Seq<char>) -> (b: Seq<char>)
    ensures
        s == trimmed_end(s) + b,
        forall|i: int| 0 <= i < b.len() ==> is_space(#[trigger] b[i]),
    decreases s.len(),
{
    if s.len() > 0 && is_space(s.last()) {
        let rest = lemma_trimmed_end_parts(s.drop_last());
        let b = rest.push(s.last());
        assert(s =~= s.drop_last().push(s.last()));
        assert(trimmed_end(s) + b =~= (trimmed_end(s) + rest).push(s.last()));
        b
    } else {
        assert(s =~= s + Seq::<char>::empty());
        Seq::empty()
    }
}

/// A text that is one of some parts occurs in the parts joined.
pub proof fn lemma_part_occurs(parts: Seq<Seq<char>>, sep: Seq<char>, x: Seq<char>)
    requires
        parts.contains(x),
    ensures
        has_text(joined(parts, sep), x),
    decreases parts.len(),
{
    let i = choose|i: int| 0 <= i < parts.len() && parts[i] == x;
    if parts.len() == 1 {
        lemma_text_in_text(parts[0], x, Seq::empty(), Seq::empty());
    } else if i == parts.len() - 1 {
        let front = joined(parts.drop_last(), sep) + sep;
        lemma_text_in_text(joined(parts, sep), x, front, Seq::empty());
    } else {
        let front = parts.drop_last();
        assert(front[i] == x);
        lemma_part_occurs(front, sep, x);
        lemma_text_in_text(
            joined(parts, sep),
            joined(front, sep),
            Seq::empty(),
            sep + parts.last(),
        );
        lemma_text_occurs_through(joined(parts, sep), joined(front, sep), x);
    }
}

/// A text with something on either side of it occurs there.
pub proof fn lemma_text_in_text(s: Seq<char>, p: Seq<char>, a: Seq<char>, b: Seq<char>)
    requires
        s =~= a + p + b,
    ensures
        has_text(s, p),
{
    law_text_occurs(s, p);
}

/// What occurs in a part of a text occurs in the text.
pub proof fn lemma_text_occurs_through(s: Seq<char>, t: Seq<char>, p: Seq<char>)
    requires
        has_text(s, t),
        has_text(t, p),
    ensures
        has_text(s, p),
{
    law_text_occurs(s, t);
    law_text_occurs(t, p);
    let (a, b) = choose|a: Seq<char>, b: Seq<char>| s == #[trigger] (a + t + b);
    let (c, d) = choose|c: Seq<char>, d: Seq<char>| t == #[trigger] (c + p + d);
    lemma_text_in_text(s, p, a + c, d + b);
}

/// Whitespace is the tab and the characters up to the carriage return, the space, and the
/// other spaces and line ends of Unicode. No letter, digit or sign of ASCII is.
pub proof fn law_what_is_whitespace(c: char)
    ensures
        is_space(c) <==> {
            ||| '\t' <= c <= '\r'
            ||| c == ' '
            ||| c == '\u{85}'
            ||| c == '\u{a0}'
            ||| c == '\u{1680}'
            ||| '\u{2000}' <= c <= '\u{200a}'
            ||| c == '\u{2028}'
            ||| c == '\u{2029}'
            ||| c == '\u{202f}'
            ||| c == '\u{205f}'
            ||| c == '\u{3000}'
        },
        '!' <= c <= '~' ==> !is_space(c),
{
}

/// Case is that of the letters of ASCII, one by one: `A` to `Z` and `a` to `z` go with each
/// other, and every other character stays as it is.
pub proof fn law_case_is_that_of_ascii(s: Seq<char>, i: int)
    requires
        0 <= i < s.len(),
    ensures
        lower(s).len() == s.len(),
        upper(s).len() == s.len(),
        'A' <= s[i] <= 'Z' ==> lower(s)[i] as u32 == s[i] as u32 + ('a' as u32 - 'A' as u32),
        !('A' <= s[i] <= 'Z') ==> lower(s)[i] == s[i],
        'a' <= s[i] <= 'z' ==> upper(s)[i] as u32 == s[i] as u32 - ('a' as u32 - 'A' as u32),
        !('a' <= s[i] <= 'z') ==> upper(s)[i] == s[i],
{
    let c = s[i];
    if 'A' <= c <= 'Z' {
        let u = c as u32;
        assert(65 <= u <= 90);
    }
    if 'a' <= c <= 'z' {
        let u = c as u32;
        assert(97 <= u <= 122);
    }
}

} // verus!
