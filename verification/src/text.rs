//! Character-level text utilities for the job codec and the URL
//! classification: string escaping with its inverse, and substring search.

use vstd::prelude::*;

verus! {

use vstd::string::StrSliceExecFns;

/// Escape of one character: a quote or a backslash is preceded by a
/// backslash, every other character stands for itself.
pub open spec fn esc_char(c: char) -> Seq<char> {
    if c == '"' || c == '\\' {
        seq!['\\', c]
    } else {
        seq![c]
    }
}

/// Escape of a string, character by character.
pub open spec fn esc(s: Seq<char>) -> Seq<char>
    decreases s.len(),
{
    if s.len() == 0 {
        Seq::empty()
    } else {
        esc_char(s[0]) + esc(s.drop_first())
    }
}

/// A string framed by quotes, with its content escaped.
pub open spec fn quoted(s: Seq<char>) -> Seq<char> {
    seq!['"'] + esc(s) + seq!['"']
}

/// Parse of the body of a quoted string: everything up to the first
/// unescaped quote, with escapes resolved. Returns the content and the
/// number of characters consumed, the closing quote included.
pub open spec fn parse_str_body(s: Seq<char>) -> Option<(Seq<char>, int)>
    decreases s.len(),
{
    if s.len() == 0 {
        None
    } else if s[0] == '"' {
        Some((Seq::empty(), 1))
    } else if s[0] == '\\' {
        if s.len() < 2 {
            None
        } else {
            match parse_str_body(s.skip(2)) {
                Option::Some((t, n)) => Some((seq![s[1]] + t, n + 2)),
                Option::None => None,
            }
        }
    } else {
        match parse_str_body(s.skip(1)) {
            Option::Some((t, n)) => Some((seq![s[0]] + t, n + 1)),
            Option::None => None,
        }
    }
}

/// Parse of a quoted string at the front of a sequence: the leading quote,
/// the body, the closing quote. Returns the content and the characters
/// consumed, both quotes included.
pub open spec fn spec_parse_string(s: Seq<char>) -> Option<(Seq<char>, int)> {
    if s.len() == 0 || s[0] != '"' {
        None
    } else {
        match parse_str_body(s.skip(1)) {
            Option::Some((t, n)) => Some((t, n + 1)),
            Option::None => None,
        }
    }
}

/// Parsing the escaped body followed by a closing quote and anything else
/// recovers the original string and consumes exactly the body and the quote.
pub proof fn lemma_parse_body_of_esc(t: Seq<char>, rest: Seq<char>)
    ensures
        parse_str_body(esc(t) + seq!['"'] + rest) == Some((t, esc(t).len() as int + 1)),
    decreases t.len(),
{
    let s = esc(t) + seq!['"'] + rest;
    if t.len() == 0 {
        assert(esc(t) =~= Seq::<char>::empty());
        assert(s[0] == '"');
    } else {
        let c = t[0];
        let t1 = t.drop_first();
        assert(esc(t) == esc_char(c) + esc(t1));
        lemma_parse_body_of_esc(t1, rest);
        if c == '"' || c == '\\' {
            assert(s[0] == '\\');
            assert(s[1] == c);
            assert(s.skip(2) =~= esc(t1) + seq!['"'] + rest);
            assert(seq![c] + t1 =~= t);
        } else {
            assert(s[0] == c);
            assert(s[0] != '"' && s[0] != '\\');
            assert(s.skip(1) =~= esc(t1) + seq!['"'] + rest);
            assert(seq![c] + t1 =~= t);
        }
    }
}

/// Parsing a quoted string written by the encoder recovers the original,
/// whatever follows the closing quote.
pub proof fn lemma_parse_string_of_quoted(t: Seq<char>, rest: Seq<char>)
    ensures
        spec_parse_string(quoted(t) + rest) == Some((t, quoted(t).len() as int)),
        (quoted(t) + rest).skip(quoted(t).len() as int) =~= rest,
{
    let s = quoted(t) + rest;
    assert(s[0] == '"');
    assert(s.skip(1) =~= esc(t) + seq!['"'] + rest);
    lemma_parse_body_of_esc(t, rest);
}

/// A successful body parse consumes at least the closing quote and no more
/// than the whole sequence.
pub proof fn lemma_parse_str_body_bounds(s: Seq<char>)
    ensures
        parse_str_body(s) matches Some(p) ==> 1 <= p.1 <= s.len(),
    decreases s.len(),
{
    if s.len() == 0 {
    } else if s[0] == '"' {
    } else if s[0] == '\\' {
        if s.len() >= 2 {
            lemma_parse_str_body_bounds(s.skip(2));
        }
    } else {
        lemma_parse_str_body_bounds(s.skip(1));
    }
}

/// A successful string parse consumes at least its two quotes and no more
/// than the whole sequence.
pub proof fn lemma_parse_string_bounds(s: Seq<char>)
    ensures
        spec_parse_string(s) matches Some(p) ==> 2 <= p.1 <= s.len(),
{
    if s.len() > 0 && s[0] == '"' {
        lemma_parse_str_body_bounds(s.skip(1));
    }
}

/// Escapes a string's characters for the codec.
pub fn esc_chars(s: &Vec<char>) -> (r: Vec<char>)
    ensures
        r@ == esc(s@),
{
    let mut r: Vec<char> = Vec::new();
    let mut i: usize = 0;
    while i < s.len()
        invariant
            i <= s@.len(),
            r@ == esc(s@.take(i as int)),
        decreases s@.len() - i,
    {
        let c = s[i];
        if c == '"' || c == '\\' {
            r.push('\\');
            r.push(c);
        } else {
            r.push(c);
        }
        proof {
            lemma_esc_push(s@.take(i as int), c);
            assert(s@.take(i + 1) =~= s@.take(i as int).push(c));
        }
        i = i + 1;
    }
    proof {
        assert(s@.take(s@.len() as int) =~= s@);
    }
    r
}

/// Escaping distributes over appending one character.
proof fn lemma_esc_push(s: Seq<char>, c: char)
    ensures
        esc(s.push(c)) == esc(s) + esc_char(c),
    decreases s.len(),
{
    if s.len() == 0 {
        assert(s.push(c)[0] == c);
        assert(s.push(c).drop_first() =~= Seq::<char>::empty());
        assert(esc(s.push(c)) =~= esc_char(c) + esc(s.push(c).drop_first()));
        assert(esc(s.push(c)) =~= esc_char(c));
        assert(esc(s) + esc_char(c) =~= esc_char(c));
    } else {
        assert(s.push(c)[0] == s[0]);
        assert(s.push(c).drop_first() =~= s.drop_first().push(c));
        lemma_esc_push(s.drop_first(), c);
        assert(esc(s.push(c)) =~= esc(s) + esc_char(c));
    }
}

/// Parses a quoted string starting at index `i`: content and the index just
/// past the closing quote.
pub fn parse_string_at(s: &Vec<char>, i: usize) -> (r: Option<(Vec<char>, usize)>)
    requires
        i <= s@.len(),
    ensures
        match spec_parse_string(s@.skip(i as int)) {
            Option::None => r is None,
            Option::Some((t, n)) => r matches Some(p) && p.0@ == t && p.1 == i + n,
        },
        r matches Some(p) ==> i + 2 <= p.1 <= s@.len(),
{
    proof {
        lemma_parse_string_bounds(s@.skip(i as int));
    }
    if i == s.len() {
        return None;
    }
    if s[i] != '"' {
        return None;
    }
    let ghost suf = s@.skip(i as int);
    assert(suf[0] == '"');
    let r = parse_body_at(s, i + 1);
    proof {
        assert(s@.skip(i + 1) =~= suf.skip(1));
    }
    match r {
        Option::Some((t, n)) => Some((t, n)),
        Option::None => None,
    }
}

/// Parses the body of a quoted string starting at index `i`; returns the
/// content and the index just past the closing quote.
fn parse_body_at(s: &Vec<char>, i: usize) -> (r: Option<(Vec<char>, usize)>)
    requires
        i <= s@.len(),
    ensures
        match parse_str_body(s@.skip(i as int)) {
            Option::None => r is None,
            Option::Some((t, n)) => r matches Some(p) && p.0@ == t && p.1 == i + n,
        },
    decreases s@.len() - i,
{
    let ghost suf = s@.skip(i as int);
    if i == s.len() {
        return None;
    }
    let c = s[i];
    assert(suf[0] == c);
    if c == '"' {
        let t: Vec<char> = Vec::new();
        return Some((t, i + 1));
    }
    if c == '\\' {
        if i + 1 == s.len() {
            assert(suf.len() < 2);
            return None;
        }
        let e = s[i + 1];
        assert(suf[1] == e);
        proof {
            assert(s@.skip(i + 2) =~= suf.skip(2));
        }
        match parse_body_at(s, i + 2) {
            Option::Some((t, n)) => {
                let mut t2 = t;
                t2.insert(0, e);
                assert(t2@ =~= seq![suf[1]] + t2@.skip(1));
                Some((t2, n))
            },
            Option::None => None,
        }
    } else {
        proof {
            assert(s@.skip(i + 1) =~= suf.skip(1));
        }
        match parse_body_at(s, i + 1) {
            Option::Some((t, n)) => {
                let mut t2 = t;
                t2.insert(0, c);
                assert(t2@ =~= seq![suf[0]] + t2@.skip(1));
                Some((t2, n))
            },
            Option::None => None,
        }
    }
}

/// Collects the characters of a string slice.
pub fn str_to_chars(s: &str) -> (r: Vec<char>)
    ensures
        r@ == s@,
{
    let n = s.unicode_len();
    let mut r: Vec<char> = Vec::new();
    let mut i: usize = 0;
    while i < n
        invariant
            n == s@.len(),
            i <= n,
            r@ == s@.take(i as int),
        decreases n - i,
    {
        r.push(s.get_char(i));
        proof {
            assert(s@.take(i + 1) =~= s@.take(i as int).push(s@[i as int]));
        }
        i = i + 1;
    }
    proof {
        assert(s@.take(n as int) =~= s@);
    }
    r
}

/// Builds a string holding the given characters.
///
/// Relies on `String`'s `FromIterator` implementation over `char`: collecting
/// characters yields the string made of exactly those characters in order.
#[verifier::external_body]
pub fn chars_to_string(v: &Vec<char>) -> (r: String)
    ensures
        r@ == v@,
{
    v.iter().collect()
}

/// Whether `pat` occurs as a contiguous run inside `s`.
pub open spec fn contains_seq(s: Seq<char>, pat: Seq<char>) -> bool {
    exists|k: int| 0 <= k <= s.len() - pat.len() && #[trigger] s.subrange(k, k + pat.len()) =~= pat
}

/// Substring search, used by the URL-expiry predicate and the failure
/// classification.
pub fn contains_chars(s: &Vec<char>, pat: &Vec<char>) -> (r: bool)
    ensures
        r == contains_seq(s@, pat@),
{
    if pat.len() > s.len() {
        assert(!contains_seq(s@, pat@));
        return false;
    }
    let mut k: usize = 0;
    while k <= s.len() - pat.len()
        invariant
            pat@.len() <= s@.len(),
            s@.len() <= usize::MAX,
            k <= s@.len() - pat@.len() + 1,
            forall|k0: int|
                0 <= k0 < k ==> #[trigger] s@.subrange(k0, k0 + pat@.len()) !~= pat@,
        decreases s@.len() - pat@.len() - k + 1,
    {
        let mut j: usize = 0;
        let mut all_eq: bool = true;
        while j < pat.len()
            invariant
                pat@.len() <= s@.len(),
                s@.len() <= usize::MAX,
                k <= s@.len() - pat@.len(),
                j <= pat@.len(),
                all_eq == (forall|j0: int| 0 <= j0 < j ==> s@[k + j0] == pat@[j0]),
            decreases pat@.len() - j,
        {
            if s[k + j] != pat[j] {
                all_eq = false;
                assert(!(forall|j0: int| 0 <= j0 < j + 1 ==> s@[k + j0] == pat@[j0]));
                j = pat.len();
            } else {
                assert(all_eq ==> forall|j0: int| 0 <= j0 < j + 1 ==> s@[k + j0] == pat@[j0]);
                j = j + 1;
            }
        }
        if all_eq {
            assert(s@.subrange(k as int, k + pat@.len()) =~= pat@);
            return true;
        }
        assert(s@.subrange(k as int, k + pat@.len()) !~= pat@);
        k = k + 1;
    }
    assert forall|k0: int| 0 <= k0 <= s@.len() - pat@.len() implies #[trigger] s@.subrange(
        k0,
        k0 + pat@.len(),
    ) !~= pat@ by {}
    false
}

} // verus!
