//! Character-level helpers shared by the spec parsers: searching for a
//! separator, splitting on it, and comparing strings, each with a
//! mathematical model over `Seq<char>`.
use vstd::prelude::*;
use vstd::utf8::is_ascii_chars;

use crate::trusted::{lowercase_of, uppercase_of};

verus! {

pub open spec fn ascii_lower_char(c: char) -> char {
    if 'A' <= c && c <= 'Z' {
        ((c as int) + 32) as char
    } else {
        c
    }
}

pub open spec fn ascii_upper_char(c: char) -> char {
    if 'a' <= c && c <= 'z' {
        ((c as int) - 32) as char
    } else {
        c
    }
}

/// `s` with A–Z turned into a–z and every other character kept.
pub open spec fn ascii_lowercase(s: Seq<char>) -> Seq<char> {
    Seq::new(s.len(), |i: int| ascii_lower_char(s[i]))
}

/// `s` with a–z turned into A–Z and every other character kept.
pub open spec fn ascii_uppercase(s: Seq<char>) -> Seq<char> {
    Seq::new(s.len(), |i: int| ascii_upper_char(s[i]))
}

/// The lowercase form of `s`: the ASCII mapping on ASCII text, the Unicode
/// lowercase mapping (`lowercase_of`) otherwise.
pub open spec fn lowercased(s: Seq<char>) -> Seq<char> {
    if is_ascii_chars(s) {
        ascii_lowercase(s)
    } else {
        lowercase_of(s)
    }
}

/// The uppercase form of `s`: the ASCII mapping on ASCII text, the Unicode
/// uppercase mapping (`uppercase_of`) otherwise.
pub open spec fn uppercased(s: Seq<char>) -> Seq<char> {
    if is_ascii_chars(s) {
        ascii_uppercase(s)
    } else {
        uppercase_of(s)
    }
}

/// The characters with the Unicode White_Space property.
pub open spec fn is_white_space(c: char) -> bool {
    ('\u{9}' <= c && c <= '\u{d}') || c == ' ' || c == '\u{85}' || c == '\u{a0}' || c
        == '\u{1680}' || ('\u{2000}' <= c && c <= '\u{200a}') || c == '\u{2028}' || c
        == '\u{2029}' || c == '\u{202f}' || c == '\u{205f}' || c == '\u{3000}'
}

/// `s` without its leading white space.
pub open spec fn trim_start(s: Seq<char>) -> Seq<char>
    decreases s.len(),
{
    if s.len() > 0 && is_white_space(s[0]) {
        trim_start(s.drop_first())
    } else {
        s
    }
}

/// `s` without its trailing white space.
pub open spec fn trim_end(s: Seq<char>) -> Seq<char>
    decreases s.len(),
{
    if s.len() > 0 && is_white_space(s.last()) {
        trim_end(s.drop_last())
    } else {
        s
    }
}

/// `s` without its leading and trailing white space.
pub open spec fn trim_white_space(s: Seq<char>) -> Seq<char> {
    trim_end(trim_start(s))
}

/// The first index `i < n` with `s[i] == c`, if any.
pub open spec fn first_index_upto(s: Seq<char>, c: char, n: int) -> Option<int>
    decreases n,
{
    if n <= 0 {
        None
    } else {
        match first_index_upto(s, c, n - 1) {
            Some(i) => Some(i),
            None => if s[n - 1] == c {
                Some(n - 1)
            } else {
                None
            },
        }
    }
}

/// The last index `i < n` with `s[i] == c`, if any.
pub open spec fn last_index_upto(s: Seq<char>, c: char, n: int) -> Option<int>
    decreases n,
{
    if n <= 0 {
        None
    } else if s[n - 1] == c {
        Some(n - 1)
    } else {
        last_index_upto(s, c, n - 1)
    }
}

pub proof fn lemma_first_index_upto(s: Seq<char>, c: char, n: int)
    ensures
        match first_index_upto(s, c, n) {
            Some(i) => 0 <= i < n && s[i] == c && forall|j: int| 0 <= j < i ==> s[j] != c,
            None => forall|j: int| 0 <= j < n ==> s[j] != c,
        },
    decreases n,
{
    if n > 0 {
        lemma_first_index_upto(s, c, n - 1);
    }
}

pub proof fn lemma_last_index_upto(s: Seq<char>, c: char, n: int)
    ensures
        match last_index_upto(s, c, n) {
            Some(i) => 0 <= i < n && s[i] == c && forall|j: int| i < j < n ==> s[j] != c,
            None => forall|j: int| 0 <= j < n ==> s[j] != c,
        },
    decreases n,
{
    if n > 0 {
        lemma_last_index_upto(s, c, n - 1);
    }
}

/// Once the first index is found below `m`, looking further does not change it.
pub proof fn lemma_first_index_upto_prefix(s: Seq<char>, c: char, n: int, m: int)
    requires
        m <= n,
        first_index_upto(s, c, m) is Some,
    ensures
        first_index_upto(s, c, n) == first_index_upto(s, c, m),
    decreases n,
{
    if n > m {
        lemma_first_index_upto_prefix(s, c, n - 1, m);
    }
}

/// Index of the first occurrence of `c` in `s`.
pub open spec fn index_of(s: Seq<char>, c: char) -> Option<int> {
    first_index_upto(s, c, s.len() as int)
}

/// Index of the last occurrence of `c` in `s`.
pub open spec fn last_index_of(s: Seq<char>, c: char) -> Option<int> {
    last_index_upto(s, c, s.len() as int)
}

/// `s` cut at the first `c`: the text before it and the text after it.
pub open spec fn split_once(s: Seq<char>, c: char) -> Option<(Seq<char>, Seq<char>)> {
    match index_of(s, c) {
        Some(i) => Some((s.take(i), s.skip(i + 1))),
        None => None,
    }
}

/// `s` cut at the last `c`: the text before it and the text after it.
pub open spec fn rsplit_once(s: Seq<char>, c: char) -> Option<(Seq<char>, Seq<char>)> {
    match last_index_of(s, c) {
        Some(i) => Some((s.take(i), s.skip(i + 1))),
        None => None,
    }
}

/// All the fields of `s` between occurrences of `c` (there is always one
/// more field than there are separators).
pub open spec fn split_all(s: Seq<char>, c: char) -> Seq<Seq<char>>
    decreases s.len(),
{
    match index_of(s, c) {
        Some(i) => {
            proof {
                lemma_first_index_upto(s, c, s.len() as int);
            }
            seq![s.take(i)] + split_all(s.skip(i + 1), c)
        },
        None => seq![s],
    }
}

/// The fields joined back together with `c` between each two of them.
pub open spec fn join_with(parts: Seq<Seq<char>>, c: char) -> Seq<char>
    decreases parts.len(),
{
    if parts.len() == 0 {
        Seq::empty()
    } else if parts.len() == 1 {
        parts[0]
    } else {
        parts[0] + seq![c] + join_with(parts.drop_first(), c)
    }
}

/// The characters of `s`, one per element.
pub fn chars_of(s: &str) -> (v: Vec<char>)
    ensures
        v@ == s@,
{
    let n = s.unicode_len();
    let mut v: Vec<char> = Vec::new();
    let mut i: usize = 0;
    while i < n
        invariant
            n == s@.len(),
            i <= n,
            v@ == s@.take(i as int),
        decreases n - i,
    {
        let c = s.get_char(i);
        v.push(c);
        i = i + 1;
        assert(v@ =~= s@.take(i as int));
    }
    assert(v@ =~= s@);
    v
}

/// First position at or after `start` holding `c`.
pub fn find_from(v: &Vec<char>, c: char, start: usize) -> (r: Option<usize>)
    requires
        start <= v@.len(),
    ensures
        match r {
            Some(i) => start <= i && index_of(v@.skip(start as int), c) == Some(i - start),
            None => index_of(v@.skip(start as int), c) is None,
        },
{
    let ghost rest = v@.skip(start as int);
    let mut k: usize = start;
    while k < v.len()
        invariant
            start <= k <= v@.len(),
            rest == v@.skip(start as int),
            first_index_upto(rest, c, k - start) is None,
        decreases v@.len() - k,
    {
        assert(rest[k - start] == v@[k as int]);
        if v[k] == c {
            assert(first_index_upto(rest, c, k + 1 - start) == Some(k - start));
            proof {
                lemma_first_index_upto_prefix(rest, c, rest.len() as int, k + 1 - start);
            }
            return Some(k);
        }
        k = k + 1;
    }
    None
}

/// Last position holding `c`.
pub fn rfind(v: &Vec<char>, c: char) -> (r: Option<usize>)
    ensures
        match r {
            Some(i) => last_index_of(v@, c) == Some(i as int),
            None => last_index_of(v@, c) is None,
        },
{
    let mut k: usize = v.len();
    while k > 0
        invariant
            k <= v@.len(),
            last_index_upto(v@, c, v@.len() as int) == last_index_upto(v@, c, k as int),
        decreases k,
    {
        if v[k - 1] == c {
            return Some(k - 1);
        }
        k = k - 1;
    }
    None
}

/// The character sequences of a list of strings.
pub open spec fn string_views(v: Seq<String>) -> Seq<Seq<char>>
    decreases v.len(),
{
    if v.len() == 0 {
        Seq::empty()
    } else {
        string_views(v.drop_last()).push(v.last()@)
    }
}

pub proof fn lemma_string_views(v: Seq<String>)
    ensures
        string_views(v).len() == v.len(),
        forall|i: int| 0 <= i < v.len() ==> #[trigger] string_views(v)[i] == v[i]@,
    decreases v.len(),
{
    if v.len() > 0 {
        lemma_string_views(v.drop_last());
    }
}

/// Splits `s` at every `c`, as `str::split` does.
pub fn split_fields(s: &str, c: char) -> (r: Vec<String>)
    ensures
        string_views(r@) == split_all(s@, c),
{
    let v = chars_of(s);
    let mut parts: Vec<String> = Vec::new();
    let n = v.len();
    let mut start: usize = 0;
    assert(s@.skip(0) =~= s@);
    assert(string_views(parts@) + split_all(s@, c) =~= split_all(s@, c));
    loop
        invariant
            start <= v@.len(),
            n == v@.len(),
            v@ == s@,
            string_views(parts@) + split_all(s@.skip(start as int), c) == split_all(s@, c),
        decreases v@.len() - start,
    {
        let ghost rest = s@.skip(start as int);
        let ghost old_parts = parts@;
        match find_from(&v, c, start) {
            Some(i) => {
                proof {
                    lemma_first_index_upto(rest, c, rest.len() as int);
                }
                assert(rest.len() == v@.len() - start);
                assert(i < v@.len());
                let field = substring(s, start, i);
                assert(field@ =~= rest.take(i - start));
                assert(rest.skip(i - start + 1) =~= s@.skip(i + 1));
                parts.push(field);
                assert(parts@.drop_last() == old_parts);
                assert(string_views(parts@) == string_views(old_parts).push(field@));
                assert(split_all(rest, c) == seq![rest.take(i - start)] + split_all(
                    rest.skip(i - start + 1),
                    c,
                ));
                assert(string_views(parts@) + split_all(s@.skip(i + 1), c) =~= string_views(
                    old_parts,
                ) + split_all(rest, c));
                start = i + 1;
            },
            None => {
                let field = substring(s, start, n);
                assert(field@ =~= rest);
                parts.push(field);
                assert(parts@.drop_last() == old_parts);
                assert(string_views(parts@) =~= string_views(old_parts) + split_all(rest, c));
                return parts;
            },
        }
    }
}

/// Whether two strings hold the same characters.
pub fn str_equal(a: &str, b: &str) -> (r: bool)
    ensures
        r == (a@ == b@),
{
    let n = a.unicode_len();
    if n != b.unicode_len() {
        return false;
    }
    let mut i: usize = 0;
    while i < n
        invariant
            n == a@.len(),
            n == b@.len(),
            i <= n,
            forall|j: int| 0 <= j < i ==> a@[j] == b@[j],
        decreases n - i,
    {
        if a.get_char(i) != b.get_char(i) {
            return false;
        }
        i = i + 1;
    }
    assert(a@ =~= b@);
    true
}

/// The characters `from..to` of `s`, as an owned string.
pub fn substring(s: &str, from: usize, to: usize) -> (r: String)
    requires
        from <= to <= s@.len(),
    ensures
        r@ == s@.subrange(from as int, to as int),
{
    s.substring_char(from, to).to_owned()
}

} // verus!
