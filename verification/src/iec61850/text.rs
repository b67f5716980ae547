//! Strings: what the standard library does when it splits and joins them,
//! and what follows from it.

use vstd::prelude::*;
use vstd::string::StrSliceExecFns;

verus! {

/// The place of the first occurrence of a character in a string, or the
/// length of the string if the character does not stand in it.
pub open spec fn spec_first(text: Seq<char>, c: char) -> int
    decreases text.len(),
{
    if text.len() == 0 {
        0
    } else if text[0] == c {
        0
    } else {
        1 + spec_first(text.drop_first(), c)
    }
}

/// The substrings of a string between the occurrences of a separator: the
/// part before the first occurrence, and the parts of what follows it. A
/// string without the separator is its own and only part.
pub open spec fn spec_split(text: Seq<char>, separator: char) -> Seq<Seq<char>>
    decreases text.len(),
{
    if spec_first(text, separator) >= text.len() || spec_first(text, separator) < 0 {
        seq![text]
    } else {
        seq![text.take(spec_first(text, separator))] + spec_split(
            text.skip(spec_first(text, separator) + 1),
            separator,
        )
    }
}

/// The characters of strings joined with a separator between each two.
pub open spec fn spec_join(parts: Seq<Seq<char>>, separator: char) -> Seq<char>
    decreases parts.len(),
{
    if parts.len() == 0 {
        Seq::empty()
    } else if parts.len() == 1 {
        parts[0]
    } else {
        parts[0] + seq![separator] + spec_join(parts.drop_first(), separator)
    }
}

/// The characters of strings one after the other.
pub open spec fn spec_concat(parts: Seq<Seq<char>>) -> Seq<char>
    decreases parts.len(),
{
    if parts.len() == 0 {
        Seq::empty()
    } else {
        parts[0] + spec_concat(parts.drop_first())
    }
}

/// The characters of each string of a sequence.
pub open spec fn spec_views(parts: Seq<&str>) -> Seq<Seq<char>> {
    parts.map_values(|p: &str| p@)
}

/// Calls `concat` on a slice of strings. The contract restates the
/// documentation: the result holds the strings one after the other.
#[verifier::external_body]
pub(crate) fn concat_str(parts: &[&str]) -> (res: String)
    ensures
        res@ == spec_concat(spec_views(parts@)),
{
    parts.concat()
}

/// The first occurrence lies within the string or at its end, and nothing
/// before it is the character.
pub proof fn lemma_first(text: Seq<char>, c: char)
    ensures
        0 <= spec_first(text, c) <= text.len(),
        spec_first(text, c) < text.len() ==> text[spec_first(text, c)] == c,
        !text.take(spec_first(text, c)).contains(c),
        spec_first(text, c) == text.len() <==> !text.contains(c),
    decreases text.len(),
{
    if text.len() > 0 && text[0] != c {
        let tail = text.drop_first();
        lemma_first(tail, c);
        let i = spec_first(text, c);
        assert forall|j: int| 0 <= j < i implies text.take(i)[j] != c by {
            if j > 0 {
                assert(text.take(i)[j] == tail.take(i - 1)[j - 1]);
            }
        }
        if tail.contains(c) {
            let k = choose|k: int| 0 <= k < tail.len() && tail[k] == c;
            assert(text[k + 1] == c);
        }
        if text.contains(c) {
            let k = choose|k: int| 0 <= k < text.len() && text[k] == c;
            assert(tail[k - 1] == c);
        }
    } else if text.len() > 0 {
        assert(text.take(0) =~= Seq::<char>::empty());
        assert(text[0] == c);
    } else {
        assert(text.take(0) =~= Seq::<char>::empty());
    }
}

/// Splitting and joining: the parts of a string are at least one, none of
/// them holds the separator, and joined with it they give the string back.
pub proof fn lemma_split_join(text: Seq<char>, separator: char)
    ensures
        spec_split(text, separator).len() >= 1,
        spec_join(spec_split(text, separator), separator) == text,
        forall|i: int|
            0 <= i < spec_split(text, separator).len() ==> !(#[trigger] spec_split(
                text,
                separator,
            )[i]).contains(separator),
        spec_split(text, separator).len() == 1 <==> !text.contains(separator),
    decreases text.len(),
{
    lemma_first(text, separator);
    let first = spec_first(text, separator);
    let parts = spec_split(text, separator);
    if first < text.len() {
        let rest = text.skip(first + 1);
        let tail = spec_split(rest, separator);
        lemma_split_join(rest, separator);
        assert(parts.drop_first() =~= tail);
        assert(text =~= text.take(first) + seq![separator] + rest);
        assert forall|i: int| 0 <= i < parts.len() implies !(#[trigger] parts[i]).contains(
            separator,
        ) by {
            if i > 0 {
                assert(parts[i] == tail[i - 1]);
            }
        }
    } else {
        assert(text.take(text.len() as int) =~= text);
    }
}

/// A string with a separator between two strings that do not hold it
/// splits into these two.
pub proof fn lemma_split_two(a: Seq<char>, b: Seq<char>, separator: char)
    requires
        !a.contains(separator),
        !b.contains(separator),
    ensures
        spec_split(a + seq![separator] + b, separator) == seq![a, b],
{
    let text = a + seq![separator] + b;
    lemma_first(text, separator);
    lemma_first(b, separator);
    let first = spec_first(text, separator);
    assert(text[a.len() as int] == separator);
    if first < a.len() {
        assert(text[first] == a[first]);
    }
    if first > a.len() {
        assert(text.take(first)[a.len() as int] == separator);
    }
    assert(first == a.len());
    assert(text.take(first) =~= a);
    assert(text.skip(first + 1) =~= b);
    assert(spec_split(b, separator) =~= seq![b]);
}

/// Finds the first occurrence of a character in a string, counted in
/// characters. Without an occurrence the length of the string comes back.
pub fn find_char(text: &str, c: char) -> (res: usize)
    ensures
        res == spec_first(text@, c),
        res <= text@.len(),
{
    let n: usize = text.unicode_len();
    let mut i: usize = 0;
    assert(text@.skip(0) == text@);
    while i < n
        invariant
            n == text@.len(),
            i <= n,
            spec_first(text@, c) == i + spec_first(text@.skip(i as int), c),
        decreases n - i,
    {
        let ghost rest = text@.skip(i as int);
        assert(rest[0] == text@[i as int]);
        if text.get_char(i) == c {
            return i;
        }
        assert(rest.drop_first() == text@.skip(i + 1));
        i = i + 1;
    }
    i
}

/// Splits a string at the first occurrence of a character: what stands
/// before it and what stands after it. Without an occurrence there is
/// nothing to split.
pub fn split_once(text: &str, c: char) -> (res: Option<(&str, &str)>)
    ensures
        match res {
            Some((before, after)) => {
                &&& spec_first(text@, c) < text@.len()
                &&& before@ == text@.take(spec_first(text@, c))
                &&& after@ == text@.skip(spec_first(text@, c) + 1)
            },
            None => spec_first(text@, c) == text@.len(),
        },
{
    let n: usize = text.unicode_len();
    let at: usize = find_char(text, c);
    if at >= n {
        return None;
    }
    let before: &str = text.substring_char(0, at);
    let after: &str = text.substring_char(at + 1, n);
    assert(text@.subrange(0, at as int) == text@.take(at as int));
    assert(text@.subrange(at + 1, n as int) == text@.skip(at + 1));
    Some((before, after))
}

/// Whether two strings hold the same characters.
pub fn str_eq(a: &str, b: &str) -> (res: bool)
    ensures
        res == (a@ == b@),
{
    let n: usize = a.unicode_len();
    if n != b.unicode_len() {
        return false;
    }
    let mut i: usize = 0;
    while i < n
        invariant
            n == a@.len(),
            n == b@.len(),
            i <= n,
            a@.take(i as int) == b@.take(i as int),
        decreases n - i,
    {
        if a.get_char(i) != b.get_char(i) {
            return false;
        }
        assert(a@.take(i + 1) == a@.take(i as int).push(a@[i as int]));
        assert(b@.take(i + 1) == b@.take(i as int).push(b@[i as int]));
        i = i + 1;
    }
    assert(a@.take(n as int) == a@);
    assert(b@.take(n as int) == b@);
    true
}

/// Whether a character stands in a string directly before another.
pub open spec fn spec_contains_pair(text: Seq<char>, first: char, second: char) -> bool {
    exists|i: int| 0 <= i < text.len() - 1 && #[trigger] text[i] == first && text[i + 1] == second
}

/// Whether a character stands in a string directly before another.
pub fn contains_pair(text: &str, first: char, second: char) -> (res: bool)
    ensures
        res == spec_contains_pair(text@, first, second),
{
    let n: usize = text.unicode_len();
    if n < 2 {
        return false;
    }
    let mut i: usize = 0;
    while i < n - 1
        invariant
            n == text@.len(),
            n >= 2,
            i <= n - 1,
            forall|j: int| 0 <= j < i ==> !(#[trigger] text@[j] == first && text@[j + 1] == second),
        decreases n - i,
    {
        if text.get_char(i) == first && text.get_char(i + 1) == second {
            return true;
        }
        i = i + 1;
    }
    false
}

} // verus!
