//! Small string routines over the character view of a string.
//!
//! Every routine is stated over `Seq<char>`, the view of `str` and `String`,
//! so that the contracts of the rest of the crate can speak about names,
//! triples and lists of names as plain sequences.

use vstd::prelude::*;
use vstd::string::StringExecFns;

verus! {

/// The character content of each string of a sequence of strings.
pub open spec fn texts(v: Seq<String>) -> Seq<Seq<char>> {
    v.map_values(|s: String| s@)
}

/// Whether `prefix` is an initial segment of `s`.
pub open spec fn has_prefix(s: Seq<char>, prefix: Seq<char>) -> bool {
    prefix.len() <= s.len() && s.subrange(0, prefix.len() as int) == prefix
}

/// Whether `suffix` is a final segment of `s`.
pub open spec fn has_suffix(s: Seq<char>, suffix: Seq<char>) -> bool {
    suffix.len() <= s.len() && s.subrange(s.len() - suffix.len(), s.len() as int) == suffix
}

/// The position of the first occurrence of `sep` in `s`, or the length of
/// `s` if `sep` does not occur.
pub open spec fn first_index(s: Seq<char>, sep: char) -> int
    decreases s.len(),
{
    if s.len() == 0 || s[0] == sep {
        0
    } else {
        1 + first_index(s.skip(1), sep)
    }
}

/// The fields of `s` between the occurrences of `sep`: always at least one
/// field, and one more than there are separators.
pub open spec fn split_seq(s: Seq<char>, sep: char) -> Seq<Seq<char>>
    decreases s.len(),
{
    let i = first_index(s, sep);
    if 0 <= i < s.len() {
        seq![s.take(i)] + split_seq(s.skip(i + 1), sep)
    } else {
        seq![s]
    }
}

/// The fields put together again, with `sep` between them.
pub open spec fn joined_with(fields: Seq<Seq<char>>, sep: char) -> Seq<char>
    decreases fields.len(),
{
    if fields.len() == 0 {
        Seq::empty()
    } else if fields.len() == 1 {
        fields[0]
    } else {
        fields[0] + seq![sep] + joined_with(fields.drop_first(), sep)
    }
}

/// `first_index` is within bounds, nothing before it is the separator, and
/// it points at a separator unless it is the length.
pub proof fn lemma_first_index(s: Seq<char>, sep: char)
    ensures
        0 <= first_index(s, sep) <= s.len(),
        forall|j: int| 0 <= j < first_index(s, sep) ==> s[j] != sep,
        first_index(s, sep) < s.len() ==> s[first_index(s, sep)] == sep,
    decreases s.len(),
{
    if s.len() == 0 || s[0] == sep {
    } else {
        lemma_first_index(s.skip(1), sep);
        assert forall|j: int| 0 <= j < first_index(s, sep) implies s[j] != sep by {
            if j > 0 {
                assert(s[j] == s.skip(1)[j - 1]);
            }
        }
    }
}

/// A position with no separator before it, which is the end or holds a
/// separator, is the first index.
pub proof fn lemma_first_index_is(s: Seq<char>, sep: char, k: int)
    requires
        0 <= k <= s.len(),
        forall|j: int| 0 <= j < k ==> s[j] != sep,
        k < s.len() ==> s[k] == sep,
    ensures
        first_index(s, sep) == k,
{
    lemma_first_index(s, sep);
}

/// Splitting loses nothing: there is at least one field, no field holds
/// the separator, and the fields with the separator between them are the
/// text that was split.
pub proof fn law_split_is_exact(s: Seq<char>, sep: char)
    ensures
        split_seq(s, sep).len() >= 1,
        forall|k: int, j: int|
            0 <= k < split_seq(s, sep).len() && 0 <= j < split_seq(s, sep)[k].len() ==> (
            #[trigger] split_seq(s, sep)[k][j]) != sep,
        joined_with(split_seq(s, sep), sep) == s,
    decreases s.len(),
{
    lemma_first_index(s, sep);
    let i = first_index(s, sep);
    if 0 <= i < s.len() {
        let rest = s.skip(i + 1);
        let fields = split_seq(s, sep);
        law_split_is_exact(rest, sep);
        assert(fields == seq![s.take(i)] + split_seq(rest, sep));
        assert(fields.drop_first() =~= split_seq(rest, sep));
        assert(fields[0] == s.take(i));
        assert(s.take(i) + seq![sep] + rest =~= s);
        assert forall|k: int, j: int|
            0 <= k < fields.len() && 0 <= j < fields[k].len() implies (#[trigger] fields[k][j])
            != sep by {
            if k > 0 {
                assert(fields[k] == split_seq(rest, sep)[k - 1]);
            }
        }
    } else {
        assert(split_seq(s, sep) == seq![s]);
    }
}

/// The characters of a string, in order.
pub fn chars_of(s: &str) -> (chars: Vec<char>)
    ensures
        chars@ == s@,
{
    let n: usize = s.unicode_len();
    let mut chars: Vec<char> = Vec::new();
    let mut i: usize = 0;
    while i < n
        invariant
            n == s@.len(),
            i <= n,
            chars@ == s@.take(i as int),
        decreases n - i,
    {
        chars.push(s.get_char(i));
        i += 1;
    }
    chars
}

/// Whether two strings hold the same characters.
pub fn text_eq(a: &str, b: &str) -> (same: bool)
    ensures
        same == (a@ == b@),
{
    String::from_str(a) == String::from_str(b)
}

/// Whether `s` begins with `prefix`.
pub fn starts_with(s: &str, prefix: &str) -> (found: bool)
    ensures
        found == has_prefix(s@, prefix@),
{
    let n: usize = s.unicode_len();
    let m: usize = prefix.unicode_len();
    if m > n {
        return false;
    }
    text_eq(s.substring_char(0, m), prefix)
}

/// Whether `s` ends with `suffix`.
pub fn ends_with(s: &str, suffix: &str) -> (found: bool)
    ensures
        found == has_suffix(s@, suffix@),
{
    let n: usize = s.unicode_len();
    let m: usize = suffix.unicode_len();
    if m > n {
        return false;
    }
    text_eq(s.substring_char(n - m, n), suffix)
}

/// `a` followed by `b`.
pub fn append(a: &str, b: &str) -> (joined: String)
    ensures
        joined@ == a@ + b@,
{
    String::from_str(a).concat(b)
}

/// Adds a copy of `s` at the end of `list`.
pub fn push_text(list: &mut Vec<String>, s: &str)
    ensures
        texts(final(list)@) == texts(old(list)@).push(s@),
{
    let ghost before = list@;
    let owned = String::from_str(s);
    list.push(owned);
    assert(texts(before.push(owned)) == texts(before).push(owned@));
}

/// Adds copies of all of `more` at the end of `list`.
pub fn push_texts(list: &mut Vec<String>, more: &Vec<String>)
    ensures
        texts(final(list)@) == texts(old(list)@) + texts(more@),
{
    let mut k: usize = 0;
    assert(texts(more@).take(0) == Seq::<Seq<char>>::empty());
    while k < more.len()
        invariant
            k <= more.len(),
            texts(list@) == texts(old(list)@) + texts(more@).take(k as int),
        decreases more.len() - k,
    {
        push_text(list, more[k].as_str());
        assert(texts(more@).take(k + 1) == texts(more@).take(k as int).push(more@[k as int]@));
        k += 1;
    }
    assert(texts(more@).take(more.len() as int) == texts(more@));
}

/// The fields of `s` between the occurrences of `sep`.
pub fn split(s: &str, sep: char) -> (fields: Vec<String>)
    ensures
        texts(fields@) == split_seq(s@, sep),
{
    let chars = chars_of(s);
    let n: usize = chars.len();
    let mut fields: Vec<String> = Vec::new();
    let mut start: usize = 0;
    let mut i: usize = 0;
    assert(s@.skip(0) == s@);
    while i < n
        invariant
            chars@ == s@,
            n == s@.len(),
            start <= i <= n,
            forall|j: int| start <= j < i ==> s@[j] != sep,
            split_seq(s@, sep) == texts(fields@) + split_seq(s@.skip(start as int), sep),
        decreases n - i,
    {
        if chars[i] == sep {
            let field = String::from_str(s.substring_char(start, i));
            proof {
                let rest = s@.skip(start as int);
                lemma_first_index_is(rest, sep, i - start);
                assert(rest.take(i - start) == s@.subrange(start as int, i as int));
                assert(rest.skip(i - start + 1) == s@.skip(i + 1));
                assert(texts(fields@.push(field)) == texts(fields@).push(field@));
                assert(texts(fields@).push(field@) + split_seq(s@.skip(i + 1), sep) == texts(
                    fields@,
                ) + (seq![field@] + split_seq(s@.skip(i + 1), sep)));
            }
            fields.push(field);
            start = i + 1;
        }
        i += 1;
    }
    let last = String::from_str(s.substring_char(start, n));
    proof {
        let rest = s@.skip(start as int);
        lemma_first_index_is(rest, sep, n - start);
        assert(rest == s@.subrange(start as int, n as int));
        assert(texts(fields@.push(last)) == texts(fields@).push(last@));
        assert(texts(fields@).push(last@) == texts(fields@) + seq![last@]);
    }
    fields.push(last);
    fields
}

} // verus!
