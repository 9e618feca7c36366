//! Splitting and joining of character sequences.
//!
//! Animations are written as plain text: lines separated by a newline,
//! frames separated by a run of three newlines. The functions here cut
//! such text into pieces and put pieces together again.

use vstd::prelude::*;
use vstd::string::{StrSliceExecFns, StringExecFns};

verus! {

/// `pat` occurs in `s` with its first character at index `i`.
pub open spec fn occurs_at(s: Seq<char>, pat: Seq<char>, i: int) -> bool {
    &&& 0 <= i
    &&& i + pat.len() <= s.len()
    &&& s.subrange(i, i + pat.len()) == pat
}

/// `i` is the index of the leftmost occurrence of `pat` in `s`.
pub open spec fn is_first_occurrence(s: Seq<char>, pat: Seq<char>, i: int) -> bool {
    &&& occurs_at(s, pat, i)
    &&& forall|j: int| 0 <= j < i ==> !occurs_at(s, pat, j)
}

/// The index of the leftmost occurrence of `pat` in `s`, if there is one.
pub open spec fn first_occurrence(s: Seq<char>, pat: Seq<char>) -> Option<int> {
    if exists|i: int| is_first_occurrence(s, pat, i) {
        Some(choose|i: int| is_first_occurrence(s, pat, i))
    } else {
        None
    }
}

/// The pieces of `s` between the occurrences of `sep`, found from left to
/// right without overlap. There is always at least one piece; a text that
/// does not hold `sep` is its own single piece, and so is any text when
/// `sep` is empty.
pub open spec fn split(s: Seq<char>, sep: Seq<char>) -> Seq<Seq<char>>
    decreases s.len(),
{
    match first_occurrence(s, sep) {
        Some(i) if sep.len() > 0 => seq![s.take(i)] + split(s.skip(i + sep.len()), sep),
        _ => seq![s],
    }
}

/// The pieces put together again, with `sep` between each two.
pub open spec fn join(pieces: Seq<Seq<char>>, sep: Seq<char>) -> Seq<char>
    decreases pieces.len(),
{
    if pieces.len() == 0 {
        Seq::empty()
    } else if pieces.len() == 1 {
        pieces[0]
    } else {
        join(pieces.drop_last(), sep) + sep + pieces.last()
    }
}

/// The lines of `left`, each with the line of `right` at the same index
/// appended. Where one has more lines than the other, those lines are
/// left out.
pub open spec fn zip_concat(left: Seq<Seq<char>>, right: Seq<Seq<char>>) -> Seq<Seq<char>> {
    Seq::new(
        if left.len() <= right.len() {
            left.len()
        } else {
            right.len()
        },
        |i: int| left[i] + right[i],
    )
}

/// The character sequences held by a list of string slices.
pub open spec fn slice_views(pieces: Seq<&str>) -> Seq<Seq<char>> {
    pieces.map_values(|piece: &str| piece@)
}

/// The character sequences held by a list of strings.
pub open spec fn views(pieces: Seq<String>) -> Seq<Seq<char>> {
    pieces.map_values(|piece: String| piece@)
}

/// A leftmost occurrence is the one that `first_occurrence` reports.
pub proof fn lemma_first_occurrence_is(s: Seq<char>, pat: Seq<char>, i: int)
    requires
        is_first_occurrence(s, pat, i),
    ensures
        first_occurrence(s, pat) == Some(i),
{
}

/// Without any occurrence there is no first one.
pub proof fn lemma_first_occurrence_none(s: Seq<char>, pat: Seq<char>)
    requires
        forall|j: int| !occurs_at(s, pat, j),
    ensures
        first_occurrence(s, pat) is None,
{
}

/// An occurrence in a suffix of `s` is an occurrence in `s`, shifted by
/// what was skipped, and the other way round.
pub proof fn lemma_occurs_at_skip(s: Seq<char>, pat: Seq<char>, k: int, j: int)
    requires
        0 <= k <= s.len(),
        0 <= j,
    ensures
        occurs_at(s.skip(k), pat, j) <==> occurs_at(s, pat, k + j),
{
    if j + pat.len() <= s.len() - k {
        assert(s.skip(k).subrange(j, j + pat.len()) =~= s.subrange(k + j, k + j + pat.len()));
    }
}

/// Where `pat` occurs at all, it has a leftmost occurrence, and that
/// is what `first_occurrence` reports.
pub proof fn lemma_first_occurrence_some(s: Seq<char>, pat: Seq<char>, j: int)
    requires
        occurs_at(s, pat, j),
    ensures
        first_occurrence(s, pat) matches Some(i) && i <= j && is_first_occurrence(s, pat, i),
    decreases j,
{
    if exists|k: int| 0 <= k < j && occurs_at(s, pat, k) {
        let k = choose|k: int| 0 <= k < j && occurs_at(s, pat, k);
        lemma_first_occurrence_some(s, pat, k);
    } else {
        lemma_first_occurrence_is(s, pat, j);
    }
}

/// A text splits into at least one piece.
pub proof fn lemma_split_nonempty(s: Seq<char>, sep: Seq<char>)
    ensures
        split(s, sep).len() >= 1,
{
}

/// No piece of a split text holds the separator: the separators are
/// used up by the split.
pub proof fn lemma_split_uses_up_separators(s: Seq<char>, sep: Seq<char>)
    requires
        sep.len() > 0,
    ensures
        forall|k: int, j: int|
            0 <= k < split(s, sep).len() ==> !#[trigger] occurs_at(split(s, sep)[k], sep, j),
    decreases s.len(),
{
    let pieces = split(s, sep);
    match first_occurrence(s, sep) {
        Some(i) => {
            let rest = s.skip(i + sep.len());
            lemma_split_uses_up_separators(rest, sep);
            assert forall|k: int, j: int| 0 <= k < pieces.len() implies !#[trigger] occurs_at(
                pieces[k],
                sep,
                j,
            ) by {
                if k == 0 {
                    if occurs_at(s.take(i), sep, j) {
                        assert(s.take(i).subrange(j, j + sep.len()) =~= s.subrange(
                            j,
                            j + sep.len(),
                        ));
                        assert(occurs_at(s, sep, j));
                    }
                } else {
                    assert(pieces[k] == split(rest, sep)[k - 1]);
                }
            }
        },
        None => {
            assert forall|k: int, j: int| 0 <= k < pieces.len() implies !#[trigger] occurs_at(
                pieces[k],
                sep,
                j,
            ) by {
                if occurs_at(s, sep, j) {
                    lemma_first_occurrence_some(s, sep, j);
                }
            }
        },
    }
}

/// Joining with a piece in front: the piece, the separator, and the
/// others joined.
pub proof fn lemma_join_prepend(first: Seq<char>, others: Seq<Seq<char>>, sep: Seq<char>)
    requires
        others.len() >= 1,
    ensures
        join(seq![first] + others, sep) == first + sep + join(others, sep),
    decreases others.len(),
{
    let all = seq![first] + others;
    assert(all.drop_last() =~= seq![first] + others.drop_last());
    if others.len() == 1 {
        assert(join(all.drop_last(), sep) == first);
    } else {
        lemma_join_prepend(first, others.drop_last(), sep);
    }
}

/// Splitting a text and joining the pieces with the same separator
/// gives the text back.
pub proof fn lemma_join_undoes_split(s: Seq<char>, sep: Seq<char>)
    ensures
        join(split(s, sep), sep) == s,
    decreases s.len(),
{
    match first_occurrence(s, sep) {
        Some(i) => {
            if sep.len() > 0 {
                let rest = s.skip(i + sep.len());
                lemma_join_undoes_split(rest, sep);
                lemma_split_nonempty(rest, sep);
                lemma_join_prepend(s.take(i), split(rest, sep), sep);
                assert(s.take(i) + sep + rest =~= s);
            }
        },
        None => {},
    }
}

/// The characters of `text`, one element per character.
pub fn chars_of(text: &str) -> (out: Vec<char>)
    ensures
        out@ == text@,
{
    let mut out: Vec<char> = Vec::new();
    for c in it: text.chars()
        invariant
            it.seq() == text@,
            out@ == text@.take(it.index() as int),
    {
        out.push(c);
    }
    out
}

/// Whether `pat` occurs in `s` at index `i`.
fn matches_at(s: &Vec<char>, pat: &Vec<char>, i: usize) -> (found: bool)
    requires
        i + pat.len() <= s.len(),
    ensures
        found == occurs_at(s@, pat@, i as int),
{
    let m = pat.len();
    let mut k: usize = 0;
    while k < m
        invariant
            m == pat.len(),
            i + m <= s.len(),
            k <= m,
            forall|l: int| 0 <= l < k ==> s@[i + l] == pat@[l],
        decreases m - k,
    {
        if s[i + k] != pat[k] {
            return false;
        }
        k += 1;
    }
    assert(s@.subrange(i as int, i + m) =~= pat@);
    true
}

/// Cuts `text` at every occurrence of `sep`, from left to right and
/// without overlap. An empty `sep` cuts nowhere.
pub fn split_text(text: &str, sep: &str) -> (pieces: Vec<String>)
    ensures
        views(pieces@) == split(text@, sep@),
{
    let cs = chars_of(text);
    let ps = chars_of(sep);
    let n = cs.len();
    let m = ps.len();
    let mut pieces: Vec<String> = Vec::new();
    let mut start: usize = 0;
    let mut i: usize = 0;
    assert(cs@.skip(0) =~= cs@);
    while 0 < m && m <= n && i <= n - m
        invariant
            cs@ == text@,
            ps@ == sep@,
            n == cs@.len(),
            m == ps@.len(),
            start <= i <= n,
            forall|j: int| start <= j < i ==> !occurs_at(cs@, ps@, j),
            split(cs@, ps@) == views(pieces@) + split(cs@.skip(start as int), ps@),
        decreases n - i,
    {
        if matches_at(&cs, &ps, i) {
            let piece = text.substring_char(start, i).to_owned();
            proof {
                let rest = cs@.skip(start as int);
                assert forall|j: int| 0 <= j < i - start implies !occurs_at(rest, ps@, j) by {
                    lemma_occurs_at_skip(cs@, ps@, start as int, j);
                }
                lemma_occurs_at_skip(cs@, ps@, start as int, i - start);
                lemma_first_occurrence_is(rest, ps@, i - start);
                assert(rest.take(i - start) =~= piece@);
                assert(rest.skip(i - start + m) =~= cs@.skip(i + m));
            }
            pieces.push(piece);
            start = i + m;
            i = start;
        } else {
            i += 1;
        }
    }
    let last = text.substring_char(start, n).to_owned();
    proof {
        let rest = cs@.skip(start as int);
        if 0 < m {
            assert forall|j: int| !occurs_at(rest, ps@, j) by {
                if 0 <= j {
                    lemma_occurs_at_skip(cs@, ps@, start as int, j);
                }
            }
            lemma_first_occurrence_none(rest, ps@);
        }
    }
    pieces.push(last);
    pieces
}

/// Puts `pieces` together, with `sep` between each two.
pub fn join_text(pieces: &Vec<String>, sep: &str) -> (text: String)
    ensures
        text@ == join(views(pieces@), sep@),
{
    let mut text = String::new();
    let mut i: usize = 0;
    let ghost all = views(pieces@);
    while i < pieces.len()
        invariant
            i <= pieces.len(),
            all == views(pieces@),
            text@ == join(all.take(i as int), sep@),
        decreases pieces.len() - i,
    {
        proof {
            let upto = all.take(i + 1);
            assert(upto.drop_last() =~= all.take(i as int));
        }
        if i > 0 {
            text.append(sep);
        }
        text.append(pieces[i].as_str());
        i += 1;
    }
    assert(all.take(i as int) =~= all);
    text
}

/// Appends to each line of `left` the line of `right` at the same
/// index, as far as both have lines.
pub fn zip_lines(left: &Vec<String>, right: &Vec<String>) -> (lines: Vec<String>)
    ensures
        views(lines@) == zip_concat(views(left@), views(right@)),
{
    let count = if left.len() <= right.len() {
        left.len()
    } else {
        right.len()
    };
    let mut lines: Vec<String> = Vec::new();
    let mut i: usize = 0;
    while i < count
        invariant
            i <= count,
            count <= left.len(),
            count <= right.len(),
            lines@.len() == i,
            forall|k: int| 0 <= k < i ==> (#[trigger] lines@[k])@ == left@[k]@ + right@[k]@,
        decreases count - i,
    {
        let mut line = left[i].clone();
        line.append(right[i].as_str());
        lines.push(line);
        i += 1;
    }
    lines
}

/// Copies string slices into strings of their own.
pub fn to_strings(pieces: &[&str]) -> (owned: Vec<String>)
    ensures
        views(owned@) == slice_views(pieces@),
{
    let mut owned: Vec<String> = Vec::new();
    let mut i: usize = 0;
    while i < pieces.len()
        invariant
            i <= pieces.len(),
            owned@.len() == i,
            forall|k: int| 0 <= k < i ==> (#[trigger] owned@[k])@ == pieces@[k]@,
        decreases pieces.len() - i,
    {
        owned.push(String::from_str(pieces[i]));
        i += 1;
    }
    owned
}

/// Whether `text` ends with `suffix`.
pub fn ends_with(text: &str, suffix: &str) -> (yes: bool)
    ensures
        yes == suffix@.is_suffix_of(text@),
{
    let cs = chars_of(text);
    let ps = chars_of(suffix);
    if ps.len() > cs.len() {
        return false;
    }
    matches_at(&cs, &ps, cs.len() - ps.len())
}

} // verus!
