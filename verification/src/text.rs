//! Character-level helpers on strings: conversion to characters, substring
//! search, splitting on a delimiter and joining with a separator.

use vstd::prelude::*;
use vstd::string::*;

verus! {

/// `needle` stands in `hay` at position `at`.
pub open spec fn occurs_at(hay: Seq<char>, needle: Seq<char>, at: int) -> bool {
    &&& 0 <= at
    &&& at + needle.len() <= hay.len()
    &&& hay.subrange(at, at + needle.len()) == needle
}

/// `needle` stands somewhere in `hay`; the empty text stands in every text.
pub open spec fn contains(hay: Seq<char>, needle: Seq<char>) -> bool {
    exists|at: int| occurs_at(hay, needle, at)
}

/// `s` begins with `prefix`.
pub open spec fn starts_with(s: Seq<char>, prefix: Seq<char>) -> bool {
    occurs_at(s, prefix, 0)
}

/// `s` ends with `suffix`.
pub open spec fn ends_with(s: Seq<char>, suffix: Seq<char>) -> bool {
    occurs_at(s, suffix, s.len() - suffix.len())
}

/// The pieces of `s` between occurrences of `sep`, in order. There is always
/// at least one piece: a text without `sep` is its own single piece, and a
/// text that ends with `sep` has an empty last piece.
pub open spec fn split(s: Seq<char>, sep: char) -> Seq<Seq<char>>
    decreases s.len(),
{
    if s.len() == 0 {
        seq![Seq::<char>::empty()]
    } else {
        let before = split(s.drop_last(), sep);
        if s.last() == sep {
            before.push(Seq::<char>::empty())
        } else {
            before.drop_last().push(before.last().push(s.last()))
        }
    }
}

/// The pieces written one after another with `sep` between neighbours.
pub open spec fn join(pieces: Seq<Seq<char>>, sep: Seq<char>) -> Seq<char>
    decreases pieces.len(),
{
    if pieces.len() == 0 {
        Seq::<char>::empty()
    } else if pieces.len() == 1 {
        pieces[0]
    } else {
        join(pieces.drop_last(), sep) + sep + pieces.last()
    }
}

/// A line without the carriage return that preceded its line feed.
pub open spec fn strip_cr(line: Seq<char>) -> Seq<char> {
    if line.len() > 0 && line.last() == '\r' {
        line.drop_last()
    } else {
        line
    }
}

/// The lines of `s`. A line ends at a line feed, or at a carriage return
/// directly followed by one; the terminator is not part of the line. What
/// follows the last line feed is a line only if it is not empty, and keeps a
/// carriage return at its end.
pub open spec fn lines(s: Seq<char>) -> Seq<Seq<char>> {
    let pieces = split(s, '\n');
    let terminated = Seq::new((pieces.len() - 1) as nat, |i: int| strip_cr(pieces[i]));
    if pieces.last().len() == 0 {
        terminated
    } else {
        terminated.push(pieces.last())
    }
}

/// The texts that a sequence of strings holds.
pub open spec fn texts(items: Seq<String>) -> Seq<Seq<char>> {
    Seq::new(items.len(), |i: int| items[i]@)
}

/// No piece holds `sep`.
pub open spec fn free_of(pieces: Seq<Seq<char>>, sep: char) -> bool {
    forall|i: int| 0 <= i < pieces.len() ==> !(#[trigger] pieces[i]).contains(sep)
}

/// Splitting always gives at least one piece.
pub proof fn lemma_split_nonempty(s: Seq<char>, sep: char)
    ensures
        split(s, sep).len() >= 1,
    decreases s.len(),
{
    if s.len() > 0 {
        lemma_split_nonempty(s.drop_last(), sep);
    }
}

/// No piece of a split holds the delimiter.
pub proof fn lemma_split_free_of(s: Seq<char>, sep: char)
    ensures
        free_of(split(s, sep), sep),
    decreases s.len(),
{
    if s.len() > 0 {
        let before = split(s.drop_last(), sep);
        lemma_split_free_of(s.drop_last(), sep);
        lemma_split_nonempty(s.drop_last(), sep);
        let after = split(s, sep);
        assert forall|i: int| 0 <= i < after.len() implies !(#[trigger] after[i]).contains(
            sep,
        ) by {
            if i < before.len() - 1 {
                assert(after[i] == before[i]);
            } else if s.last() == sep {
                if i == before.len() - 1 {
                    assert(after[i] == before[i]);
                }
            } else {
                let grown = before.last().push(s.last());
                assert(after[i] == grown);
                assert(!before[before.len() - 1].contains(sep));
                if grown.contains(sep) {
                    let k = choose|k: int| 0 <= k < grown.len() && grown[k] == sep;
                    assert(k < before.last().len());
                    assert(before.last()[k] == sep);
                }
            }
        }
    }
}

/// Joining the pieces of a split with the delimiter gives the text back.
pub proof fn lemma_join_split(s: Seq<char>, sep: char)
    ensures
        join(split(s, sep), seq![sep]) == s,
    decreases s.len(),
{
    if s.len() == 0 {
        assert(join(seq![Seq::<char>::empty()], seq![sep]) =~= s);
    } else {
        let rest = s.drop_last();
        let before = split(rest, sep);
        lemma_join_split(rest, sep);
        lemma_split_nonempty(rest, sep);
        if s.last() == sep {
            let after = before.push(Seq::<char>::empty());
            assert(after.drop_last() =~= before);
            assert(join(after, seq![sep]) =~= s);
        } else {
            let after = before.drop_last().push(before.last().push(s.last()));
            assert(after.drop_last() =~= before.drop_last());
            assert(rest.push(s.last()) =~= s);
            if before.len() == 1 {
                assert(join(before, seq![sep]) == before[0]);
                assert(after[0] == before[0].push(s.last()));
                assert(join(after, seq![sep]) == after[0]);
            } else {
                assert(join(before, seq![sep]) == join(before.drop_last(), seq![sep]) + seq![sep]
                    + before.last());
                assert(join(after, seq![sep]) =~= s);
            }
        }
    }
}

/// A text without the delimiter is its own single piece.
pub proof fn lemma_split_single(s: Seq<char>, sep: char)
    requires
        !s.contains(sep),
    ensures
        split(s, sep) == seq![s],
    decreases s.len(),
{
    if s.len() == 0 {
        assert(s =~= Seq::<char>::empty());
    } else {
        let rest = s.drop_last();
        assert(s[s.len() - 1] == s.last());
        assert forall|k: int| 0 <= k < rest.len() implies rest[k] != sep by {
            assert(s[k] == rest[k]);
        }
        lemma_split_single(rest, sep);
        assert(rest.push(s.last()) =~= s);
        assert(split(s, sep) =~= seq![s]);
    }
}

/// Splitting a text around one delimiter splits each side on its own.
pub proof fn lemma_split_around(a: Seq<char>, b: Seq<char>, sep: char)
    ensures
        split(a + seq![sep] + b, sep) == split(a, sep) + split(b, sep),
    decreases b.len(),
{
    let whole = a + seq![sep] + b;
    lemma_split_nonempty(a, sep);
    if b.len() == 0 {
        assert(whole.drop_last() =~= a);
        assert(split(whole, sep) =~= split(a, sep) + split(b, sep));
    } else {
        let rest = b.drop_last();
        lemma_split_around(a, rest, sep);
        lemma_split_nonempty(rest, sep);
        assert(whole.drop_last() =~= a + seq![sep] + rest);
        assert(whole.last() == b.last());
        assert(split(whole, sep) =~= split(a, sep) + split(b, sep));
    }
}

/// Splitting what was joined from delimiter-free pieces gives the pieces
/// back.
pub proof fn lemma_split_join(pieces: Seq<Seq<char>>, sep: char)
    requires
        pieces.len() >= 1,
        free_of(pieces, sep),
    ensures
        split(join(pieces, seq![sep]), sep) == pieces,
    decreases pieces.len(),
{
    if pieces.len() == 1 {
        lemma_split_single(pieces[0], sep);
        assert(seq![pieces[0]] =~= pieces);
    } else {
        let front = pieces.drop_last();
        assert forall|i: int| 0 <= i < front.len() implies !(#[trigger] front[i]).contains(
            sep,
        ) by {
            assert(front[i] == pieces[i]);
        }
        lemma_split_join(front, sep);
        assert(!pieces[pieces.len() - 1].contains(sep));
        lemma_split_single(pieces.last(), sep);
        lemma_split_around(join(front, seq![sep]), pieces.last(), sep);
        assert(front + seq![pieces.last()] =~= pieces);
    }
}

/// Joining one more piece onto a list of pieces.
pub proof fn lemma_join_push(pieces: Seq<Seq<char>>, piece: Seq<char>, sep: Seq<char>)
    ensures
        join(pieces.push(piece), sep) == if pieces.len() == 0 {
            piece
        } else {
            join(pieces, sep) + sep + piece
        },
{
    assert(pieces.push(piece).drop_last() =~= pieces);
}

/// The characters of `s`, in order.
pub fn chars_of(s: &str) -> (out: Vec<char>)
    ensures
        out@ == s@,
{
    let mut out: Vec<char> = Vec::new();
    for c in it: s.chars()
        invariant
            out@ == it.seq().take(it.index()),
            it.seq() == s@,
    {
        out.push(c);
    }
    out
}

/// Whether `needle` stands in `hay` at position `at`.
pub fn matches_at(hay: &Vec<char>, needle: &Vec<char>, at: usize) -> (found: bool)
    ensures
        found == occurs_at(hay@, needle@, at as int),
{
    if at > hay.len() || needle.len() > hay.len() - at {
        return false;
    }
    let mut k: usize = 0;
    while k < needle.len()
        invariant
            at + needle.len() <= hay.len(),
            k <= needle.len(),
            forall|j: int| 0 <= j < k ==> hay@[at + j] == needle@[j],
        decreases needle.len() - k,
    {
        if hay[at + k] != needle[k] {
            proof {
                let window = hay@.subrange(at as int, at + needle.len());
                assert(window[k as int] == hay@[at + k]);
            }
            return false;
        }
        k += 1;
    }
    proof {
        assert(hay@.subrange(at as int, at + needle.len()) =~= needle@);
    }
    true
}

/// Whether `needle` stands somewhere in `hay`.
pub fn contains_chars(hay: &Vec<char>, needle: &Vec<char>) -> (found: bool)
    ensures
        found == contains(hay@, needle@),
{
    if needle.len() > hay.len() {
        return false;
    }
    let last: usize = hay.len() - needle.len();
    let mut at: usize = 0;
    loop
        invariant
            needle.len() <= hay.len(),
            last == hay.len() - needle.len(),
            at <= last,
            forall|k: int| 0 <= k < at ==> !occurs_at(hay@, needle@, k),
        decreases last - at,
    {
        if matches_at(hay, needle, at) {
            return true;
        }
        if at == last {
            return false;
        }
        at += 1;
    }
}

/// Whether `hay` begins with `prefix`.
pub fn starts_with_chars(hay: &Vec<char>, prefix: &Vec<char>) -> (found: bool)
    ensures
        found == starts_with(hay@, prefix@),
{
    matches_at(hay, prefix, 0)
}

/// Whether `hay` ends with `suffix`.
pub fn ends_with_chars(hay: &Vec<char>, suffix: &Vec<char>) -> (found: bool)
    ensures
        found == ends_with(hay@, suffix@),
{
    suffix.len() <= hay.len() && matches_at(hay, suffix, hay.len() - suffix.len())
}

/// Whether the text `needle` stands somewhere in the text `hay`.
pub fn contains_text(hay: &str, needle: &str) -> (found: bool)
    ensures
        found == contains(hay@, needle@),
{
    let hay_chars = chars_of(hay);
    let needle_chars = chars_of(needle);
    contains_chars(&hay_chars, &needle_chars)
}

/// Whether the text `hay` begins with the text `prefix`.
pub fn starts_with_text(hay: &str, prefix: &str) -> (found: bool)
    ensures
        found == starts_with(hay@, prefix@),
{
    let hay_chars = chars_of(hay);
    let prefix_chars = chars_of(prefix);
    starts_with_chars(&hay_chars, &prefix_chars)
}

/// Whether the text `hay` ends with the text `suffix`.
pub fn ends_with_text(hay: &str, suffix: &str) -> (found: bool)
    ensures
        found == ends_with(hay@, suffix@),
{
    let hay_chars = chars_of(hay);
    let suffix_chars = chars_of(suffix);
    ends_with_chars(&hay_chars, &suffix_chars)
}

/// Whether two texts are the same.
pub fn same_text(a: &str, b: &str) -> (same: bool)
    ensures
        same == (a@ == b@),
{
    let left = a.to_owned();
    let right = b.to_owned();
    left == right
}

/// The pieces of `s` between occurrences of `sep`: no piece holds `sep`, and
/// joined with `sep` they give `s` back.
pub fn split_text(s: &str, sep: char) -> (out: Vec<String>)
    ensures
        texts(out@) == split(s@, sep),
        free_of(texts(out@), sep),
        join(texts(out@), seq![sep]) == s@,
{
    proof {
        lemma_split_free_of(s@, sep);
        lemma_join_split(s@, sep);
    }
    let chars = chars_of(s);
    let mut out: Vec<String> = Vec::new();
    let mut start: usize = 0;
    let mut i: usize = 0;
    proof {
        assert(s@.take(0) =~= Seq::<char>::empty());
        assert(texts(out@).push(s@.subrange(0, 0)) =~= split(s@.take(0), sep));
    }
    while i < chars.len()
        invariant
            chars@ == s@,
            start <= i <= chars.len(),
            texts(out@).push(s@.subrange(start as int, i as int)) == split(s@.take(i as int), sep),
        decreases chars.len() - i,
    {
        let ghost before = split(s@.take(i as int), sep);
        proof {
            assert(s@.take(i + 1).drop_last() =~= s@.take(i as int));
            assert(s@.take(i + 1).last() == s@[i as int]);
        }
        if chars[i] == sep {
            let piece = s.substring_char(start, i).to_owned();
            let ghost earlier = out@;
            out.push(piece);
            proof {
                assert(texts(out@) =~= texts(earlier).push(s@.subrange(start as int, i as int)));
                assert(s@.subrange(i + 1, i + 1) =~= Seq::<char>::empty());
            }
            start = i + 1;
        } else {
            proof {
                assert(before.drop_last() =~= texts(out@));
                assert(before.last().push(s@[i as int]) =~= s@.subrange(start as int, i + 1));
            }
        }
        i += 1;
    }
    let piece = s.substring_char(start, i).to_owned();
    let ghost earlier = out@;
    out.push(piece);
    proof {
        assert(texts(out@) =~= texts(earlier).push(s@.subrange(start as int, i as int)));
        assert(s@.take(i as int) =~= s@);
    }
    out
}

/// The line without the carriage return at its end, if it has one.
pub fn strip_cr_text(line: &str) -> (out: String)
    ensures
        out@ == strip_cr(line@),
{
    let chars = chars_of(line);
    let n = chars.len();
    if n > 0 && chars[n - 1] == '\r' {
        line.substring_char(0, n - 1).to_owned()
    } else {
        line.to_owned()
    }
}

/// The lines of `s`, without their terminators.
pub fn lines_of(s: &str) -> (out: Vec<String>)
    ensures
        texts(out@) == lines(s@),
{
    let pieces = split_text(s, '\n');
    proof {
        lemma_split_nonempty(s@, '\n');
        assert(texts(pieces@).len() == pieces@.len());
    }
    let ghost wanted = split(s@, '\n');
    let n: usize = pieces.len() - 1;
    let mut out: Vec<String> = Vec::new();
    let mut i: usize = 0;
    while i < n
        invariant
            i <= n,
            n + 1 == pieces.len(),
            texts(pieces@) == wanted,
            texts(out@) == Seq::new(i as nat, |k: int| strip_cr(wanted[k])),
        decreases n - i,
    {
        proof {
            assert(texts(pieces@)[i as int] == pieces@[i as int]@);
        }
        let line = strip_cr_text(pieces[i].as_str());
        let ghost earlier = out@;
        out.push(line);
        proof {
            assert(texts(out@) =~= texts(earlier).push(strip_cr(wanted[i as int])));
            assert(texts(out@) =~= Seq::new((i + 1) as nat, |k: int| strip_cr(wanted[k])));
        }
        i += 1;
    }
    proof {
        assert(texts(pieces@)[n as int] == pieces@[n as int]@);
    }
    if !pieces[n].as_str().is_empty() {
        let rest = pieces[n].clone();
        let ghost earlier = out@;
        out.push(rest);
        proof {
            assert(texts(out@) =~= texts(earlier).push(wanted[n as int]));
        }
    }
    out
}

} // verus!
