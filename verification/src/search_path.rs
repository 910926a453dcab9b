//! The update of a `;`-delimited search path on activation: the `bin`
//! directory of the activated installation is put in front when the path does
//! not hold it yet, and otherwise takes the place of every segment that looks
//! like the `bin` directory of a Java installation.
//!
//! Which segments are replaced is decided by how a segment reads, not by a
//! record of what an earlier activation wrote: a segment of another tool that
//! reads the same way is replaced too.

use vstd::prelude::*;
use vstd::string::*;
use crate::text::{
    contains, contains_text, ends_with, ends_with_text, free_of, join, lemma_join_push,
    lemma_split_around, lemma_split_free_of, lemma_split_join, lemma_split_nonempty,
    lemma_split_single, split, split_text, texts,
};

verus! {

/// The lower-case equivalent of a text, as `str::to_lowercase` gives it.
pub uninterp spec fn lowercase(s: Seq<char>) -> Seq<char>;

/// `str::to_lowercase` of the standard library: the result is a function of
/// the text alone, and is what `lowercase` names. Nothing else is claimed of
/// it.
pub assume_specification[ str::to_lowercase ](s: &str) -> (lowered: String)
    ensures
        lowered@ == lowercase(s@),
;

/// A lower-cased segment reads like the `bin` directory of a Java
/// installation: it holds `java` and ends with `bin`.
pub open spec fn marked(lowered: Seq<char>) -> bool {
    contains(lowered, "java"@) && ends_with(lowered, "bin"@)
}

/// The segment is one that an activation replaces.
pub open spec fn is_managed(segment: Seq<char>) -> bool {
    marked(lowercase(segment))
}

/// The search path already holds `bin` somewhere, letter case aside.
pub open spec fn is_present(current: Seq<char>, bin: Seq<char>) -> bool {
    contains(lowercase(current), lowercase(bin))
}

/// The segments with `bin` in the place of every managed one.
pub open spec fn replace_managed(segments: Seq<Seq<char>>, bin: Seq<char>) -> Seq<Seq<char>> {
    Seq::new(
        segments.len(),
        |i: int|
            if is_managed(segments[i]) {
                bin
            } else {
                segments[i]
            },
    )
}

/// The segments of a search path.
pub open spec fn segments_of(path: Seq<char>) -> Seq<Seq<char>> {
    split(path, ';')
}

/// The search path after an activation whose `bin` directory is `bin`.
pub open spec fn updated_path(current: Seq<char>, bin: Seq<char>) -> Seq<char> {
    if is_present(current, bin) {
        join(replace_managed(segments_of(current), bin), seq![';'])
    } else {
        bin + seq![';'] + current
    }
}

/// How many of the segments are `bin` itself or managed.
pub open spec fn claimed(segments: Seq<Seq<char>>, bin: Seq<char>) -> nat
    decreases segments.len(),
{
    if segments.len() == 0 {
        0
    } else {
        claimed(segments.drop_last(), bin) + if is_managed(segments.last()) || segments.last()
            == bin {
            1nat
        } else {
            0nat
        }
    }
}

/// How many of the segments are equal to `wanted`.
pub open spec fn copies(segments: Seq<Seq<char>>, wanted: Seq<char>) -> nat
    decreases segments.len(),
{
    if segments.len() == 0 {
        0
    } else {
        copies(segments.drop_last(), wanted) + if segments.last() == wanted {
            1nat
        } else {
            0nat
        }
    }
}

/// How many segments equal to `bin` a search path holds once `bin` has been
/// activated on it twice in a row: one for each segment that was `bin` or
/// managed before, and one more where the first activation put `bin` in
/// front.
pub open spec fn copies_after_reactivation(current: Seq<char>, bin: Seq<char>) -> nat {
    claimed(segments_of(current), bin) + if is_present(current, bin) {
        0nat
    } else {
        1nat
    }
}

/// What `rejoin` writes for segments that come with their lower-case forms.
pub open spec fn rejoined(pairs: Seq<(String, String)>, bin: Seq<char>) -> Seq<Seq<char>> {
    Seq::new(
        pairs.len(),
        |i: int|
            if marked(pairs[i].1@) {
                bin
            } else {
                pairs[i].0@
            },
    )
}

/// Whether a lower-cased segment reads like the `bin` directory of a Java
/// installation.
pub fn is_marked(lowered: &str) -> (found: bool)
    ensures
        found == marked(lowered@),
{
    contains_text(lowered, "java") && ends_with_text(lowered, "bin")
}

/// The search path with `bin` put in front as a new first segment.
pub fn prepend_segment(current: &str, bin: &str) -> (out: String)
    ensures
        out@ == bin@ + seq![';'] + current@,
{
    let mut out = String::from_str(bin);
    out.append(";");
    out.append(current);
    proof {
        reveal_strlit(";");
        assert(";"@ =~= seq![';']);
    }
    out
}

/// The search path written from its segments, each given with its lower-case
/// form: `bin` stands in for every segment whose lower-case form is marked,
/// the others are kept, and `;` stands between neighbours.
pub fn rejoin(pairs: &Vec<(String, String)>, bin: &str) -> (out: String)
    ensures
        out@ == join(rejoined(pairs@, bin@), seq![';']),
{
    let mut out = String::new();
    let mut i: usize = 0;
    proof {
        assert(rejoined(pairs@, bin@).take(0) =~= Seq::<Seq<char>>::empty());
    }
    while i < pairs.len()
        invariant
            i <= pairs.len(),
            out@ == join(rejoined(pairs@, bin@).take(i as int), seq![';']),
        decreases pairs.len() - i,
    {
        let ghost done = rejoined(pairs@, bin@).take(i as int);
        let ghost piece = rejoined(pairs@, bin@)[i as int];
        proof {
            reveal_strlit(";");
            assert(";"@ =~= seq![';']);
            lemma_join_push(done, piece, seq![';']);
            assert(rejoined(pairs@, bin@).take(i + 1) =~= done.push(piece));
        }
        if i > 0 {
            out.append(";");
        }
        if is_marked(pairs[i].1.as_str()) {
            out.append(bin);
        } else {
            out.append(pairs[i].0.as_str());
        }
        proof {
            assert(out@ =~= join(done.push(piece), seq![';']));
        }
        i += 1;
    }
    proof {
        assert(rejoined(pairs@, bin@).take(pairs.len() as int) =~= rejoined(pairs@, bin@));
    }
    out
}

/// The search path after an activation whose `bin` directory is `bin`.
///
/// Where the path does not hold `bin` yet, letter case aside, `bin` becomes
/// its new first segment. Where it does, every managed segment is overwritten
/// with `bin` and all others pass through in their places.
pub fn update_search_path(current: &str, bin: &str) -> (out: String)
    ensures
        out@ == updated_path(current@, bin@),
{
    let current_lowered = current.to_lowercase();
    let bin_lowered = bin.to_lowercase();
    if !contains_text(current_lowered.as_str(), bin_lowered.as_str()) {
        return prepend_segment(current, bin);
    }
    let segments = split_text(current, ';');
    let ghost wanted = segments_of(current@);
    let mut pairs: Vec<(String, String)> = Vec::new();
    let mut i: usize = 0;
    while i < segments.len()
        invariant
            i <= segments.len(),
            texts(segments@) == wanted,
            pairs.len() == i,
            forall|k: int|
                0 <= k < i ==> (#[trigger] pairs@[k]).0@ == wanted[k] && pairs@[k].1@ == lowercase(
                    wanted[k],
                ),
        decreases segments.len() - i,
    {
        let segment = segments[i].clone();
        let lowered = segment.as_str().to_lowercase();
        proof {
            assert(texts(segments@)[i as int] == segments@[i as int]@);
        }
        pairs.push((segment, lowered));
        i += 1;
    }
    proof {
        assert(texts(segments@).len() == segments@.len());
        assert(rejoined(pairs@, bin@) =~= replace_managed(wanted, bin@));
    }
    rejoin(&pairs, bin)
}

/// After a replacement, the copies of `bin` are the segments that were `bin`
/// or managed before.
pub proof fn lemma_copies_after_replace(segments: Seq<Seq<char>>, bin: Seq<char>)
    ensures
        copies(replace_managed(segments, bin), bin) == claimed(segments, bin),
        claimed(replace_managed(segments, bin), bin) == claimed(segments, bin),
    decreases segments.len(),
{
    if segments.len() > 0 {
        lemma_copies_after_replace(segments.drop_last(), bin);
        assert(replace_managed(segments, bin).drop_last() =~= replace_managed(
            segments.drop_last(),
            bin,
        ));
    }
}

/// One more segment in front counts once if it is `bin` or managed.
pub proof fn lemma_claimed_in_front(first: Seq<char>, segments: Seq<Seq<char>>, bin: Seq<char>)
    ensures
        claimed(seq![first] + segments, bin) == claimed(segments, bin) + if is_managed(first)
            || first == bin {
            1nat
        } else {
            0nat
        },
    decreases segments.len(),
{
    let whole = seq![first] + segments;
    if segments.len() == 0 {
        assert(whole.drop_last() =~= Seq::<Seq<char>>::empty());
        assert(claimed(whole.drop_last(), bin) == 0);
    } else {
        lemma_claimed_in_front(first, segments.drop_last(), bin);
        assert(whole.drop_last() =~= seq![first] + segments.drop_last());
    }
}

/// The segments of a search path after an activation: those before it with
/// the managed ones replaced, or with `bin` as a new first segment.
pub proof fn lemma_segments_after_update(current: Seq<char>, bin: Seq<char>)
    requires
        !bin.contains(';'),
    ensures
        segments_of(updated_path(current, bin)) == if is_present(current, bin) {
            replace_managed(segments_of(current), bin)
        } else {
            seq![bin] + segments_of(current)
        },
        free_of(segments_of(updated_path(current, bin)), ';'),
{
    let before = segments_of(current);
    lemma_split_nonempty(current, ';');
    lemma_split_free_of(current, ';');
    lemma_split_free_of(updated_path(current, bin), ';');
    if is_present(current, bin) {
        let replaced = replace_managed(before, bin);
        assert forall|i: int| 0 <= i < replaced.len() implies !(#[trigger] replaced[i]).contains(
            ';',
        ) by {
            if !is_managed(before[i]) {
                assert(replaced[i] == before[i]);
            }
        }
        lemma_split_join(replaced, ';');
    } else {
        lemma_split_around(bin, current, ';');
        lemma_split_single(bin, ';');
    }
}

/// Activating the same `bin` directory twice in a row leaves as many
/// segments equal to it as `copies_after_reactivation` says, provided the
/// second activation finds what the first one wrote.
pub proof fn lemma_reactivation_copies(current: Seq<char>, bin: Seq<char>)
    requires
        !bin.contains(';'),
        is_present(updated_path(current, bin), bin),
    ensures
        copies(segments_of(updated_path(updated_path(current, bin), bin)), bin)
            == copies_after_reactivation(current, bin),
{
    let once = updated_path(current, bin);
    lemma_segments_after_update(current, bin);
    lemma_segments_after_update(once, bin);
    lemma_copies_after_replace(segments_of(once), bin);
    if is_present(current, bin) {
        lemma_copies_after_replace(segments_of(current), bin);
    } else {
        lemma_claimed_in_front(bin, segments_of(current), bin);
    }
}

/// Activating the same `bin` directory twice in a row leaves exactly one
/// segment equal to it, on a search path where exactly one is due: one that
/// held a single segment that was `bin` or managed, or one that held neither
/// `bin` nor a managed segment.
pub proof fn lemma_reactivation_keeps_one(current: Seq<char>, bin: Seq<char>)
    requires
        !bin.contains(';'),
        is_present(updated_path(current, bin), bin),
        copies_after_reactivation(current, bin) == 1,
    ensures
        copies(segments_of(updated_path(updated_path(current, bin), bin)), bin) == 1,
{
    lemma_reactivation_copies(current, bin);
}

/// Activating `bin_b` on a search path on which `bin_a`, a managed segment,
/// was activated before, and which already holds `bin_b`: every managed
/// segment becomes `bin_b`, so that `bin_a` is gone and `bin_b` stands where
/// it stood, and every other segment keeps its text and its place.
pub proof fn lemma_reactivation_replaces(current: Seq<char>, bin_a: Seq<char>, bin_b: Seq<char>)
    requires
        !bin_a.contains(';'),
        !bin_b.contains(';'),
        is_managed(bin_a),
        bin_a != bin_b,
        is_present(updated_path(current, bin_a), bin_b),
    ensures
        ({
            let before = segments_of(updated_path(current, bin_a));
            let after = segments_of(updated_path(updated_path(current, bin_a), bin_b));
            &&& after.len() == before.len()
            &&& forall|i: int|
                0 <= i < before.len() ==> #[trigger] after[i] == if is_managed(before[i]) {
                    bin_b
                } else {
                    before[i]
                }
            &&& !after.contains(bin_a)
            &&& before.contains(bin_a) ==> after.contains(bin_b)
            &&& !is_present(current, bin_a) ==> before.contains(bin_a)
        }),
{
    let once = updated_path(current, bin_a);
    let before = segments_of(once);
    let after = segments_of(updated_path(once, bin_b));
    lemma_segments_after_update(current, bin_a);
    lemma_segments_after_update(once, bin_b);
    assert(after == replace_managed(before, bin_b));
    if after.contains(bin_a) {
        let k = choose|k: int| 0 <= k < after.len() && after[k] == bin_a;
        assert(after[k] == if is_managed(before[k]) {
            bin_b
        } else {
            before[k]
        });
    }
    if before.contains(bin_a) {
        let k = choose|k: int| 0 <= k < before.len() && before[k] == bin_a;
        assert(after[k] == bin_b);
    }
    if !is_present(current, bin_a) {
        assert(before[0] == bin_a);
    }
}

} // verus!
