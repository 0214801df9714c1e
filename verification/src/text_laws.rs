//! What holds of the text functions: lemmas about segments, lines, joining,
//! searching and trimming.

use vstd::prelude::*;
use crate::text::{
    after_marker, contains_text, first_index, first_occurrence, is_first_occurrence, join,
    lemma_first_index, lemma_first_index_unique, lemma_segments_nonempty, lines, occurs_at,
    segments, strip_cr, strippable, trim_back, trim_front, trimmed,
};

verus! {

/// No part holds a line feed.
pub open spec fn single_lines(parts: Seq<Seq<char>>) -> bool {
    forall|i: int| 0 <= i < parts.len() ==> !(#[trigger] parts[i]).contains('\n')
}

/// The `parts`, or one empty part where there is none: joining either
/// gives the same text.
pub open spec fn or_blank(parts: Seq<Seq<char>>) -> Seq<Seq<char>> {
    if parts.len() == 0 {
        seq![Seq::empty()]
    } else {
        parts
    }
}

/// The `lines` with one trailing carriage return taken from each.
pub open spec fn without_cr(ls: Seq<Seq<char>>) -> Seq<Seq<char>> {
    Seq::new(ls.len(), |i: int| strip_cr(ls[i]))
}

/// The leftmost occurrence is an occurrence, and none stands before it.
pub proof fn lemma_first_occurrence(s: Seq<char>, pat: Seq<char>)
    ensures
        match first_occurrence(s, pat) {
            Some(i) => is_first_occurrence(s, pat, i),
            None => !contains_text(s, pat),
        },
{
    if contains_text(s, pat) {
        let w = choose|i: int| occurs_at(s, pat, i);
        lemma_leftmost_exists(s, pat, w);
    }
}

/// Where `pat` stands at `w`, it has a leftmost occurrence.
proof fn lemma_leftmost_exists(s: Seq<char>, pat: Seq<char>, w: int)
    requires
        occurs_at(s, pat, w),
    ensures
        exists|i: int| is_first_occurrence(s, pat, i),
    decreases w,
{
    if exists|j: int| 0 <= j < w && occurs_at(s, pat, j) {
        let j = choose|j: int| 0 <= j < w && occurs_at(s, pat, j);
        lemma_leftmost_exists(s, pat, j);
    } else {
        assert(is_first_occurrence(s, pat, w));
    }
}

/// A text that begins with a piece free of line feeds, then a line feed,
/// has that piece as its first segment; the others are those of what
/// follows the line feed.
pub proof fn lemma_segments_first(piece: Seq<char>, rest: Seq<char>)
    requires
        !piece.contains('\n'),
    ensures
        segments(piece + "\n"@ + rest) == seq![piece] + segments(rest),
        segments(piece) == seq![piece],
{
    reveal_strlit("\n");
    let s = piece + "\n"@ + rest;
    lemma_first_index_unique(s, '\n', piece.len() as int);
    assert(s.take(piece.len() as int) =~= piece);
    assert(s.skip(piece.len() as int + 1) =~= rest);
    lemma_first_index_unique(piece, '\n', piece.len() as int);
}

/// No segment holds a character that the text does not hold.
pub proof fn lemma_segments_chars(s: Seq<char>, c: char)
    requires
        !s.contains(c),
    ensures
        forall|i: int| 0 <= i < segments(s).len() ==> !(#[trigger] segments(s)[i]).contains(c),
    decreases s.len(),
{
    let e = first_index(s, '\n');
    if e < s.len() {
        let rest = s.skip(e as int + 1);
        lemma_segments_chars(rest, c);
        assert forall|i: int| 0 <= i < segments(s).len() implies !(#[trigger] segments(
            s,
        )[i]).contains(c) by {
            if i > 0 {
                assert(segments(s)[i] == segments(rest)[i - 1]);
            }
        }
    }
}

/// Joining a first part and at least one more puts the separator after the
/// first part.
pub proof fn lemma_join_front(first: Seq<char>, rest: Seq<Seq<char>>, sep: Seq<char>)
    requires
        rest.len() > 0,
    ensures
        join(seq![first] + rest, sep) == first + sep + join(rest, sep),
    decreases rest.len(),
{
    let all = seq![first] + rest;
    assert(all.last() == rest.last());
    assert(all.drop_last() =~= seq![first] + rest.drop_last());
    assert(join(all, sep) == join(all.drop_last(), sep) + sep + all.last());
    if rest.len() == 1 {
        assert(all.drop_last() =~= seq![first]);
        assert(join(seq![first], sep) == first);
        assert(join(rest, sep) == rest[0]);
    } else {
        lemma_join_front(first, rest.drop_last(), sep);
        assert(join(rest, sep) == join(rest.drop_last(), sep) + sep + rest.last());
        assert(join(all, sep) =~= first + sep + join(rest, sep));
    }
}

/// Joining the segments of a text with line feeds gives the text back.
pub proof fn lemma_join_segments(s: Seq<char>)
    ensures
        join(segments(s), "\n"@) == s,
    decreases s.len(),
{
    reveal_strlit("\n");
    let e = first_index(s, '\n');
    lemma_first_index(s, '\n');
    if e < s.len() {
        let rest = s.skip(e as int + 1);
        lemma_join_segments(rest);
        lemma_segments_nonempty(rest);
        lemma_join_front(s.take(e as int), segments(rest), "\n"@);
    }
}

/// The segments of a text hold no line feed, and neither do its lines.
pub proof fn lemma_segments_single_lines(s: Seq<char>)
    ensures
        single_lines(segments(s)),
        single_lines(lines(s)),
    decreases s.len(),
{
    let e = first_index(s, '\n');
    lemma_first_index(s, '\n');
    if e < s.len() {
        let rest = s.skip(e as int + 1);
        lemma_segments_single_lines(rest);
        assert forall|i: int| 0 <= i < segments(s).len() implies !(#[trigger] segments(
            s,
        )[i]).contains('\n') by {
            if i > 0 {
                assert(segments(s)[i] == segments(rest)[i - 1]);
            }
        }
    }
    lemma_segments_nonempty(s);
    let segs = segments(s);
    assert forall|i: int| 0 <= i < lines(s).len() implies !(#[trigger] lines(s)[i]).contains(
        '\n',
    ) by {
        let line = lines(s)[i];
        assert(!segs[i].contains('\n'));
        if line.contains('\n') {
            let k = choose|k: int| 0 <= k < line.len() && line[k] == '\n';
            assert(segs[i][k] == '\n');
        }
    }
}

/// Joined parts without line feeds are the segments of the text that
/// joining them with line feeds gives.
pub proof fn lemma_segments_of_join(parts: Seq<Seq<char>>)
    requires
        parts.len() >= 1,
        single_lines(parts),
    ensures
        segments(join(parts, "\n"@)) == parts,
    decreases parts.len(),
{
    let first = parts[0];
    let rest = parts.drop_first();
    assert(parts =~= seq![first] + rest);
    if rest.len() == 0 {
        lemma_segments_first(first, Seq::empty());
    } else {
        assert forall|i: int| 0 <= i < rest.len() implies !(#[trigger] rest[i]).contains(
            '\n',
        ) by {
            assert(rest[i] == parts[i + 1]);
        }
        lemma_segments_of_join(rest);
        lemma_join_front(first, rest, "\n"@);
        lemma_segments_first(first, join(rest, "\n"@));
    }
}

/// Joining two runs of parts, each with at least one part, joins what
/// joining each of them gives.
pub proof fn lemma_join_concat(front: Seq<Seq<char>>, back: Seq<Seq<char>>, sep: Seq<char>)
    requires
        front.len() > 0,
        back.len() > 0,
    ensures
        join(front + back, sep) == join(front, sep) + sep + join(back, sep),
    decreases back.len(),
{
    let all = front + back;
    assert(all.drop_last() =~= front + back.drop_last());
    assert(all.last() == back.last());
    if back.len() == 1 {
        assert(all.drop_last() =~= front);
        assert(join(all, sep) == join(all.drop_last(), sep) + sep + all.last());
        assert(join(back, sep) == back[0]);
    } else {
        lemma_join_concat(front, back.drop_last(), sep);
        assert(join(all, sep) == join(all.drop_last(), sep) + sep + all.last());
        assert(join(back, sep) == join(back.drop_last(), sep) + sep + back.last());
        assert(join(all, sep) =~= join(front, sep) + sep + join(back, sep));
    }
}

/// The lines of joined parts without line feeds: the parts, each but the
/// last without one trailing carriage return, and the last only if it is
/// not empty.
pub proof fn lemma_lines_of_join(parts: Seq<Seq<char>>)
    requires
        parts.len() >= 1,
        single_lines(parts),
    ensures
        lines(join(parts, "\n"@)) == if parts.last().len() == 0 {
            without_cr(parts.drop_last())
        } else {
            without_cr(parts.drop_last()).push(parts.last())
        },
{
    lemma_segments_of_join(parts);
    let n = parts.len() - 1;
    assert(Seq::new(n as nat, |i: int| strip_cr(parts[i])) =~= without_cr(parts.drop_last()));
}

/// The first `n` parts joined are the beginning of all parts joined.
pub proof fn lemma_join_prefix(parts: Seq<Seq<char>>, n: int, sep: Seq<char>)
    requires
        0 <= n <= parts.len(),
    ensures
        join(parts.take(n), sep).is_prefix_of(join(parts, sep)),
    decreases parts.len() - n,
{
    if n == parts.len() {
        assert(parts.take(n) =~= parts);
    } else {
        lemma_join_prefix(parts, n + 1, sep);
        let more = parts.take(n + 1);
        assert(more.drop_last() =~= parts.take(n));
    }
}

/// In a text without carriage returns the lines are the segments, but for an
/// empty last segment.
pub proof fn lemma_lines_without_cr(s: Seq<char>)
    requires
        !s.contains('\r'),
    ensures
        lines(s).is_prefix_of(segments(s)),
        lines(s).len() + 1 >= segments(s).len(),
{
    lemma_segments_chars(s, '\r');
    lemma_segments_nonempty(s);
    let segs = segments(s);
    let n = segs.len() - 1;
    assert forall|i: int| 0 <= i < n implies strip_cr(segs[i]) == segs[i] by {
        let seg = segs[i];
        if seg.len() > 0 && seg.last() == '\r' {
            assert(seg.contains('\r'));
        }
    }
    assert(lines(s) =~= segs.subrange(0, lines(s).len() as int));
}

/// Two texts put together hold no character that neither of them holds.
pub proof fn lemma_concat_lacks(front: Seq<char>, back: Seq<char>, c: char)
    requires
        !front.contains(c),
        !back.contains(c),
    ensures
        !(front + back).contains(c),
{
    let all = front + back;
    if all.contains(c) {
        let i = choose|i: int| 0 <= i < all.len() && all[i] == c;
        if i < front.len() {
            assert(front[i] == c);
        } else {
            assert(back[i - front.len()] == c);
        }
    }
}

/// What follows the marker is read back: where `marker` does not stand
/// earlier in `prefix + marker + suffix` than right after `prefix`, what
/// follows its leftmost occurrence is `suffix`.
pub proof fn lemma_after_marker(prefix: Seq<char>, marker: Seq<char>, suffix: Seq<char>)
    requires
        marker.len() > 0,
        !contains_text(prefix + marker.drop_last(), marker),
    ensures
        after_marker(prefix + marker + suffix, marker) == Some(suffix),
{
    let line = prefix + marker + suffix;
    let at = prefix.len() as int;
    assert(line.subrange(at, at + marker.len()) =~= marker);
    assert forall|j: int| 0 <= j < at implies !occurs_at(line, marker, j) by {
        if occurs_at(line, marker, j) {
            let short = prefix + marker.drop_last();
            assert(short.subrange(j, j + marker.len()) =~= line.subrange(j, j + marker.len()));
            assert(occurs_at(short, marker, j));
        }
    }
    assert(is_first_occurrence(line, marker, at));
    lemma_first_occurrence(line, marker);
}

/// What `trim_front` leaves is the end of the text, and begins with a
/// character that is not strippable.
pub proof fn lemma_trim_front(s: Seq<char>, quotes: bool)
    ensures
        trim_front(s, quotes).len() <= s.len(),
        trim_front(s, quotes) == s.skip(s.len() - trim_front(s, quotes).len()),
        trim_front(s, quotes).len() > 0 ==> !strippable(trim_front(s, quotes)[0], quotes),
    decreases s.len(),
{
    if s.len() > 0 && strippable(s[0], quotes) {
        let t = s.drop_first();
        lemma_trim_front(t, quotes);
    }
}

/// What `trim_back` leaves is the beginning of the text, and ends with a
/// character that is not strippable.
pub proof fn lemma_trim_back(s: Seq<char>, quotes: bool)
    ensures
        trim_back(s, quotes).len() <= s.len(),
        trim_back(s, quotes) == s.take(trim_back(s, quotes).len() as int),
        trim_back(s, quotes).len() > 0 ==> !strippable(trim_back(s, quotes).last(), quotes),
    decreases s.len(),
{
    if s.len() > 0 && strippable(s.last(), quotes) {
        let t = s.drop_last();
        lemma_trim_back(t, quotes);
    }
}

/// A trimmed text neither begins nor ends with a strippable character,
/// holds only characters of the text it was made from, and trimming it
/// again changes nothing.
pub proof fn lemma_trimmed(s: Seq<char>, quotes: bool)
    ensures
        trimmed(s, quotes).len() > 0 ==> !strippable(trimmed(s, quotes)[0], quotes) && !strippable(
            trimmed(s, quotes).last(),
            quotes,
        ),
        forall|c: char| trimmed(s, quotes).contains(c) ==> s.contains(c),
        trimmed(trimmed(s, quotes), quotes) == trimmed(s, quotes),
{
    let t = trim_front(s, quotes);
    let r = trim_back(t, quotes);
    lemma_trim_front(s, quotes);
    lemma_trim_back(t, quotes);
}

/// Strippable characters in front of a text do not change what `trim_front`
/// leaves of it.
pub proof fn lemma_trim_front_skips(left: Seq<char>, s: Seq<char>, quotes: bool)
    requires
        forall|i: int| 0 <= i < left.len() ==> strippable(left[i], quotes),
    ensures
        trim_front(left + s, quotes) == trim_front(s, quotes),
    decreases left.len(),
{
    if left.len() > 0 {
        assert((left + s).drop_first() =~= left.drop_first() + s);
        lemma_trim_front_skips(left.drop_first(), s, quotes);
    }
}

/// Strippable characters behind a text do not change what `trim_back`
/// leaves of it.
pub proof fn lemma_trim_back_skips(s: Seq<char>, right: Seq<char>, quotes: bool)
    requires
        forall|i: int| 0 <= i < right.len() ==> strippable(right[i], quotes),
    ensures
        trim_back(s + right, quotes) == trim_back(s, quotes),
    decreases right.len(),
{
    if right.len() > 0 {
        assert((s + right).drop_last() =~= s + right.drop_last());
        lemma_trim_back_skips(s, right.drop_last(), quotes);
    }
}

/// Trimming takes off what was put around a trimmed text, if all of it is
/// strippable.
pub proof fn lemma_trimmed_wrapped(left: Seq<char>, s: Seq<char>, right: Seq<char>, quotes: bool)
    requires
        forall|i: int| 0 <= i < left.len() ==> strippable(left[i], quotes),
        forall|i: int| 0 <= i < right.len() ==> strippable(right[i], quotes),
        trimmed(s, quotes) == s,
    ensures
        trimmed(left + s + right, quotes) == s,
{
    lemma_trimmed(s, quotes);
    assert(left + s + right =~= left + (s + right));
    lemma_trim_front_skips(left, s + right, quotes);
    if s.len() > 0 {
        lemma_trim_back_skips(s, right, quotes);
    } else {
        lemma_trim_front_skips(right, s, quotes);
    }
}

} // verus!
