//! What holds of a merge: the value of every key, the order of the keys,
//! the banner, and that what a merge writes is read back as it was.

use vstd::prelude::*;
use crate::prefs::{
    banner_lines, declaration_prefix, declarations, header_block, is_declaration, keys,
    lemma_upsert_distinct, lemma_value_of_distinct, merge, merged_entries, overlay,
    parse_declaration, render, serialize, serialized, upsert, value_of, EntryView, HEADER_LINES,
};
use crate::text::{
    first_index, join, lemma_first_index, lemma_first_index_unique, lines, segments, strip_cr,
    trimmed,
};
use crate::text_laws::{
    lemma_join_concat, lemma_join_prefix, lemma_join_segments, lemma_lines_of_join,
    lemma_lines_without_cr, lemma_segments_single_lines, lemma_trimmed, lemma_trimmed_wrapped,
    or_blank, single_lines, without_cr,
};

verus! {

/// An entry as reading a declaration gives it: no comma in the key, no
/// closing parenthesis in either text, and nothing left to trim.
pub open spec fn canonical(e: EntryView) -> bool {
    &&& !e.key.contains(',')
    &&& !e.key.contains(')')
    &&& !e.value.contains(')')
    &&& trimmed(e.key, true) == e.key
    &&& trimmed(e.value, false) == e.value
}

/// Every entry is canonical.
pub open spec fn all_canonical(entries: Seq<EntryView>) -> bool {
    forall|i: int| 0 <= i < entries.len() ==> canonical(#[trigger] entries[i])
}

/// Neither text of the entry holds a line feed.
pub open spec fn on_one_line(e: EntryView) -> bool {
    !e.key.contains('\n') && !e.value.contains('\n')
}

/// Every entry is on one line.
pub open spec fn all_on_one_line(entries: Seq<EntryView>) -> bool {
    forall|i: int| 0 <= i < entries.len() ==> on_one_line(#[trigger] entries[i])
}

/// After an entry is put in, its key has its value and every other key the
/// value it had.
pub proof fn lemma_upsert_value(entries: Seq<EntryView>, e: EntryView, key: Seq<char>)
    requires
        keys(entries).no_duplicates(),
    ensures
        value_of(upsert(entries, e), key) == if key == e.key {
            Some(e.value)
        } else {
            value_of(entries, key)
        },
{
    let after = upsert(entries, e);
    let size = entries.len() as int;
    let i = first_index(keys(entries), e.key);
    let j = first_index(keys(entries), key);
    lemma_upsert_distinct(entries, e);
    lemma_value_of_distinct(entries, key);
    lemma_value_of_distinct(after, key);
    lemma_first_index(keys(entries), e.key);
    lemma_first_index(keys(entries), key);
    if i < size {
        assert(keys(after) =~= keys(entries));
    } else {
        assert(keys(after) =~= keys(entries).push(e.key));
        if key == e.key {
            lemma_first_index_unique(keys(after), key, size);
        } else if j < size {
            lemma_first_index_unique(keys(after), key, j as int);
        } else {
            lemma_first_index_unique(keys(after), key, size + 1);
        }
    }
}

/// After declarations are put into a set, a key that they declare has the
/// value that they declare last, and every other key the value it had. The
/// keys of the set still differ.
pub proof fn lemma_overlay_value(entries: Seq<EntryView>, decls: Seq<EntryView>, key: Seq<char>)
    requires
        keys(entries).no_duplicates(),
    ensures
        keys(overlay(entries, decls)).no_duplicates(),
        value_of(overlay(entries, decls), key) == match value_of(decls, key) {
            Some(v) => Some(v),
            None => value_of(entries, key),
        },
    decreases decls.len(),
{
    if decls.len() > 0 {
        let before = overlay(entries, decls.drop_last());
        lemma_overlay_value(entries, decls.drop_last(), key);
        lemma_upsert_distinct(before, decls.last());
        lemma_upsert_value(before, decls.last(), key);
    }
}

/// Putting declarations into a set leaves its entries in their places: the
/// keys it had stay first, in their order, and new keys follow.
pub proof fn lemma_overlay_keeps_order(entries: Seq<EntryView>, decls: Seq<EntryView>)
    ensures
        keys(entries).is_prefix_of(keys(overlay(entries, decls))),
    decreases decls.len(),
{
    if decls.len() > 0 {
        let before = overlay(entries, decls.drop_last());
        let e = decls.last();
        lemma_overlay_keeps_order(entries, decls.drop_last());
        lemma_first_index(keys(before), e.key);
    }
}

/// Declarations whose keys all differ make the set that lists them as they
/// are.
pub proof fn lemma_overlay_of_distinct(decls: Seq<EntryView>)
    requires
        keys(decls).no_duplicates(),
    ensures
        overlay(Seq::empty(), decls) == decls,
    decreases decls.len(),
{
    if decls.len() > 0 {
        let front = decls.drop_last();
        let e = decls.last();
        assert(keys(front) =~= keys(decls).drop_last());
        lemma_overlay_of_distinct(front);
        assert forall|j: int| 0 <= j < front.len() implies keys(front)[j] != e.key by {
            assert(keys(decls)[decls.len() - 1] == e.key);
        }
        lemma_first_index_unique(keys(front), e.key, front.len() as int);
    }
}

/// The value of every key in a merged set: that which the overrides declare
/// last, and for a key that they do not declare, that which the base
/// declares last. The keys of the merged set differ.
pub proof fn lemma_merged_value(base: Seq<EntryView>, overrides: Seq<EntryView>, key: Seq<char>)
    ensures
        keys(merged_entries(base, overrides)).no_duplicates(),
        value_of(merged_entries(base, overrides), key) == match value_of(overrides, key) {
            Some(v) => Some(v),
            None => value_of(base, key),
        },
{
    let none = Seq::<EntryView>::empty();
    lemma_overlay_value(none, base, key);
    lemma_overlay_value(overlay(none, base), overrides, key);
}

/// A key that the overrides declare has their value in the merged set,
/// whatever the base says of it; so a key that only the overrides declare is
/// added.
pub proof fn lemma_override_wins(base: Seq<EntryView>, overrides: Seq<EntryView>, key: Seq<char>)
    requires
        value_of(overrides, key) is Some,
    ensures
        value_of(merged_entries(base, overrides), key) == value_of(overrides, key),
{
    lemma_merged_value(base, overrides, key);
}

/// A key that the overrides do not declare has in the merged set what the
/// base gives it: its value there, or no entry.
pub proof fn lemma_base_is_kept(base: Seq<EntryView>, overrides: Seq<EntryView>, key: Seq<char>)
    requires
        value_of(overrides, key) is None,
    ensures
        value_of(merged_entries(base, overrides), key) == value_of(base, key),
{
    lemma_merged_value(base, overrides, key);
}

/// Merging with overrides that declare nothing gives every key the value
/// that the base gives it; where the keys of the base all differ, the merged
/// set lists its declarations as they are.
pub proof fn lemma_empty_overrides(base: Seq<EntryView>, key: Seq<char>)
    ensures
        merged_entries(base, Seq::empty()) == overlay(Seq::empty(), base),
        value_of(merged_entries(base, Seq::empty()), key) == value_of(base, key),
        keys(base).no_duplicates() ==> merged_entries(base, Seq::empty()) == base,
{
    lemma_merged_value(base, Seq::empty(), key);
    if keys(base).no_duplicates() {
        lemma_overlay_of_distinct(base);
    }
}

/// Merging with an empty overrides text re-serializes the declarations of
/// the base under its banner.
pub proof fn lemma_merge_with_empty_text(base: Seq<char>)
    ensures
        merge(base, Seq::empty()) == match declarations(lines(base)) {
            Some(b) => Some(render(header_block(lines(base)), overlay(Seq::empty(), b))),
            None => None,
        },
{
    let nothing = Seq::<char>::empty();
    lemma_first_index_unique(nothing, '\n', 0);
}

/// A merged script begins with the banner of the base.
pub proof fn lemma_merge_keeps_banner(base: Seq<char>, overrides: Seq<char>)
    requires
        merge(base, overrides) is Some,
    ensures
        header_block(lines(base)).is_prefix_of(merge(base, overrides)->0),
{
}

/// In a base without carriage returns the banner is the beginning of the
/// base itself, character for character.
pub proof fn lemma_banner_starts_base(base: Seq<char>)
    requires
        !base.contains('\r'),
    ensures
        header_block(lines(base)).is_prefix_of(base),
{
    let ls = lines(base);
    let count = if ls.len() < HEADER_LINES {
        ls.len() as int
    } else {
        HEADER_LINES as int
    };
    lemma_lines_without_cr(base);
    assert(ls.take(count) =~= segments(base).take(count));
    lemma_join_prefix(segments(base), count, "\n"@);
    lemma_join_segments(base);
}

/// What is read from a declaration line is canonical.
pub proof fn lemma_parsed_is_canonical(line: Seq<char>)
    requires
        parse_declaration(line) is Some,
    ensures
        canonical(parse_declaration(line)->0),
{
    let rest = line.skip(declaration_prefix().len() as int);
    let close = first_index(rest, ')');
    let body = rest.take(close as int);
    lemma_first_index(rest, ')');
    let comma = first_index(body, ',');
    lemma_first_index(body, ',');
    let raw_key = body.take(comma as int);
    let raw_value = body.skip(comma as int + 1);
    let e = parse_declaration(line)->0;
    lemma_trimmed(raw_key, true);
    lemma_trimmed(raw_value, false);
    assert(!raw_value.contains(')')) by {
        if raw_value.contains(')') {
            let i = choose|i: int| 0 <= i < raw_value.len() && raw_value[i] == ')';
            assert(body[i + comma + 1] == ')');
            assert(rest[i + comma + 1] == ')');
        }
    }
    assert(!raw_key.contains(','));
    assert(!raw_key.contains(')'));
    assert(!e.key.contains(')'));
    assert(!e.value.contains(')'));
}

/// The declaration line of a canonical entry is read back as that entry.
pub proof fn lemma_reparse(e: EntryView)
    requires
        canonical(e),
    ensures
        is_declaration(serialize(e)),
        parse_declaration(serialize(e)) == Some(e),
{
    reveal_strlit("user_pref(");
    reveal_strlit("user_pref(\"");
    reveal_strlit("\", ");
    reveal_strlit(");");
    let line = serialize(e);
    let quote = seq!['"'];
    let middle = "\", "@;
    assert(line.subrange(0, 10) =~= declaration_prefix());
    let rest = line.skip(10);
    assert(rest =~= quote + e.key + middle + e.value + ");"@);
    let close = 1 + e.key.len() + 3 + e.value.len();
    assert forall|j: int| 0 <= j < close implies rest[j] != ')' by {
        if 1 <= j < 1 + e.key.len() {
            assert(rest[j] == e.key[j - 1]);
        } else if j >= 1 + e.key.len() + 3 {
            assert(rest[j] == e.value[j - 1 - e.key.len() - 3]);
        }
    }
    assert(rest[close as int] == ')');
    lemma_first_index_unique(rest, ')', close as int);
    let body = rest.take(close as int);
    let comma = 1 + e.key.len() + 1;
    lemma_first_index_unique(body, ',', comma as int);
    assert(body.take(comma as int) =~= quote + e.key + quote);
    let blank = seq![' '];
    let nothing = Seq::<char>::empty();
    assert(body.skip(comma as int + 1) =~= blank + e.value + nothing);
    lemma_trimmed_wrapped(quote, e.key, quote, true);
    lemma_trimmed_wrapped(blank, e.value, nothing, false);
}

/// The declaration lines of canonical entries are read back as those
/// entries.
pub proof fn lemma_reparse_all(entries: Seq<EntryView>)
    requires
        all_canonical(entries),
    ensures
        declarations(serialized(entries)) == Some(entries),
    decreases entries.len(),
{
    if entries.len() > 0 {
        let front = entries.drop_last();
        lemma_reparse_all(front);
        assert(serialized(entries).drop_last() =~= serialized(front));
        lemma_reparse(entries.last());
    }
}

/// What is read from the declaration lines among `ls` is canonical.
pub proof fn lemma_declarations_canonical(ls: Seq<Seq<char>>)
    requires
        declarations(ls) is Some,
    ensures
        all_canonical(declarations(ls)->0),
    decreases ls.len(),
{
    if ls.len() > 0 {
        lemma_declarations_canonical(ls.drop_last());
        if is_declaration(ls.last()) {
            lemma_parsed_is_canonical(ls.last());
        }
    }
}

/// Putting canonical declarations into a set of canonical entries leaves
/// them canonical.
pub proof fn lemma_overlay_canonical(entries: Seq<EntryView>, decls: Seq<EntryView>)
    requires
        all_canonical(entries),
        all_canonical(decls),
    ensures
        all_canonical(overlay(entries, decls)),
    decreases decls.len(),
{
    if decls.len() > 0 {
        let front = decls.drop_last();
        lemma_overlay_canonical(entries, front);
        lemma_first_index(keys(overlay(entries, front)), decls.last().key);
    }
}

/// Re-serialization is stable: the declaration lines that a merge writes
/// are read back as the merged set, and merging them once more gives the
/// same set.
pub proof fn lemma_reserialization_is_stable(base: Seq<Seq<char>>, overrides: Seq<Seq<char>>)
    requires
        declarations(base) is Some,
        declarations(overrides) is Some,
    ensures
        ({
            let set = merged_entries(declarations(base)->0, declarations(overrides)->0);
            &&& declarations(serialized(set)) == Some(set)
            &&& merged_entries(set, Seq::empty()) == set
        }),
{
    let b = declarations(base)->0;
    let o = declarations(overrides)->0;
    let none = Seq::<EntryView>::empty();
    let set = merged_entries(b, o);
    lemma_declarations_canonical(base);
    lemma_declarations_canonical(overrides);
    lemma_overlay_canonical(none, b);
    lemma_overlay_canonical(overlay(none, b), o);
    lemma_reparse_all(set);
    lemma_merged_value(b, o, Seq::empty());
    lemma_overlay_of_distinct(set);
}

/// What is read from a line without line feeds holds none.
pub proof fn lemma_parsed_on_one_line(line: Seq<char>)
    requires
        parse_declaration(line) is Some,
        !line.contains('\n'),
    ensures
        on_one_line(parse_declaration(line)->0),
{
    let rest = line.skip(declaration_prefix().len() as int);
    let close = first_index(rest, ')');
    let body = rest.take(close as int);
    let comma = first_index(body, ',');
    lemma_first_index(rest, ')');
    lemma_first_index(body, ',');
    let raw_key = body.take(comma as int);
    let raw_value = body.skip(comma as int + 1);
    lemma_trimmed(raw_key, true);
    lemma_trimmed(raw_value, false);
    assert(!body.contains('\n')) by {
        if body.contains('\n') {
            let i = choose|i: int| 0 <= i < body.len() && body[i] == '\n';
            assert(rest[i] == '\n');
            assert(line[i + declaration_prefix().len()] == '\n');
        }
    }
    assert(!raw_key.contains('\n')) by {
        if raw_key.contains('\n') {
            let i = choose|i: int| 0 <= i < raw_key.len() && raw_key[i] == '\n';
            assert(body[i] == '\n');
        }
    }
    assert(!raw_value.contains('\n')) by {
        if raw_value.contains('\n') {
            let i = choose|i: int| 0 <= i < raw_value.len() && raw_value[i] == '\n';
            assert(body[i + comma + 1] == '\n');
        }
    }
}

/// What is read from lines without line feeds holds none.
pub proof fn lemma_declarations_on_one_line(ls: Seq<Seq<char>>)
    requires
        declarations(ls) is Some,
        single_lines(ls),
    ensures
        all_on_one_line(declarations(ls)->0),
    decreases ls.len(),
{
    if ls.len() > 0 {
        let front = ls.drop_last();
        assert forall|i: int| 0 <= i < front.len() implies !(#[trigger] front[i]).contains(
            '\n',
        ) by {
            assert(front[i] == ls[i]);
        }
        lemma_declarations_on_one_line(front);
        if is_declaration(ls.last()) {
            lemma_parsed_on_one_line(ls.last());
        }
    }
}

/// Putting declarations on one line into a set of such entries leaves them
/// on one line.
pub proof fn lemma_overlay_on_one_line(entries: Seq<EntryView>, decls: Seq<EntryView>)
    requires
        all_on_one_line(entries),
        all_on_one_line(decls),
    ensures
        all_on_one_line(overlay(entries, decls)),
    decreases decls.len(),
{
    if decls.len() > 0 {
        let front = decls.drop_last();
        assert forall|i: int| 0 <= i < front.len() implies on_one_line(#[trigger] front[i]) by {
            assert(front[i] == decls[i]);
        }
        lemma_overlay_on_one_line(entries, front);
        lemma_first_index(keys(overlay(entries, front)), decls.last().key);
    }
}

/// The declaration line of an entry on one line holds no line feed, and
/// does not end with a carriage return.
pub proof fn lemma_serialize_on_one_line(e: EntryView)
    requires
        on_one_line(e),
    ensures
        !serialize(e).contains('\n'),
        strip_cr(serialize(e)) == serialize(e),
{
    reveal_strlit("user_pref(\"");
    reveal_strlit("\", ");
    reveal_strlit(");");
    let line = serialize(e);
    let a = 11 + e.key.len();
    let b = a + 3 + e.value.len();
    assert(line.len() == b + 2);
    assert(line.last() == ';');
    if line.contains('\n') {
        let i = choose|i: int| 0 <= i < line.len() && line[i] == '\n';
        if 11 <= i < a {
            assert(line[i] == e.key[i - 11]);
        } else if a + 3 <= i < b {
            assert(line[i] == e.value[i - a - 3]);
        }
    }
}

/// The declarations among two runs of lines are those of the first run
/// followed by those of the second.
pub proof fn lemma_declarations_concat(front: Seq<Seq<char>>, back: Seq<Seq<char>>)
    ensures
        declarations(front + back) == match (declarations(front), declarations(back)) {
            (Some(f), Some(b)) => Some(f + b),
            _ => None,
        },
    decreases back.len(),
{
    if back.len() == 0 {
        assert(front + back =~= front);
        if declarations(front) is Some {
            let f = declarations(front)->0;
            assert(f + Seq::<EntryView>::empty() =~= f);
        }
    } else {
        let all = front + back;
        assert(all.drop_last() =~= front + back.drop_last());
        assert(all.last() == back.last());
        lemma_declarations_concat(front, back.drop_last());
        if declarations(front) is Some && declarations(back) is Some {
            let f = declarations(front)->0;
            let b = declarations(back.drop_last())->0;
            if is_declaration(back.last()) {
                let e = parse_declaration(back.last())->0;
                assert((f + b).push(e) =~= f + b.push(e));
            }
        }
    }
}

/// A trailing carriage return does not change what a declaration line
/// declares, nor make a declaration of a line that is none.
pub proof fn lemma_parse_ignores_cr(line: Seq<char>)
    ensures
        !is_declaration(line) ==> !is_declaration(strip_cr(line)),
        parse_declaration(line) is Some ==> is_declaration(strip_cr(line)) && parse_declaration(
            strip_cr(line),
        ) == parse_declaration(line),
{
    if line.len() > 0 && line.last() == '\r' {
        let short = line.drop_last();
        let n = declaration_prefix().len() as int;
        if is_declaration(short) {
            assert(line.subrange(0, n) =~= short.subrange(0, n));
        }
        if parse_declaration(line) is Some {
            let rest = line.skip(n);
            let close = first_index(rest, ')');
            lemma_first_index(rest, ')');
            assert(rest.last() == '\r');
            assert(close < rest.len() - 1);
            assert(line.subrange(0, n) =~= short.subrange(0, n));
            let short_rest = short.skip(n);
            assert(short_rest =~= rest.drop_last());
            lemma_first_index_unique(short_rest, ')', close as int);
            assert(short_rest.take(close as int) =~= rest.take(close as int));
        }
    }
}

/// Trailing carriage returns do not change what lines declare.
pub proof fn lemma_declarations_ignore_cr(ls: Seq<Seq<char>>)
    requires
        declarations(ls) is Some,
    ensures
        declarations(without_cr(ls)) == declarations(ls),
    decreases ls.len(),
{
    if ls.len() > 0 {
        assert(without_cr(ls).drop_last() =~= without_cr(ls.drop_last()));
        lemma_declarations_ignore_cr(ls.drop_last());
        lemma_parse_ignores_cr(ls.last());
    } else {
        assert(without_cr(ls) =~= ls);
    }
}

/// Parts without line feeds, joined with line feeds and split into lines
/// again, declare what they declared.
pub proof fn lemma_declarations_of_joined(parts: Seq<Seq<char>>)
    requires
        parts.len() >= 1,
        single_lines(parts),
        declarations(parts) is Some,
    ensures
        declarations(lines(join(parts, "\n"@))) == declarations(parts),
{
    reveal_strlit("user_pref(");
    let front = parts.drop_last();
    let last = parts.last();
    lemma_lines_of_join(parts);
    lemma_declarations_ignore_cr(front);
    assert(without_cr(front).push(last).drop_last() =~= without_cr(front));
}

/// In all the declarations of two runs, a key has the value that the second
/// run gives it, and where that gives none, the value that the first run
/// gives it.
pub proof fn lemma_value_of_concat(front: Seq<EntryView>, back: Seq<EntryView>, key: Seq<char>)
    ensures
        value_of(front + back, key) == match value_of(back, key) {
            Some(v) => Some(v),
            None => value_of(front, key),
        },
    decreases back.len(),
{
    if back.len() == 0 {
        assert(front + back =~= front);
    } else {
        assert((front + back).drop_last() =~= front + back.drop_last());
        lemma_value_of_concat(front, back.drop_last(), key);
    }
}

/// What a merged script declares, read line by line: the declarations in
/// its banner, then the merged set.
pub proof fn lemma_output_declarations(base: Seq<char>, overrides: Seq<char>)
    requires
        merge(base, overrides) is Some,
    ensures
        ({
            let set = merged_entries(
                declarations(lines(base))->0,
                declarations(lines(overrides))->0,
            );
            let banner = declarations(banner_lines(lines(base)));
            &&& banner is Some
            &&& banner->0.is_prefix_of(declarations(lines(base))->0)
            &&& declarations(lines(merge(base, overrides)->0)) == Some(banner->0 + set)
        }),
{
    reveal_strlit("\n");
    reveal_strlit("\n\n");
    reveal_strlit("user_pref(");
    let feed = "\n"@;
    let ls = lines(base);
    let b = declarations(ls)->0;
    let o = declarations(lines(overrides))->0;
    let set = merged_entries(b, o);
    let top = banner_lines(ls);
    let below = ls.skip(top.len() as int);
    let blank = seq![Seq::<char>::empty()];
    let none = Seq::<EntryView>::empty();
    // The banner declares the first of the declarations of the base.
    assert(ls =~= top + below);
    lemma_declarations_concat(top, below);
    let banner = declarations(top)->0;
    assert(banner =~= b.subrange(0, banner.len() as int));
    // The declaration lines declare the merged set.
    lemma_segments_single_lines(base);
    lemma_segments_single_lines(overrides);
    lemma_declarations_canonical(ls);
    lemma_declarations_canonical(lines(overrides));
    lemma_declarations_on_one_line(ls);
    lemma_declarations_on_one_line(lines(overrides));
    lemma_overlay_canonical(none, b);
    lemma_overlay_canonical(overlay(none, b), o);
    lemma_overlay_on_one_line(none, b);
    lemma_overlay_on_one_line(overlay(none, b), o);
    lemma_reparse_all(set);
    let written = serialized(set);
    assert forall|i: int| 0 <= i < written.len() implies !(#[trigger] written[i]).contains(
        '\n',
    ) by {
        lemma_serialize_on_one_line(set[i]);
    }
    // The merged script is the banner lines, an empty line and the
    // declaration lines, joined.
    let head = or_blank(top) + blank;
    let parts = head + or_blank(written);
    lemma_join_concat(or_blank(top), blank, feed);
    lemma_join_concat(head, or_blank(written), feed);
    let header = join(top, feed);
    let body = join(written, feed);
    assert(join(or_blank(top), feed) == header);
    assert(join(or_blank(written), feed) == body);
    assert(join(blank, feed) =~= Seq::<char>::empty());
    assert(join(head, feed) =~= header + feed);
    assert(join(parts, feed) =~= header + feed + feed + body);
    assert("\n\n"@ =~= feed + feed);
    assert(merge(base, overrides)->0 == header + "\n\n"@ + body);
    assert(join(parts, feed) =~= merge(base, overrides)->0);
    assert forall|i: int| 0 <= i < parts.len() implies !(#[trigger] parts[i]).contains('\n') by {
        if i < top.len() {
            assert(parts[i] == ls[i]);
        }
    }
    // Empty lines declare nothing.
    let no_lines = Seq::<Seq<char>>::empty();
    assert(declarations(no_lines) == Some(none));
    assert(blank.drop_last() =~= no_lines);
    assert(!is_declaration(blank.last()));
    assert(declarations(blank) == Some(none));
    assert(declarations(or_blank(top)) == declarations(top)) by {
        if top.len() == 0 {
            assert(top =~= no_lines);
        }
    }
    assert(declarations(or_blank(written)) == declarations(written)) by {
        if written.len() == 0 {
            assert(written =~= no_lines);
        }
    }
    lemma_declarations_concat(or_blank(top), blank);
    lemma_declarations_concat(head, or_blank(written));
    assert(banner + none + set =~= banner + set);
    lemma_declarations_of_joined(parts);
}

/// A merged script, read line by line as declarations, gives every key the
/// value that it has in the merged set.
pub proof fn lemma_output_declares_merged_set(
    base: Seq<char>,
    overrides: Seq<char>,
    key: Seq<char>,
)
    requires
        merge(base, overrides) is Some,
    ensures
        ({
            let set = merged_entries(
                declarations(lines(base))->0,
                declarations(lines(overrides))->0,
            );
            let read = declarations(lines(merge(base, overrides)->0));
            &&& read is Some
            &&& value_of(read->0, key) == value_of(set, key)
        }),
{
    let b = declarations(lines(base))->0;
    let o = declarations(lines(overrides))->0;
    let banner = declarations(banner_lines(lines(base)))->0;
    lemma_output_declarations(base, overrides);
    lemma_value_of_concat(banner, merged_entries(b, o), key);
    lemma_merged_value(b, o, key);
    let rest = b.skip(banner.len() as int);
    assert(b =~= banner + rest);
    lemma_value_of_concat(banner, rest, key);
}

} // verus!
