//! The preference merge engine.
//!
//! A profile script declares preferences on lines of the form
//! `user_pref("<key>", <value>);`. Merging keeps the banner of the base
//! script, collects the declarations of the base and of the overrides into one
//! set in which a later declaration of a key replaces the earlier value, and
//! writes the set back out, one declaration per line, in the order in which
//! the keys first appeared. A line that begins like a declaration and has no
//! closing parenthesis, or no comma before it, fails the whole merge.

use vstd::prelude::*;
use vstd::string::StringExecFns;
use crate::error::{ErrorView, UpdaterError};
use crate::text::{
    append_chars, chars_of, copy_range, find_char, first_index, join, join_first,
    lemma_first_index, lemma_first_index_unique, lines, matches_at, split_lines, starts_with,
    string_of, trim, trimmed, views,
};

verus! {

/// Number of leading lines of the base script that a merge keeps as they are.
pub const HEADER_LINES: usize = 76;

/// One preference: its key, and its value as the raw text of the expression.
#[derive(Debug)]
pub struct PreferenceEntry {
    pub key: String,
    pub value: String,
}

/// A `PreferenceEntry` with its texts as character sequences.
pub struct EntryView {
    pub key: Seq<char>,
    pub value: Seq<char>,
}

impl View for PreferenceEntry {
    type V = EntryView;

    open spec fn view(&self) -> EntryView {
        EntryView { key: self.key@, value: self.value@ }
    }
}

/// How a declaration line begins.
pub open spec fn declaration_prefix() -> Seq<char> {
    "user_pref("@
}

/// `line` begins like a declaration.
pub open spec fn is_declaration(line: Seq<char>) -> bool {
    starts_with(line, declaration_prefix())
}

/// What stands between the prefix of a declaration and the first closing
/// parenthesis after it; `None` when `line` does not begin like a declaration
/// or has no closing parenthesis.
pub open spec fn declaration_body(line: Seq<char>) -> Option<Seq<char>> {
    let rest = line.skip(declaration_prefix().len() as int);
    let close = first_index(rest, ')');
    if is_declaration(line) && close < rest.len() {
        Some(rest.take(close as int))
    } else {
        None
    }
}

/// The preference that `line` declares. The body is split at its first comma:
/// the key is what stands before it, without surrounding white space and
/// double quotes; the value is all that follows, without surrounding white
/// space. `None` when there is no body or no comma in it.
pub open spec fn parse_declaration(line: Seq<char>) -> Option<EntryView> {
    match declaration_body(line) {
        None => None,
        Some(body) => {
            let comma = first_index(body, ',');
            if comma < body.len() {
                Some(
                    EntryView {
                        key: trimmed(body.take(comma as int), true),
                        value: trimmed(body.skip(comma as int + 1), false),
                    },
                )
            } else {
                None
            }
        },
    }
}

/// The declaration line for `e`.
pub open spec fn serialize(e: EntryView) -> Seq<char> {
    "user_pref(\""@ + e.key + "\", "@ + e.value + ");"@
}

/// The declaration lines for `entries`, in order.
pub open spec fn serialized(entries: Seq<EntryView>) -> Seq<Seq<char>> {
    entries.map_values(|e: EntryView| serialize(e))
}

/// The preferences that the declaration lines among `ls` declare, in order;
/// `None` when one of those lines is malformed.
pub open spec fn declarations(ls: Seq<Seq<char>>) -> Option<Seq<EntryView>>
    decreases ls.len(),
{
    if ls.len() == 0 {
        Some(Seq::empty())
    } else {
        match declarations(ls.drop_last()) {
            None => None,
            Some(found) => {
                if !is_declaration(ls.last()) {
                    Some(found)
                } else {
                    match parse_declaration(ls.last()) {
                        Some(e) => Some(found.push(e)),
                        None => None,
                    }
                }
            },
        }
    }
}

/// The keys of `entries`, in order.
pub open spec fn keys(entries: Seq<EntryView>) -> Seq<Seq<char>> {
    entries.map_values(|e: EntryView| e.key)
}

/// `entries` with `e` put in: in the place of the first entry with the key of
/// `e` if there is one, else at the end.
pub open spec fn upsert(entries: Seq<EntryView>, e: EntryView) -> Seq<EntryView> {
    let i = first_index(keys(entries), e.key);
    if i < entries.len() {
        entries.update(i as int, e)
    } else {
        entries.push(e)
    }
}

/// `entries` with the `decls` put in one after the other.
pub open spec fn overlay(entries: Seq<EntryView>, decls: Seq<EntryView>) -> Seq<EntryView>
    decreases decls.len(),
{
    if decls.len() == 0 {
        entries
    } else {
        upsert(overlay(entries, decls.drop_last()), decls.last())
    }
}

/// The value that `entries` gives to `key`: that of the last entry with the
/// key.
pub open spec fn value_of(entries: Seq<EntryView>, key: Seq<char>) -> Option<Seq<char>>
    decreases entries.len(),
{
    if entries.len() == 0 {
        None
    } else if entries.last().key == key {
        Some(entries.last().value)
    } else {
        value_of(entries.drop_last(), key)
    }
}

/// The set that merging the declarations `base` and `overrides` gives.
pub open spec fn merged_entries(base: Seq<EntryView>, overrides: Seq<EntryView>) -> Seq<
    EntryView,
> {
    overlay(overlay(Seq::empty(), base), overrides)
}

/// The lines of the banner of a script with the lines `ls`.
pub open spec fn banner_lines(ls: Seq<Seq<char>>) -> Seq<Seq<char>> {
    ls.take(
        if ls.len() < HEADER_LINES {
            ls.len() as int
        } else {
            HEADER_LINES as int
        },
    )
}

/// The banner of a script with the lines `ls`: its first `HEADER_LINES`
/// lines, or all of them if there are fewer, with a line feed between each
/// two.
pub open spec fn header_block(ls: Seq<Seq<char>>) -> Seq<char> {
    join(banner_lines(ls), "\n"@)
}

/// A merged script: the banner, an empty line, and the declaration lines of
/// `entries` with a line feed between each two.
pub open spec fn render(header: Seq<char>, entries: Seq<EntryView>) -> Seq<char> {
    header + "\n\n"@ + join(serialized(entries), "\n"@)
}

/// The script that merging `overrides` into `base` gives; `None` when a
/// declaration line of either is malformed.
pub open spec fn merge(base: Seq<char>, overrides: Seq<char>) -> Option<Seq<char>> {
    match (declarations(lines(base)), declarations(lines(overrides))) {
        (Some(b), Some(o)) => Some(render(header_block(lines(base)), merged_entries(b, o))),
        _ => None,
    }
}

/// What a merge reports for a malformed declaration line.
pub open spec fn malformed_declaration() -> ErrorView {
    ErrorView::ParseError("Malformed preference declaration"@)
}

/// The preferences of a script, each key once, in the order in which the keys
/// first appeared.
pub struct PreferenceSet {
    entries: Vec<PreferenceEntry>,
}

impl View for PreferenceSet {
    type V = Seq<EntryView>;

    closed spec fn view(&self) -> Seq<EntryView> {
        self.entries@.map_values(|e: PreferenceEntry| e@)
    }
}

impl PreferenceSet {
    /// No key occurs twice.
    pub open spec fn wf(&self) -> bool {
        keys(self@).no_duplicates()
    }

    /// The empty set.
    pub fn new() -> (r: PreferenceSet)
        ensures
            r.wf(),
            r@ == Seq::<EntryView>::empty(),
    {
        let r = PreferenceSet { entries: Vec::new() };
        r
    }

    /// Number of preferences in the set.
    pub fn len(&self) -> (r: usize)
        ensures
            r == self@.len(),
    {
        self.entries.len()
    }

    /// The preference at place `i`.
    pub fn entry(&self, i: usize) -> (r: &PreferenceEntry)
        requires
            i < self@.len(),
        ensures
            r@ == self@[i as int],
    {
        &self.entries[i]
    }

    /// The place of the entry with `key`, or the size of the set when there
    /// is none.
    fn place_of(&self, key: &String) -> (r: usize)
        ensures
            r == first_index(keys(self@), key@),
            r <= self@.len(),
    {
        let mut i: usize = 0;
        while i < self.entries.len() && !(self.entries[i].key == *key)
            invariant
                i <= self.entries.len(),
                forall|j: int| 0 <= j < i ==> keys(self@)[j] != key@,
            decreases self.entries.len() - i,
        {
            i += 1;
        }
        proof {
            lemma_first_index_unique(keys(self@), key@, i as int);
        }
        i
    }

    /// Gives `key` the value `value`: in place if the set has the key, else
    /// as a new last entry.
    pub fn insert(&mut self, key: String, value: String)
        requires
            old(self).wf(),
        ensures
            final(self).wf(),
            final(self)@ == upsert(old(self)@, EntryView { key: key@, value: value@ }),
    {
        let i = self.place_of(&key);
        let ghost e = EntryView { key: key@, value: value@ };
        let ghost before = self@;
        proof {
            lemma_upsert_distinct(before, e);
        }
        if i < self.entries.len() {
            self.entries.set(i, PreferenceEntry { key, value });
            proof {
                assert(self@ =~= before.update(i as int, e));
            }
        } else {
            self.entries.push(PreferenceEntry { key, value });
            proof {
                assert(self@ =~= before.push(e));
            }
        }
    }

    /// The value that the set gives to `key`.
    pub fn get(&self, key: &String) -> (r: Option<&String>)
        requires
            self.wf(),
        ensures
            match r {
                Some(v) => value_of(self@, key@) == Some(v@),
                None => value_of(self@, key@) is None,
            },
    {
        let i = self.place_of(key);
        proof {
            lemma_first_index(keys(self@), key@);
            lemma_value_of_distinct(self@, key@);
        }
        if i < self.entries.len() {
            Some(&self.entries[i].value)
        } else {
            None
        }
    }

    /// The declaration lines of the set, in order.
    fn to_lines(&self) -> (r: Vec<Vec<char>>)
        ensures
            views(r@) == serialized(self@),
    {
        let mut out: Vec<Vec<char>> = Vec::new();
        let mut i: usize = 0;
        while i < self.entries.len()
            invariant
                i <= self.entries.len(),
                out.len() == i,
                views(out@) == serialized(self@).take(i as int),
            decreases self.entries.len() - i,
        {
            let line = serialize_entry(&self.entries[i]);
            out.push(line);
            i += 1;
        }
        out
    }

    /// The declaration lines of the set, with a line feed between each two.
    pub fn render(&self) -> (r: String)
        ensures
            r@ == join(serialized(self@), "\n"@),
    {
        let ls = self.to_lines();
        let feed = chars_of("\n");
        let body = join_first(&ls, ls.len(), &feed);
        proof {
            assert(views(ls@).take(ls.len() as int) =~= views(ls@));
        }
        string_of(&body)
    }
}

/// The declaration line for `e`.
fn serialize_entry(e: &PreferenceEntry) -> (r: Vec<char>)
    ensures
        r@ == serialize(e@),
{
    let mut out = chars_of("user_pref(\"");
    let key = chars_of(e.key.as_str());
    append_chars(&mut out, &key);
    let middle = chars_of("\", ");
    append_chars(&mut out, &middle);
    let value = chars_of(e.value.as_str());
    append_chars(&mut out, &value);
    let end = chars_of(");");
    append_chars(&mut out, &end);
    out
}

/// The error for a malformed declaration line.
fn malformed() -> (r: UpdaterError)
    ensures
        r@ == malformed_declaration(),
{
    UpdaterError::ParseError(String::from_str("Malformed preference declaration"))
}

/// The key and the value that `line` declares.
fn parse_line(line: &Vec<char>) -> (r: Option<(Vec<char>, Vec<char>)>)
    ensures
        match r {
            Some((key, value)) => parse_declaration(line@) == Some(
                EntryView { key: key@, value: value@ },
            ),
            None => parse_declaration(line@) is None,
        },
{
    let prefix = chars_of("user_pref(");
    if !matches_at(line, &prefix, 0) {
        return None;
    }
    let start: usize = prefix.len();
    let close = find_char(line, start, ')');
    if close >= line.len() {
        return None;
    }
    let body = copy_range(line, start, close);
    proof {
        assert(line@.skip(start as int).take(close - start) =~= body@);
        assert(body@.skip(0) =~= body@);
    }
    let comma = find_char(&body, 0, ',');
    if comma >= body.len() {
        return None;
    }
    let raw_key = copy_range(&body, 0, comma);
    let raw_value = copy_range(&body, comma + 1, body.len());
    Some((trim(&raw_key, true), trim(&raw_value, false)))
}

/// Reads one declaration line.
///
/// Returns the key and the value when `line` begins with the declaration
/// prefix, has a closing parenthesis after it and a comma before that; else
/// the parse error for a malformed declaration.
pub fn extract_pref(line: &String) -> (r: Result<(String, String), UpdaterError>)
    ensures
        match r {
            Ok((key, value)) => parse_declaration(line@) == Some(
                EntryView { key: key@, value: value@ },
            ),
            Err(e) => parse_declaration(line@) is None && e@ == malformed_declaration(),
        },
{
    let chars = chars_of(line.as_str());
    match parse_line(&chars) {
        Some((key, value)) => Ok((string_of(&key), string_of(&value))),
        None => Err(malformed()),
    }
}

/// Puts the declarations among `ls` into `set`, in order. Returns whether
/// all of them were well formed; on `false` the set holds those that came
/// before the first malformed one.
fn collect(set: &mut PreferenceSet, ls: &Vec<Vec<char>>) -> (ok: bool)
    requires
        old(set).wf(),
    ensures
        final(set).wf(),
        ok == declarations(views(ls@)) is Some,
        ok ==> final(set)@ == overlay(old(set)@, declarations(views(ls@))->0),
{
    let prefix = chars_of("user_pref(");
    let mut i: usize = 0;
    while i < ls.len()
        invariant
            i <= ls.len(),
            set.wf(),
            prefix@ == declaration_prefix(),
            declarations(views(ls@).take(i as int)) is Some,
            set@ == overlay(old(set)@, declarations(views(ls@).take(i as int))->0),
        decreases ls.len() - i,
    {
        let line = &ls[i];
        proof {
            let next = views(ls@).take(i as int + 1);
            assert(next.drop_last() =~= views(ls@).take(i as int));
        }
        if matches_at(line, &prefix, 0) {
            match parse_line(line) {
                Some((key, value)) => {
                    let ghost found = declarations(views(ls@).take(i as int))->0;
                    let ghost e = EntryView { key: key@, value: value@ };
                    proof {
                        assert(found.push(e).drop_last() =~= found);
                    }
                    set.insert(string_of(&key), string_of(&value));
                },
                None => {
                    proof {
                        lemma_declarations_none(views(ls@), i as int + 1);
                    }
                    return false;
                },
            }
        }
        i += 1;
    }
    proof {
        assert(views(ls@).take(i as int) =~= views(ls@));
    }
    true
}

/// Merges the overrides into the base script.
///
/// The result is the banner of `original` (its first `HEADER_LINES` lines),
/// an empty line, and one declaration line for each key that `original` or
/// `overrides` declares, with the value that was declared last, the
/// overrides counting as later. Every other line of either text is left out.
/// Fails with a parse error if and only if a declaration line of either text
/// is malformed.
pub fn minify(original: String, overrides: String) -> (r: Result<String, UpdaterError>)
    ensures
        match r {
            Ok(out) => merge(original@, overrides@) == Some(out@),
            Err(e) => merge(original@, overrides@) is None && e@ == malformed_declaration(),
        },
{
    let base = chars_of(original.as_str());
    let extra = chars_of(overrides.as_str());
    let base_lines = split_lines(&base);
    let extra_lines = split_lines(&extra);
    let mut set = PreferenceSet::new();
    if !collect(&mut set, &base_lines) {
        return Err(malformed());
    }
    if !collect(&mut set, &extra_lines) {
        return Err(malformed());
    }
    let count: usize = if base_lines.len() < HEADER_LINES {
        base_lines.len()
    } else {
        HEADER_LINES
    };
    let feed = chars_of("\n");
    let mut out = join_first(&base_lines, count, &feed);
    let gap = chars_of("\n\n");
    append_chars(&mut out, &gap);
    let ls = set.to_lines();
    proof {
        assert(views(ls@).take(ls.len() as int) =~= views(ls@));
    }
    let body = join_first(&ls, ls.len(), &feed);
    append_chars(&mut out, &body);
    Ok(string_of(&out))
}

/// Putting an entry into a set whose keys differ leaves the keys different.
pub proof fn lemma_upsert_distinct(entries: Seq<EntryView>, e: EntryView)
    requires
        keys(entries).no_duplicates(),
    ensures
        keys(upsert(entries, e)).no_duplicates(),
        upsert(entries, e).len() >= entries.len(),
{
    lemma_first_index(keys(entries), e.key);
    let i = first_index(keys(entries), e.key);
    if i < entries.len() {
        assert(keys(entries.update(i as int, e)) =~= keys(entries));
    } else {
        assert(keys(entries.push(e)) =~= keys(entries).push(e.key));
    }
}

/// In a set whose keys differ, a key has the value of the first entry with
/// it, and none when no entry has it.
pub proof fn lemma_value_of_distinct(entries: Seq<EntryView>, key: Seq<char>)
    requires
        keys(entries).no_duplicates(),
    ensures
        first_index(keys(entries), key) < entries.len() ==> value_of(entries, key) == Some(
            entries[first_index(keys(entries), key) as int].value,
        ),
        first_index(keys(entries), key) >= entries.len() ==> value_of(entries, key) is None,
    decreases entries.len(),
{
    lemma_first_index(keys(entries), key);
    let i = first_index(keys(entries), key);
    if entries.len() > 0 {
        let front = entries.drop_last();
        assert(keys(front) =~= keys(entries).drop_last());
        lemma_value_of_distinct(front, key);
        lemma_first_index(keys(front), key);
        let last = entries.len() - 1;
        if entries.last().key == key {
            assert(keys(entries)[last] == key);
        } else if i < last {
            lemma_first_index_unique(keys(front), key, i as int);
        } else {
            lemma_first_index_unique(keys(front), key, front.len() as int);
        }
    }
}

/// Once a prefix of the lines holds a malformed declaration, so do all the
/// lines.
proof fn lemma_declarations_none(ls: Seq<Seq<char>>, n: int)
    requires
        0 <= n <= ls.len(),
        declarations(ls.take(n)) is None,
    ensures
        declarations(ls) is None,
    decreases ls.len() - n,
{
    if n < ls.len() {
        assert(ls.take(n + 1).drop_last() =~= ls.take(n));
        lemma_declarations_none(ls, n + 1);
    } else {
        assert(ls.take(n) =~= ls);
    }
}

} // verus!
