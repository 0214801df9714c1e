//! The identity header at the top of a profile script.
//!
//! The header is the first four lines of the script: a line that opens the
//! comment, then one line each for the name, the date and the version.

use vstd::prelude::*;
use vstd::string::StringExecFns;
use crate::error::{ErrorView, UpdaterError};
use crate::text::{
    after_marker, chars_of, contains_text, copy_range, find, segments, split_segments, string_of,
    views,
};
use crate::text_laws::{lemma_after_marker, lemma_concat_lacks, lemma_segments_first};

verus! {

/// The identity of a profile script, as its header states it.
#[derive(Debug)]
pub struct Version {
    pub name: String,
    pub version: String,
    pub date: String,
}

/// A `Version` with its fields as character sequences.
pub struct VersionView {
    pub name: Seq<char>,
    pub version: Seq<char>,
    pub date: Seq<char>,
}

impl View for Version {
    type V = VersionView;

    open spec fn view(&self) -> VersionView {
        VersionView { name: self.name@, version: self.version@, date: self.date@ }
    }
}

/// What comes before the name on the second line.
pub open spec fn name_marker() -> Seq<char> {
    "name: "@
}

/// What comes before the date on the third line.
pub open spec fn date_marker() -> Seq<char> {
    "date: "@
}

/// What comes before the version on the fourth line.
pub open spec fn version_marker() -> Seq<char> {
    "version "@
}

/// The word by which a script of the expected family is recognized.
pub open spec fn family_token() -> Seq<char> {
    "ghacks"@
}

/// A record is recognized when its name holds the family token.
pub open spec fn recognized(v: VersionView) -> bool {
    contains_text(v.name, family_token())
}

/// Item `k` of `segs`, counted from 0; empty when there is no such item.
pub open spec fn line_at(segs: Seq<Seq<char>>, k: int) -> Seq<char> {
    if 0 <= k < segs.len() {
        segs[k]
    } else {
        Seq::empty()
    }
}

/// Line `k` of the header, counted from 0, without its line feed; empty when
/// the text has no such line.
pub open spec fn header_line(text: Seq<char>, k: int) -> Seq<char> {
    line_at(segments(text), k)
}

/// The name that the header of `text` states: what follows the marker on the
/// second line.
pub open spec fn header_name(text: Seq<char>) -> Option<Seq<char>> {
    after_marker(header_line(text, 1), name_marker())
}

/// The date that the header of `text` states.
pub open spec fn header_date(text: Seq<char>) -> Option<Seq<char>> {
    after_marker(header_line(text, 2), date_marker())
}

/// The version that the header of `text` states.
pub open spec fn header_version(text: Seq<char>) -> Option<Seq<char>> {
    after_marker(header_line(text, 3), version_marker())
}

/// The header of `text` has its three markers, each on its line.
pub open spec fn well_formed_header(text: Seq<char>) -> bool {
    &&& header_name(text) is Some
    &&& header_date(text) is Some
    &&& header_version(text) is Some
}

/// What reading the header of `text` gives: the record, or the reason why
/// there is none. A missing marker is reported before an unrecognized name,
/// and the markers in the order of their lines.
pub open spec fn parse_header(text: Seq<char>) -> Result<VersionView, ErrorView> {
    if header_name(text) is None {
        Err(ErrorView::ParseError("Name marker not found"@))
    } else if header_date(text) is None {
        Err(ErrorView::ParseError("Date marker not found"@))
    } else if header_version(text) is None {
        Err(ErrorView::ParseError("Version marker not found"@))
    } else if !contains_text(header_name(text)->0, family_token()) {
        Err(ErrorView::ParseError("Version not recognized"@))
    } else {
        Ok(
            VersionView {
                name: header_name(text)->0,
                version: header_version(text)->0,
                date: header_date(text)->0,
            },
        )
    }
}

/// A result of reading a header, with its texts as character sequences.
pub open spec fn outcome_view(r: Result<Version, UpdaterError>) -> Result<VersionView, ErrorView> {
    match r {
        Ok(v) => Ok(v@),
        Err(e) => Err(e@),
    }
}

impl Version {
    /// The record on one line: the name, a colon, the version, the word
    /// "from" and the date.
    pub open spec fn spec_describe(v: VersionView) -> Seq<char> {
        v.name + ": "@ + v.version + " from "@ + v.date
    }

    /// The record on one line, as it is shown to the user.
    pub fn describe(&self) -> (r: String)
        ensures
            r@ == Self::spec_describe(self@),
    {
        let mut r = self.name.clone();
        r.append(": ");
        r.append(self.version.as_str());
        r.append(" from ");
        r.append(self.date.as_str());
        r
    }
}

impl Clone for Version {
    fn clone(&self) -> (r: Version)
        ensures
            r@ == self@,
    {
        Version {
            name: self.name.clone(),
            version: self.version.clone(),
            date: self.date.clone(),
        }
    }
}

impl PartialEq for Version {
    fn eq(&self, other: &Version) -> (r: bool) {
        self.name == other.name && self.version == other.version && self.date == other.date
    }
}

impl vstd::std_specs::cmp::PartialEqSpecImpl for Version {
    open spec fn obeys_eq_spec() -> bool {
        true
    }

    open spec fn eq_spec(&self, other: &Version) -> bool {
        self@ == other@
    }
}

/// A header of four lines, each with its marker and the name with the family
/// token, is read as the record of what follows the three markers. The
/// script may end with the fourth line or go on after it.
pub proof fn lemma_header_is_read(
    opening: Seq<char>,
    name_line: Seq<char>,
    date_line: Seq<char>,
    version_line: Seq<char>,
    rest: Seq<char>,
)
    requires
        !opening.contains('\n'),
        !name_line.contains('\n'),
        !date_line.contains('\n'),
        !version_line.contains('\n'),
        after_marker(name_line, name_marker()) is Some,
        after_marker(date_line, date_marker()) is Some,
        after_marker(version_line, version_marker()) is Some,
        contains_text(after_marker(name_line, name_marker())->0, family_token()),
    ensures
        ({
            let head = opening + "\n"@ + name_line + "\n"@ + date_line + "\n"@ + version_line;
            let record = VersionView {
                name: after_marker(name_line, name_marker())->0,
                version: after_marker(version_line, version_marker())->0,
                date: after_marker(date_line, date_marker())->0,
            };
            &&& parse_header(head) == Ok::<VersionView, ErrorView>(record)
            &&& parse_header(head + "\n"@ + rest) == Ok::<VersionView, ErrorView>(record)
        }),
{
    let feed = "\n"@;
    let head = opening + feed + name_line + feed + date_line + feed + version_line;
    let long = head + feed + rest;
    lemma_segments_first(version_line, rest);
    lemma_segments_first(date_line, version_line);
    lemma_segments_first(date_line, version_line + feed + rest);
    lemma_segments_first(name_line, date_line + feed + version_line);
    lemma_segments_first(name_line, date_line + feed + (version_line + feed + rest));
    lemma_segments_first(opening, name_line + feed + (date_line + feed + version_line));
    lemma_segments_first(
        opening,
        name_line + feed + (date_line + feed + (version_line + feed + rest)),
    );
    assert(head =~= opening + feed + (name_line + feed + (date_line + feed + version_line)));
    assert(long =~= opening + feed + (name_line + feed + (date_line + feed + (version_line + feed
        + rest))));
}

/// The three fields are what follows the three markers: a header whose
/// second, third and fourth line each hold some text, the marker and the
/// field, where the marker stands no earlier on the line, and whose name
/// holds the family token, is read as the record of the three fields.
pub proof fn lemma_fields_follow_markers(
    opening: Seq<char>,
    before_name: Seq<char>,
    name: Seq<char>,
    before_date: Seq<char>,
    date: Seq<char>,
    before_version: Seq<char>,
    version: Seq<char>,
    rest: Seq<char>,
)
    requires
        !opening.contains('\n'),
        !before_name.contains('\n') && !name.contains('\n'),
        !before_date.contains('\n') && !date.contains('\n'),
        !before_version.contains('\n') && !version.contains('\n'),
        !contains_text(before_name + name_marker().drop_last(), name_marker()),
        !contains_text(before_date + date_marker().drop_last(), date_marker()),
        !contains_text(before_version + version_marker().drop_last(), version_marker()),
        contains_text(name, family_token()),
    ensures
        parse_header(
            opening + "\n"@ + (before_name + name_marker() + name) + "\n"@ + (before_date
                + date_marker() + date) + "\n"@ + (before_version + version_marker() + version)
                + "\n"@ + rest,
        ) == Ok::<VersionView, ErrorView>(VersionView { name, version, date }),
{
    reveal_strlit("name: ");
    reveal_strlit("date: ");
    reveal_strlit("version ");
    let name_line = before_name + name_marker() + name;
    let date_line = before_date + date_marker() + date;
    let version_line = before_version + version_marker() + version;
    lemma_concat_lacks(before_name, name_marker(), '\n');
    lemma_concat_lacks(before_name + name_marker(), name, '\n');
    lemma_concat_lacks(before_date, date_marker(), '\n');
    lemma_concat_lacks(before_date + date_marker(), date, '\n');
    lemma_concat_lacks(before_version, version_marker(), '\n');
    lemma_concat_lacks(before_version + version_marker(), version, '\n');
    lemma_after_marker(before_name, name_marker(), name);
    lemma_after_marker(before_date, date_marker(), date);
    lemma_after_marker(before_version, version_marker(), version);
    lemma_header_is_read(opening, name_line, date_line, version_line, rest);
}

/// A header whose name lacks the family token gives no record: reading it
/// fails, and where the three markers are there, with the error for an
/// unrecognized version.
pub proof fn lemma_unrecognized_is_rejected(text: Seq<char>)
    requires
        header_name(text) is Some ==> !contains_text(header_name(text)->0, family_token()),
    ensures
        parse_header(text) is Err,
        well_formed_header(text) ==> parse_header(text) == Err::<VersionView, ErrorView>(
            ErrorView::ParseError("Version not recognized"@),
        ),
{
}

/// Whatever is read has all three markers and a recognized name.
pub proof fn lemma_read_is_recognized(text: Seq<char>)
    requires
        parse_header(text) is Ok,
    ensures
        well_formed_header(text),
        recognized(parse_header(text)->Ok_0),
{
}

/// What follows the leftmost `marker` on line `k` of the header.
fn header_field(segs: &Vec<Vec<char>>, k: usize, marker: &str) -> (r: Option<Vec<char>>)
    ensures
        match r {
            Some(field) => after_marker(line_at(views(segs@), k as int), marker@) == Some(field@),
            None => after_marker(line_at(views(segs@), k as int), marker@) is None,
        },
{
    let pat = chars_of(marker);
    let empty: Vec<char> = Vec::new();
    let line: &Vec<char> = if k < segs.len() {
        &segs[k]
    } else {
        &empty
    };
    match find(line, &pat) {
        Some(i) => {
            let end: usize = line.len();
            Some(copy_range(line, i + pat.len(), end))
        },
        None => None,
    }
}

/// Reads the header of a profile script.
///
/// Returns the record when the second, third and fourth line hold their
/// markers and the name holds the family token; each field is what follows
/// the leftmost marker on its line. Otherwise returns the parse error that
/// `parse_header` names.
pub fn get_version_info(text: &str) -> (r: Result<Version, UpdaterError>)
    ensures
        outcome_view(r) == parse_header(text@),
        r is Ok ==> recognized(r->Ok_0@),
{
    let chars = chars_of(text);
    let segs = split_segments(&chars);
    let name = match header_field(&segs, 1, "name: ") {
        Some(field) => field,
        None => {
            return Err(UpdaterError::ParseError(String::from_str("Name marker not found")));
        },
    };
    let date = match header_field(&segs, 2, "date: ") {
        Some(field) => field,
        None => {
            return Err(UpdaterError::ParseError(String::from_str("Date marker not found")));
        },
    };
    let version = match header_field(&segs, 3, "version ") {
        Some(field) => field,
        None => {
            return Err(UpdaterError::ParseError(String::from_str("Version marker not found")));
        },
    };
    let token = chars_of("ghacks");
    if find(&name, &token).is_none() {
        return Err(UpdaterError::ParseError(String::from_str("Version not recognized")));
    }
    Ok(Version { name: string_of(&name), version: string_of(&version), date: string_of(&date) })
}

} // verus!
