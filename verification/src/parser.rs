//! The parser of unified diffs, the `unidiff` crate, as this crate sees it.
//!
//! A parsed diff is a value of the parser's own type. What it holds is read
//! through the functions below, one call of the parser each. Their contracts
//! are taken from the parser's source and are not proved here. Each function
//! that picks a file, a hunk or a line by its index asks for an index in
//! range, since the parser's indexing panics on any other.

use vstd::prelude::*;
use crate::error::{ParseError, ParseFailure};
use crate::guard::{has_hunk_mark, readable};
use crate::hunk::{FileModel, LineKind};
use crate::text::is_single_line;

verus! {

/// A parsed diff, as the parser holds it.
#[verifier::external_type_specification]
#[verifier::external_body]
pub struct ExPatchSet(unidiff::PatchSet);

/// The files of a parsed diff in their order, each with its hunks. A line of
/// a hunk counts as a context line where the parser's `is_context` says so,
/// as a removed line where its `is_removed` says so, and as an added line
/// otherwise.
pub uninterp spec fn patch_files(patch: unidiff::PatchSet) -> Seq<FileModel>;

/// What the parser makes of a diff: the files it finds, or the reason for
/// which it gives the diff back.
pub uninterp spec fn parse_outcome(diff: Seq<char>) -> Result<Seq<FileModel>, ParseFailure>;

/// The parser takes the line for a hunk header. Its pattern asks for the
/// mark `@@ -`, a number, perhaps a comma and a number, ` +`, a number,
/// perhaps a comma and a number, and ` @@`; what counts as a digit of a
/// number is the parser's own matter.
pub uninterp spec fn parser_header(line: Seq<char>) -> bool;

/// What a result of the parser stands for in contracts.
pub open spec fn parsed_model(
    parsed: Result<unidiff::PatchSet, ParseError>,
) -> Result<Seq<FileModel>, ParseFailure> {
    match parsed {
        Ok(patch) => Ok(patch_files(patch)),
        Err(error) => Err(error@),
    }
}

/// `unidiff::PatchSet::new` followed by `unidiff::PatchSet::parse` on one
/// line that begins with the hunk mark. No file is open on a fresh patch
/// set, so the parser gives the line back as an unexpected hunk if it takes
/// it for a hunk header, before it reads a number, and passes it over if
/// not. A line with the hunk mark is no file header, and a single line
/// brings no other line with it.
#[verifier::external_body]
pub(crate) fn taken_for_header(line: &str) -> (yes: bool)
    requires
        has_hunk_mark(line@),
        is_single_line(line@),
    ensures
        yes == parser_header(line@),
{
    let mut patch = unidiff::PatchSet::new();
    matches!(patch.parse(line), Err(unidiff::Error::UnexpectedHunk(_)))
}

/// `unidiff::PatchSet::new` followed by `unidiff::PatchSet::parse`: a fresh
/// patch set is filled from the diff, and what comes back depends on the
/// diff alone. The parser panics in three places. At a target header it
/// unwraps the name of the source file, which no source header may have
/// set. At a hunk header inside a file it unwraps each number as a `usize`
/// and adds each start and its length. At a line of a hunk it adds one to
/// the number of the line on each side that the line stands for. A readable
/// diff leads it to none of them.
#[verifier::external_body]
pub(crate) fn parse_diff(diff: &str) -> (parsed: Result<unidiff::PatchSet, ParseError>)
    requires
        readable(diff@),
    ensures
        parsed_model(parsed) == parse_outcome(diff@),
{
    let mut patch = unidiff::PatchSet::new();
    match patch.parse(diff) {
        Ok(()) => Ok(patch),
        Err(unidiff::Error::TargetWithoutSource(line)) => Err(ParseError::TargetWithoutSource(line)),
        Err(unidiff::Error::UnexpectedHunk(line)) => Err(ParseError::UnexpectedHunk(line)),
        Err(unidiff::Error::ExpectLine(line)) => Err(ParseError::ExpectLine(line)),
    }
}

/// `unidiff::PatchSet::len`: the number of files.
#[verifier::external_body]
pub(crate) fn file_count(patch: &unidiff::PatchSet) -> (count: usize)
    ensures
        count == patch_files(*patch).len(),
{
    patch.len()
}

/// The field `source_file` of a `unidiff::PatchedFile`: the name of the old
/// file.
#[verifier::external_body]
pub(crate) fn source_name(patch: &unidiff::PatchSet, file: usize) -> (name: String)
    requires
        file < patch_files(*patch).len(),
    ensures
        name@ == patch_files(*patch)[file as int].source_file,
{
    patch[file].source_file.clone()
}

/// The field `target_file` of a `unidiff::PatchedFile`: the name of the new
/// file.
#[verifier::external_body]
pub(crate) fn target_name(patch: &unidiff::PatchSet, file: usize) -> (name: String)
    requires
        file < patch_files(*patch).len(),
    ensures
        name@ == patch_files(*patch)[file as int].target_file,
{
    patch[file].target_file.clone()
}

/// `unidiff::PatchedFile::len`: the number of hunks of a file.
#[verifier::external_body]
pub(crate) fn hunk_count(patch: &unidiff::PatchSet, file: usize) -> (count: usize)
    requires
        file < patch_files(*patch).len(),
    ensures
        count == patch_files(*patch)[file as int].hunks.len(),
{
    patch[file].len()
}

/// The fields `source_start`, `source_length` and `target_start` of a
/// `unidiff::Hunk`, in this order.
#[verifier::external_body]
pub(crate) fn hunk_header(
    patch: &unidiff::PatchSet,
    file: usize,
    hunk: usize,
) -> (header: (usize, usize, usize))
    requires
        file < patch_files(*patch).len(),
        hunk < patch_files(*patch)[file as int].hunks.len(),
    ensures
        header.0 == patch_files(*patch)[file as int].hunks[hunk as int].source_start,
        header.1 == patch_files(*patch)[file as int].hunks[hunk as int].source_length,
        header.2 == patch_files(*patch)[file as int].hunks[hunk as int].target_start,
{
    let found = &patch[file][hunk];
    (found.source_start, found.source_length, found.target_start)
}

/// `unidiff::Hunk::len`: the number of lines of a hunk.
#[verifier::external_body]
pub(crate) fn line_count(patch: &unidiff::PatchSet, file: usize, hunk: usize) -> (count: usize)
    requires
        file < patch_files(*patch).len(),
        hunk < patch_files(*patch)[file as int].hunks.len(),
    ensures
        count == patch_files(*patch)[file as int].hunks[hunk as int].lines.len(),
{
    patch[file][hunk].len()
}

/// `unidiff::Line::is_context`: the line stands in both texts.
#[verifier::external_body]
pub(crate) fn line_is_context(
    patch: &unidiff::PatchSet,
    file: usize,
    hunk: usize,
    line: usize,
) -> (yes: bool)
    requires
        file < patch_files(*patch).len(),
        hunk < patch_files(*patch)[file as int].hunks.len(),
        line < patch_files(*patch)[file as int].hunks[hunk as int].lines.len(),
    ensures
        yes == (patch_files(*patch)[file as int].hunks[hunk as int].lines[line as int].kind
            == LineKind::Context),
{
    patch[file][hunk][line].is_context()
}

/// `unidiff::Line::is_removed`: the line stands in the old text only.
#[verifier::external_body]
pub(crate) fn line_is_removed(
    patch: &unidiff::PatchSet,
    file: usize,
    hunk: usize,
    line: usize,
) -> (yes: bool)
    requires
        file < patch_files(*patch).len(),
        hunk < patch_files(*patch)[file as int].hunks.len(),
        line < patch_files(*patch)[file as int].hunks[hunk as int].lines.len(),
    ensures
        yes == (patch_files(*patch)[file as int].hunks[hunk as int].lines[line as int].kind
            == LineKind::Removed),
{
    patch[file][hunk][line].is_removed()
}

/// The field `value` of a `unidiff::Line`: the text of the line.
#[verifier::external_body]
pub(crate) fn line_value(
    patch: &unidiff::PatchSet,
    file: usize,
    hunk: usize,
    line: usize,
) -> (value: String)
    requires
        file < patch_files(*patch).len(),
        hunk < patch_files(*patch)[file as int].hunks.len(),
        line < patch_files(*patch)[file as int].hunks[hunk as int].lines.len(),
    ensures
        value@ == patch_files(*patch)[file as int].hunks[hunk as int].lines[line as int].text,
{
    patch[file][hunk][line].value.clone()
}

} // verus!
