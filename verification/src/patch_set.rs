//! A parsed diff, the files in it, and the application of one file's hunks.
//!
//! The numbers of a hunk are taken as the parser gives them. The parser
//! counts the lines of a file from one, and a hunk is looked for at its
//! recorded number taken as an index, which counts from zero: the hunk of a
//! file that has not changed is found one index below its recorded place,
//! and so needs a reach of one line at least.

use vstd::prelude::*;
use crate::apply::{apply_with_fuzz, patched_text, text_outcome, DEFAULT_FUZZ, DEFAULT_MIN_CONTEXT_MATCHES};
use crate::error::{ApplyError, ParseError, ParseFailure};
use crate::guard::{is_readable, readable};
use crate::hunk::{FileModel, Hunk, HunkLine, LineKind};
use crate::parser::{
    file_count,
    hunk_count,
    hunk_header,
    line_count,
    line_is_context,
    line_is_removed,
    line_value,
    parse_diff,
    parse_outcome,
    patch_files,
    source_name,
    target_name,
};

verus! {

/// A parsed diff: the patches of any number of files.
#[derive(Debug)]
pub struct ParsedDiff {
    patch_set: unidiff::PatchSet,
}

/// The place of one file's patch in a [`ParsedDiff`]. What is asked of it
/// is asked together with the diff, in which the place must lie.
#[derive(Clone, Copy, Debug, PartialEq, Eq, Structural)]
pub struct PatchedFile {
    pub index: usize,
}

impl View for ParsedDiff {
    type V = Seq<FileModel>;

    closed spec fn view(&self) -> Seq<FileModel> {
        patch_files(self.patch_set)
    }
}

/// What reading a diff comes to: what the parser makes of it where it
/// reads it without a panic, and a refusal where it would not.
pub open spec fn read_outcome(diff: Seq<char>) -> Result<Seq<FileModel>, ParseFailure> {
    if readable(diff) {
        parse_outcome(diff)
    } else {
        Err(ParseFailure::Unreadable)
    }
}

/// What a result of reading stands for in contracts.
pub open spec fn set_outcome(
    read: Result<ParsedDiff, ParseError>,
) -> Result<Seq<FileModel>, ParseFailure> {
    match read {
        Ok(patch_set) => Ok(patch_set@),
        Err(error) => Err(error@),
    }
}

/// The kind of a line of a parsed hunk.
fn read_kind(patch: &unidiff::PatchSet, file: usize, hunk: usize, line: usize) -> (kind: LineKind)
    requires
        file < patch_files(*patch).len(),
        hunk < patch_files(*patch)[file as int].hunks.len(),
        line < patch_files(*patch)[file as int].hunks[hunk as int].lines.len(),
    ensures
        kind == patch_files(*patch)[file as int].hunks[hunk as int].lines[line as int].kind,
{
    if line_is_context(patch, file, hunk, line) {
        LineKind::Context
    } else if line_is_removed(patch, file, hunk, line) {
        LineKind::Removed
    } else {
        LineKind::Added
    }
}

/// One parsed hunk as a hunk of this crate.
fn read_hunk(patch: &unidiff::PatchSet, file: usize, hunk: usize) -> (read: Hunk)
    requires
        file < patch_files(*patch).len(),
        hunk < patch_files(*patch)[file as int].hunks.len(),
    ensures
        read@ == patch_files(*patch)[file as int].hunks[hunk as int],
{
    let ghost model = patch_files(*patch)[file as int].hunks[hunk as int];
    let count = line_count(patch, file, hunk);
    let mut lines: Vec<HunkLine> = Vec::new();
    let mut i: usize = 0;
    while i < count
        invariant
            i <= count,
            file < patch_files(*patch).len(),
            hunk < patch_files(*patch)[file as int].hunks.len(),
            model == patch_files(*patch)[file as int].hunks[hunk as int],
            count == model.lines.len(),
            lines.len() == i,
            forall|j: int| 0 <= j < i ==> (#[trigger] lines[j])@ == model.lines[j],
        decreases count - i,
    {
        let kind = read_kind(patch, file, hunk, i);
        let value = line_value(patch, file, hunk, i);
        lines.push(HunkLine { kind, value });
        i = i + 1;
    }
    let (source_start, source_length, target_start) = hunk_header(patch, file, hunk);
    assert(lines.deep_view() =~= model.lines);
    Hunk { source_start, source_length, target_start, lines }
}

/// The parsed hunks of one file as hunks of this crate.
fn read_hunks(patch: &unidiff::PatchSet, file: usize) -> (hunks: Vec<Hunk>)
    requires
        file < patch_files(*patch).len(),
    ensures
        hunks.deep_view() == patch_files(*patch)[file as int].hunks,
{
    let ghost models = patch_files(*patch)[file as int].hunks;
    let count = hunk_count(patch, file);
    let mut hunks: Vec<Hunk> = Vec::new();
    let mut i: usize = 0;
    while i < count
        invariant
            i <= count,
            file < patch_files(*patch).len(),
            models == patch_files(*patch)[file as int].hunks,
            count == models.len(),
            hunks.len() == i,
            forall|j: int| 0 <= j < i ==> (#[trigger] hunks[j])@ == models[j],
        decreases count - i,
    {
        hunks.push(read_hunk(patch, file, i));
        i = i + 1;
    }
    assert(hunks.deep_view() =~= models);
    hunks
}

impl ParsedDiff {
    /// Reads a diff. A diff on which the parser would panic is refused as
    /// unreadable. Every other diff is handed to the parser, and what the
    /// parser makes of it is returned: the files, or the parser's own error.
    pub fn new(src: String) -> (read: Result<ParsedDiff, ParseError>)
        ensures
            set_outcome(read) == read_outcome(src@),
    {
        if !is_readable(src.as_str()) {
            return Err(ParseError::Unreadable);
        }
        match parse_diff(src.as_str()) {
            Ok(patch_set) => Ok(ParsedDiff { patch_set }),
            Err(error) => Err(error),
        }
    }

    /// The number of files that the diff patches.
    pub fn len(&self) -> (count: usize)
        ensures
            count == self@.len(),
    {
        file_count(&self.patch_set)
    }

    /// The places that are handed out: that of the first file, whatever the
    /// number of files. Whether the diff has a first file is told by
    /// [`ParsedDiff::len`].
    pub fn files(&self) -> (files: Vec<PatchedFile>)
        ensures
            files@ == seq![PatchedFile { index: 0 }],
    {
        let mut files: Vec<PatchedFile> = Vec::with_capacity(self.len());
        files.push(PatchedFile { index: 0 });
        files
    }
}

impl PatchedFile {
    /// The name of the old file.
    pub fn source_file(&self, patch_set: &ParsedDiff) -> (name: String)
        requires
            self.index < patch_set@.len(),
        ensures
            name@ == patch_set@[self.index as int].source_file,
    {
        source_name(&patch_set.patch_set, self.index)
    }

    /// The name of the new file.
    pub fn target_file(&self, patch_set: &ParsedDiff) -> (name: String)
        requires
            self.index < patch_set@.len(),
        ensures
            name@ == patch_set@[self.index as int].target_file,
    {
        target_name(&patch_set.patch_set, self.index)
    }

    /// The hunks of the file, in the order of the diff.
    pub fn hunks(&self, patch_set: &ParsedDiff) -> (hunks: Vec<Hunk>)
        requires
            self.index < patch_set@.len(),
        ensures
            hunks.deep_view() == patch_set@[self.index as int].hunks,
    {
        read_hunks(&patch_set.patch_set, self.index)
    }

    /// Applies the hunks of the file to `input` with a reach of three lines,
    /// asking for one context line in each hunk.
    pub fn apply(&self, input: String, patch_set: &ParsedDiff) -> (done: Result<String, ApplyError>)
        requires
            self.index < patch_set@.len(),
        ensures
            text_outcome(done) == patched_text(input@, patch_set@[self.index as int].hunks, 3, 1),
    {
        self.apply_with_fuzz(input, patch_set, DEFAULT_FUZZ, DEFAULT_MIN_CONTEXT_MATCHES)
    }

    /// Applies the hunks of the file to `input`: each hunk is looked for
    /// within `fuzz` lines of its recorded place and must have at least
    /// `min_context_matches` context lines.
    pub fn apply_with_fuzz(
        &self,
        input: String,
        patch_set: &ParsedDiff,
        fuzz: usize,
        min_context_matches: usize,
    ) -> (done: Result<String, ApplyError>)
        requires
            self.index < patch_set@.len(),
        ensures
            text_outcome(done) == patched_text(
                input@,
                patch_set@[self.index as int].hunks,
                fuzz as nat,
                min_context_matches as nat,
            ),
    {
        let hunks = self.hunks(patch_set);
        apply_with_fuzz(input.as_str(), &hunks, fuzz, min_context_matches)
    }
}

} // verus!
