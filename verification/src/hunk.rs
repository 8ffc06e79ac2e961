//! Hunks and their lines, with the mathematical models that the contracts
//! of this crate speak of.

use vstd::prelude::*;

verus! {

/// How a line of a hunk relates to the old and the new text.
#[derive(Clone, Copy, Debug, PartialEq, Eq, Structural)]
pub enum LineKind {
    /// Stands in both texts; it must be found in the old one.
    Context,
    /// Stands in the old text only.
    Removed,
    /// Stands in the new text only.
    Added,
}

/// Model of a [`HunkLine`].
pub struct LineModel {
    pub kind: LineKind,
    /// The text as stored, line feeds at its end included.
    pub text: Seq<char>,
}

/// Model of a [`Hunk`].
pub struct HunkModel {
    pub source_start: nat,
    pub source_length: nat,
    pub target_start: nat,
    pub lines: Seq<LineModel>,
}

/// Model of the patch of one file: its two names and its hunks in order.
pub struct FileModel {
    pub source_file: Seq<char>,
    pub target_file: Seq<char>,
    pub hunks: Seq<HunkModel>,
}

/// One tagged line of a hunk.
#[derive(Clone, Debug, PartialEq, Eq)]
pub struct HunkLine {
    pub kind: LineKind,
    pub value: String,
}

/// A block of changed lines with the place it was recorded at.
#[derive(Clone, Debug, PartialEq, Eq)]
pub struct Hunk {
    /// Index into the text at which the hunk was recorded.
    pub source_start: usize,
    /// Number of lines of the old text that the hunk replaces.
    pub source_length: usize,
    /// Line of the new text; reported when the hunk cannot be placed.
    pub target_start: usize,
    pub lines: Vec<HunkLine>,
}

impl DeepView for HunkLine {
    type V = LineModel;

    open spec fn deep_view(&self) -> LineModel {
        LineModel { kind: self.kind, text: self.value@ }
    }
}

impl View for HunkLine {
    type V = LineModel;

    open spec fn view(&self) -> LineModel {
        self.deep_view()
    }
}

impl DeepView for Hunk {
    type V = HunkModel;

    open spec fn deep_view(&self) -> HunkModel {
        HunkModel {
            source_start: self.source_start as nat,
            source_length: self.source_length as nat,
            target_start: self.target_start as nat,
            lines: self.lines.deep_view(),
        }
    }
}

impl View for Hunk {
    type V = HunkModel;

    open spec fn view(&self) -> HunkModel {
        self.deep_view()
    }
}

} // verus!
