use vstd::prelude::*;

verus! {

/// The failure kinds of the scanner.  Every failure is scoped to one unit
/// of work (one loose source file, one whole archive, or one archive
/// entry): a failure in one unit never aborts the processing of its
/// siblings.
#[derive(Clone, Copy, PartialEq, Eq, Structural, Debug)]
pub enum ScanError {
    /// A unit's text could not be parsed at all.
    ParseError,
    /// An archive could not be opened or enumerated; the whole archive
    /// unit is skipped.
    ArchiveError,
    /// One archive entry could not be read; sibling entries continue.
    EntryReadError,
    /// The syntax tree lacked an expected sibling node, so the unit's
    /// traversal could not continue safely.
    MalformedTreeError,
    /// A filesystem path was inaccessible.
    IoError,
}

impl DeepView for ScanError {
    type V = ScanError;

    open spec fn deep_view(&self) -> ScanError {
        *self
    }
}

} // verus!
