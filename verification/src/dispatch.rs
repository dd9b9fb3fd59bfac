use vstd::prelude::*;
use vstd::string::StringSliceAdditionalSpecFns;
use crate::errors::ScanError;
use crate::tree::bytes_eq;

verus! {

/// How one filesystem path is handled.
#[derive(Clone, Copy, PartialEq, Eq, Structural, Debug)]
pub enum PathKind {
    /// A directory: expand it recursively and dispatch everything found.
    Directory,
    /// An archive file: extract its source entries and scan each one.
    Archive,
    /// A loose source file: scan it directly as one unit.
    SourceFile,
    /// A file with no extension or an unknown one: skipped silently.
    Unsupported,
    /// A path that probes as neither a directory nor a regular file - it
    /// does not exist or cannot be read: the unit fails with an I/O
    /// error, and sibling units continue.
    Inaccessible,
}

/// The unit-scoped failure that classification alone settles: an
/// inaccessible path fails with an I/O error; every other kind is routed
/// or skipped, and any failure comes later, from its own unit's work.
pub open spec fn spec_classification_error(k: PathKind) -> Option<ScanError> {
    if k == PathKind::Inaccessible {
        Some(ScanError::IoError)
    } else {
        None
    }
}

/// The unit-scoped failure that classification alone settles.
pub fn classification_error(k: PathKind) -> (r: Option<ScanError>)
    ensures
        r == spec_classification_error(k),
{
    match k {
        PathKind::Inaccessible => Some(ScanError::IoError),
        _ => None,
    }
}

/// The ASCII path separator `/`.
pub open spec fn slash_byte() -> u8 {
    47
}

/// The ASCII dot `.` that introduces an extension.
pub open spec fn dot_byte() -> u8 {
    46
}

/// The extension that marks an archive path.
pub open spec fn archive_ext() -> Seq<u8> {
    "jar".spec_bytes()
}

/// The extension that marks a source-file path.
pub open spec fn source_ext() -> Seq<u8> {
    "clj".spec_bytes()
}

/// The position of the last occurrence of `b` in `s`, if any.
pub open spec fn spec_rfind(s: Seq<u8>, b: u8) -> Option<int>
    decreases s.len(),
{
    if s.len() == 0 {
        None
    } else if s.last() == b {
        Some(s.len() - 1)
    } else {
        spec_rfind(s.drop_last(), b)
    }
}

/// What `spec_rfind` finds: the last occurrence, or nothing when the byte
/// does not occur.
pub proof fn lemma_rfind(s: Seq<u8>, b: u8)
    ensures
        match spec_rfind(s, b) {
            None => forall|i: int| 0 <= i < s.len() ==> s[i] != b,
            Some(i) => 0 <= i < s.len() && s[i] == b && forall|j: int|
                i < j < s.len() ==> s[j] != b,
        },
    decreases s.len(),
{
    if s.len() > 0 && s.last() != b {
        lemma_rfind(s.drop_last(), b);
        assert(forall|i: int| 0 <= i < s.len() - 1 ==> s[i] == s.drop_last()[i]);
    }
}

/// The position of the last occurrence of `b` in `s`, if any.
pub fn rfind(s: &[u8], b: u8) -> (r: Option<usize>)
    ensures
        match r {
            Some(i) => spec_rfind(s@, b) == Some(i as int),
            None => spec_rfind(s@, b) is None,
        },
{
    proof {
        lemma_rfind(s@, b);
    }
    let mut i: usize = s.len();
    while i > 0
        invariant
            i <= s@.len(),
            forall|j: int| i <= j < s@.len() ==> s@[j] != b,
            match spec_rfind(s@, b) {
                None => forall|p: int| 0 <= p < s@.len() ==> s@[p] != b,
                Some(p) => 0 <= p < s@.len() && s@[p] == b && forall|j: int|
                    p < j < s@.len() ==> s@[j] != b,
            },
        decreases i,
    {
        if s[i - 1] == b {
            return Some(i - 1);
        }
        i = i - 1;
    }
    None
}

/// The final component of a path: everything after its last separator.
pub open spec fn spec_file_name(path: Seq<u8>) -> Seq<u8> {
    match spec_rfind(path, slash_byte()) {
        None => path,
        Some(i) => path.subrange(i + 1, path.len() as int),
    }
}

/// The extension of a path, as the standard library reads it: the part of
/// the final component after its last dot, or nothing when there is no
/// dot or the only dot leads the component (a hidden file).
pub open spec fn spec_extension(path: Seq<u8>) -> Option<Seq<u8>> {
    let name = spec_file_name(path);
    match spec_rfind(name, dot_byte()) {
        None => None,
        Some(i) => if i == 0 {
            None
        } else {
            Some(name.subrange(i + 1, name.len() as int))
        },
    }
}

/// The extension of a path, owned.
pub fn extension_of(path: &[u8]) -> (r: Option<Vec<u8>>)
    ensures
        match r {
            Some(v) => spec_extension(path@) == Some(v@),
            None => spec_extension(path@) is None,
        },
{
    let n = path.len();
    proof {
        lemma_rfind(path@, slash_byte());
    }
    let name_start: usize = match rfind(path, 47) {
        None => 0,
        Some(i) => i + 1,
    };
    let name = crate::tree::copy_range(path, name_start, n);
    assert(name@ =~= spec_file_name(path@));
    let name_len = name.len();
    proof {
        lemma_rfind(name@, dot_byte());
    }
    match rfind(name.as_slice(), 46) {
        None => None,
        Some(i) => {
            if i == 0 {
                None
            } else {
                let ext = crate::tree::copy_range(name.as_slice(), i + 1, name_len);
                Some(ext)
            }
        },
    }
}

/// Classifies one filesystem path from its probed type and its name.  A
/// directory expands; a file is an archive or a source unit by its
/// extension; a file with no extension or an unknown one is skipped
/// silently; a path that is neither a directory nor a regular file is
/// inaccessible and fails its unit.
pub open spec fn spec_classify(is_dir: bool, is_file: bool, path: Seq<u8>) -> PathKind {
    if is_dir {
        PathKind::Directory
    } else if is_file {
        match spec_extension(path) {
            Some(e) => if e == archive_ext() {
                PathKind::Archive
            } else if e == source_ext() {
                PathKind::SourceFile
            } else {
                PathKind::Unsupported
            },
            None => PathKind::Unsupported,
        }
    } else {
        PathKind::Inaccessible
    }
}

/// Classifies one filesystem path from its probed type (whether it is a
/// directory, whether it is a regular file) and its name.
pub fn classify_path(is_dir: bool, is_file: bool, path: &[u8]) -> (k: PathKind)
    ensures
        k == spec_classify(is_dir, is_file, path@),
{
    if is_dir {
        return PathKind::Directory;
    }
    if !is_file {
        return PathKind::Inaccessible;
    }
    match extension_of(path) {
        None => PathKind::Unsupported,
        Some(e) => {
            if bytes_eq(e.as_slice(), "jar".as_bytes()) {
                PathKind::Archive
            } else if bytes_eq(e.as_slice(), "clj".as_bytes()) {
                PathKind::SourceFile
            } else {
                PathKind::Unsupported
            }
        },
    }
}

} // verus!
