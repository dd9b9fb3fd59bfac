use vstd::prelude::*;
use vstd::string::StringSliceAdditionalSpecFns;
use crate::errors::ScanError;
use crate::tree::{ends_with, has_suffix};

verus! {

#[verifier::external_type_specification]
#[verifier::external_body]
#[verifier::reject_recursive_types(T)]
pub struct ExCursor<T>(std::io::Cursor<T>);

#[verifier::external_type_specification]
#[verifier::external_body]
#[verifier::reject_recursive_types(R)]
pub struct ExZipArchive<R>(zip::ZipArchive<R>);

/// The per-index entry metadata of an open archive: for each entry slot,
/// the entry's name and whether it is a regular file, or `None` where
/// that entry cannot be opened.
pub uninterp spec fn entry_metas(a: zip::ZipArchive<std::io::Cursor<Vec<u8>>>) -> Seq<
    Option<(Seq<u8>, bool)>,
>;

/// The per-index decoded text of an open archive's entries: `None` where
/// the entry cannot be opened or its bytes are not readable text.
pub uninterp spec fn entry_texts(a: zip::ZipArchive<std::io::Cursor<Vec<u8>>>) -> Seq<
    Option<Seq<u8>>,
>;

/// Whether the bytes hold an archive whose central directory can be read.
/// Opening works on the bytes alone, so this is a function of them.
pub uninterp spec fn zip_opens(bytes: Seq<u8>) -> bool;

/// The entry metadata the archive held in `bytes` carries, slot by slot.
pub uninterp spec fn zip_entry_metas(bytes: Seq<u8>) -> Seq<Option<(Seq<u8>, bool)>>;

/// The decoded entry texts the archive held in `bytes` carries, slot by
/// slot.
pub uninterp spec fn zip_entry_texts(bytes: Seq<u8>) -> Seq<Option<Seq<u8>>>;

/// Relies on zip::ZipArchive::new: reads the central directory of the
/// archive held in `bytes`, and fails exactly when that directory cannot
/// be read.  Opening, entry lookup and decompression work on the bytes
/// alone, so what the handle holds is a function of them; both contents
/// sequences index the same entry slots.
#[verifier::external_body]
fn open_archive(bytes: Vec<u8>) -> (r: Option<zip::ZipArchive<std::io::Cursor<Vec<u8>>>>)
    ensures
        r is Some <==> zip_opens(bytes@),
        r matches Some(a) ==> {
            &&& entry_metas(a) == zip_entry_metas(bytes@)
            &&& entry_texts(a) == zip_entry_texts(bytes@)
            &&& entry_metas(a).len() == entry_texts(a).len()
        },
{
    zip::ZipArchive::new(std::io::Cursor::new(bytes)).ok()
}

/// Relies on zip::ZipArchive::len: the number of entries the archive
/// holds, directory entries included.
#[verifier::external_body]
fn archive_len(a: &zip::ZipArchive<std::io::Cursor<Vec<u8>>>) -> (n: usize)
    ensures
        n == entry_metas(*a).len(),
        n == entry_texts(*a).len(),
{
    a.len()
}

/// Relies on zip::ZipArchive::by_index, zip's ZipFile::name and
/// ZipFile::is_file: the name of entry `i` and whether it is a regular
/// file (the entry handle borrows the archive, so the accessors stand
/// beside the lookup).  Reading moves only the underlying reader: the
/// directory of entries stays as it was.
#[verifier::external_body]
fn entry_meta(a: &mut zip::ZipArchive<std::io::Cursor<Vec<u8>>>, i: usize) -> (r: Option<
    (Vec<u8>, bool),
>)
    requires
        i < entry_metas(*old(a)).len(),
    ensures
        entry_metas(*final(a)) == entry_metas(*old(a)),
        entry_texts(*final(a)) == entry_texts(*old(a)),
        match r {
            Some(m) => entry_metas(*old(a))[i as int] == Some((m.0@, m.1)),
            None => entry_metas(*old(a))[i as int] is None,
        },
{
    match a.by_index(i) {
        Ok(f) => Some((f.name().as_bytes().to_vec(), f.is_file())),
        Err(_) => None,
    }
}

/// Relies on zip::ZipArchive::by_index and std::io::Read::read_to_string
/// (the entry handle borrows the archive, so the read stands beside the
/// lookup): the decoded text of entry `i`, or `None` where the entry
/// cannot be opened or its bytes are not valid text.  Reading moves only
/// the underlying reader: the directory of entries stays as it was.
#[verifier::external_body]
fn entry_text(a: &mut zip::ZipArchive<std::io::Cursor<Vec<u8>>>, i: usize) -> (r: Option<Vec<u8>>)
    requires
        i < entry_texts(*old(a)).len(),
    ensures
        entry_metas(*final(a)) == entry_metas(*old(a)),
        entry_texts(*final(a)) == entry_texts(*old(a)),
        match r {
            Some(v) => entry_texts(*old(a))[i as int] == Some(v@),
            None => entry_texts(*old(a))[i as int] is None,
        },
{
    let mut f = match a.by_index(i) {
        Ok(f) => f,
        Err(_) => return None,
    };
    let mut s = String::new();
    match std::io::Read::read_to_string(&mut f, &mut s) {
        Ok(_) => Some(s.into_bytes()),
        Err(_) => None,
    }
}

/// One text unit drawn from an archive: a source entry's name and its
/// decoded text.
pub struct SourceUnit {
    /// The entry's name inside the archive.
    pub name: Vec<u8>,
    /// The entry's decoded text.
    pub text: Vec<u8>,
}

impl View for SourceUnit {
    type V = (Seq<u8>, Seq<u8>);

    open spec fn view(&self) -> (Seq<u8>, Seq<u8>) {
        (self.name@, self.text@)
    }
}

impl DeepView for SourceUnit {
    type V = (Seq<u8>, Seq<u8>);

    open spec fn deep_view(&self) -> (Seq<u8>, Seq<u8>) {
        self.view()
    }
}

/// What archive extraction yields: the archive's source units in entry
/// order, and how many entries could not be read.
pub struct ArchiveUnits {
    /// The readable source entries, in entry order.
    pub units: Vec<SourceUnit>,
    /// How many entries failed with an entry-read error: entries that
    /// could not be opened, and source entries whose text could not be
    /// decoded.  Sibling entries continue past each one.
    pub unreadable: usize,
}

/// The suffix that marks a source entry inside an archive.
pub open spec fn source_suffix() -> Seq<u8> {
    ".clj".spec_bytes()
}

/// Whether entry metadata marks a source entry: a readable, regular-file
/// entry whose name ends with the source suffix.  Directory entries and
/// entries with other names are skipped silently.
pub open spec fn spec_is_source_entry(m: Option<(Seq<u8>, bool)>) -> bool {
    m matches Some(p) && p.1 && has_suffix(p.0, source_suffix())
}

/// Whether entry slot `i` fails with an entry-read error: its metadata
/// cannot be opened at all, or it is a source entry whose text cannot be
/// decoded.
pub open spec fn spec_entry_unreadable(
    metas: Seq<Option<(Seq<u8>, bool)>>,
    texts: Seq<Option<Seq<u8>>>,
    i: int,
) -> bool {
    ||| metas[i] is None
    ||| spec_is_source_entry(metas[i]) && texts[i] is None
}

/// The source units of entry slots `i ..`: each readable source entry's
/// name and text, in entry order.
pub open spec fn spec_selected(
    metas: Seq<Option<(Seq<u8>, bool)>>,
    texts: Seq<Option<Seq<u8>>>,
    i: int,
) -> Seq<(Seq<u8>, Seq<u8>)>
    decreases metas.len() - i,
{
    if 0 <= i < metas.len() {
        let rest = spec_selected(metas, texts, i + 1);
        if spec_is_source_entry(metas[i]) && texts[i] is Some {
            seq![(metas[i]->Some_0.0, texts[i]->Some_0)] + rest
        } else {
            rest
        }
    } else {
        Seq::empty()
    }
}

/// How many of the entry slots `i ..` fail with an entry-read error.
pub open spec fn spec_unreadable(
    metas: Seq<Option<(Seq<u8>, bool)>>,
    texts: Seq<Option<Seq<u8>>>,
    i: int,
) -> int
    decreases metas.len() - i,
{
    if 0 <= i < metas.len() {
        (if spec_entry_unreadable(metas, texts, i) {
            1int
        } else {
            0int
        }) + spec_unreadable(metas, texts, i + 1)
    } else {
        0
    }
}

/// Opens an archive held in memory and draws out its source units: the
/// regular-file entries whose name ends with `.clj`, in entry order, each
/// with its decoded text.  Fails with `ArchiveError` exactly when the
/// archive itself cannot be opened; an unreadable entry is counted and
/// skipped, and its sibling entries continue.
pub fn archive_source_units(bytes: Vec<u8>) -> (r: Result<ArchiveUnits, ScanError>)
    ensures
        r is Ok <==> zip_opens(bytes@),
        r matches Ok(au) ==> {
            &&& au.units.deep_view() == spec_selected(
                zip_entry_metas(bytes@),
                zip_entry_texts(bytes@),
                0,
            )
            &&& au.unreadable as int == spec_unreadable(
                zip_entry_metas(bytes@),
                zip_entry_texts(bytes@),
                0,
            )
        },
        r matches Err(e) ==> e == ScanError::ArchiveError,
{
    let mut a = match open_archive(bytes) {
        None => {
            return Err(ScanError::ArchiveError);
        },
        Some(a) => a,
    };
    let ghost metas = entry_metas(a);
    let ghost texts = entry_texts(a);
    let n = archive_len(&a);
    let mut units: Vec<SourceUnit> = Vec::new();
    let mut unreadable: usize = 0;
    let mut i: usize = 0;
    while i < n
        invariant
            n == metas.len(),
            n == texts.len(),
            entry_metas(a) == metas,
            entry_texts(a) == texts,
            i <= n,
            unreadable <= i,
            units.deep_view() + spec_selected(metas, texts, i as int) =~~= spec_selected(
                metas,
                texts,
                0,
            ),
            unreadable as int + spec_unreadable(metas, texts, i as int) == spec_unreadable(
                metas,
                texts,
                0,
            ),
        decreases n - i,
    {
        let ghost pre = units.deep_view();
        match entry_meta(&mut a, i) {
            None => {
                unreadable = unreadable + 1;
            },
            Some((name, is_file)) => {
                if is_file && ends_with(name.as_slice(), ".clj".as_bytes()) {
                    assert(spec_is_source_entry(metas[i as int]));
                    match entry_text(&mut a, i) {
                        Some(text) => {
                            units.push(SourceUnit { name, text });
                            proof {
                                assert(units.deep_view() =~~= pre.push(
                                    (metas[i as int]->Some_0.0, texts[i as int]->Some_0),
                                ));
                            }
                        },
                        None => {
                            unreadable = unreadable + 1;
                        },
                    }
                } else {
                    assert(!spec_is_source_entry(metas[i as int]));
                }
            },
        }
        proof {
            assert(units.deep_view() + spec_selected(metas, texts, i as int + 1)
                =~~= pre + spec_selected(metas, texts, i as int));
        }
        i = i + 1;
    }
    proof {
        assert(spec_selected(metas, texts, n as int) =~~= Seq::<(Seq<u8>, Seq<u8>)>::empty());
        assert(units.deep_view() =~~= spec_selected(metas, texts, 0));
    }
    Ok(ArchiveUnits { units, unreadable })
}

} // verus!
