use vstd::prelude::*;
use crate::archive::{
    archive_source_units, spec_selected, spec_unreadable, zip_entry_metas, zip_entry_texts,
    zip_opens, ArchiveUnits, SourceUnit,
};
use crate::errors::ScanError;
use crate::parse::{scan_source_unit, spec_scan_unit};
use crate::report::{
    aggregate_results, result_view, results_view, spec_all_matches, spec_processed, RunOutcome,
};

verus! {

/// What scanning one archive yields: the aggregated outcome of its
/// units, and how many entries could not be read at all.
pub struct ArchiveOutcome {
    /// The aggregate over the archive's units: their matches in entry
    /// order, the processed-unit count, and the failed-unit count.  An
    /// entry that could not be read at all stands among the failed units
    /// with an entry-read error.
    pub outcome: RunOutcome,
    /// How many of the failed units were unreadable entries; each was
    /// skipped while its sibling entries continued.
    pub unreadable: usize,
}

/// Scans every source unit in order: the result at each position is the
/// scan of that unit's text.
pub fn scan_units(units: Vec<SourceUnit>) -> (results: Vec<Result<Vec<Vec<u8>>, ScanError>>)
    ensures
        results@.len() == units@.len(),
        results_view(results@) == Seq::new(units@.len(), |i: int| spec_scan_unit(units@[i].text@)),
{
    let ghost orig = units@;
    let mut rest = units;
    let mut results: Vec<Result<Vec<Vec<u8>>, ScanError>> = Vec::new();
    while rest.len() > 0
        invariant
            results@.len() + rest@.len() == orig.len(),
            rest@ =~= orig.subrange(results@.len() as int, orig.len() as int),
            forall|j: int|
                0 <= j < results@.len() ==> result_view(#[trigger] results@[j]) == spec_scan_unit(
                    orig[j].text@,
                ),
        decreases rest.len(),
    {
        let ghost k = results@.len() as int;
        let u = rest.remove(0);
        proof {
            assert(u == orig[k]);
        }
        let r = scan_source_unit(u.text);
        results.push(r);
        proof {
            assert(rest@ =~= orig.subrange(results@.len() as int, orig.len() as int));
        }
    }
    proof {
        assert(results_view(results@) =~= Seq::new(
            orig.len(),
            |i: int| spec_scan_unit(orig[i].text@),
        ));
    }
    results
}

/// The per-unit results of scanning one archive, in order: each selected
/// source entry's text scanned as its own unit, then one entry-read
/// failure for every entry that could not be read.
pub open spec fn spec_archive_results(bytes: Seq<u8>) -> Seq<Result<Seq<Seq<u8>>, ScanError>> {
    let sel = spec_selected(zip_entry_metas(bytes), zip_entry_texts(bytes), 0);
    let bad = spec_unreadable(zip_entry_metas(bytes), zip_entry_texts(bytes), 0);
    Seq::new(sel.len(), |i: int| spec_scan_unit(sel[i].1)) + Seq::new(
        if bad < 0 {
            0nat
        } else {
            bad as nat
        },
        |i: int| Err(ScanError::EntryReadError),
    )
}

/// Scans one archive held in memory: extracts its source entries, scans
/// each as its own unit, and aggregates the results - exactly the
/// aggregate of the scanner's model of this archive's units.  Fails with
/// `ArchiveError` exactly when the archive itself cannot be opened; a
/// failure inside one entry never aborts its siblings.
pub fn scan_archive(bytes: Vec<u8>) -> (r: Result<ArchiveOutcome, ScanError>)
    ensures
        r is Ok <==> zip_opens(bytes@),
        r matches Ok(ao) ==> {
            &&& ao.unreadable as int == spec_unreadable(
                zip_entry_metas(bytes@),
                zip_entry_texts(bytes@),
                0,
            )
            &&& ao.outcome.matches.deep_view() == spec_all_matches(spec_archive_results(bytes@))
            &&& ao.outcome.processed as int == spec_processed(spec_archive_results(bytes@))
            &&& ao.outcome.failed as int == spec_archive_results(bytes@).len() - spec_processed(
                spec_archive_results(bytes@),
            )
        },
        r matches Err(e) ==> e == ScanError::ArchiveError,
{
    let ghost given = bytes@;
    let au: ArchiveUnits = match archive_source_units(bytes) {
        Ok(au) => au,
        Err(e) => {
            return Err(e);
        },
    };
    let ghost sel = spec_selected(zip_entry_metas(given), zip_entry_texts(given), 0);
    proof {
        assert(au.units@.len() == sel.len());
        assert forall|i: int| 0 <= i < au.units@.len() implies (#[trigger] au.units@[i]).text@
            == sel[i].1 by {
            assert(au.units.deep_view()[i] == au.units@[i].deep_view());
        }
    }
    let unreadable = au.unreadable;
    let ghost uview = au.units@;
    let mut results = scan_units(au.units);
    let ghost scanned = results@.len();
    proof {
        assert forall|j: int| 0 <= j < scanned implies result_view(#[trigger] results@[j])
            == spec_scan_unit(sel[j].1) by {
            assert(results_view(results@)[j] == result_view(results@[j]));
            assert(results_view(results@)[j] == spec_scan_unit(uview[j].text@));
            assert(uview[j].text@ == sel[j].1);
        }
    }
    let mut k: usize = 0;
    while k < unreadable
        invariant
            k <= unreadable,
            scanned == sel.len(),
            results@.len() == scanned + k,
            forall|j: int|
                0 <= j < scanned ==> result_view(#[trigger] results@[j]) == spec_scan_unit(
                    sel[j].1,
                ),
            forall|i: int|
                scanned <= i < results@.len() ==> results@[i] == Err::<Vec<Vec<u8>>, ScanError>(
                    ScanError::EntryReadError,
                ),
        decreases unreadable - k,
    {
        results.push(Err(ScanError::EntryReadError));
        k = k + 1;
    }
    proof {
        assert(results_view(results@) =~= spec_archive_results(given));
    }
    let outcome = aggregate_results(results);
    Ok(ArchiveOutcome { outcome, unreadable })
}

} // verus!
