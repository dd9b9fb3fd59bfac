use reify_scan::errors::ScanError;
use reify_scan::report::aggregate_results;

type UnitResult = Result<Vec<Vec<u8>>, ScanError>;

#[test]
fn counts_successes_and_failures() {
    let results: Vec<UnitResult> = vec![
        Ok(vec![b"A".to_vec()]),
        Err(ScanError::ParseError),
        Ok(vec![]),
        Ok(vec![b"B".to_vec(), b"C".to_vec()]),
        Err(ScanError::MalformedTreeError),
        Err(ScanError::EntryReadError),
        Err(ScanError::IoError),
    ];
    let out = aggregate_results(results);
    assert_eq!(out.processed, 3);
    assert_eq!(out.failed, 4);
    assert_eq!(out.matches, vec![b"A".to_vec(), b"B".to_vec(), b"C".to_vec()]);
}

#[test]
fn three_units_one_match_each() {
    let results: Vec<UnitResult> = vec![
        Ok(vec![b"One".to_vec()]),
        Ok(vec![b"Two".to_vec()]),
        Ok(vec![b"Three".to_vec()]),
    ];
    let out = aggregate_results(results);
    assert_eq!(out.processed, 3);
    assert_eq!(out.failed, 0);
    assert_eq!(out.matches.len(), 3);
}

#[test]
fn order_of_units_changes_no_count_and_no_match_multiset() {
    let forward: Vec<UnitResult> = vec![
        Ok(vec![b"A".to_vec()]),
        Err(ScanError::ArchiveError),
        Ok(vec![b"B".to_vec(), b"B".to_vec()]),
    ];
    let backward: Vec<UnitResult> = vec![
        Ok(vec![b"B".to_vec(), b"B".to_vec()]),
        Err(ScanError::ArchiveError),
        Ok(vec![b"A".to_vec()]),
    ];
    let out1 = aggregate_results(forward);
    let out2 = aggregate_results(backward);
    assert_eq!(out1.processed, out2.processed);
    assert_eq!(out1.failed, out2.failed);
    let mut m1 = out1.matches.clone();
    let mut m2 = out2.matches.clone();
    m1.sort();
    m2.sort();
    assert_eq!(m1, m2);
}

#[test]
fn scanning_the_same_input_twice_is_idempotent() {
    let text = b"(a (reify P) (b (reify Q)))".to_vec();
    let first = reify_scan::parse::scan_source_unit(text.clone()).expect("scan");
    let second = reify_scan::parse::scan_source_unit(text).expect("scan");
    assert_eq!(first, second);
    assert_eq!(first, vec![b"P".to_vec(), b"Q".to_vec()]);
}

#[test]
fn empty_run_reports_zero() {
    let out = aggregate_results(Vec::<UnitResult>::new());
    assert_eq!(out.processed, 0);
    assert_eq!(out.failed, 0);
    assert!(out.matches.is_empty());
}
