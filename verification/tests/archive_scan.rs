use std::io::Write;

use reify_scan::errors::ScanError;
use reify_scan::parse::scan_source_unit;
use reify_scan::scan::scan_archive;

fn build_archive(entries: &[(&str, &[u8])]) -> Vec<u8> {
    let mut w = zip::ZipWriter::new(std::io::Cursor::new(Vec::new()));
    let options = zip::write::SimpleFileOptions::default();
    for (name, content) in entries {
        w.start_file(*name, options).expect("start entry");
        w.write_all(content).expect("write entry");
    }
    w.finish().expect("finish archive").into_inner()
}

#[test]
fn archive_round_trip_counts_only_source_entries() {
    let bytes = build_archive(&[
        ("a.clj", b"(reify Foo)".as_slice()),
        ("b.txt", b"(reify NotScanned)".as_slice()),
    ]);
    let out = scan_archive(bytes).expect("archive should open");
    assert_eq!(out.outcome.matches, vec![b"Foo".to_vec()]);
    assert_eq!(out.outcome.processed, 1);
    assert_eq!(out.outcome.failed, 0);
    assert_eq!(out.unreadable, 0);
}

#[test]
fn directory_entries_are_skipped() {
    let mut w = zip::ZipWriter::new(std::io::Cursor::new(Vec::new()));
    let options = zip::write::SimpleFileOptions::default();
    w.add_directory("src.clj", options).expect("add directory");
    w.start_file("src.clj/core.clj", options).expect("start entry");
    w.write_all(b"(reify Proto)").expect("write entry");
    let bytes = w.finish().expect("finish archive").into_inner();
    let out = scan_archive(bytes).expect("archive should open");
    assert_eq!(out.outcome.matches, vec![b"Proto".to_vec()]);
    assert_eq!(out.outcome.processed, 1);
    assert_eq!(out.unreadable, 0);
}

#[test]
fn corrupt_archive_fails_with_archive_error_and_contributes_nothing() {
    let r = scan_archive(b"this is not an archive".to_vec());
    let err = match r {
        Ok(_) => panic!("corrupt archive must not open"),
        Err(e) => e,
    };
    assert_eq!(err, ScanError::ArchiveError);

    // A valid unit scanned in the same run is unaffected.
    let ms = scan_source_unit(b"(reify Still)".to_vec()).expect("valid unit scans");
    assert_eq!(ms, vec![b"Still".to_vec()]);
}

#[test]
fn unreadable_entry_is_skipped_and_siblings_continue() {
    let bytes = build_archive(&[
        ("bad.clj", &[0xff, 0xfe, 0x00, 0xff][..]),
        ("good.clj", b"(reify Ok)".as_slice()),
    ]);
    let out = scan_archive(bytes).expect("archive should open");
    assert_eq!(out.unreadable, 1);
    assert_eq!(out.outcome.matches, vec![b"Ok".to_vec()]);
    assert_eq!(out.outcome.processed, 1);
    assert_eq!(out.outcome.failed, 1);
}

#[test]
fn empty_archive_yields_nothing() {
    let bytes = build_archive(&[]);
    let out = scan_archive(bytes).expect("archive should open");
    assert_eq!(out.outcome.matches, Vec::<Vec<u8>>::new());
    assert_eq!(out.outcome.processed, 0);
    assert_eq!(out.unreadable, 0);
}

#[test]
fn matches_from_several_entries_keep_entry_order() {
    let bytes = build_archive(&[
        ("one.clj", b"(reify A)".as_slice()),
        ("skip.md", b"(reify Nope)".as_slice()),
        ("two.clj", b"(x (reify B) (reify C))".as_slice()),
    ]);
    let out = scan_archive(bytes).expect("archive should open");
    assert_eq!(
        out.outcome.matches,
        vec![b"A".to_vec(), b"B".to_vec(), b"C".to_vec()]
    );
    assert_eq!(out.outcome.processed, 2);
}
