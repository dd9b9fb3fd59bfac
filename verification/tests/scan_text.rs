use reify_scan::errors::ScanError;
use reify_scan::parse::scan_source_unit;

fn scan(text: &str) -> Vec<String> {
    scan_source_unit(text.as_bytes().to_vec())
        .expect("unit should scan")
        .into_iter()
        .map(|m| String::from_utf8(m).expect("match should be text"))
        .collect()
}

#[test]
fn call_position_yields_following_symbol() {
    assert_eq!(scan("(reify Foo (bar [x] x))"), vec!["Foo".to_string()]);
}

#[test]
fn bare_symbol_is_not_a_call() {
    assert_eq!(scan("(list reify)"), Vec::<String>::new());
}

#[test]
fn quoted_style_occurrence_is_skipped_but_call_matches() {
    assert_eq!(
        scan("(do (apply max (list reify)) (reify Proto))"),
        vec!["Proto".to_string()]
    );
}

#[test]
fn nested_occurrences_in_document_order() {
    assert_eq!(
        scan("(outer (reify Impl1) (reify Impl2))"),
        vec!["Impl1".to_string(), "Impl2".to_string()]
    );
}

#[test]
fn occurrence_nested_inside_another_call() {
    assert_eq!(
        scan("(reify Outer (reify Inner))"),
        vec!["Outer".to_string(), "Inner".to_string()]
    );
}

#[test]
fn repeated_symbols_are_each_emitted() {
    assert_eq!(
        scan("(a (reify Same) (reify Same))"),
        vec!["Same".to_string(), "Same".to_string()]
    );
}

#[test]
fn next_sibling_that_is_a_form_is_emitted_raw() {
    assert_eq!(scan("(reify (SomeExpr))"), vec!["(SomeExpr)".to_string()]);
}

#[test]
fn occurrence_inside_comment_is_ignored() {
    assert_eq!(scan("; (reify Hidden)\n(reify Seen)"), vec!["Seen".to_string()]);
}

#[test]
fn occurrence_inside_string_is_ignored() {
    assert_eq!(scan("(def s \"(reify Hidden)\")"), Vec::<String>::new());
}

#[test]
fn no_occurrence_yields_nothing() {
    assert_eq!(scan("(defn f [x] (inc x))"), Vec::<String>::new());
}

#[test]
fn empty_source_yields_nothing() {
    assert_eq!(scan(""), Vec::<String>::new());
}

#[test]
fn bare_target_without_any_sibling_fails_the_unit() {
    let r = scan_source_unit(b"reify".to_vec());
    assert_eq!(r.unwrap_err(), ScanError::MalformedTreeError);
}
