use reify_scan::errors::ScanError;
use reify_scan::matcher::find_matches;
use reify_scan::tree::{SynNode, SyntaxTree};

fn leaf(start: usize, end: usize) -> SynNode {
    SynNode { descend: false, start, end, children: vec![] }
}

fn form(start: usize, end: usize, children: Vec<SynNode>) -> SynNode {
    SynNode { descend: true, start, end, children }
}

#[test]
fn model_call_position_emits_next_sibling_text() {
    // "(reify Foo)"
    let source = b"(reify Foo)".to_vec();
    let list = form(0, 11, vec![leaf(0, 1), leaf(1, 6), leaf(7, 10), leaf(10, 11)]);
    let tree = SyntaxTree { source, root: form(0, 11, vec![list]) };
    assert_eq!(find_matches(&tree).unwrap(), vec![b"Foo".to_vec()]);
}

#[test]
fn model_target_not_after_open_paren_is_silent() {
    // "(list reify)"
    let source = b"(list reify)".to_vec();
    let list = form(0, 12, vec![leaf(0, 1), leaf(1, 5), leaf(6, 11), leaf(11, 12)]);
    let tree = SyntaxTree { source, root: form(0, 12, vec![list]) };
    assert_eq!(find_matches(&tree).unwrap(), Vec::<Vec<u8>>::new());
}

#[test]
fn model_missing_next_sibling_is_malformed() {
    // "(reify" - the occurrence is in call position but nothing follows.
    let source = b"(reify".to_vec();
    let list = form(0, 6, vec![leaf(0, 1), leaf(1, 6)]);
    let tree = SyntaxTree { source, root: form(0, 6, vec![list]) };
    assert_eq!(find_matches(&tree).unwrap_err(), ScanError::MalformedTreeError);
}

#[test]
fn model_missing_previous_sibling_is_malformed() {
    // A lone target token with no sibling at all.
    let source = b"reify".to_vec();
    let tree = SyntaxTree { source, root: form(0, 5, vec![leaf(0, 5)]) };
    assert_eq!(find_matches(&tree).unwrap_err(), ScanError::MalformedTreeError);
}

#[test]
fn model_children_of_undescended_nodes_are_not_visited() {
    // The same shape as a match, but hidden under a node the matcher
    // does not descend into (as a string or comment would be).
    let source = b"(reify Foo)".to_vec();
    let mut hidden = leaf(0, 11);
    hidden.children = vec![leaf(0, 1), leaf(1, 6), leaf(7, 10), leaf(10, 11)];
    let tree = SyntaxTree { source, root: form(0, 11, vec![hidden]) };
    assert_eq!(find_matches(&tree).unwrap(), Vec::<Vec<u8>>::new());
}

#[test]
fn model_matches_are_emitted_in_preorder() {
    // "(a (reify B) (reify C))"
    let source = b"(a (reify B) (reify C))".to_vec();
    let inner1 = form(3, 12, vec![leaf(3, 4), leaf(4, 9), leaf(10, 11), leaf(11, 12)]);
    let inner2 = form(13, 22, vec![leaf(13, 14), leaf(14, 19), leaf(20, 21), leaf(21, 22)]);
    let outer = form(
        0,
        23,
        vec![leaf(0, 1), leaf(1, 2), inner1, inner2, leaf(22, 23)],
    );
    let tree = SyntaxTree { source, root: form(0, 23, vec![outer]) };
    assert_eq!(
        find_matches(&tree).unwrap(),
        vec![b"B".to_vec(), b"C".to_vec()]
    );
}
