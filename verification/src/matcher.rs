use vstd::prelude::*;
use vstd::string::StringSliceAdditionalSpecFns;
use crate::errors::ScanError;
use crate::tree::{copy_range, range_eq, SpecNode, SynNode, SyntaxTree};

verus! {

/// The token that names the construct being searched for.
pub open spec fn target_token() -> Seq<u8> {
    "reify".spec_bytes()
}

/// The literal open-parenthesis token.
pub open spec fn open_paren() -> Seq<u8> {
    "(".spec_bytes()
}

/// The previous sibling of child `i` of `n`, if it has one.
pub open spec fn child_prev(n: SpecNode, i: int) -> Option<SpecNode> {
    if 1 <= i < n.children.len() {
        Some(n.children[i - 1])
    } else {
        None
    }
}

/// The next sibling of child `i` of `n`, if it has one.
pub open spec fn child_next(n: SpecNode, i: int) -> Option<SpecNode> {
    if 0 <= i < n.children.len() - 1 {
        Some(n.children[i + 1])
    } else {
        None
    }
}

/// Whether the node is a target-form occurrence in call position: its own
/// text is the target token and its previous sibling is the literal open
/// parenthesis.  A bare target token elsewhere (not right after `(`) is
/// not a call.
pub open spec fn is_target_call(n: SpecNode, src: Seq<u8>, prev: Option<SpecNode>) -> bool {
    &&& n.text(src) == target_token()
    &&& prev matches Some(p) && p.text(src) == open_paren()
}

/// Whether the traversal of `n` meets its structural precondition
/// everywhere: a node whose text is the target token has a previous
/// sibling, and when that occurrence is in call position it also has a
/// next sibling to report.  Only children of descended nodes are visited.
pub open spec fn node_ok(n: SpecNode, src: Seq<u8>, prev: Option<SpecNode>, next: Option<SpecNode>) -> bool
    decreases n, n.children.len() + 1,
{
    &&& (n.text(src) == target_token() ==> prev is Some)
    &&& (is_target_call(n, src, prev) ==> next is Some)
    &&& (n.descend ==> children_ok(n, src, 0))
}

/// Whether the traversal of children `i ..` of `n` meets its structural
/// precondition everywhere.
pub open spec fn children_ok(n: SpecNode, src: Seq<u8>, i: int) -> bool
    decreases n, n.children.len() - i,
{
    if 0 <= i < n.children.len() {
        &&& node_ok(n.children[i], src, child_prev(n, i), child_next(n, i))
        &&& children_ok(n, src, i + 1)
    } else {
        true
    }
}

/// The matches emitted at `n` itself: when `n` is a target-form occurrence
/// in call position, the text of its next sibling, else nothing.
pub open spec fn own_match(n: SpecNode, src: Seq<u8>, prev: Option<SpecNode>, next: Option<SpecNode>) -> Seq<Seq<u8>> {
    if is_target_call(n, src, prev) {
        match next {
            Some(x) => seq![x.text(src)],
            None => Seq::empty(),
        }
    } else {
        Seq::empty()
    }
}

/// The matches emitted by the traversal of `n`, in document order: the
/// node's own match first, then the matches of its children left to
/// right, children being visited only under descended nodes.
pub open spec fn node_matches(n: SpecNode, src: Seq<u8>, prev: Option<SpecNode>, next: Option<SpecNode>) -> Seq<Seq<u8>>
    decreases n, n.children.len() + 1,
{
    own_match(n, src, prev, next) + if n.descend {
        children_matches(n, src, 0)
    } else {
        Seq::empty()
    }
}

/// The matches emitted by the traversal of children `i ..` of `n`.
pub open spec fn children_matches(n: SpecNode, src: Seq<u8>, i: int) -> Seq<Seq<u8>>
    decreases n, n.children.len() - i,
{
    if 0 <= i < n.children.len() {
        node_matches(n.children[i], src, child_prev(n, i), child_next(n, i)) + children_matches(
            n,
            src,
            i + 1,
        )
    } else {
        Seq::empty()
    }
}

/// Whether a whole tree's traversal meets its structural precondition.
/// The root has no siblings.
pub open spec fn tree_ok(t: SyntaxTree) -> bool {
    node_ok(t.root.model(), t.source@, None, None)
}

/// The matches of a whole tree, in document order.
pub open spec fn tree_matches(t: SyntaxTree) -> Seq<Seq<u8>> {
    node_matches(t.root.model(), t.source@, None, None)
}

/// A target-form occurrence in call position that has a following sibling
/// yields exactly one match of its own: the text of that sibling, whatever
/// node shape the sibling has.
pub proof fn lemma_call_position_yields_symbol(
    n: SpecNode,
    src: Seq<u8>,
    prev: Option<SpecNode>,
    x: SpecNode,
)
    requires
        is_target_call(n, src, prev),
    ensures
        own_match(n, src, prev, Some(x)) == seq![x.text(src)],
{
}

/// A node that is not a target-form occurrence in call position - a bare
/// target token not right after `(`, or any other token - yields no match
/// of its own.
pub proof fn lemma_no_match_outside_call_position(
    n: SpecNode,
    src: Seq<u8>,
    prev: Option<SpecNode>,
    next: Option<SpecNode>,
)
    requires
        !is_target_call(n, src, prev),
    ensures
        own_match(n, src, prev, next) == Seq::<Seq<u8>>::empty(),
{
}

/// Matches come in document order: a descended node contributes its own
/// match first, then its children's contributions left to right, each
/// child's matches (nested occurrences included) standing before the next
/// child's.
pub proof fn lemma_matches_in_document_order(
    n: SpecNode,
    src: Seq<u8>,
    prev: Option<SpecNode>,
    next: Option<SpecNode>,
    i: int,
)
    requires
        n.descend,
        0 <= i < n.children.len(),
    ensures
        node_matches(n, src, prev, next) == own_match(n, src, prev, next) + children_matches(
            n,
            src,
            0,
        ),
        children_matches(n, src, i) == node_matches(
            n.children[i],
            src,
            child_prev(n, i),
            child_next(n, i),
        ) + children_matches(n, src, i + 1),
{
}

/// Children that are neither target-form calls nor descended forms
/// contribute no matches.
pub proof fn lemma_children_silent(n: SpecNode, src: Seq<u8>, i: int)
    requires
        forall|j: int|
            i <= j < n.children.len() ==> !is_target_call(
                #[trigger] n.children[j],
                src,
                child_prev(n, j),
            ) && !n.children[j].descend,
    ensures
        children_matches(n, src, i) == Seq::<Seq<u8>>::empty(),
    decreases n.children.len() - i,
{
    if 0 <= i < n.children.len() {
        lemma_children_silent(n, src, i + 1);
        assert(own_match(n.children[i], src, child_prev(n, i), child_next(n, i))
            =~= Seq::<Seq<u8>>::empty());
        assert(node_matches(n.children[i], src, child_prev(n, i), child_next(n, i))
            =~= Seq::<Seq<u8>>::empty());
        assert(children_matches(n, src, i) =~= Seq::<Seq<u8>>::empty());
    }
}

/// A form holding exactly one target-form occurrence in call position
/// yields exactly one match: the text of the symbol right after the
/// target token.  The form's own children are flat tokens here; nested
/// forms contribute through their own traversal instead.
pub proof fn lemma_single_call_yields_one_match(
    n: SpecNode,
    src: Seq<u8>,
    prev: Option<SpecNode>,
    next: Option<SpecNode>,
)
    requires
        n.descend,
        n.children.len() >= 3,
        n.children[0].text(src) == open_paren(),
        n.children[1].text(src) == target_token(),
        forall|j: int| 0 <= j < n.children.len() ==> !(#[trigger] n.children[j]).descend,
        forall|j: int|
            2 <= j < n.children.len() ==> (#[trigger] n.children[j]).text(src) != target_token(),
        !is_target_call(n, src, prev),
    ensures
        node_matches(n, src, prev, next) == seq![n.children[2].text(src)],
{
    assert(!is_target_call(n.children[0], src, child_prev(n, 0)));
    assert(is_target_call(n.children[1], src, child_prev(n, 1)));
    assert(child_next(n, 1) == Some(n.children[2]));
    lemma_children_silent(n, src, 2);
    assert(own_match(n.children[1], src, child_prev(n, 1), child_next(n, 1)) =~= seq![
        n.children[2].text(src),
    ]);
    assert(node_matches(n.children[1], src, child_prev(n, 1), child_next(n, 1)) =~= seq![
        n.children[2].text(src),
    ]);
    assert(children_matches(n, src, 1) == node_matches(
        n.children[1],
        src,
        child_prev(n, 1),
        child_next(n, 1),
    ) + children_matches(n, src, 2));
    assert(children_matches(n, src, 1) =~= seq![n.children[2].text(src)]);
    assert(own_match(n.children[0], src, child_prev(n, 0), child_next(n, 0))
        =~= Seq::<Seq<u8>>::empty());
    assert(node_matches(n.children[0], src, child_prev(n, 0), child_next(n, 0))
        =~= Seq::<Seq<u8>>::empty());
    assert(children_matches(n, src, 0) =~= seq![n.children[2].text(src)]);
    assert(node_matches(n, src, prev, next) =~= seq![n.children[2].text(src)]);
}

/// The model of an optional borrowed node.
pub open spec fn opt_model(o: Option<&SynNode>) -> Option<SpecNode> {
    match o {
        Some(p) => Some(p.model()),
        None => None,
    }
}

/// Walks the tree and collects, in document order, the text of the symbol
/// following every target-form occurrence in call position.  Fails with
/// `MalformedTreeError` exactly when some visited occurrence lacks the
/// sibling the traversal relies on.
pub fn find_matches(t: &SyntaxTree) -> (r: Result<Vec<Vec<u8>>, ScanError>)
    requires
        t.wf(),
    ensures
        r is Ok <==> tree_ok(*t),
        r matches Ok(ms) ==> ms.deep_view() == tree_matches(*t),
        r matches Err(e) ==> e == ScanError::MalformedTreeError,
{
    let mut out: Vec<Vec<u8>> = Vec::new();
    match visit_node(&t.source, &t.root, None, None, &mut out) {
        Ok(()) => Ok(out),
        Err(e) => Err(e),
    }
}

/// One step of the traversal: visits `n` with its sibling context and
/// appends the matches found under it to `out`.
fn visit_node(
    src: &Vec<u8>,
    n: &SynNode,
    prev: Option<&SynNode>,
    next: Option<&SynNode>,
    out: &mut Vec<Vec<u8>>,
) -> (r: Result<(), ScanError>)
    requires
        n.wf(src@.len() as nat),
        prev matches Some(p) ==> p.wf(src@.len() as nat),
        next matches Some(x) ==> x.wf(src@.len() as nat),
    ensures
        r is Ok <==> node_ok(n.model(), src@, opt_model(prev), opt_model(next)),
        r matches Ok(u) ==> final(out).deep_view() == old(out).deep_view() + node_matches(
            n.model(),
            src@,
            opt_model(prev),
            opt_model(next),
        ),
        r matches Err(e) ==> e == ScanError::MalformedTreeError,
    decreases *n,
{
    let ghost m = n.model();
    let ghost sprev = opt_model(prev);
    let ghost snext = opt_model(next);
    if range_eq(src.as_slice(), n.start, n.end, "reify".as_bytes()) {
        match prev {
            None => {
                return Err(ScanError::MalformedTreeError);
            },
            Some(p) => {
                if range_eq(src.as_slice(), p.start, p.end, "(".as_bytes()) {
                    match next {
                        None => {
                            return Err(ScanError::MalformedTreeError);
                        },
                        Some(x) => {
                            let sym = copy_range(src.as_slice(), x.start, x.end);
                            out.push(sym);
                            proof {
                                assert(out.deep_view() =~~= old(out).deep_view() + own_match(
                                    m,
                                    src@,
                                    sprev,
                                    snext,
                                ));
                            }
                        },
                    }
                }
            },
        }
    }
    assert(out.deep_view() =~~= old(out).deep_view() + own_match(m, src@, sprev, snext));
    if n.descend {
        let ghost base = out.deep_view();
        let k = n.children.len();
        let mut i: usize = 0;
        while i < k
            invariant
                k == n.children.len(),
                m == n.model(),
                k == m.children.len(),
                i <= k,
                m.descend,
                n.wf(src@.len() as nat),
                base == old(out).deep_view() + own_match(m, src@, sprev, snext),
                children_ok(m, src@, 0) <==> children_ok(m, src@, i as int),
                out.deep_view() + children_matches(m, src@, i as int) == base + children_matches(
                    m,
                    src@,
                    0,
                ),
            decreases k - i,
        {
            let prev_c: Option<&SynNode> = if i >= 1 {
                Some(&n.children[i - 1])
            } else {
                None
            };
            let next_c: Option<&SynNode> = if i + 1 < k {
                Some(&n.children[i + 1])
            } else {
                None
            };
            proof {
                assert(m.children[i as int] == n.children[i as int].model());
                if i >= 1 {
                    assert(m.children[i as int - 1] == n.children[i as int - 1].model());
                }
                if i + 1 < k {
                    assert(m.children[i as int + 1] == n.children[i as int + 1].model());
                }
                assert(opt_model(prev_c) == child_prev(m, i as int));
                assert(opt_model(next_c) == child_next(m, i as int));
                assert(n.children[i as int].wf(src@.len() as nat));
            }
            let ghost pre = out.deep_view();
            match visit_node(src, &n.children[i], prev_c, next_c, out) {
                Ok(()) => {},
                Err(e) => {
                    proof {
                        assert(!node_ok(
                            m.children[i as int],
                            src@,
                            child_prev(m, i as int),
                            child_next(m, i as int),
                        ));
                        assert(!children_ok(m, src@, i as int));
                        assert(!children_ok(m, src@, 0));
                        assert(!node_ok(m, src@, sprev, snext));
                    }
                    return Err(e);
                },
            }
            proof {
                assert(children_matches(m, src@, i as int) == node_matches(
                    m.children[i as int],
                    src@,
                    child_prev(m, i as int),
                    child_next(m, i as int),
                ) + children_matches(m, src@, i as int + 1));
                assert(out.deep_view() + children_matches(m, src@, i as int + 1)
                    =~~= pre + children_matches(m, src@, i as int));
            }
            i = i + 1;
        }
        proof {
            assert(children_matches(m, src@, k as int) =~= Seq::<Seq<u8>>::empty());
            assert(out.deep_view() =~~= base + children_matches(m, src@, 0));
            assert(out.deep_view() =~~= old(out).deep_view() + node_matches(m, src@, sprev, snext));
        }
    } else {
        assert(out.deep_view() =~~= old(out).deep_view() + node_matches(m, src@, sprev, snext));
    }
    Ok(())
}

} // verus!
