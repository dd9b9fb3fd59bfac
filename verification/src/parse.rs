use vstd::prelude::*;
use vstd::string::StringSliceAdditionalSpecFns;
use crate::errors::ScanError;
use crate::matcher::{find_matches, node_matches, node_ok, tree_matches, tree_ok};
use crate::tree::{bytes_eq, SpecNode, SynNode, SyntaxTree};

verus! {

#[verifier::external_type_specification]
#[verifier::external_body]
pub struct ExTree(tree_sitter::Tree);

#[verifier::external_type_specification]
#[verifier::external_body]
pub struct ExNode<'a>(tree_sitter::Node<'a>);

/// Whether the grammar parses the text into a tree.  The grammar is
/// fixed, no old tree is supplied and no halting option is set, so this
/// is a function of the text alone.
pub uninterp spec fn clj_parses(text: Seq<u8>) -> bool;

/// The text a parsed tree was made from.
pub uninterp spec fn tree_text(t: tree_sitter::Tree) -> Seq<u8>;

/// Where a parse-tree node stands: the text its tree was made from, and
/// the path of child indices that leads to it from the root.
pub uninterp spec fn node_locus(n: tree_sitter::Node) -> (Seq<u8>, Seq<int>);

/// The grammar kind label of the parse-tree node at a path.
pub uninterp spec fn clj_kind(text: Seq<u8>, path: Seq<int>) -> Seq<u8>;

/// Where the byte range of the parse-tree node at a path starts.
pub uninterp spec fn clj_start(text: Seq<u8>, path: Seq<int>) -> int;

/// Where the byte range of the parse-tree node at a path ends.
pub uninterp spec fn clj_end(text: Seq<u8>, path: Seq<int>) -> int;

/// How many children the parse-tree node at a path has, punctuation
/// tokens included.
pub uninterp spec fn clj_child_count(text: Seq<u8>, path: Seq<int>) -> int;

/// Relies on tree_sitter::Parser::{new, set_language, parse} with
/// tree_sitter_clojure::LANGUAGE.  The parser is fresh and set to this
/// one grammar, no old tree is supplied, and no timeout, cancellation or
/// included-ranges option is used, so whether a tree comes back - `None`
/// arises only from a grammar that cannot be loaded - and what it holds
/// are functions of the text alone.  The grammar setup stands beside the
/// call because the contract is only true of a parser so prepared.
#[verifier::external_body]
fn parse_clojure(text: &[u8]) -> (r: Option<tree_sitter::Tree>)
    ensures
        r is Some <==> clj_parses(text@),
        r matches Some(t) ==> tree_text(t) == text@,
{
    let mut parser = tree_sitter::Parser::new();
    if parser.set_language(&tree_sitter_clojure::LANGUAGE.into()).is_err() {
        return None;
    }
    parser.parse(text, None)
}

/// Relies on tree_sitter::Tree::root_node: the node of the whole text,
/// standing at the empty path.
#[verifier::external_body]
fn tree_root<'t>(t: &'t tree_sitter::Tree) -> (r: tree_sitter::Node<'t>)
    ensures
        node_locus(r) == (tree_text(*t), Seq::<int>::empty()),
{
    t.root_node()
}

/// Relies on tree_sitter::Node::kind: the node's grammar kind label,
/// determined by the text and the node's position.
#[verifier::external_body]
fn node_kind_bytes(n: &tree_sitter::Node) -> (r: Vec<u8>)
    ensures
        r@ == clj_kind(node_locus(*n).0, node_locus(*n).1),
{
    n.kind().as_bytes().to_vec()
}

/// Relies on tree_sitter::Node::start_byte: where the node's range starts.
#[verifier::external_body]
fn node_start_byte(n: &tree_sitter::Node) -> (r: usize)
    ensures
        r as int == clj_start(node_locus(*n).0, node_locus(*n).1),
{
    n.start_byte()
}

/// Relies on tree_sitter::Node::end_byte: where the node's range ends.
#[verifier::external_body]
fn node_end_byte(n: &tree_sitter::Node) -> (r: usize)
    ensures
        r as int == clj_end(node_locus(*n).0, node_locus(*n).1),
{
    n.end_byte()
}

/// Relies on tree_sitter::Node::child_count: how many children the node
/// has, punctuation tokens included.
#[verifier::external_body]
fn node_child_count(n: &tree_sitter::Node) -> (r: usize)
    ensures
        r as int == clj_child_count(node_locus(*n).0, node_locus(*n).1),
{
    n.child_count()
}

/// Relies on tree_sitter::Node::child: the node's child at an in-range
/// index, which stands one step further down the same path.
#[verifier::external_body]
fn node_child<'t>(n: &tree_sitter::Node<'t>, i: usize) -> (r: tree_sitter::Node<'t>)
    requires
        (i as int) < clj_child_count(node_locus(*n).0, node_locus(*n).1),
    ensures
        node_locus(r) == (node_locus(*n).0, node_locus(*n).1.push(i as int)),
{
    n.child(i).expect("child index in range")
}

/// How many child slots the parse-tree node at a path has, never below
/// zero.
pub open spec fn child_slots(text: Seq<u8>, path: Seq<int>) -> int {
    if clj_child_count(text, path) < 0 {
        0
    } else {
        clj_child_count(text, path)
    }
}

/// The scanner's model of the parse-tree node at a path: its byte range
/// clamped to the text, whether its kind is descended, and its converted
/// children.  `None` when the tree nests deeper than `fuel` levels.
pub open spec fn spec_convert(text: Seq<u8>, path: Seq<int>, fuel: nat) -> Option<SpecNode>
    decreases fuel, child_slots(text, path) + 1,
{
    if fuel == 0 {
        None
    } else {
        match spec_convert_children(text, path, fuel, 0) {
            None => None,
            Some(children) => {
                let kind = clj_kind(text, path);
                let e0 = clj_end(text, path);
                let e = if e0 > text.len() {
                    text.len() as int
                } else {
                    e0
                };
                let s0 = clj_start(text, path);
                let s = if s0 > e {
                    e
                } else {
                    s0
                };
                Some(
                    SpecNode {
                        descend: kind == "list_lit".spec_bytes() || kind == "source".spec_bytes(),
                        start: s,
                        end: e,
                        children,
                    },
                )
            },
        }
    }
}

/// The scanner's models of the children `i ..` of the parse-tree node at
/// a path.
pub open spec fn spec_convert_children(text: Seq<u8>, path: Seq<int>, fuel: nat, i: int) -> Option<
    Seq<SpecNode>,
>
    decreases fuel, child_slots(text, path) - i,
{
    if fuel == 0 {
        None
    } else if i < 0 || i >= child_slots(text, path) {
        Some(Seq::empty())
    } else {
        match spec_convert(text, path.push(i), (fuel - 1) as nat) {
            None => None,
            Some(c) => match spec_convert_children(text, path, fuel, i + 1) {
                None => None,
                Some(rest) => Some(seq![c] + rest),
            },
        }
    }
}

/// The recursion depth allowed when converting a parsed unit: a concrete
/// syntax tree over n bytes of text nests no deeper than n levels, so
/// this bound is never the reason a real unit fails.
pub open spec fn parse_fuel(len: nat) -> nat {
    if len < usize::MAX - 2 {
        (len + 2) as nat
    } else {
        usize::MAX as nat
    }
}

/// The scanner's model of the parse of one unit: present exactly when
/// the text parses and its tree fits the depth bound.
pub open spec fn spec_unit_tree(text: Seq<u8>) -> Option<SpecNode> {
    if clj_parses(text) {
        spec_convert(text, Seq::empty(), parse_fuel(text.len()))
    } else {
        None
    }
}

/// What scanning one unit of text yields: `ParseError` when no tree can
/// be made of it, `MalformedTreeError` when its traversal hits a missing
/// sibling, and otherwise the matches of its tree in document order.
pub open spec fn spec_scan_unit(text: Seq<u8>) -> Result<Seq<Seq<u8>>, ScanError> {
    match spec_unit_tree(text) {
        None => Err(ScanError::ParseError),
        Some(root) => if node_ok(root, text, None, None) {
            Ok(node_matches(root, text, None, None))
        } else {
            Err(ScanError::MalformedTreeError)
        },
    }
}

/// Builds the scanner's own tree from a parsed node.  Byte ranges are
/// clamped to the source length, so the result is well formed whatever
/// ranges the parser reported.
fn convert_node(
    src_len: usize,
    node: &tree_sitter::Node,
    fuel: usize,
    Ghost(text): Ghost<Seq<u8>>,
    Ghost(path): Ghost<Seq<int>>,
) -> (r: Result<SynNode, ScanError>)
    requires
        node_locus(*node) == (text, path),
        src_len as int == text.len(),
    ensures
        r matches Ok(sn) ==> sn.wf(src_len as nat) && spec_convert(text, path, fuel as nat)
            == Some(sn.model()),
        r matches Err(e) ==> e == ScanError::ParseError && spec_convert(text, path, fuel as nat)
            is None,
    decreases fuel,
{
    if fuel == 0 {
        return Err(ScanError::ParseError);
    }
    let kind = node_kind_bytes(node);
    let descend = bytes_eq(kind.as_slice(), "list_lit".as_bytes()) || bytes_eq(
        kind.as_slice(),
        "source".as_bytes(),
    );
    let mut end = node_end_byte(node);
    if end > src_len {
        end = src_len;
    }
    let mut start = node_start_byte(node);
    if start > end {
        start = end;
    }
    let count = node_child_count(node);
    assert(count as int == child_slots(text, path));
    let mut children: Vec<SynNode> = Vec::new();
    let mut i: usize = 0;
    while i < count
        invariant
            fuel >= 1,
            node_locus(*node) == (text, path),
            src_len as int == text.len(),
            count as int == child_slots(text, path),
            i <= count,
            children@.len() == i,
            forall|j: int|
                0 <= j < children@.len() ==> (#[trigger] children@[j]).wf(src_len as nat),
            spec_convert_children(text, path, fuel as nat, 0) matches Some(cs) ==> (
            spec_convert_children(text, path, fuel as nat, i as int) matches Some(rest) && cs
                =~= Seq::new(i as nat, |j: int| children@[j].model()) + rest),
            (spec_convert_children(text, path, fuel as nat, i as int) is Some
                ==> spec_convert_children(text, path, fuel as nat, 0) is Some),
        decreases count - i,
    {
        let c = node_child(node, i);
        match convert_node(src_len, &c, fuel - 1, Ghost(text), Ghost(path.push(i as int))) {
            Ok(sn) => {
                proof {
                    assert(spec_convert(text, path.push(i as int), (fuel - 1) as nat) == Some(
                        sn.model(),
                    ));
                    if spec_convert_children(text, path, fuel as nat, 0) is Some {
                        assert(spec_convert_children(text, path, fuel as nat, i as int) matches
                            Some(rest) ==> rest =~= seq![sn.model()] + spec_convert_children(
                            text,
                            path,
                            fuel as nat,
                            i as int + 1,
                        )->Some_0);
                    }
                }
                children.push(sn);
                proof {
                    if spec_convert_children(text, path, fuel as nat, 0) is Some {
                        let cs = spec_convert_children(text, path, fuel as nat, 0)->Some_0;
                        let rest1 = spec_convert_children(
                            text,
                            path,
                            fuel as nat,
                            i as int + 1,
                        )->Some_0;
                        assert(cs =~= Seq::new((i + 1) as nat, |j: int| children@[j].model())
                            + rest1);
                    }
                }
            },
            Err(e) => {
                proof {
                    assert(spec_convert(text, path.push(i as int), (fuel - 1) as nat) is None);
                    assert(spec_convert_children(text, path, fuel as nat, i as int) is None);
                    assert(spec_convert_children(text, path, fuel as nat, 0) is None);
                    assert(spec_convert(text, path, fuel as nat) is None);
                }
                return Err(e);
            },
        }
        i = i + 1;
    }
    let sn = SynNode { descend, start, end, children };
    proof {
        assert(sn.wf(src_len as nat));
        assert(spec_convert_children(text, path, fuel as nat, count as int)
            == Some(Seq::<SpecNode>::empty()));
        assert(spec_convert_children(text, path, fuel as nat, 0) matches Some(cs) && cs
            =~= Seq::new(count as nat, |j: int| sn.children[j].model()));
        assert(sn.model().children =~= Seq::new(count as nat, |j: int| sn.children[j].model()));
        assert(spec_convert(text, path, fuel as nat) matches Some(msn) && msn =~= sn.model());
    }
    Ok(sn)
}

/// Parses one unit of source text into an owned syntax tree: exactly the
/// tree the scanner's model gives that text.  Fails with `ParseError`
/// exactly when no tree can be made of the text.
pub fn parse_unit(source: Vec<u8>) -> (r: Result<SyntaxTree, ScanError>)
    ensures
        r is Ok <==> spec_unit_tree(source@) is Some,
        r matches Ok(t) ==> t.wf() && t.source@ == source@ && spec_unit_tree(source@) == Some(
            t.root.model(),
        ),
        r matches Err(e) ==> e == ScanError::ParseError,
{
    let tree = match parse_clojure(source.as_slice()) {
        None => {
            return Err(ScanError::ParseError);
        },
        Some(t) => t,
    };
    let root = tree_root(&tree);
    let fuel = if source.len() < usize::MAX - 2 {
        source.len() + 2
    } else {
        usize::MAX
    };
    assert(fuel as nat == parse_fuel(source@.len()));
    match convert_node(source.len(), &root, fuel, Ghost(source@), Ghost(Seq::empty())) {
        Ok(sn) => Ok(SyntaxTree { source, root: sn }),
        Err(e) => Err(e),
    }
}

/// Parses one unit of source text and collects its matches: the text of
/// the symbol following every target-form occurrence in call position,
/// in document order - exactly what the scanner's model of the parse of
/// this text yields, unit failures included.
pub fn scan_source_unit(source: Vec<u8>) -> (r: Result<Vec<Vec<u8>>, ScanError>)
    ensures
        crate::report::result_view(r) == spec_scan_unit(source@),
{
    let t = match parse_unit(source) {
        Ok(t) => t,
        Err(e) => {
            return Err(e);
        },
    };
    match find_matches(&t) {
        Ok(ms) => {
            proof {
                assert(tree_ok(t) && ms.deep_view() == tree_matches(t));
            }
            Ok(ms)
        },
        Err(e) => Err(e),
    }
}

} // verus!
