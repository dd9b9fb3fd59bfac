use vstd::prelude::*;
use vstd::slice::{slice_subrange, slice_to_vec};

verus! {

/// One node of a concrete syntax tree, in a form the scanner owns.  The
/// node holds indices into the source buffer of its unit rather than a
/// borrowed text slice, so the buffer plainly outlives every extracted
/// piece of text.
pub struct SynNode {
    /// Whether the matcher walks this node's children: true exactly when
    /// the node's grammar kind is a parenthesized form or the file root.
    pub descend: bool,
    /// Start of the node's byte range in the owning source buffer.
    pub start: usize,
    /// End (exclusive) of the node's byte range.
    pub end: usize,
    /// Child nodes in document order, punctuation tokens included: a
    /// literal `(` or `)` stands as a child of its form like any other.
    pub children: Vec<SynNode>,
}

/// A parsed source unit: the source bytes and the root of its tree.
pub struct SyntaxTree {
    /// The unit's raw text, owned by the tree.
    pub source: Vec<u8>,
    /// The root node; its kind is the file root, so it is descended.
    pub root: SynNode,
}

impl SynNode {
    /// The node and every node below it span byte ranges that lie inside
    /// a buffer of length `len`.
    pub open spec fn wf(self, len: nat) -> bool
        decreases self,
    {
        &&& self.start <= self.end <= len
        &&& forall|i: int|
            0 <= i < self.children.len() ==> (#[trigger] self.children[i]).wf(len)
    }

}

impl SyntaxTree {
    /// Every node of the tree spans a byte range inside the source.
    pub open spec fn wf(self) -> bool {
        self.root.wf(self.source.len() as nat)
    }
}

/// The mathematical value of a syntax-tree node: what `SynNode` holds,
/// with mathematical integers and a sequence of children.  Contracts and
/// the named parse model speak of this type.
#[verifier::ext_equal]
pub struct SpecNode {
    /// Whether the matcher walks this node's children.
    pub descend: bool,
    /// Start of the node's byte range in the owning source buffer.
    pub start: int,
    /// End (exclusive) of the node's byte range.
    pub end: int,
    /// Child nodes in document order.
    pub children: Seq<SpecNode>,
}

impl SpecNode {
    /// The node's own text: the slice of the source buffer it spans.
    pub open spec fn text(self, src: Seq<u8>) -> Seq<u8> {
        src.subrange(self.start, self.end)
    }
}

impl SynNode {
    /// The mathematical value of this node.
    pub open spec fn model(self) -> SpecNode
        decreases self,
    {
        SpecNode {
            descend: self.descend,
            start: self.start as int,
            end: self.end as int,
            children: Seq::new(
                self.children.len() as nat,
                |i: int|
                    if 0 <= i < self.children.len() {
                        self.children[i].model()
                    } else {
                        SpecNode { descend: false, start: 0, end: 0, children: Seq::empty() }
                    },
            ),
        }
    }
}

/// Whether the bytes of `src` between `start` and `end` are exactly `lit`.
pub fn range_eq(src: &[u8], start: usize, end: usize, lit: &[u8]) -> (r: bool)
    requires
        start <= end <= src.len(),
    ensures
        r <==> src@.subrange(start as int, end as int) == lit@,
{
    if end - start != lit.len() {
        proof {
            assert(src@.subrange(start as int, end as int).len() == end - start);
        }
        return false;
    }
    let mut i: usize = 0;
    while i < lit.len()
        invariant
            start <= end <= src.len(),
            end - start == lit.len(),
            i <= lit.len(),
            forall|j: int| 0 <= j < i ==> src@[start + j] == lit@[j],
        decreases lit.len() - i,
    {
        if src[start + i] != lit[i] {
            proof {
                assert(src@.subrange(start as int, end as int)[i as int] == src@[start + i]);
            }
            return false;
        }
        i = i + 1;
    }
    proof {
        assert(src@.subrange(start as int, end as int) =~= lit@);
    }
    true
}

/// A copy of the bytes of `src` between `start` and `end`.
pub fn copy_range(src: &[u8], start: usize, end: usize) -> (r: Vec<u8>)
    requires
        start <= end <= src.len(),
    ensures
        r@ == src@.subrange(start as int, end as int),
{
    slice_to_vec(slice_subrange(src, start, end))
}

/// Whether two byte strings are equal.
pub fn bytes_eq(a: &[u8], b: &[u8]) -> (r: bool)
    ensures
        r <==> a@ == b@,
{
    proof {
        assert(a@.subrange(0, a@.len() as int) =~= a@);
    }
    range_eq(a, 0, a.len(), b)
}

/// Whether `name` ends with the bytes of `suffix`.
pub open spec fn has_suffix(name: Seq<u8>, suffix: Seq<u8>) -> bool {
    suffix.len() <= name.len() && name.subrange(name.len() - suffix.len(), name.len() as int)
        == suffix
}

/// Whether `name` ends with the bytes of `suffix`.
pub fn ends_with(name: &[u8], suffix: &[u8]) -> (r: bool)
    ensures
        r <==> has_suffix(name@, suffix@),
{
    if suffix.len() > name.len() {
        return false;
    }
    range_eq(name, name.len() - suffix.len(), name.len(), suffix)
}

} // verus!
