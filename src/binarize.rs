//! Conversion of an n-ary CSG tree into its binary node list.
//!
//! Nodes are numbered in the order the left fold builds them: the operands of
//! an operation first, left to right, then the operation itself. Every child
//! therefore has a smaller identifier than its parent, and the root is the
//! last node, with identifier `size - 1`.
use vstd::prelude::*;
use crate::csg::{
    binarized, binarized_prefix, combine, opt_size, primitive_count, primitive_count_prefix,
    well_formed, well_formed_prefix, BinTree, Object, Op, OpKind, Primitive,
};

verus! {

/// Largest number of nodes a tree may have: identifiers and the node count
/// are 32-bit.
pub const MAX_NODES: u64 = 0xffff_ffff;

/// What a node of the binary tree is.
#[derive(Clone, Copy, Debug, PartialEq, Eq, Structural)]
pub enum NodeKind {
    Primitive(Primitive),
    Operation { kind: OpKind, left: u32, right: u32 },
}

/// A node of the binary tree with its identifier.
#[derive(Clone, Copy, Debug, PartialEq, Eq, Structural)]
pub struct BinarizedNode {
    pub id: u32,
    pub kind: NodeKind,
}

/// The tree has more nodes than 32-bit identifiers can number.
#[derive(Clone, Copy, Debug, PartialEq, Eq, Structural)]
pub enum CsgError {
    TooManyNodes,
}

/// The nodes of `t` in identifier order, numbered from `base`.
pub open spec fn flatten(t: BinTree, base: nat) -> Seq<BinarizedNode>
    decreases t,
{
    match t {
        BinTree::Leaf(p) => seq![BinarizedNode { id: base as u32, kind: NodeKind::Primitive(p) }],
        BinTree::Node(k, l, r) => flatten(*l, base) + flatten(*r, base + l.size()) + seq![
            BinarizedNode {
                id: (base + l.size() + r.size()) as u32,
                kind: NodeKind::Operation {
                    kind: k,
                    left: (base + l.size() - 1) as u32,
                    right: (base + l.size() + r.size() - 1) as u32,
                },
            },
        ],
    }
}

pub open spec fn opt_flatten(t: Option<BinTree>, base: nat) -> Seq<BinarizedNode> {
    match t {
        Some(t) => flatten(t, base),
        None => seq![],
    }
}

pub proof fn lemma_flatten_len(t: BinTree, base: nat)
    ensures
        flatten(t, base).len() == t.size(),
    decreases t,
{
    match t {
        BinTree::Leaf(_) => {},
        BinTree::Node(_, l, r) => {
            lemma_flatten_len(*l, base);
            lemma_flatten_len(*r, base + l.size());
        },
    }
}

pub proof fn lemma_height_le_size(t: BinTree)
    ensures
        1 <= t.height() <= t.size(),
    decreases t,
{
    match t {
        BinTree::Leaf(_) => {},
        BinTree::Node(_, l, r) => {
            lemma_height_le_size(*l);
            lemma_height_le_size(*r);
        },
    }
}

/// The fold of a longer prefix of operands has at least as many nodes as the
/// fold of a shorter one plus the operands added.
proof fn lemma_prefix_size_step(kind: OpKind, cs: Seq<Object>, n: nat)
    requires
        n < cs.len(),
    ensures
        opt_size(binarized_prefix(kind, cs, n + 1)) >= opt_size(binarized_prefix(kind, cs, n))
            + opt_size(binarized(cs[n as int])),
{
    assert(binarized_prefix(kind, cs, n + 1) == combine(
        kind,
        binarized_prefix(kind, cs, n),
        binarized(cs[n as int]),
    ));
}

proof fn lemma_prefix_size_mono(kind: OpKind, cs: Seq<Object>, i: nat, j: nat)
    requires
        i <= j <= cs.len(),
    ensures
        opt_size(binarized_prefix(kind, cs, i)) <= opt_size(binarized_prefix(kind, cs, j)),
    decreases j - i,
{
    if i < j {
        lemma_prefix_size_step(kind, cs, i);
        lemma_prefix_size_mono(kind, cs, i + 1, j);
    }
}

/// Root identifier and height of an emitted subtree.
struct Emitted {
    root: u32,
    height: usize,
}

/// Appends the nodes of the binary form of `obj` to `nodes`, numbering them
/// from the current length.
fn emit(obj: &Object, nodes: &mut Vec<BinarizedNode>) -> (r: Result<Option<Emitted>, CsgError>)
    requires
        old(nodes).len() <= MAX_NODES,
    ensures
        match r {
            Ok(e) => {
                &&& old(nodes).len() + opt_size(binarized(*obj)) <= MAX_NODES
                &&& final(nodes)@ == old(nodes)@ + opt_flatten(binarized(*obj), old(nodes).len() as nat)
                &&& match binarized(*obj) {
                    None => e is None,
                    Some(t) => e matches Some(e) && e.root == old(nodes).len() + t.size() - 1
                        && e.height == t.height(),
                }
            },
            Err(_) => old(nodes).len() + opt_size(binarized(*obj)) > MAX_NODES,
        },
    decreases obj,
{
    match obj {
        Object::Primitive(p) => {
            let id = nodes.len();
            if id as u64 >= MAX_NODES {
                return Err(CsgError::TooManyNodes);
            }
            nodes.push(BinarizedNode { id: id as u32, kind: NodeKind::Primitive(*p) });
            Ok(Some(Emitted { root: id as u32, height: 1 }))
        },
        Object::Operation(op) => {
            let ghost cs = op.children@;
            let ghost kind = op.kind;
            let ghost base = old(nodes).len() as nat;
            let mut acc: Option<Emitted> = None;
            let mut i: usize = 0;
            while i < op.children.len()
                invariant
                    0 <= i <= op.children.len(),
                    cs == op.children@,
                    kind == op.kind,
                    base == old(nodes).len(),
                    base <= MAX_NODES,
                    *obj == Object::Operation(*op),
                    base + opt_size(binarized_prefix(kind, cs, i as nat)) <= MAX_NODES,
                    nodes@ == old(nodes)@ + opt_flatten(binarized_prefix(kind, cs, i as nat), base),
                    match binarized_prefix(kind, cs, i as nat) {
                        None => acc is None,
                        Some(t) => acc matches Some(a) && a.root == base + t.size() - 1
                            && a.height == t.height(),
                    },
                decreases op.children.len() - i,
            {
                let ghost prev = binarized_prefix(kind, cs, i as nat);
                let ghost child = binarized(cs[i as int]);
                proof {
                    if let Some(t) = prev {
                        lemma_flatten_len(t, base);
                    }
                    assert(binarized_prefix(kind, cs, (i + 1) as nat) == combine(kind, prev, child));
                    lemma_prefix_size_step(kind, cs, i as nat);
                    lemma_prefix_size_mono(kind, cs, (i + 1) as nat, cs.len());
                    assert(decreases_to!(*obj => *op));
                    assert(decreases_to!(*op => op.children));
                    assert(decreases_to!(op.children => op.children[i as int]));
                }
                let step = emit(&op.children[i], nodes);
                match step {
                    Err(e) => {
                        assert(binarized(*obj) == binarized_prefix(kind, cs, cs.len()));
                        return Err(e);
                    },
                    Ok(None) => {
                        assert(nodes@ =~= old(nodes)@ + opt_flatten(
                            binarized_prefix(kind, cs, (i + 1) as nat),
                            base,
                        ));
                    },
                    Ok(Some(c)) => {
                        match acc {
                            None => {
                                acc = Some(c);
                            },
                            Some(a) => {
                                let ghost ta = prev.unwrap();
                                let ghost tb = child.unwrap();
                                proof {
                                    lemma_flatten_len(tb, base + ta.size());
                                    lemma_height_le_size(ta);
                                    lemma_height_le_size(tb);
                                }
                                let id = nodes.len();
                                if id as u64 >= MAX_NODES {
                                    assert(binarized(*obj) == binarized_prefix(kind, cs, cs.len()));
                                    return Err(CsgError::TooManyNodes);
                                }
                                nodes.push(
                                    BinarizedNode {
                                        id: id as u32,
                                        kind: NodeKind::Operation {
                                            kind: op.kind,
                                            left: a.root,
                                            right: c.root,
                                        },
                                    },
                                );
                                let height = if a.height >= c.height {
                                    a.height
                                } else {
                                    c.height
                                };
                                let len = nodes.len();
                                assert(height < len);
                                acc = Some(Emitted { root: id as u32, height: height + 1 });
                                assert(nodes@ =~= old(nodes)@ + opt_flatten(
                                    binarized_prefix(kind, cs, (i + 1) as nat),
                                    base,
                                ));
                            },
                        }
                    },
                }
                i = i + 1;
            }
            assert(binarized(*obj) == binarized_prefix(kind, cs, cs.len()));
            Ok(acc)
        },
    }
}

/// A CSG tree in binary form: its nodes in identifier order, where the node at
/// position `i` has identifier `i`, and the height of the tree.
pub struct BinaryTree {
    nodes: Vec<BinarizedNode>,
    height: usize,
    shape: Ghost<BinTree>,
}

impl View for BinaryTree {
    type V = BinTree;

    closed spec fn view(&self) -> BinTree {
        self.shape@
    }
}

impl BinaryTree {
    #[verifier::type_invariant]
    spec fn inv(self) -> bool {
        &&& self.nodes@ == flatten(self.shape@, 0)
        &&& self.height == self.shape@.height()
        &&& self.shape@.size() <= MAX_NODES
    }

    /// Number of nodes, which is never zero.
    pub fn size(&self) -> (r: usize)
        ensures
            r == self@.size(),
            0 < r <= MAX_NODES,
    {
        proof {
            use_type_invariant(self);
            lemma_flatten_len(self@, 0);
        }
        self.nodes.len()
    }

    /// Number of nodes on the longest path from the root down to a leaf.
    pub fn height(&self) -> (r: usize)
        ensures
            r == self@.height(),
    {
        proof {
            use_type_invariant(self);
        }
        self.height
    }

    /// The nodes in identifier order.
    pub fn nodes(&self) -> (r: &Vec<BinarizedNode>)
        ensures
            r@ == flatten(self@, 0),
    {
        proof {
            use_type_invariant(self);
        }
        &self.nodes
    }

    /// Identifier of the root, the last node built.
    pub fn root_id(&self) -> (r: u32)
        ensures
            r == self@.size() - 1,
    {
        proof {
            use_type_invariant(self);
            lemma_flatten_len(self@, 0);
        }
        (self.nodes.len() - 1) as u32
    }
}

impl Object {
    /// The binary form of this tree: `Ok(None)` when it denotes no geometry,
    /// and an error when its binary form has more nodes than 32-bit
    /// identifiers can number.
    pub fn binarize(&self) -> (r: Result<Option<BinaryTree>, CsgError>)
        ensures
            match r {
                Ok(None) => binarized(*self) is None,
                Ok(Some(t)) => binarized(*self) == Some(t@),
                Err(e) => e == CsgError::TooManyNodes && opt_size(binarized(*self)) > MAX_NODES,
            },
    {
        let mut nodes: Vec<BinarizedNode> = Vec::new();
        match emit(self, &mut nodes) {
            Err(e) => Err(e),
            Ok(None) => Ok(None),
            Ok(Some(e)) => {
                let ghost t = binarized(*self).unwrap();
                assert(nodes@ =~= flatten(t, 0));
                Ok(Some(BinaryTree { nodes, height: e.height, shape: Ghost(t) }))
            },
        }
    }
}

/// Depth of the node at position `i` of a node list, found by following the
/// child identifiers that each operation node records. A node that refers to
/// itself or to a later node has depth zero.
pub open spec fn node_depth(nodes: Seq<BinarizedNode>, i: int) -> nat
    decreases i,
{
    if i < 0 || i >= nodes.len() {
        0
    } else {
        match nodes[i].kind {
            NodeKind::Primitive(_) => 1,
            NodeKind::Operation { left, right, .. } => if left < i && right < i {
                let dl = node_depth(nodes, left as int);
                let dr = node_depth(nodes, right as int);
                1 + if dl >= dr {
                    dl
                } else {
                    dr
                }
            } else {
                0
            },
        }
    }
}

proof fn lemma_node_depth_embedded(t: BinTree, s: Seq<BinarizedNode>, base: nat)
    requires
        base + t.size() <= MAX_NODES,
        base + t.size() <= s.len(),
        s.subrange(base as int, (base + t.size()) as int) == flatten(t, base),
    ensures
        node_depth(s, base + t.size() - 1) == t.height(),
    decreases t,
{
    lemma_flatten_len(t, base);
    let b = base as int;
    let n = t.size() as int;
    let sub = s.subrange(b, b + n);
    match t {
        BinTree::Leaf(_) => {
            assert(s[b] == sub[0]);
        },
        BinTree::Node(k, l, r) => {
            let ls = l.size() as int;
            let rs = r.size() as int;
            lemma_flatten_len(*l, base);
            lemma_flatten_len(*r, base + l.size());
            assert(s.subrange(b, b + ls) =~= sub.subrange(0, ls));
            assert(sub.subrange(0, ls) =~= flatten(*l, base));
            assert(s.subrange(b + ls, b + ls + rs) =~= sub.subrange(ls, ls + rs));
            assert(sub.subrange(ls, ls + rs) =~= flatten(*r, base + l.size()));
            lemma_node_depth_embedded(*l, s, base);
            lemma_node_depth_embedded(*r, s, base + l.size());
            assert(s[b + n - 1] == sub[n - 1]);
        },
    }
}

/// The height that the binarizer records equals the depth found by an
/// independent walk of the node list it produces, starting at the root (the
/// last node) and following the child identifiers of each operation node.
pub proof fn lemma_height_matches_node_walk(t: BinTree)
    requires
        t.size() <= MAX_NODES,
    ensures
        node_depth(flatten(t, 0), t.size() - 1) == t.height(),
{
    lemma_flatten_len(t, 0);
    let s = flatten(t, 0);
    assert(s.subrange(0, t.size() as int) =~= s);
    lemma_node_depth_embedded(t, s, 0);
}

/// A binary tree has one operation node fewer than it has leaves.
pub proof fn lemma_size_of_leaves(t: BinTree)
    ensures
        t.size() == 2 * t.leaves() - 1,
    decreases t,
{
    match t {
        BinTree::Leaf(_) => {},
        BinTree::Node(_, l, r) => {
            lemma_size_of_leaves(*l);
            lemma_size_of_leaves(*r);
        },
    }
}

proof fn lemma_well_formed_leaves(o: Object)
    requires
        well_formed(o),
    ensures
        binarized(o) matches Some(t) && t.leaves() == primitive_count(o),
    decreases o, 0nat,
{
    match o {
        Object::Primitive(_) => {},
        Object::Operation(op) => {
            lemma_well_formed_prefix_leaves(op.kind, op.children@, op.children@.len());
        },
    }
}

proof fn lemma_well_formed_prefix_leaves(kind: OpKind, cs: Seq<Object>, n: nat)
    requires
        1 <= n <= cs.len(),
        well_formed_prefix(cs, n),
    ensures
        binarized_prefix(kind, cs, n) matches Some(t) && t.leaves() == primitive_count_prefix(
            cs,
            n,
        ),
    decreases cs, n,
{
    lemma_well_formed_leaves(cs[n - 1]);
    if n > 1 {
        lemma_well_formed_prefix_leaves(kind, cs, (n - 1) as nat);
    } else {
        assert(binarized_prefix(kind, cs, 0) is None);
        assert(primitive_count_prefix(cs, 0) == 0);
    }
}

/// Folding invariant: when every operation has at least one operand, the
/// tree is not empty and its binary form has `p + (p - 1)` nodes, where `p`
/// is the number of primitives: each operation with `k` operands becomes
/// `k - 1` binary nodes.
pub proof fn lemma_binarized_size(o: Object)
    requires
        well_formed(o),
    ensures
        binarized(o) matches Some(t) && primitive_count(o) >= 1 && t.size() == primitive_count(o)
            + (primitive_count(o) - 1),
{
    lemma_well_formed_leaves(o);
    let t = binarized(o).unwrap();
    lemma_size_of_leaves(t);
    lemma_height_le_size(t);
}

/// An operation without operands denotes no geometry, and so does an
/// operation all of whose operands denote none.
pub proof fn lemma_empty_operation(op: Op)
    requires
        forall|i: int| 0 <= i < op.children@.len() ==> binarized(#[trigger] op.children@[i]) is None,
    ensures
        binarized(Object::Operation(op)) is None,
{
    lemma_empty_prefix(op.kind, op.children@, op.children@.len());
}

proof fn lemma_empty_prefix(kind: OpKind, cs: Seq<Object>, n: nat)
    requires
        n <= cs.len(),
        forall|i: int| 0 <= i < cs.len() ==> binarized(#[trigger] cs[i]) is None,
    ensures
        binarized_prefix(kind, cs, n) is None,
    decreases n,
{
    if n > 0 {
        lemma_empty_prefix(kind, cs, (n - 1) as nat);
        assert(binarized(cs[n - 1]) is None);
    }
}

} // verus!
