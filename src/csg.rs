//! The n-ary CSG object model and its mathematical binary normal form.
use vstd::prelude::*;

verus! {

/// Bit pattern of the single-precision float `1.0`.
pub const ONE_BITS: u32 = 0x3f80_0000;

/// A 3-component vector. Each component holds the IEEE-754 single-precision
/// bit pattern of the value, which is exactly what the GPU records carry.
#[derive(Clone, Copy, Debug, PartialEq, Eq, Structural)]
pub struct Vec3 {
    pub x: u32,
    pub y: u32,
    pub z: u32,
}

/// A rotation quaternion, components stored as single-precision bit patterns.
#[derive(Clone, Copy, Debug, PartialEq, Eq, Structural)]
pub struct Quat {
    pub x: u32,
    pub y: u32,
    pub z: u32,
    pub w: u32,
}

impl Vec3 {
    pub fn new(x: u32, y: u32, z: u32) -> (r: Vec3)
        ensures
            r == (Vec3 { x, y, z }),
    {
        Vec3 { x, y, z }
    }

    /// The zero vector (all bit patterns zero).
    pub fn zero() -> (r: Vec3)
        ensures
            r == (Vec3 { x: 0, y: 0, z: 0 }),
    {
        Vec3 { x: 0, y: 0, z: 0 }
    }

    /// The same bit pattern on every component.
    pub fn splat(v: u32) -> (r: Vec3)
        ensures
            r == (Vec3 { x: v, y: v, z: v }),
    {
        Vec3 { x: v, y: v, z: v }
    }
}

impl Quat {
    pub fn new(x: u32, y: u32, z: u32, w: u32) -> (r: Quat)
        ensures
            r == (Quat { x, y, z, w }),
    {
        Quat { x, y, z, w }
    }

    /// The identity rotation `(0, 0, 0, 1)`.
    pub fn identity() -> (r: Quat)
        ensures
            r == (Quat { x: 0, y: 0, z: 0, w: ONE_BITS }),
    {
        Quat { x: 0, y: 0, z: 0, w: ONE_BITS }
    }
}

/// A leaf shape of a CSG tree.
#[derive(Clone, Copy, Debug, PartialEq, Eq, Structural)]
pub enum Primitive {
    Sphere { radius: u32, offset: Vec3 },
    Cube { offset: Vec3, rotation: Quat, size: Vec3 },
}

impl Primitive {
    /// A sphere of the given radius centred at the origin.
    pub fn sphere(radius: u32) -> (r: Primitive)
        ensures
            r == (Primitive::Sphere { radius, offset: Vec3 { x: 0, y: 0, z: 0 } }),
    {
        Primitive::Sphere { radius, offset: Vec3::zero() }
    }

    /// An axis-aligned cube of the given size centred at the origin.
    pub fn cube(size: Vec3) -> (r: Primitive)
        ensures
            r == (Primitive::Cube {
                offset: Vec3 { x: 0, y: 0, z: 0 },
                rotation: Quat { x: 0, y: 0, z: 0, w: ONE_BITS },
                size,
            }),
    {
        Primitive::Cube { offset: Vec3::zero(), rotation: Quat::identity(), size }
    }

    /// The same shape moved so that its centre is `offset`.
    pub fn at(self, offset: Vec3) -> (r: Primitive)
        ensures
            r == (match self {
                Primitive::Sphere { radius, .. } => Primitive::Sphere { radius, offset },
                Primitive::Cube { rotation, size, .. } => Primitive::Cube {
                    offset,
                    rotation,
                    size,
                },
            }),
    {
        match self {
            Primitive::Sphere { radius, .. } => Primitive::Sphere { radius, offset },
            Primitive::Cube { rotation, size, .. } => Primitive::Cube { offset, rotation, size },
        }
    }

    /// The same shape with the given orientation. A sphere looks the same
    /// under every rotation and is returned unchanged.
    pub fn rotated(self, rotation: Quat) -> (r: Primitive)
        ensures
            r == (match self {
                Primitive::Sphere { .. } => self,
                Primitive::Cube { offset, size, .. } => Primitive::Cube { offset, rotation, size },
            }),
    {
        match self {
            Primitive::Sphere { .. } => self,
            Primitive::Cube { offset, size, .. } => Primitive::Cube { offset, rotation, size },
        }
    }
}

/// The boolean operation of an operation node.
#[derive(Clone, Copy, Debug, PartialEq, Eq, Structural)]
pub enum OpKind {
    Union,
    Intersection,
    Difference,
}

/// An n-ary boolean operation over an ordered list of operands.
#[derive(Debug)]
pub struct Op {
    pub kind: OpKind,
    pub children: Vec<Object>,
}

/// A CSG tree as authored: primitives combined by n-ary operations.
#[derive(Debug)]
pub enum Object {
    Primitive(Primitive),
    Operation(Op),
}

impl Object {
    pub fn primitive(p: Primitive) -> (r: Object)
        ensures
            r == Object::Primitive(p),
    {
        Object::Primitive(p)
    }

    pub fn operation(kind: OpKind, children: Vec<Object>) -> (r: Object)
        ensures
            r == Object::Operation(Op { kind, children }),
    {
        Object::Operation(Op { kind, children })
    }

    pub fn union(children: Vec<Object>) -> (r: Object)
        ensures
            r == Object::Operation(Op { kind: OpKind::Union, children }),
    {
        Object::operation(OpKind::Union, children)
    }

    pub fn intersection(children: Vec<Object>) -> (r: Object)
        ensures
            r == Object::Operation(Op { kind: OpKind::Intersection, children }),
    {
        Object::operation(OpKind::Intersection, children)
    }

    pub fn difference(children: Vec<Object>) -> (r: Object)
        ensures
            r == Object::Operation(Op { kind: OpKind::Difference, children }),
    {
        Object::operation(OpKind::Difference, children)
    }
}

/// The binary normal form of a CSG tree: every operation has exactly two operands.
pub enum BinTree {
    Leaf(Primitive),
    Node(OpKind, Box<BinTree>, Box<BinTree>),
}

impl BinTree {
    /// Number of nodes, leaves and operations together.
    pub open spec fn size(self) -> nat
        decreases self,
    {
        match self {
            BinTree::Leaf(_) => 1,
            BinTree::Node(_, l, r) => 1 + l.size() + r.size(),
        }
    }

    /// Number of nodes on the longest path from the root down to a leaf.
    pub open spec fn height(self) -> nat
        decreases self,
    {
        match self {
            BinTree::Leaf(_) => 1,
            BinTree::Node(_, l, r) => 1 + if l.height() >= r.height() {
                l.height()
            } else {
                r.height()
            },
        }
    }

    /// Number of primitive leaves.
    pub open spec fn leaves(self) -> nat
        decreases self,
    {
        match self {
            BinTree::Leaf(_) => 1,
            BinTree::Node(_, l, r) => l.leaves() + r.leaves(),
        }
    }
}

/// Size of an optional tree; an absent tree has no nodes.
pub open spec fn opt_size(t: Option<BinTree>) -> nat {
    match t {
        Some(t) => t.size(),
        None => 0,
    }
}

/// Joins the fold of the operands seen so far with the next operand.
/// An operand that denotes no geometry is skipped.
pub open spec fn combine(kind: OpKind, acc: Option<BinTree>, next: Option<BinTree>) -> Option<
    BinTree,
> {
    match (acc, next) {
        (None, n) => n,
        (Some(a), None) => Some(a),
        (Some(a), Some(b)) => Some(BinTree::Node(kind, Box::new(a), Box::new(b))),
    }
}

/// The binary form of an object: `None` when it denotes no geometry (an
/// operation without operands, possibly nested). The operands of an operation
/// are folded from the left, `k(a, b, c)` becoming `k(k(a, b), c)`, so their
/// authored order is kept; operands that denote no geometry are skipped, and
/// an operation with a single remaining operand is that operand.
pub open spec fn binarized(o: Object) -> Option<BinTree>
    decreases o, 0nat,
{
    match o {
        Object::Primitive(p) => Some(BinTree::Leaf(p)),
        Object::Operation(op) => binarized_prefix(op.kind, op.children@, op.children@.len()),
    }
}

/// The left fold of the first `n` operands of an operation.
pub open spec fn binarized_prefix(kind: OpKind, cs: Seq<Object>, n: nat) -> Option<BinTree>
    decreases cs, n,
{
    if n == 0 || n > cs.len() {
        None
    } else {
        combine(kind, binarized_prefix(kind, cs, (n - 1) as nat), binarized(cs[n - 1]))
    }
}

/// Number of primitives in an authored tree.
pub open spec fn primitive_count(o: Object) -> nat
    decreases o, 0nat,
{
    match o {
        Object::Primitive(_) => 1,
        Object::Operation(op) => primitive_count_prefix(op.children@, op.children@.len()),
    }
}

pub open spec fn primitive_count_prefix(cs: Seq<Object>, n: nat) -> nat
    decreases cs, n,
{
    if n == 0 || n > cs.len() {
        0
    } else {
        primitive_count_prefix(cs, (n - 1) as nat) + primitive_count(cs[n - 1])
    }
}

/// Every operation of the tree, at any depth, has at least one operand.
pub open spec fn well_formed(o: Object) -> bool
    decreases o, 0nat,
{
    match o {
        Object::Primitive(_) => true,
        Object::Operation(op) => op.children@.len() > 0 && well_formed_prefix(
            op.children@,
            op.children@.len(),
        ),
    }
}

pub open spec fn well_formed_prefix(cs: Seq<Object>, n: nat) -> bool
    decreases cs, n,
{
    if n == 0 || n > cs.len() {
        true
    } else {
        well_formed_prefix(cs, (n - 1) as nat) && well_formed(cs[n - 1])
    }
}

} // verus!
