//! Serialisation of a binary CSG tree into fixed-size GPU node records.
//!
//! A record is `NODE_RECORD_SIZE` bytes: the node identifier as a 32-bit word,
//! then, for a primitive, its parameters as 32-bit words (offset, then radius
//! for a sphere; offset, rotation and size for a cube), and zeros up to the
//! end. Operation nodes carry no payload. Records are written in the reverse
//! of identifier order: the root first, the node with identifier 0 last.
use vstd::prelude::*;
use crate::binarize::{flatten, BinarizedNode, BinaryTree, CsgError, NodeKind, MAX_NODES};
use crate::csg::{Object, Primitive, binarized, opt_size};

verus! {

/// Number of bytes one node occupies in the record buffer, a multiple of 16.
pub const NODE_RECORD_SIZE: usize = 48;

/// Number of bytes of the payload that follows the identifier in a record.
pub const PAYLOAD_SIZE: usize = 44;

/// The order in which the bytes of a 32-bit word are laid out.
#[derive(Clone, Copy, Debug, PartialEq, Eq, Structural)]
pub enum ByteOrder {
    Little,
    Big,
}

/// Little-endian bytes of `w`.
pub open spec fn le_bytes(w: u32) -> Seq<u8> {
    seq![(w & 0xff) as u8, ((w >> 8) & 0xff) as u8, ((w >> 16) & 0xff) as u8, ((w >> 24) & 0xff) as u8]
}

/// Big-endian bytes of `w`.
pub open spec fn be_bytes(w: u32) -> Seq<u8> {
    seq![((w >> 24) & 0xff) as u8, ((w >> 16) & 0xff) as u8, ((w >> 8) & 0xff) as u8, (w & 0xff) as u8]
}

/// The four bytes of `w` in the given order.
pub open spec fn word_bytes(w: u32, order: ByteOrder) -> Seq<u8> {
    match order {
        ByteOrder::Little => le_bytes(w),
        ByteOrder::Big => be_bytes(w),
    }
}

/// Relies on `bytemuck::cast`, which reinterprets the in-memory representation
/// of a `u32` as four bytes: the machine's own byte order, one of the two.
#[verifier::external_body]
fn native_bytes(w: u32) -> (r: [u8; 4])
    ensures
        r@ == le_bytes(w) || r@ == be_bytes(w),
{
    bytemuck::cast::<u32, [u8; 4]>(w)
}

impl ByteOrder {
    /// The byte order of the machine this runs on.
    pub fn native() -> (r: ByteOrder) {
        let probe = native_bytes(1);
        if probe[0] == 1 {
            ByteOrder::Little
        } else {
            ByteOrder::Big
        }
    }
}

/// The parameter words of a primitive, in record order.
pub open spec fn primitive_words(p: Primitive) -> Seq<u32> {
    match p {
        Primitive::Sphere { radius, offset } => seq![offset.x, offset.y, offset.z, radius],
        Primitive::Cube { offset, rotation, size } => seq![
            offset.x,
            offset.y,
            offset.z,
            rotation.x,
            rotation.y,
            rotation.z,
            rotation.w,
            size.x,
            size.y,
            size.z,
        ],
    }
}

/// The words of `ws`, each laid out in the given order, one after another.
pub open spec fn words_bytes(ws: Seq<u32>, order: ByteOrder) -> Seq<u8>
    decreases ws.len(),
{
    if ws.len() == 0 {
        seq![]
    } else {
        words_bytes(ws.drop_last(), order) + word_bytes(ws.last(), order)
    }
}

/// `n` zero bytes.
pub open spec fn zeros(n: nat) -> Seq<u8> {
    Seq::new(n, |i: int| 0u8)
}

/// The payload words of a node: a primitive's parameters, nothing for an operation.
pub open spec fn payload_words(k: NodeKind) -> Seq<u32> {
    match k {
        NodeKind::Primitive(p) => primitive_words(p),
        NodeKind::Operation { .. } => seq![],
    }
}

/// The record of one node.
pub open spec fn record_bytes(n: BinarizedNode, order: ByteOrder) -> Seq<u8> {
    let data = words_bytes(payload_words(n.kind), order);
    word_bytes(n.id, order) + data + zeros((PAYLOAD_SIZE - data.len()) as nat)
}

/// The records of `nodes[k..]`, the highest position first.
pub open spec fn records_from(nodes: Seq<BinarizedNode>, k: nat, order: ByteOrder) -> Seq<u8>
    decreases nodes.len() - k,
{
    if k >= nodes.len() {
        seq![]
    } else {
        records_from(nodes, k + 1, order) + record_bytes(nodes[k as int], order)
    }
}

/// The record buffer of a node list: one record per node, in the reverse of
/// identifier order.
pub open spec fn tree_records(nodes: Seq<BinarizedNode>, order: ByteOrder) -> Seq<u8> {
    records_from(nodes, 0, order)
}

proof fn lemma_words_bytes_len(ws: Seq<u32>, order: ByteOrder)
    ensures
        words_bytes(ws, order).len() == 4 * ws.len(),
    decreases ws.len(),
{
    if ws.len() > 0 {
        lemma_words_bytes_len(ws.drop_last(), order);
    }
}

pub proof fn lemma_record_len(n: BinarizedNode, order: ByteOrder)
    ensures
        record_bytes(n, order).len() == NODE_RECORD_SIZE,
{
    lemma_words_bytes_len(payload_words(n.kind), order);
}

proof fn lemma_records_from_len(nodes: Seq<BinarizedNode>, k: nat, order: ByteOrder)
    requires
        k <= nodes.len(),
    ensures
        records_from(nodes, k, order).len() == NODE_RECORD_SIZE * (nodes.len() - k),
    decreases nodes.len() - k,
{
    if k < nodes.len() {
        lemma_records_from_len(nodes, k + 1, order);
        lemma_record_len(nodes[k as int], order);
        assert(NODE_RECORD_SIZE * (nodes.len() - k) == NODE_RECORD_SIZE * (nodes.len() - (k + 1))
            + NODE_RECORD_SIZE) by (nonlinear_arith);
    }
}

/// Writes the bytes of `w` at positions `at .. at + 4` of `record`.
fn put_word(record: &mut [u8; NODE_RECORD_SIZE], at: usize, w: u32, order: ByteOrder)
    requires
        at + 4 <= NODE_RECORD_SIZE,
    ensures
        final(record)@ == old(record)@.subrange(0, at as int) + word_bytes(w, order) + old(
            record,
        )@.subrange(at + 4, NODE_RECORD_SIZE as int),
{
    let b0 = (w & 0xff) as u8;
    let b1 = ((w >> 8) & 0xff) as u8;
    let b2 = ((w >> 16) & 0xff) as u8;
    let b3 = ((w >> 24) & 0xff) as u8;
    match order {
        ByteOrder::Little => {
            record[at] = b0;
            record[at + 1] = b1;
            record[at + 2] = b2;
            record[at + 3] = b3;
        },
        ByteOrder::Big => {
            record[at] = b3;
            record[at + 1] = b2;
            record[at + 2] = b1;
            record[at + 3] = b0;
        },
    }
    assert(record@ =~= old(record)@.subrange(0, at as int) + word_bytes(w, order) + old(
        record,
    )@.subrange(at + 4, NODE_RECORD_SIZE as int));
}

fn primitive_word_list(p: &Primitive) -> (r: Vec<u32>)
    ensures
        r@ == primitive_words(*p),
{
    match p {
        Primitive::Sphere { radius, offset } => vec![offset.x, offset.y, offset.z, *radius],
        Primitive::Cube { offset, rotation, size } => vec![
            offset.x,
            offset.y,
            offset.z,
            rotation.x,
            rotation.y,
            rotation.z,
            rotation.w,
            size.x,
            size.y,
            size.z,
        ],
    }
}

/// Writes the parameters of `primitive` into the payload of `record`, right
/// after the identifier word; the rest of the record is left as it was.
pub fn load_primitive_data(
    primitive: &Primitive,
    order: ByteOrder,
    record: &mut [u8; NODE_RECORD_SIZE],
)
    ensures
        ({
            let data = words_bytes(primitive_words(*primitive), order);
            final(record)@ == old(record)@.subrange(0, 4) + data + old(record)@.subrange(
                4 + data.len() as int,
                NODE_RECORD_SIZE as int,
            )
        }),
{
    let words = primitive_word_list(primitive);
    let ghost ws = words@;
    let mut j: usize = 0;
    while j < words.len()
        invariant
            ws == words@,
            ws.len() <= 10,
            j <= ws.len(),
            record@ == old(record)@.subrange(0, 4) + words_bytes(ws.take(j as int), order) + old(
                record,
            )@.subrange(4 + 4 * j, NODE_RECORD_SIZE as int),
        decreases words.len() - j,
    {
        proof {
            lemma_words_bytes_len(ws.take(j as int), order);
            assert(ws.take(j + 1).drop_last() =~= ws.take(j as int));
        }
        put_word(record, 4 + 4 * j, words[j], order);
        assert(record@ =~= old(record)@.subrange(0, 4) + words_bytes(ws.take(j + 1), order) + old(
            record,
        )@.subrange(4 + 4 * (j + 1), NODE_RECORD_SIZE as int));
        j = j + 1;
    }
    proof {
        lemma_words_bytes_len(ws, order);
        assert(ws.take(j as int) =~= ws);
    }
}

/// The record of one node.
pub fn to_gpu_data(node: &BinarizedNode, order: ByteOrder) -> (r: [u8; NODE_RECORD_SIZE])
    ensures
        r@ == record_bytes(*node, order),
{
    let mut result = [0u8; NODE_RECORD_SIZE];
    assert(result@ =~= zeros(NODE_RECORD_SIZE as nat));
    put_word(&mut result, 0, node.id, order);
    match &node.kind {
        NodeKind::Primitive(p) => {
            proof {
                lemma_words_bytes_len(primitive_words(*p), order);
            }
            load_primitive_data(p, order, &mut result);
        },
        NodeKind::Operation { .. } => {},
    }
    proof {
        lemma_words_bytes_len(payload_words(node.kind), order);
    }
    assert(result@ =~= record_bytes(*node, order));
    result
}

/// The record buffer of a tree, in the reverse of identifier order.
fn encode_nodes(nodes: &Vec<BinarizedNode>, order: ByteOrder) -> (r: Vec<u8>)
    ensures
        r@ == tree_records(nodes@, order),
{
    let mut buffer: Vec<u8> = Vec::new();
    let mut k: usize = nodes.len();
    while k > 0
        invariant
            k <= nodes@.len(),
            buffer@ == records_from(nodes@, k as nat, order),
        decreases k,
    {
        let record = to_gpu_data(&nodes[k - 1], order);
        let ghost before = buffer@;
        let mut b: usize = 0;
        while b < NODE_RECORD_SIZE
            invariant
                b <= NODE_RECORD_SIZE,
                record@.len() == NODE_RECORD_SIZE,
                buffer@ == before + record@.take(b as int),
            decreases NODE_RECORD_SIZE - b,
        {
            buffer.push(record[b]);
            assert(record@.take(b + 1) =~= record@.take(b as int).push(record@[b as int]));
            b = b + 1;
        }
        assert(record@.take(NODE_RECORD_SIZE as int) =~= record@);
        k = k - 1;
    }
    buffer
}

/// The bytes that the GPU receives for one tree: the record buffer and the
/// node count that goes to the separate header buffer.
pub struct EncodedCsg {
    pub records: Vec<u8>,
    pub node_count: u32,
}

/// The record buffer of a tree that denotes no geometry: one all-zero record.
pub open spec fn empty_records() -> Seq<u8> {
    zeros(NODE_RECORD_SIZE as nat)
}

/// What the encoding of an optional binary tree holds: its records and node
/// count, or a single all-zero record counted as one node for no geometry.
pub open spec fn encoding_of(t: Option<crate::csg::BinTree>, order: ByteOrder) -> (Seq<u8>, nat) {
    match t {
        Some(t) => (tree_records(flatten(t, 0), order), t.size()),
        None => (empty_records(), 1),
    }
}

/// Encodes a binary tree, or the empty tree when there is none.
pub fn encode(tree: &Option<BinaryTree>, order: ByteOrder) -> (r: EncodedCsg)
    ensures
        (r.records@, r.node_count as nat) == encoding_of(
            match tree {
                Some(t) => Some(t@),
                None => None,
            },
            order,
        ),
{
    match tree {
        Some(t) => {
            let count = t.size();
            let records = encode_nodes(t.nodes(), order);
            EncodedCsg { records, node_count: count as u32 }
        },
        None => {
            let records = vec![0u8; NODE_RECORD_SIZE];
            assert(records@ =~= empty_records());
            EncodedCsg { records, node_count: 1 }
        },
    }
}

/// Binarizes and encodes an object.
pub fn encode_object(obj: &Object, order: ByteOrder) -> (r: Result<EncodedCsg, CsgError>)
    ensures
        match r {
            Ok(e) => opt_size(binarized(*obj)) <= MAX_NODES && (e.records@, e.node_count as nat)
                == encoding_of(binarized(*obj), order),
            Err(e) => e == CsgError::TooManyNodes && opt_size(binarized(*obj)) > MAX_NODES,
        },
{
    match obj.binarize() {
        Ok(t) => Ok(encode(&t, order)),
        Err(e) => Err(e),
    }
}

/// The header buffer: the node count as one 32-bit word.
pub fn header_bytes(node_count: u32, order: ByteOrder) -> (r: [u8; 4])
    ensures
        r@ == word_bytes(node_count, order),
{
    let b0 = (node_count & 0xff) as u8;
    let b1 = ((node_count >> 8) & 0xff) as u8;
    let b2 = ((node_count >> 16) & 0xff) as u8;
    let b3 = ((node_count >> 24) & 0xff) as u8;
    let r = match order {
        ByteOrder::Little => [b0, b1, b2, b3],
        ByteOrder::Big => [b3, b2, b1, b0],
    };
    assert(r@ =~= word_bytes(node_count, order));
    r
}

/// The record buffer has exactly one record per node, and the header word
/// holds the node count.
pub proof fn lemma_encoding_size(t: Option<crate::csg::BinTree>, order: ByteOrder)
    ensures
        encoding_of(t, order).0.len() == NODE_RECORD_SIZE * encoding_of(t, order).1,
        t matches Some(b) ==> encoding_of(t, order).1 == b.size(),
{
    if let Some(t) = t {
        crate::binarize::lemma_flatten_len(t, 0);
        lemma_records_from_len(flatten(t, 0), 0, order);
    }
}

} // verus!
