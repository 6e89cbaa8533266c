//! Merkle Patricia tries and the witness entries that a guest walks them by.

use vstd::prelude::*;
use crate::bytes::copy_bytes;
use crate::rlp::{rlp_encode_bytes, rlp_encode_list};
#[allow(unused_imports)]
use crate::rlp::{encode, lemma_concat_encodes, lemma_map_injective, Item};

verus! {

/// A trie node with its own encoding and hash, and the nodes below it.
pub struct TrieNode {
    pub data: TrieNodeData,
    /// The RLP encoding of the node.
    pub encoded: Vec<u8>,
    /// The hash that references the node.
    pub hash: [u8; 32],
}

/// What kind of node it is, and the nodes that it leads to.
pub enum TrieNodeData {
    /// The empty trie.
    Null,
    /// A node with one place per nibble, some of them taken.
    Branch(Vec<Option<Box<TrieNode>>>),
    /// A node that holds a value.
    Leaf,
    /// A node that shares a stretch of path in front of one child.
    Extension(Box<TrieNode>),
    /// A node known by its hash alone.
    Digest,
}

/// A node hash together with the encoding of that node.
pub type WitnessNode = ([u8; 32], Vec<u8>);

/// Encodings of this many bytes and more are referenced by hash; shorter ones
/// stand inside their parent's encoding.
pub const HASHED_NODE_LEN: usize = 32;

/// The hash and encoding of a witness node.
pub open spec fn witness_entry(node: WitnessNode) -> (Seq<u8>, Seq<u8>) {
    (node.0@, node.1@)
}

/// The hashes and encodings of witness nodes.
pub open spec fn witness_entries(nodes: Seq<WitnessNode>) -> Seq<(Seq<u8>, Seq<u8>)> {
    nodes.map_values(|node: WitnessNode| witness_entry(node))
}

impl TrieNode {
    /// Whether the node itself is there, not just a reference to it or nothing.
    pub open spec fn is_present(self) -> bool {
        !(self.data is Null) && !(self.data is Digest)
    }

    /// Whether the node is referenced by its hash.
    pub open spec fn is_hashed(self) -> bool {
        self.is_present() && self.encoded@.len() >= HASHED_NODE_LEN
    }

    /// Whether the node is referenced by its hash and `entry` pairs that hash
    /// with the node's encoding.
    pub open spec fn has_entry(self, entry: (Seq<u8>, Seq<u8>)) -> bool {
        self.is_hashed() && entry.0 == self.hash@ && entry.1 == self.encoded@
    }

    /// The entry of the node itself, where it has one.
    pub open spec fn own_witness(self) -> Seq<(Seq<u8>, Seq<u8>)> {
        if self.is_hashed() {
            seq![(self.hash@, self.encoded@)]
        } else {
            Seq::empty()
        }
    }

    /// The entries of the node and of all nodes below it, each node before its
    /// children and children from left to right.
    pub open spec fn witness(self) -> Seq<(Seq<u8>, Seq<u8>)>
        decreases self,
    {
        match self.data {
            TrieNodeData::Null | TrieNodeData::Digest => Seq::empty(),
            TrieNodeData::Leaf => self.own_witness(),
            TrieNodeData::Branch(children) => self.own_witness() + children_witness(children@),
            TrieNodeData::Extension(child) => self.own_witness() + child.witness(),
        }
    }
}

/// The entries below the places of a branch.
pub open spec fn children_witness(children: Seq<Option<Box<TrieNode>>>) -> Seq<
    (Seq<u8>, Seq<u8>),
>
    decreases children,
{
    if children.len() == 0 {
        Seq::empty()
    } else {
        children_witness(children.drop_last()) + (match children.last() {
            Some(child) => child.witness(),
            None => Seq::empty(),
        })
    }
}

/// Appends the witness entries of `node` and of every node below it to `out`.
/// References that stand for absent nodes add nothing. A node that is short
/// enough to stand inside its parent gets no entry, but its children do.
pub fn collect_witness_nodes(node: &TrieNode, out: &mut Vec<WitnessNode>)
    ensures
        witness_entries(final(out)@) == witness_entries(old(out)@) + node.witness(),
        old(out)@.is_prefix_of(final(out)@),
    decreases *node,
{
    match &node.data {
        TrieNodeData::Null | TrieNodeData::Digest => {
            return ;
        },
        _ => {},
    }
    if node.encoded.len() >= HASHED_NODE_LEN {
        out.push((node.hash, copy_bytes(node.encoded.as_slice())));
    }
    let ghost own = out@;
    assert(witness_entries(own) == witness_entries(old(out)@) + node.own_witness());
    match &node.data {
        TrieNodeData::Branch(children) => {
            let mut i: usize = 0;
            while i < children.len()
                invariant
                    i <= children@.len(),
                    node.data == TrieNodeData::Branch(*children),
                    witness_entries(out@) == witness_entries(own) + children_witness(
                        children@.take(i as int),
                    ),
                    own.is_prefix_of(out@),
                decreases children@.len() - i,
            {
                let ghost before = children@.take(i as int);
                if let Some(child) = &children[i] {
                    proof {
                        assert(decreases_to!(*node => node.data));
                        assert(decreases_to!(node.data => node.data->Branch_0));
                        assert(decreases_to!(*children => children@));
                        assert(decreases_to!(children@ => children@[i as int]));
                        assert(decreases_to!(children@[i as int] => children@[i as int]->0));
                    }
                    collect_witness_nodes(child, out);
                }
                assert(children@.take(i + 1).drop_last() == before);
                i += 1;
            }
            assert(children@.take(i as int) == children@);
        },
        TrieNodeData::Extension(child) => {
            collect_witness_nodes(child, out);
        },
        _ => {},
    }
}

/// The entries of several tries, one trie after another.
pub open spec fn tries_witness(tries: Seq<TrieNode>) -> Seq<(Seq<u8>, Seq<u8>)>
    decreases tries.len(),
{
    if tries.len() == 0 {
        Seq::empty()
    } else {
        tries_witness(tries.drop_last()) + tries.last().witness()
    }
}

/// Collects the witness entries of several tries into one flat list.
pub fn collect_storage_witness(tries: &Vec<TrieNode>) -> (r: Vec<WitnessNode>)
    ensures
        witness_entries(r@) == tries_witness(tries@),
{
    let mut out: Vec<WitnessNode> = Vec::new();
    let mut i: usize = 0;
    while i < tries.len()
        invariant
            i <= tries@.len(),
            witness_entries(out@) == tries_witness(tries@.take(i as int)),
        decreases tries@.len() - i,
    {
        collect_witness_nodes(&tries[i], &mut out);
        assert(tries@.take(i + 1).drop_last() == tries@.take(i as int));
        i += 1;
    }
    assert(tries@.take(i as int) == tries@);
    out
}

/// One witness entry as an item: `[node_hash, encoded_node]`.
pub open spec fn witness_entry_item(entry: (Seq<u8>, Seq<u8>)) -> Item {
    Item::List(seq![Item::Str(entry.0), Item::Str(entry.1)])
}

/// A witness as an item: the list of its entries.
pub open spec fn witness_item(entries: Seq<(Seq<u8>, Seq<u8>)>) -> Item {
    Item::List(entries.map_values(|entry: (Seq<u8>, Seq<u8>)| witness_entry_item(entry)))
}

/// Different witnesses are different items.
pub proof fn law_witness_item_injective(a: Seq<(Seq<u8>, Seq<u8>)>, b: Seq<(Seq<u8>, Seq<u8>)>)
    requires
        witness_item(a) == witness_item(b),
    ensures
        a == b,
{
    let f = |entry: (Seq<u8>, Seq<u8>)| witness_entry_item(entry);
    assert forall|x: (Seq<u8>, Seq<u8>), y: (Seq<u8>, Seq<u8>)| #[trigger] f(x) == #[trigger] f(
        y,
    ) implies x == y by {
        let xs = seq![Item::Str(x.0), Item::Str(x.1)];
        let ys = seq![Item::Str(y.0), Item::Str(y.1)];
        assert(f(x) == Item::List(xs) && f(y) == Item::List(ys));
        assert(xs[0] == ys[0] && xs[1] == ys[1]);
    }
    lemma_map_injective(a, b, f);
}

/// Encodes witness nodes as a list of `[node_hash, encoded_node]`.
pub fn build_witness_list(nodes: &[WitnessNode]) -> (r: Vec<u8>)
    ensures
        r@ == encode(witness_item(witness_entries(nodes@))),
{
    let ghost entries = witness_entries(nodes@);
    let mut items: Vec<Vec<u8>> = Vec::new();
    let mut i: usize = 0;
    while i < nodes.len()
        invariant
            i <= nodes@.len(),
            items@.len() == i,
            entries == witness_entries(nodes@),
            forall|j: int|
                0 <= j < i ==> (#[trigger] items@[j])@ == encode(witness_entry_item(entries[j])),
        decreases nodes@.len() - i,
    {
        let node = &nodes[i];
        let pair: [Vec<u8>; 2] = [
            rlp_encode_bytes(&node.0),
            rlp_encode_bytes(node.1.as_slice()),
        ];
        proof {
            lemma_concat_encodes(pair@, seq![Item::Str(node.0@), Item::Str(node.1@)]);
        }
        items.push(rlp_encode_list(&pair));
        i += 1;
    }
    proof {
        lemma_concat_encodes(
            items@,
            entries.map_values(|entry: (Seq<u8>, Seq<u8>)| witness_entry_item(entry)),
        );
    }
    rlp_encode_list(items.as_slice())
}

impl TrieNode {
    /// Whether `target` is this node or stands somewhere below it.
    pub open spec fn reaches(self, target: TrieNode) -> bool
        decreases self,
    {
        self == target || match self.data {
            TrieNodeData::Branch(children) => children_reach(children@, target),
            TrieNodeData::Extension(child) => child.reaches(target),
            _ => false,
        }
    }
}

/// Whether `target` stands below one of the places of a branch.
pub open spec fn children_reach(children: Seq<Option<Box<TrieNode>>>, target: TrieNode) -> bool
    decreases children,
{
    children.len() > 0 && (children_reach(children.drop_last(), target) || match children.last() {
        Some(child) => child.reaches(target),
        None => false,
    })
}

/// The witness of a trie has an entry exactly for the nodes that the trie
/// reaches and that are referenced by hash: absent and inlined nodes have none,
/// and no other node is left out.
pub proof fn law_witness_exact(node: TrieNode, entry: (Seq<u8>, Seq<u8>))
    ensures
        node.witness().contains(entry) <==> exists|n: TrieNode| #[trigger]
            node.reaches(n) && n.has_entry(entry),
    decreases node,
{
    let own = node.own_witness();
    assert(own.contains(entry) <==> node.has_entry(entry)) by {
        if node.is_hashed() {
            assert(own[0] == (node.hash@, node.encoded@));
        }
    }
    assert(node.reaches(node));
    match node.data {
        TrieNodeData::Branch(children) => {
            lemma_children_witness_exact(children@, entry);
            lemma_add_contains(own, children_witness(children@), entry);
            assert forall|n: TrieNode| #[trigger] node.reaches(n) implies n == node
                || children_reach(children@, n) by {}
            assert forall|n: TrieNode| #[trigger] children_reach(children@, n) implies node.reaches(
                n,
            ) by {}
        },
        TrieNodeData::Extension(child) => {
            law_witness_exact(*child, entry);
            lemma_add_contains(own, child.witness(), entry);
            assert forall|n: TrieNode| #[trigger] node.reaches(n) implies n == node
                || child.reaches(n) by {}
            assert forall|n: TrieNode| #[trigger] child.reaches(n) implies node.reaches(n) by {}
            assert(node.witness() == own + child.witness());
        },
        _ => {},
    }
}

/// The flat witness of several tries has an entry exactly for the nodes that one
/// of the tries reaches and that are referenced by hash.
pub proof fn law_tries_witness_exact(tries: Seq<TrieNode>, entry: (Seq<u8>, Seq<u8>))
    ensures
        tries_witness(tries).contains(entry) <==> exists|i: int, n: TrieNode|
            0 <= i < tries.len() && #[trigger] tries[i].reaches(n) && n.has_entry(entry),
    decreases tries.len(),
{
    if tries.len() > 0 {
        let init = tries.drop_last();
        let last = tries.len() - 1;
        law_tries_witness_exact(init, entry);
        law_witness_exact(tries[last], entry);
        lemma_add_contains(tries_witness(init), tries[last].witness(), entry);
        if tries_witness(init).contains(entry) {
            let (i, n) = choose|i: int, n: TrieNode|
                0 <= i < init.len() && #[trigger] init[i].reaches(n) && n.has_entry(entry);
            assert(tries[i].reaches(n));
        }
        assert forall|i: int, n: TrieNode|
            0 <= i < tries.len() && #[trigger] tries[i].reaches(n) && n.has_entry(
                entry,
            ) implies tries_witness(tries).contains(entry) by {
            if i < last {
                assert(init[i].reaches(n));
            }
        }
    }
}

/// The entries below the places of a branch are exactly those of the nodes that
/// the places reach and that are referenced by hash.
proof fn lemma_children_witness_exact(
    children: Seq<Option<Box<TrieNode>>>,
    entry: (Seq<u8>, Seq<u8>),
)
    ensures
        children_witness(children).contains(entry) <==> exists|n: TrieNode| #[trigger]
            children_reach(children, n) && n.has_entry(entry),
    decreases children,
{
    if children.len() > 0 {
        let init = children.drop_last();
        lemma_children_witness_exact(init, entry);
        assert forall|n: TrieNode| #[trigger] children_reach(init, n) implies children_reach(
            children,
            n,
        ) by {}
        match children.last() {
            Some(child) => {
                law_witness_exact(*child, entry);
                lemma_add_contains(children_witness(init), child.witness(), entry);
                assert forall|n: TrieNode| #[trigger] child.reaches(n) implies children_reach(
                    children,
                    n,
                ) by {}
                assert forall|n: TrieNode| #[trigger] children_reach(children, n) implies children_reach(
                    init,
                    n,
                ) || child.reaches(n) by {}
            },
            None => {
                assert(children_witness(children) == children_witness(init));
                assert forall|n: TrieNode| #[trigger] children_reach(children, n) implies children_reach(
                    init,
                    n,
                ) by {}
            },
        }
    }
}

/// A concatenation holds what either side holds.
proof fn lemma_add_contains<A>(s: Seq<A>, t: Seq<A>, a: A)
    ensures
        (s + t).contains(a) <==> s.contains(a) || t.contains(a),
{
    let all = s + t;
    if s.contains(a) {
        let i = choose|i: int| 0 <= i < s.len() && s[i] == a;
        assert(all[i] == a);
    }
    if t.contains(a) {
        let i = choose|i: int| 0 <= i < t.len() && t[i] == a;
        assert(all[s.len() + i] == a);
    }
    if all.contains(a) {
        let i = choose|i: int| 0 <= i < all.len() && all[i] == a;
        if i < s.len() {
            assert(s[i] == a);
        } else {
            assert(t[i - s.len()] == a);
        }
    }
}

/// A witness node is given by its own hash and encoding, in the order of the
/// nodes.
pub proof fn law_witness_entries(nodes: Seq<WitnessNode>)
    ensures
        witness_entries(nodes).len() == nodes.len(),
        forall|i: int|
            0 <= i < nodes.len() ==> #[trigger] witness_entries(nodes)[i] == (
                nodes[i].0@,
                nodes[i].1@,
            ),
{
}

/// Each item of a witness list is the list of one node's hash and encoding, byte
/// for byte, in the order of the nodes.
pub proof fn law_witness_list_items(nodes: Seq<WitnessNode>)
    ensures
        witness_item(witness_entries(nodes)) matches Item::List(items) && items.len() == nodes.len()
            && forall|i: int|
            0 <= i < nodes.len() ==> #[trigger] items[i] == Item::List(
                seq![Item::Str(nodes[i].0@), Item::Str(nodes[i].1@)],
            ),
{
}

/// Each item of a witness is the list of one entry's hash and encoding, byte for
/// byte, in the order of the entries.
pub proof fn law_witness_items(entries: Seq<(Seq<u8>, Seq<u8>)>)
    ensures
        witness_item(entries) matches Item::List(items) && items.len() == entries.len() && forall|
            i: int,
        |
            0 <= i < entries.len() ==> #[trigger] items[i] == Item::List(
                seq![Item::Str(entries[i].0), Item::Str(entries[i].1)],
            ),
{
}

/// Empty tries and references have no witness, whatever stands in them. A leaf
/// is its own witness where its encoding has 32 bytes or more. An extension's
/// witness is its own, in the same way, and then its child's.
pub proof fn law_witness_of_single_nodes(encoded: Vec<u8>, hash: [u8; 32], child: TrieNode)
    ensures
        ({
            let own = if encoded@.len() >= 32 {
                seq![(hash@, encoded@)]
            } else {
                Seq::empty()
            };
            let null = TrieNode { data: TrieNodeData::Null, encoded, hash };
            let digest = TrieNode { data: TrieNodeData::Digest, encoded, hash };
            let leaf = TrieNode { data: TrieNodeData::Leaf, encoded, hash };
            let extension = TrieNode {
                data: TrieNodeData::Extension(Box::new(child)),
                encoded,
                hash,
            };
            &&& null.witness().len() == 0
            &&& digest.witness().len() == 0
            &&& leaf.witness() == own
            &&& extension.witness() == own + child.witness()
        }),
{
}

/// A branch's witness is its own, where its encoding has 32 bytes or more, and
/// then those of its children from left to right: a child to the right of the
/// others adds its witness behind theirs, and a free place adds nothing.
pub proof fn law_witness_of_branches(
    places: Vec<Option<Box<TrieNode>>>,
    more: Vec<Option<Box<TrieNode>>>,
    place: Option<Box<TrieNode>>,
    encoded: Vec<u8>,
    hash: [u8; 32],
)
    requires
        more@ == places@.push(place),
    ensures
        ({
            let branch = TrieNode { data: TrieNodeData::Branch(places), encoded, hash };
            let wider = TrieNode { data: TrieNodeData::Branch(more), encoded, hash };
            &&& places@.len() == 0 ==> branch.witness() == if encoded@.len() >= 32 {
                seq![(hash@, encoded@)]
            } else {
                Seq::empty()
            }
            &&& place is None ==> wider.witness() == branch.witness()
            &&& place matches Some(child) ==> wider.witness() == branch.witness() + child.witness()
        }),
{
    assert(more@.drop_last() == places@);
    assert(more@.last() == place);
    let branch = TrieNode { data: TrieNodeData::Branch(places), encoded, hash };
    let wider = TrieNode { data: TrieNodeData::Branch(more), encoded, hash };
    assert(branch.own_witness() == wider.own_witness());
    assert(wider.witness() == wider.own_witness() + children_witness(more@));
    assert(branch.witness() == branch.own_witness() + children_witness(places@));
    match place {
        Some(child) => {
            assert(children_witness(more@) == children_witness(places@) + child.witness());
            assert(wider.witness() =~= branch.witness() + child.witness());
        },
        None => {
            assert(children_witness(more@) =~= children_witness(places@));
        },
    }
}

/// A trie behind the others adds its witness behind theirs.
pub proof fn law_tries_witness(tries: Seq<TrieNode>, last: TrieNode)
    ensures
        tries_witness(Seq::empty()).len() == 0,
        tries_witness(tries.push(last)) == tries_witness(tries) + last.witness(),
{
    assert(tries.push(last).drop_last() == tries);
}

/// A node reaches itself, what its children reach, and nothing else.
pub proof fn law_reaches(node: TrieNode, target: TrieNode)
    ensures
        node.reaches(target) <==> {
            ||| node == target
            ||| node.data matches TrieNodeData::Extension(child) && child.reaches(target)
            ||| node.data matches TrieNodeData::Branch(children) && exists|i: int|
                0 <= i < children@.len() && #[trigger] children@[i] is Some
                    && children@[i]->0.reaches(target)
        },
{
    if let TrieNodeData::Branch(children) = node.data {
        lemma_children_reach(children@, target);
    }
}

/// A branch reaches what one of its children reaches.
proof fn lemma_children_reach(children: Seq<Option<Box<TrieNode>>>, target: TrieNode)
    ensures
        children_reach(children, target) <==> exists|i: int|
            0 <= i < children.len() && #[trigger] children[i] is Some && children[i]->0.reaches(
                target,
            ),
    decreases children.len(),
{
    if children.len() > 0 {
        let init = children.drop_last();
        let last = children.len() - 1;
        lemma_children_reach(init, target);
        if children_reach(init, target) {
            let i = choose|i: int|
                0 <= i < init.len() && #[trigger] init[i] is Some && init[i]->0.reaches(target);
            assert(children[i] == init[i]);
        }
        if children[last] is Some && children[last]->0.reaches(target) {
            assert(children_reach(children, target));
        }
        assert forall|i: int|
            0 <= i < children.len() && #[trigger] children[i] is Some && children[i]->0.reaches(
                target,
            ) implies children_reach(children, target) by {
            if i < last {
                assert(init[i] == children[i]);
            }
        }
    }
}

/// A node has an entry where it is there and its encoding has 32 bytes or more,
/// and the entry pairs the hash and the encoding as they stand.
pub proof fn law_has_entry(node: TrieNode, entry: (Seq<u8>, Seq<u8>))
    ensures
        node.has_entry(entry) <==> {
            &&& !(node.data is Null)
            &&& !(node.data is Digest)
            &&& node.encoded@.len() >= 32
            &&& entry == (node.hash@, node.encoded@)
        },
{
}

} // verus!
