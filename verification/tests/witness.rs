use bench_from_rpc::rlp::{rlp_encode_bytes, rlp_encode_list};
use bench_from_rpc::trie::{
    build_witness_list, collect_storage_witness, collect_witness_nodes, TrieNode, TrieNodeData,
    WitnessNode,
};

fn node(id: u8, len: usize, data: TrieNodeData) -> TrieNode {
    TrieNode { data, encoded: vec![id; len], hash: [id; 32] }
}

fn leaf(id: u8, len: usize) -> TrieNode {
    node(id, len, TrieNodeData::Leaf)
}

fn place(child: TrieNode) -> Option<Box<TrieNode>> {
    Some(Box::new(child))
}

fn collect(root: &TrieNode) -> Vec<WitnessNode> {
    let mut out = Vec::new();
    collect_witness_nodes(root, &mut out);
    out
}

fn entry(id: u8, len: usize) -> WitnessNode {
    ([id; 32], vec![id; len])
}

#[test]
fn absent_nodes_have_no_entry() {
    assert!(collect(&node(1, 40, TrieNodeData::Null)).is_empty());
    assert!(collect(&node(1, 40, TrieNodeData::Digest)).is_empty());
}

#[test]
fn nodes_below_32_bytes_have_no_entry() {
    assert!(collect(&leaf(1, 31)).is_empty());
    assert_eq!(collect(&leaf(1, 32)), vec![entry(1, 32)]);
    assert_eq!(collect(&leaf(1, 33)), vec![entry(1, 33)]);
}

#[test]
fn a_node_comes_before_its_children() {
    let branch = node(
        1,
        100,
        TrieNodeData::Branch(vec![
            None,
            place(leaf(2, 40)),
            place(node(3, 32, TrieNodeData::Digest)),
            place(node(4, 50, TrieNodeData::Extension(Box::new(leaf(5, 60))))),
            None,
            place(leaf(6, 20)),
        ]),
    );
    let root = node(7, 34, TrieNodeData::Extension(Box::new(branch)));
    assert_eq!(
        collect(&root),
        vec![entry(7, 34), entry(1, 100), entry(2, 40), entry(4, 50), entry(5, 60)]
    );
}

#[test]
fn children_of_inlined_nodes_are_walked() {
    let root = node(
        1,
        10,
        TrieNodeData::Branch(vec![place(node(
            2,
            12,
            TrieNodeData::Extension(Box::new(leaf(3, 40))),
        ))]),
    );
    assert_eq!(collect(&root), vec![entry(3, 40)]);
}

#[test]
fn entries_are_appended() {
    let mut out = vec![entry(9, 3)];
    collect_witness_nodes(&leaf(1, 32), &mut out);
    assert_eq!(out, vec![entry(9, 3), entry(1, 32)]);
}

#[test]
fn storage_tries_make_one_flat_list() {
    let tries = vec![
        leaf(1, 40),
        node(2, 40, TrieNodeData::Null),
        node(3, 40, TrieNodeData::Extension(Box::new(leaf(4, 40)))),
    ];
    assert_eq!(collect_storage_witness(&tries), vec![entry(1, 40), entry(3, 40), entry(4, 40)]);
    assert!(collect_storage_witness(&vec![]).is_empty());
}

#[test]
fn witness_list_pairs_hash_and_encoding() {
    let nodes = vec![entry(1, 2), entry(3, 60)];
    let expected = rlp_encode_list(&[
        rlp_encode_list(&[rlp_encode_bytes(&[1; 32]), rlp_encode_bytes(&[1; 2])]),
        rlp_encode_list(&[rlp_encode_bytes(&[3; 32]), rlp_encode_bytes(&[3; 60])]),
    ]);
    assert_eq!(build_witness_list(&nodes), expected);
    assert_eq!(build_witness_list(&[]), vec![0xc0]);
    assert_eq!(&build_witness_list(&nodes[..1])[..4], &[0xe5, 0xe4, 0xa0, 1]);
}
