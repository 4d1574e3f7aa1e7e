use policy_tree::tree::{ConditionNode, Fragment, MAX_HEIGHT};

fn key(name: &str) -> ConditionNode {
    ConditionNode::new(Fragment::PkK(name.to_string()), vec![]).unwrap()
}

fn keys(count: usize) -> Vec<ConditionNode> {
    (0..count).map(|i| key(&format!("K{}", i))).collect()
}

fn leaves() -> Vec<Fragment> {
    vec![
        Fragment::True,
        Fragment::False,
        Fragment::PkK("A".to_string()),
        Fragment::PkH("A".to_string()),
        Fragment::RawPkH("00".to_string()),
        Fragment::After(100),
        Fragment::Older(144),
        Fragment::Sha256("aa".to_string()),
        Fragment::Hash256("bb".to_string()),
        Fragment::Ripemd160("cc".to_string()),
        Fragment::Hash160("dd".to_string()),
        Fragment::Multi(1, vec!["A".to_string(), "B".to_string()]),
        Fragment::MultiA(2, vec!["A".to_string(), "B".to_string()]),
        Fragment::Unmatched,
    ]
}

fn wrappers() -> Vec<Fragment> {
    vec![
        Fragment::Alt,
        Fragment::Swap,
        Fragment::Check,
        Fragment::DupIf,
        Fragment::Verify,
        Fragment::NonZero,
        Fragment::ZeroNotEqual,
    ]
}

fn binaries() -> Vec<Fragment> {
    vec![
        Fragment::AndV,
        Fragment::AndB,
        Fragment::OrB,
        Fragment::OrD,
        Fragment::OrC,
        Fragment::OrI,
    ]
}

#[test]
fn a_leaf_accepts_no_sub_tree() {
    for fragment in leaves() {
        assert!(fragment.accepts(0), "{:?}", fragment);
        assert!(!fragment.accepts(1), "{:?}", fragment);
        assert!(ConditionNode::new(fragment.clone(), vec![]).is_some());
        assert!(ConditionNode::new(fragment, keys(1)).is_none());
    }
}

#[test]
fn a_wrapper_accepts_exactly_one_sub_tree() {
    for fragment in wrappers() {
        assert!(ConditionNode::new(fragment.clone(), keys(0)).is_none());
        assert!(ConditionNode::new(fragment.clone(), keys(1)).is_some());
        assert!(ConditionNode::new(fragment, keys(2)).is_none());
    }
}

#[test]
fn a_binary_connective_accepts_exactly_two_sub_trees() {
    for fragment in binaries() {
        assert!(ConditionNode::new(fragment.clone(), keys(1)).is_none());
        assert!(ConditionNode::new(fragment.clone(), keys(2)).is_some());
        assert!(ConditionNode::new(fragment, keys(3)).is_none());
    }
}

#[test]
fn and_or_accepts_exactly_three_sub_trees() {
    assert!(ConditionNode::new(Fragment::AndOr, keys(2)).is_none());
    assert!(ConditionNode::new(Fragment::AndOr, keys(3)).is_some());
    assert!(ConditionNode::new(Fragment::AndOr, keys(4)).is_none());
}

#[test]
fn a_threshold_accepts_any_positive_number_of_sub_trees() {
    assert!(ConditionNode::new(Fragment::Thresh(1), keys(0)).is_none());
    for count in 1..6 {
        assert!(ConditionNode::new(Fragment::Thresh(1), keys(count)).is_some());
    }
}

#[test]
fn a_node_keeps_its_fragment_and_its_children_in_order() {
    let node = ConditionNode::new(Fragment::Thresh(2), keys(3)).unwrap();
    assert_eq!(node.fragment(), &Fragment::Thresh(2));
    assert_eq!(node.children().len(), 3);
    assert_eq!(node.children()[0], key("K0"));
    assert_eq!(node.children()[1], key("K1"));
    assert_eq!(node.children()[2], key("K2"));
}

#[test]
fn the_height_counts_the_nodes_on_the_longest_path() {
    assert_eq!(key("A").height(), 1);
    let check = ConditionNode::new(Fragment::Check, vec![key("A")]).unwrap();
    assert_eq!(check.height(), 2);
    let swap = ConditionNode::new(Fragment::Swap, vec![check]).unwrap();
    assert_eq!(swap.height(), 3);
    let or = ConditionNode::new(Fragment::OrB, vec![key("B"), swap]).unwrap();
    assert_eq!(or.height(), 4);
    let or_again = ConditionNode::new(Fragment::OrD, vec![or, key("C")]).unwrap();
    assert_eq!(or_again.height(), 5);
}

#[test]
fn a_tree_is_at_most_the_limit_high() {
    assert_eq!(MAX_HEIGHT, 512);
    let mut tree = key("A");
    for height in 2..=MAX_HEIGHT {
        tree = ConditionNode::new(Fragment::Verify, vec![tree]).unwrap();
        assert_eq!(tree.height(), height);
    }
    assert_eq!(tree.height(), MAX_HEIGHT);
    assert!(ConditionNode::new(Fragment::Verify, vec![tree]).is_none());
}

#[test]
fn the_tallest_child_decides_whether_a_node_fits() {
    let mut tall = key("A");
    for _ in 1..MAX_HEIGHT {
        tall = ConditionNode::new(Fragment::Verify, vec![tall]).unwrap();
    }
    assert!(ConditionNode::new(Fragment::AndV, vec![key("B"), tall]).is_none());
    let mut lower = key("A");
    for _ in 2..MAX_HEIGHT {
        lower = ConditionNode::new(Fragment::Verify, vec![lower]).unwrap();
    }
    let node = ConditionNode::new(Fragment::AndV, vec![lower, key("B")]).unwrap();
    assert_eq!(node.height(), MAX_HEIGHT);
}
