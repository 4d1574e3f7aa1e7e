use policy_tree::compiler::compile;
use policy_tree::error::PipelineError;
use policy_tree::serializer::{serialize, Scalar, SerializedNode};
use policy_tree::snapshot::inspect;
use policy_tree::tree::{ConditionNode, Fragment};

fn leaf(fragment: Fragment) -> ConditionNode {
    ConditionNode::new(fragment, vec![]).unwrap()
}

fn node(fragment: Fragment, children: Vec<ConditionNode>) -> ConditionNode {
    ConditionNode::new(fragment, children).unwrap()
}

fn key(name: &str) -> ConditionNode {
    leaf(Fragment::PkK(name.to_string()))
}

fn signed_by(name: &str) -> ConditionNode {
    node(Fragment::Check, vec![key(name)])
}

#[test]
fn a_single_key_compiles_to_a_checked_key() {
    let branch = compile("pk(A)").unwrap();
    assert_eq!(branch.tree, signed_by("A"));
    assert_eq!(branch.descriptor, "wsh(pk(A))#5wp9m2z3");
}

#[test]
fn a_threshold_of_keys_compiles_to_a_multi_leaf() {
    let branch = compile("thresh(2,pk(A),pk(B),pk(C))").unwrap();
    let keys = vec!["A".to_string(), "B".to_string(), "C".to_string()];
    assert_eq!(branch.tree, leaf(Fragment::Multi(2, keys.clone())));
    assert_eq!(branch.descriptor, "wsh(multi(2,A,B,C))#uhe03042");
    assert_eq!(
        serialize(&branch.tree),
        SerializedNode {
            kind: "Multi".to_string(),
            depth: 0,
            m: Some(2),
            value: Some(Scalar::Keys(keys)),
            children: None,
        }
    );
}

#[test]
fn a_threshold_of_mixed_conditions_compiles_to_thresh() {
    let branch = compile("thresh(2,pk(A),pk(B),older(10))").unwrap();
    let expected = node(
        Fragment::Thresh(2),
        vec![
            signed_by("A"),
            node(Fragment::Swap, vec![signed_by("B")]),
            node(
                Fragment::Swap,
                vec![node(
                    Fragment::ZeroNotEqual,
                    vec![node(Fragment::OrI, vec![leaf(Fragment::False), leaf(Fragment::Older(10))])],
                )],
            ),
        ],
    );
    assert_eq!(branch.tree, expected);
    let document = serialize(&branch.tree);
    assert_eq!(document.kind, "Thresh");
    assert_eq!(document.m, Some(2));
    assert_eq!(document.depth, 0);
    let children = document.children.unwrap();
    assert_eq!(children.len(), 3);
    for child in &children {
        assert_eq!(child.depth, 1);
    }
}

#[test]
fn a_conjunction_with_a_lock_time_keeps_both_sides_in_order() {
    let branch = compile("and(pk(A),after(100))").unwrap();
    let expected = node(
        Fragment::AndV,
        vec![node(Fragment::Verify, vec![signed_by("A")]), leaf(Fragment::After(100))],
    );
    assert_eq!(branch.tree, expected);
    assert_eq!(branch.descriptor, "wsh(and_v(v:pk(A),after(100)))#vh298tjd");
}

#[test]
fn compiling_twice_gives_the_same_branch() {
    let policy = "or(pk(A),and(pk(B),older(144)))";
    assert_eq!(compile(policy).unwrap(), compile(policy).unwrap());
    assert_eq!(inspect(policy).unwrap(), inspect(policy).unwrap());
    assert_eq!(inspect(policy).unwrap(), serialize(&compile(policy).unwrap().tree));
}

#[test]
fn a_failure_carries_the_cause() {
    assert_eq!(compile(""), Err(PipelineError::Compilation("unexpected «»".to_string())));
    assert_eq!(
        compile("pk(é)"),
        Err(PipelineError::Compilation("unprintable character 0xc3".to_string()))
    );
    assert_eq!(
        compile("and(pk(A),or(after(5),older(5)))"),
        Err(PipelineError::Compilation(
            "The compiler could not find any non-malleable compilation".to_string()
        ))
    );
    assert_eq!(
        inspect("older(1)"),
        Err(PipelineError::Compilation("Top Level script is not safe on some spendpath".to_string()))
    );
}

#[test]
fn odds_compile_exactly_where_their_sum_fits() {
    let fits = compile("or(2147483647@pk(A),2147483648@pk(B))");
    assert!(fits.is_ok());
    let large = compile("or(4294967295@pk(A),4294967295@pk(B))");
    if usize::BITS > 32 {
        assert_eq!(large.unwrap().descriptor, "wsh(or_b(pk(A),s:pk(B)))#z2tsuf0c");
        assert!(compile("or(4294967295@pk(A),1@pk(B))").is_ok());
    } else {
        let expected = Err(PipelineError::Compilation(
            "the odds of a disjunction do not add up to a positive number".to_string(),
        ));
        assert_eq!(large, expected);
        assert_eq!(compile("or(4294967295@pk(A),1@pk(B))"), expected);
    }
}

#[test]
fn a_text_that_is_no_policy_is_a_compilation_error() {
    assert!(matches!(compile(""), Err(PipelineError::Compilation(_))));
    assert!(matches!(compile("pk("), Err(PipelineError::Compilation(_))));
    assert!(matches!(compile("nonsense(A)"), Err(PipelineError::Compilation(_))));
    assert!(matches!(compile("thresh(4,pk(A),pk(B))"), Err(PipelineError::Compilation(_))));
    assert!(matches!(inspect("pk("), Err(PipelineError::Compilation(_))));
}

#[test]
fn a_policy_without_a_safe_script_is_a_compilation_error() {
    assert_eq!(
        compile("older(1)"),
        Err(PipelineError::Compilation("Top Level script is not safe on some spendpath".to_string()))
    );
    assert!(matches!(compile("and(pk(A),pk(A))"), Err(PipelineError::Compilation(_))));
}

#[test]
fn a_disjunction_with_no_odds_at_all_is_a_compilation_error() {
    let expected = Err(PipelineError::Compilation(
        "the odds of a disjunction do not add up to a positive number".to_string(),
    ));
    assert_eq!(compile("or(0@pk(A),0@pk(B))"), expected);
    assert_eq!(compile("and(pk(C),or(0@pk(A),0@pk(B)))"), expected);
    assert_eq!(compile("thresh(2,or(0@pk(A),0@pk(B)),pk(C),pk(D))"), expected);
    assert!(compile("or(0@pk(A),1@pk(B))").is_ok());
    assert!(compile("or(1@pk(A),0@pk(B))").is_ok());
}

#[test]
fn a_placeholder_left_in_the_policy_is_taken_for_a_key_name() {
    let branch = compile("pk($MY_KEY)").unwrap();
    assert_eq!(branch.tree, signed_by("$MY_KEY"));
}

#[test]
fn a_branch_that_nobody_signs_is_not_safe() {
    assert_eq!(
        compile("or(pk(A),older(144))"),
        Err(PipelineError::Compilation("Top Level script is not safe on some spendpath".to_string()))
    );
}

fn verified(name: &str) -> ConditionNode {
    node(Fragment::Verify, vec![signed_by(name)])
}

#[test]
fn a_chain_of_disjunctions_compiles_to_key_hashes_under_or_i() {
    let branch = compile("or(pk(A),or(pk(B),or(pk(C),pk(D))))").unwrap();
    assert_eq!(
        branch.descriptor,
        "wsh(t:or_c(pk(A),vc:or_i(pk_h(B),or_i(pk_h(C),pk_h(D)))))#g0680t8z"
    );
    let hashed = |name: &str| leaf(Fragment::PkH(name.to_string()));
    let inner = node(Fragment::OrI, vec![hashed("C"), hashed("D")]);
    let outer = node(Fragment::OrI, vec![hashed("B"), inner]);
    let right = node(Fragment::Verify, vec![node(Fragment::Check, vec![outer])]);
    let expected = node(
        Fragment::AndV,
        vec![node(Fragment::OrC, vec![signed_by("A"), right]), leaf(Fragment::True)],
    );
    assert_eq!(branch.tree, expected);
    assert_eq!(branch.tree.height(), 7);
}

#[test]
fn hash_locks_keep_their_digest() {
    let cases = [
        ("and(pk(A),sha256(aa))", Fragment::Sha256("aa".to_string())),
        ("and(pk(A),hash256(bb))", Fragment::Hash256("bb".to_string())),
        ("and(pk(A),ripemd160(cc))", Fragment::Ripemd160("cc".to_string())),
        ("and(pk(A),hash160(dd))", Fragment::Hash160("dd".to_string())),
    ];
    for (policy, lock) in cases {
        let branch = compile(policy).unwrap();
        assert_eq!(branch.tree, node(Fragment::AndV, vec![verified("A"), leaf(lock)]));
    }
}

#[test]
fn a_disjunction_with_a_timed_branch_compiles_to_or_d() {
    let branch = compile("or(pk(A),and(pk(B),older(144)))").unwrap();
    assert_eq!(branch.descriptor, "wsh(or_d(pk(A),and_v(v:pk(B),older(144))))#uj59xatx");
    let timed = node(Fragment::AndV, vec![verified("B"), leaf(Fragment::Older(144))]);
    assert_eq!(branch.tree, node(Fragment::OrD, vec![signed_by("A"), timed]));
}

#[test]
fn two_timed_branches_compile_to_and_or() {
    let branch = compile("or(and(pk(A),older(5)),and(pk(B),after(7)))").unwrap();
    assert_eq!(
        branch.descriptor,
        "wsh(andor(pk(A),older(5),and_v(v:pk(B),after(7))))#sd9rwhaq"
    );
    let otherwise = node(Fragment::AndV, vec![verified("B"), leaf(Fragment::After(7))]);
    let expected =
        node(Fragment::AndOr, vec![signed_by("A"), leaf(Fragment::Older(5)), otherwise]);
    assert_eq!(branch.tree, expected);
    assert_eq!(serialize(&branch.tree).children.unwrap().len(), 3);
}

#[test]
fn a_threshold_wraps_its_later_branches() {
    let branch = compile("thresh(2,pk(A),and(pk(B),older(3)),and(pk(C),after(4)))").unwrap();
    let wrapped = |inner: ConditionNode| {
        node(
            Fragment::Swap,
            vec![node(Fragment::ZeroNotEqual, vec![node(Fragment::NonZero, vec![inner])])],
        )
    };
    let second = node(Fragment::AndV, vec![verified("B"), leaf(Fragment::Older(3))]);
    let third = node(Fragment::AndV, vec![verified("C"), leaf(Fragment::After(4))]);
    let expected =
        node(Fragment::Thresh(2), vec![signed_by("A"), wrapped(second), wrapped(third)]);
    assert_eq!(branch.tree, expected);
}

#[test]
fn a_conjunction_of_disjunctions_compiles_to_or_c_and_or_b() {
    let branch = compile("and(or(pk(A),pk(B)),or(pk(C),pk(D)))").unwrap();
    let left = node(Fragment::OrC, vec![signed_by("A"), verified("B")]);
    let right =
        node(Fragment::OrB, vec![signed_by("C"), node(Fragment::Swap, vec![signed_by("D")])]);
    assert_eq!(branch.tree, node(Fragment::AndV, vec![left, right]));
}

#[test]
fn a_disjunction_of_conjunctions_shares_one_check() {
    let branch = compile("or(and(pk(A),pk(B)),and(pk(C),pk(D)))").unwrap();
    let otherwise = node(Fragment::AndV, vec![verified("C"), key("D")]);
    let choice = node(Fragment::AndOr, vec![signed_by("A"), key("B"), otherwise]);
    assert_eq!(branch.tree, node(Fragment::Check, vec![choice]));
}

#[test]
fn a_descriptor_that_cannot_be_written_is_a_compilation_error() {
    let expected = Err(PipelineError::Compilation(
        "an error occurred when formatting an argument".to_string(),
    ));
    assert_eq!(compile("pk(\u{14}a)"), expected);
    assert_eq!(compile("pk(a\u{7f})"), expected);
}

#[test]
fn a_relative_lock_with_its_highest_bit_set_is_a_compilation_error() {
    let expected =
        Err(PipelineError::Compilation("a relative lock has its highest bit set".to_string()));
    assert_eq!(compile("and(pk(A),older(2147483648))"), expected);
    assert_eq!(compile("older(2147483648)"), expected);
    assert_eq!(compile("or(pk(B),and(pk(A),older(2147483648)))"), expected);
    assert_eq!(compile("thresh(2,pk(A),pk(B),and(pk(C),older(2147483648)))"), expected);
}

#[test]
fn the_largest_relative_lock_compiles() {
    let branch = compile("and(pk(A),older(2147483647))").unwrap();
    let expected = node(Fragment::AndV, vec![verified("A"), leaf(Fragment::Older(2147483647))]);
    assert_eq!(branch.tree, expected);
}

#[test]
fn an_absolute_lock_may_have_its_highest_bit_set() {
    let branch = compile("and(pk(A),after(2147483648))").unwrap();
    let expected = node(Fragment::AndV, vec![verified("A"), leaf(Fragment::After(2147483648))]);
    assert_eq!(branch.tree, expected);
}

#[test]
fn a_lock_above_the_highest_bit_is_refused_by_the_parser() {
    assert!(matches!(compile("and(pk(A),older(2147483649))"), Err(PipelineError::Compilation(_))));
    assert!(matches!(compile("and(pk(A),older(0))"), Err(PipelineError::Compilation(_))));
}
