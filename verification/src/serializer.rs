//! The tree serializer: a condition tree becomes a document in which every node
//! names its kind, carries its depth, and lists its sub-trees only when it has any.

use crate::tree::{
    lemma_tallest_bounds, trees_of, ConditionNode, ConditionTree, Fragment, FragmentView,
};
use vstd::prelude::*;

verus! {

/// The payload that a serialized node shows under `value`.
#[derive(Clone, Debug, PartialEq, Eq)]
pub enum Scalar {
    /// A key or a digest.
    Text(String),
    /// A lock time or a relative age.
    Number(u32),
    /// The keys of a threshold of keys, in order.
    Keys(Vec<String>),
}

/// The mathematical value of a [`Scalar`].
pub ghost enum ScalarView {
    Text(Seq<char>),
    Number(nat),
    Keys(Seq<Seq<char>>),
}

impl View for Scalar {
    type V = ScalarView;

    open spec fn view(&self) -> ScalarView {
        match *self {
            Scalar::Text(text) => ScalarView::Text(text@),
            Scalar::Number(number) => ScalarView::Number(number as nat),
            Scalar::Keys(keys) => ScalarView::Keys(keys.deep_view()),
        }
    }
}

impl FragmentView {
    /// The name under which a fragment of this kind is serialized.
    pub open spec fn name(self) -> Seq<char> {
        match self {
            FragmentView::True => "True"@,
            FragmentView::False => "False"@,
            FragmentView::PkK(_) => "PkK"@,
            FragmentView::PkH(_) => "PkH"@,
            FragmentView::RawPkH(_) => "RawPkH"@,
            FragmentView::After(_) => "After"@,
            FragmentView::Older(_) => "Older"@,
            FragmentView::Sha256(_) => "Sha256"@,
            FragmentView::Hash256(_) => "Hash256"@,
            FragmentView::Ripemd160(_) => "Ripemd160"@,
            FragmentView::Hash160(_) => "Hash160"@,
            FragmentView::Alt => "Alt"@,
            FragmentView::Swap => "Swap"@,
            FragmentView::Check => "Check"@,
            FragmentView::DupIf => "DupIf"@,
            FragmentView::Verify => "Verify"@,
            FragmentView::NonZero => "NonZero"@,
            FragmentView::ZeroNotEqual => "ZeroNotEqual"@,
            FragmentView::AndV => "AndV"@,
            FragmentView::AndB => "AndB"@,
            FragmentView::AndOr => "AndOr"@,
            FragmentView::OrB => "OrB"@,
            FragmentView::OrD => "OrD"@,
            FragmentView::OrC => "OrC"@,
            FragmentView::OrI => "OrI"@,
            FragmentView::Thresh(_) => "Thresh"@,
            FragmentView::Multi(_, _) => "Multi"@,
            FragmentView::MultiA(_, _) => "MultiA"@,
            FragmentView::Unmatched => "Unmatched"@,
        }
    }

    /// How many of its sub-trees or keys a threshold asks for; nothing for other kinds.
    pub open spec fn threshold(self) -> Option<nat> {
        match self {
            FragmentView::Thresh(k) => Some(k),
            FragmentView::Multi(k, _) => Some(k),
            FragmentView::MultiA(k, _) => Some(k),
            _ => None,
        }
    }

    /// The payload of a fragment: the key of a key leaf, the number of a time-lock,
    /// the digest of a hash-lock, the keys of a threshold of keys; nothing for the
    /// constants, the combinators and an unknown fragment.
    pub open spec fn value(self) -> Option<ScalarView> {
        match self {
            FragmentView::PkK(key) => Some(ScalarView::Text(key)),
            FragmentView::PkH(key) => Some(ScalarView::Text(key)),
            FragmentView::RawPkH(hash) => Some(ScalarView::Text(hash)),
            FragmentView::After(time) => Some(ScalarView::Number(time)),
            FragmentView::Older(age) => Some(ScalarView::Number(age)),
            FragmentView::Sha256(digest) => Some(ScalarView::Text(digest)),
            FragmentView::Hash256(digest) => Some(ScalarView::Text(digest)),
            FragmentView::Ripemd160(digest) => Some(ScalarView::Text(digest)),
            FragmentView::Hash160(digest) => Some(ScalarView::Text(digest)),
            FragmentView::Multi(_, keys) => Some(ScalarView::Keys(keys)),
            FragmentView::MultiA(_, keys) => Some(ScalarView::Keys(keys)),
            _ => None,
        }
    }
}

/// A copy of `keys`.
fn copy_keys(keys: &Vec<String>) -> (copy: Vec<String>)
    ensures
        copy.deep_view() == keys.deep_view(),
{
    let mut copy: Vec<String> = Vec::new();
    let mut i: usize = 0;
    while i < keys.len()
        invariant
            i <= keys.len(),
            copy.len() == i,
            forall|j: int| 0 <= j < i ==> copy[j]@ == keys[j]@,
        decreases keys.len() - i,
    {
        copy.push(keys[i].clone());
        i += 1;
    }
    assert(copy.deep_view() =~= keys.deep_view());
    copy
}

impl Fragment {
    /// The name under which this fragment is serialized.
    pub fn name(&self) -> (name: String)
        ensures
            name@ == self@.name(),
    {
        match self {
            Fragment::True => "True".to_owned(),
            Fragment::False => "False".to_owned(),
            Fragment::PkK(_) => "PkK".to_owned(),
            Fragment::PkH(_) => "PkH".to_owned(),
            Fragment::RawPkH(_) => "RawPkH".to_owned(),
            Fragment::After(_) => "After".to_owned(),
            Fragment::Older(_) => "Older".to_owned(),
            Fragment::Sha256(_) => "Sha256".to_owned(),
            Fragment::Hash256(_) => "Hash256".to_owned(),
            Fragment::Ripemd160(_) => "Ripemd160".to_owned(),
            Fragment::Hash160(_) => "Hash160".to_owned(),
            Fragment::Alt => "Alt".to_owned(),
            Fragment::Swap => "Swap".to_owned(),
            Fragment::Check => "Check".to_owned(),
            Fragment::DupIf => "DupIf".to_owned(),
            Fragment::Verify => "Verify".to_owned(),
            Fragment::NonZero => "NonZero".to_owned(),
            Fragment::ZeroNotEqual => "ZeroNotEqual".to_owned(),
            Fragment::AndV => "AndV".to_owned(),
            Fragment::AndB => "AndB".to_owned(),
            Fragment::AndOr => "AndOr".to_owned(),
            Fragment::OrB => "OrB".to_owned(),
            Fragment::OrD => "OrD".to_owned(),
            Fragment::OrC => "OrC".to_owned(),
            Fragment::OrI => "OrI".to_owned(),
            Fragment::Thresh(_) => "Thresh".to_owned(),
            Fragment::Multi(_, _) => "Multi".to_owned(),
            Fragment::MultiA(_, _) => "MultiA".to_owned(),
            Fragment::Unmatched => "Unmatched".to_owned(),
        }
    }

    /// How many of its sub-trees or keys a threshold asks for; nothing for other kinds.
    pub fn threshold(&self) -> (m: Option<usize>)
        ensures
            m is Some <==> self@.threshold() is Some,
            m matches Some(k) ==> self@.threshold() == Some(k as nat),
    {
        match self {
            Fragment::Thresh(k) => Some(*k),
            Fragment::Multi(k, _) => Some(*k),
            Fragment::MultiA(k, _) => Some(*k),
            _ => None,
        }
    }

    /// The payload of this fragment, if it has one.
    pub fn value(&self) -> (value: Option<Scalar>)
        ensures
            value is Some <==> self@.value() is Some,
            value matches Some(v) ==> self@.value() == Some(v@),
    {
        match self {
            Fragment::PkK(key) => Some(Scalar::Text(key.clone())),
            Fragment::PkH(key) => Some(Scalar::Text(key.clone())),
            Fragment::RawPkH(hash) => Some(Scalar::Text(hash.clone())),
            Fragment::After(time) => Some(Scalar::Number(*time)),
            Fragment::Older(age) => Some(Scalar::Number(*age)),
            Fragment::Sha256(digest) => Some(Scalar::Text(digest.clone())),
            Fragment::Hash256(digest) => Some(Scalar::Text(digest.clone())),
            Fragment::Ripemd160(digest) => Some(Scalar::Text(digest.clone())),
            Fragment::Hash160(digest) => Some(Scalar::Text(digest.clone())),
            Fragment::Multi(_, keys) => Some(Scalar::Keys(copy_keys(keys))),
            Fragment::MultiA(_, keys) => Some(Scalar::Keys(copy_keys(keys))),
            _ => None,
        }
    }
}

/// One node of the serialized document.
///
/// `children` is there only for a node that has sub-trees; a node without any
/// carries no empty list in its place.
#[derive(Debug, PartialEq, Eq)]
pub struct SerializedNode {
    /// The name of the fragment's kind.
    pub kind: String,
    /// The distance from the root of the tree. It is kept in 64 bits, so that a
    /// tree placed at any 32-bit depth has room for all its levels.
    pub depth: u64,
    /// The number a threshold asks for.
    pub m: Option<usize>,
    /// The payload of the fragment.
    pub value: Option<Scalar>,
    /// The serialized sub-trees, in the order of the tree.
    pub children: Option<Vec<SerializedNode>>,
}

/// The mathematical value of a [`SerializedNode`].
pub ghost struct SerializedTree {
    pub kind: Seq<char>,
    pub depth: nat,
    pub m: Option<nat>,
    pub value: Option<ScalarView>,
    pub children: Option<Seq<SerializedTree>>,
}

impl SerializedNode {
    /// The document that this node is the root of.
    pub open spec fn model(&self) -> SerializedTree
        decreases self,
    {
        SerializedTree {
            kind: self.kind@,
            depth: self.depth as nat,
            m: match self.m {
                Some(k) => Some(k as nat),
                None => None,
            },
            value: match self.value {
                Some(v) => Some(v@),
                None => None,
            },
            children: match self.children {
                Some(nodes) => Some(
                    Seq::new(
                        nodes@.len(),
                        |i: int|
                            if 0 <= i < nodes@.len() {
                                nodes@[i].model()
                            } else {
                                arbitrary()
                            },
                    ),
                ),
                None => None,
            },
        }
    }
}

impl View for SerializedNode {
    type V = SerializedTree;

    open spec fn view(&self) -> SerializedTree {
        self.model()
    }
}

/// The document for `tree` when its root stands at `depth`: the root's kind, depth
/// and payload, and below it, only if the root has sub-trees, the documents of the
/// sub-trees one level deeper, in the same order.
pub open spec fn serialized(tree: ConditionTree, depth: nat) -> SerializedTree
    decreases tree, 1nat,
{
    SerializedTree {
        kind: tree.fragment.name(),
        depth,
        m: tree.fragment.threshold(),
        value: tree.fragment.value(),
        children: if tree.children.len() == 0 {
            None
        } else {
            Some(serialized_all(tree.children, depth + 1))
        },
    }
}

/// The documents for `trees`, in order, each with its root at `depth`.
pub open spec fn serialized_all(trees: Seq<ConditionTree>, depth: nat) -> Seq<SerializedTree>
    decreases trees, 0nat,
{
    if trees.len() == 0 {
        Seq::empty()
    } else {
        serialized_all(trees.drop_last(), depth).push(serialized(trees.last(), depth))
    }
}

/// `serialized_all` keeps the number and the order of the trees.
pub proof fn lemma_serialized_all(trees: Seq<ConditionTree>, depth: nat)
    ensures
        serialized_all(trees, depth).len() == trees.len(),
        forall|i: int|
            0 <= i < trees.len() ==> #[trigger] serialized_all(trees, depth)[i] == serialized(
                trees[i],
                depth,
            ),
    decreases trees.len(),
{
    if trees.len() > 0 {
        lemma_serialized_all(trees.drop_last(), depth);
    }
}

impl SerializedTree {
    /// The root stands at `depth`, and every other node one deeper than its parent.
    pub open spec fn depths_from(self, depth: nat) -> bool
        decreases self,
    {
        &&& self.depth == depth
        &&& self.children matches Some(children) ==> forall|i: int|
            0 <= i < children.len() ==> (#[trigger] children[i]).depths_from(depth + 1)
    }
}

/// In a serialized document every node is one level deeper than its parent, counted
/// from the depth at which the root was placed.
pub proof fn lemma_depths_follow_parents(tree: ConditionTree, depth: nat)
    ensures
        serialized(tree, depth).depths_from(depth),
    decreases tree,
{
    if tree.children.len() > 0 {
        lemma_serialized_all(tree.children, depth + 1);
        let children = serialized_all(tree.children, depth + 1);
        assert forall|i: int| 0 <= i < children.len() implies (#[trigger] children[i]).depths_from(
            depth + 1,
        ) by {
            lemma_depths_follow_parents(tree.children[i], depth + 1);
        }
    }
}

/// The document of a well-formed tree shows no `children` at a leaf, and at a
/// combinator exactly the sub-trees that its fragment accepts: one for a wrapper, two
/// for a binary connective, three for `AndOr`, all of them for `Thresh`. Each of them
/// is the document of the sub-tree in that place, so the same holds further down.
pub proof fn lemma_children_follow_arity(tree: ConditionTree, depth: nat)
    requires
        tree.well_formed(),
    ensures
        tree.fragment.is_leaf() ==> serialized(tree, depth).children is None,
        tree.fragment.is_combinator() ==> serialized(tree, depth).children is Some,
        serialized(tree, depth).children matches Some(children) ==> {
            &&& children.len() == tree.children.len()
            &&& tree.fragment.accepts(children.len())
            &&& forall|i: int|
                0 <= i < children.len() ==> {
                    &&& (#[trigger] tree.children[i]).well_formed()
                    &&& children[i] == serialized(tree.children[i], depth + 1)
                }
        },
{
    lemma_serialized_all(tree.children, depth + 1);
}

/// The document of a threshold is named `Thresh`, stands at the depth given, shows the
/// number that the threshold asks for, whatever the number of its sub-trees, and
/// lists the document of each sub-tree, in order, one level deeper.
pub proof fn lemma_threshold_document(tree: ConditionTree, depth: nat)
    requires
        tree.fragment is Thresh,
        tree.well_formed(),
    ensures
        ({
            let document = serialized(tree, depth);
            &&& document.kind == "Thresh"@
            &&& document.depth == depth
            &&& document.m == Some(tree.fragment->Thresh_0)
            &&& document.value is None
            &&& document.children matches Some(children)
            &&& children.len() == tree.children.len()
            &&& forall|i: int|
                0 <= i < children.len() ==> #[trigger] children[i] == serialized(
                    tree.children[i],
                    depth + 1,
                )
        }),
{
    lemma_serialized_all(tree.children, depth + 1);
}

/// Serializes the tree below `node`, its root at depth zero.
///
/// In the document every node is one level deeper than its parent; a leaf shows no
/// `children`, and a combinator shows as many as its fragment accepts.
pub fn serialize(node: &ConditionNode) -> (document: SerializedNode)
    ensures
        document@ == serialized(node@, 0),
        document@.depths_from(0),
        document@.children is None <==> node@.fragment.is_leaf(),
        document@.children matches Some(children) ==> node@.fragment.accepts(children.len()),
{
    let _ = node.height();
    proof {
        lemma_depths_follow_parents(node@, 0);
        lemma_children_follow_arity(node@, 0);
    }
    serialize_at(node, 0)
}

/// Serializes the tree below `node`, its root at `depth`.
pub fn serialize_from(node: &ConditionNode, depth: u32) -> (document: SerializedNode)
    ensures
        document@ == serialized(node@, depth as nat),
{
    let _ = node.height();
    serialize_at(node, depth as u64)
}

/// Serializes the tree below `node`, its root at `depth`, where the depth of every
/// node fits in 64 bits.
fn serialize_at(node: &ConditionNode, depth: u64) -> (document: SerializedNode)
    requires
        depth + node@.height() <= u64::MAX,
    ensures
        document@ == serialized(node@, depth as nat),
    decreases node@,
{
    let fragment = node.fragment();
    let children = node.children();
    let mut nested: Option<Vec<SerializedNode>> = None;
    if children.len() > 0 {
        let mut documents: Vec<SerializedNode> = Vec::new();
        let mut i: usize = 0;
        while i < children.len()
            invariant
                i <= children.len(),
                documents.len() == i,
                trees_of(children@) == node@.children,
                depth + node@.height() <= u64::MAX,
                forall|j: int|
                    0 <= j < i ==> (#[trigger] documents[j])@ == serialized(
                        node@.children[j],
                        (depth + 1) as nat,
                    ),
            decreases children.len() - i,
        {
            proof {
                lemma_tallest_bounds(node@.children, i as int);
                assert(children[i as int]@ == node@.children[i as int]);
            }
            let document = serialize_at(&children[i], depth + 1);
            documents.push(document);
            i += 1;
        }
        proof {
            lemma_serialized_all(node@.children, (depth + 1) as nat);
        }
        nested = Some(documents);
    }
    let document = SerializedNode {
        kind: fragment.name(),
        depth,
        m: fragment.threshold(),
        value: fragment.value(),
        children: nested,
    };
    assert(document@.children == serialized(node@, depth as nat).children);
    document
}

} // verus!
