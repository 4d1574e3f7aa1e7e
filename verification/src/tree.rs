//! The condition tree: what a compiled spending policy looks like in memory.
//!
//! A tree is made of fragments. A fragment is either a leaf (a constant, a key, a
//! time-lock, a hash-lock, a threshold of keys) or a combinator that owns one, two,
//! three or any positive number of sub-trees.

use vstd::prelude::*;

verus! {

/// One node of a condition tree, without its sub-trees.
#[derive(Clone, Debug, PartialEq, Eq)]
pub enum Fragment {
    /// Always satisfied.
    True,
    /// Never satisfied.
    False,
    /// A signature by this key.
    PkK(String),
    /// A signature by the key with this hash, given as the key.
    PkH(String),
    /// A signature by the key with this hash, given as the hash.
    RawPkH(String),
    /// Spendable from this absolute lock time on.
    After(u32),
    /// Spendable once the output has this relative age.
    Older(u32),
    /// The preimage of this SHA-256 digest.
    Sha256(String),
    /// The preimage of this double SHA-256 digest.
    Hash256(String),
    /// The preimage of this RIPEMD-160 digest.
    Ripemd160(String),
    /// The preimage of this HASH-160 digest.
    Hash160(String),
    /// Runs the sub-tree with the stack top moved aside.
    Alt,
    /// Runs the sub-tree after swapping the two top stack items.
    Swap,
    /// Checks a signature against the key the sub-tree leaves.
    Check,
    /// Runs the sub-tree only on a non-zero input.
    DupIf,
    /// Fails unless the sub-tree is satisfied.
    Verify,
    /// Runs the sub-tree only on a non-empty input.
    NonZero,
    /// Turns any non-zero result of the sub-tree into one.
    ZeroNotEqual,
    /// Both sub-trees, the first one verified.
    AndV,
    /// Both sub-trees, their results combined.
    AndB,
    /// The second sub-tree if the first holds, else the third.
    AndOr,
    /// Either sub-tree, both run.
    OrB,
    /// Either sub-tree, the second run only if the first fails.
    OrD,
    /// Either sub-tree, the second one verified.
    OrC,
    /// Either sub-tree, chosen by the spender.
    OrI,
    /// At least this many of the sub-trees.
    Thresh(usize),
    /// Signatures by at least this many of these keys, checked together.
    Multi(usize, Vec<String>),
    /// Signatures by at least this many of these keys, checked one by one.
    MultiA(usize, Vec<String>),
    /// A fragment of a kind this library does not know.
    Unmatched,
}

/// The mathematical value of a [`Fragment`].
pub ghost enum FragmentView {
    True,
    False,
    PkK(Seq<char>),
    PkH(Seq<char>),
    RawPkH(Seq<char>),
    After(nat),
    Older(nat),
    Sha256(Seq<char>),
    Hash256(Seq<char>),
    Ripemd160(Seq<char>),
    Hash160(Seq<char>),
    Alt,
    Swap,
    Check,
    DupIf,
    Verify,
    NonZero,
    ZeroNotEqual,
    AndV,
    AndB,
    AndOr,
    OrB,
    OrD,
    OrC,
    OrI,
    Thresh(nat),
    Multi(nat, Seq<Seq<char>>),
    MultiA(nat, Seq<Seq<char>>),
    Unmatched,
}

impl View for Fragment {
    type V = FragmentView;

    open spec fn view(&self) -> FragmentView {
        match *self {
            Fragment::True => FragmentView::True,
            Fragment::False => FragmentView::False,
            Fragment::PkK(key) => FragmentView::PkK(key@),
            Fragment::PkH(key) => FragmentView::PkH(key@),
            Fragment::RawPkH(hash) => FragmentView::RawPkH(hash@),
            Fragment::After(time) => FragmentView::After(time as nat),
            Fragment::Older(age) => FragmentView::Older(age as nat),
            Fragment::Sha256(digest) => FragmentView::Sha256(digest@),
            Fragment::Hash256(digest) => FragmentView::Hash256(digest@),
            Fragment::Ripemd160(digest) => FragmentView::Ripemd160(digest@),
            Fragment::Hash160(digest) => FragmentView::Hash160(digest@),
            Fragment::Alt => FragmentView::Alt,
            Fragment::Swap => FragmentView::Swap,
            Fragment::Check => FragmentView::Check,
            Fragment::DupIf => FragmentView::DupIf,
            Fragment::Verify => FragmentView::Verify,
            Fragment::NonZero => FragmentView::NonZero,
            Fragment::ZeroNotEqual => FragmentView::ZeroNotEqual,
            Fragment::AndV => FragmentView::AndV,
            Fragment::AndB => FragmentView::AndB,
            Fragment::AndOr => FragmentView::AndOr,
            Fragment::OrB => FragmentView::OrB,
            Fragment::OrD => FragmentView::OrD,
            Fragment::OrC => FragmentView::OrC,
            Fragment::OrI => FragmentView::OrI,
            Fragment::Thresh(k) => FragmentView::Thresh(k as nat),
            Fragment::Multi(k, keys) => FragmentView::Multi(k as nat, keys.deep_view()),
            Fragment::MultiA(k, keys) => FragmentView::MultiA(k as nat, keys.deep_view()),
            Fragment::Unmatched => FragmentView::Unmatched,
        }
    }
}

impl FragmentView {
    /// A wrapper around exactly one sub-tree.
    pub open spec fn is_unary(self) -> bool {
        self is Alt || self is Swap || self is Check || self is DupIf || self is Verify
            || self is NonZero || self is ZeroNotEqual
    }

    /// A leaf that names one key or several.
    pub open spec fn names_keys(self) -> bool {
        self is PkK || self is PkH || self is RawPkH || self is Multi || self is MultiA
    }

    /// A leaf that is a constant, a time-lock or a hash-lock.
    pub open spec fn is_constant_or_lock(self) -> bool {
        self is True || self is False || self is After || self is Older || self is Sha256
            || self is Hash256 || self is Ripemd160 || self is Hash160
    }

    /// A connective of two sub-trees or more.
    pub open spec fn is_connective(self) -> bool {
        self.is_binary() || self is AndOr || self is Thresh
    }

    /// A connective of exactly two sub-trees.
    pub open spec fn is_binary(self) -> bool {
        self is AndV || self is AndB || self is OrB || self is OrD || self is OrC || self is OrI
    }

    /// A fragment that owns sub-trees.
    pub open spec fn is_combinator(self) -> bool {
        self.is_unary() || self.is_binary() || self is AndOr || self is Thresh
    }

    /// A fragment that owns no sub-tree.
    pub open spec fn is_leaf(self) -> bool {
        !self.is_combinator()
    }

    /// Whether a node with this fragment may own `n` sub-trees: one for a wrapper,
    /// two for a binary connective, three for `AndOr`, at least one for `Thresh`,
    /// none for a leaf.
    pub open spec fn accepts(self, n: nat) -> bool {
        if self.is_unary() {
            n == 1
        } else if self.is_binary() {
            n == 2
        } else if self is AndOr {
            n == 3
        } else if self is Thresh {
            n >= 1
        } else {
            n == 0
        }
    }
}

impl Fragment {
    /// Whether a node with this fragment may own `n` sub-trees.
    pub fn accepts(&self, n: usize) -> (ok: bool)
        ensures
            ok == self@.accepts(n as nat),
    {
        match self {
            Fragment::Alt
            | Fragment::Swap
            | Fragment::Check
            | Fragment::DupIf
            | Fragment::Verify
            | Fragment::NonZero
            | Fragment::ZeroNotEqual => n == 1,
            Fragment::AndV
            | Fragment::AndB
            | Fragment::OrB
            | Fragment::OrD
            | Fragment::OrC
            | Fragment::OrI => n == 2,
            Fragment::AndOr => n == 3,
            Fragment::Thresh(_) => n >= 1,
            _ => n == 0,
        }
    }
}

/// How many nodes the longest path of a tree may hold, from the root down to a leaf.
///
/// Policies come from users, so their nesting is bounded: whoever walks a tree goes
/// down at most this many levels.
pub const MAX_HEIGHT: u32 = 512;

/// The mathematical value of a [`ConditionNode`]: a fragment and its sub-trees, in order.
pub ghost struct ConditionTree {
    pub fragment: FragmentView,
    pub children: Seq<ConditionTree>,
}

/// The height of the tallest tree in `trees`, zero if there is none.
pub open spec fn tallest(trees: Seq<ConditionTree>) -> nat
    decreases trees, 0nat,
{
    if trees.len() == 0 {
        0
    } else {
        let rest = tallest(trees.drop_last());
        let last = trees.last().height();
        if last > rest {
            last
        } else {
            rest
        }
    }
}

impl ConditionTree {
    /// The number of nodes on the longest path from this node down to a leaf.
    pub open spec fn height(self) -> nat
        decreases self, 1nat,
    {
        1 + tallest(self.children)
    }

    /// Every node owns as many sub-trees as its fragment accepts.
    pub open spec fn well_formed(self) -> bool
        decreases self,
    {
        &&& self.fragment.accepts(self.children.len())
        &&& forall|i: int|
            0 <= i < self.children.len() ==> (#[trigger] self.children[i]).well_formed()
    }
}

/// No tree in `trees` is higher than the tallest of them.
pub proof fn lemma_tallest_bounds(trees: Seq<ConditionTree>, i: int)
    requires
        0 <= i < trees.len(),
    ensures
        trees[i].height() <= tallest(trees),
    decreases trees.len(),
{
    if i < trees.len() - 1 {
        lemma_tallest_bounds(trees.drop_last(), i);
    }
}

/// The trees that `nodes` stand for, in order.
pub open spec fn trees_of(nodes: Seq<ConditionNode>) -> Seq<ConditionTree> {
    Seq::new(nodes.len(), |i: int| nodes[i]@)
}

/// A node of a condition tree together with the sub-trees it owns.
///
/// Every value is well formed and at most [`MAX_HEIGHT`] nodes high.
#[derive(Debug, PartialEq, Eq)]
pub struct ConditionNode {
    fragment: Fragment,
    children: Vec<ConditionNode>,
    height: u32,
}

impl View for ConditionNode {
    type V = ConditionTree;

    closed spec fn view(&self) -> ConditionTree {
        self.model()
    }
}

impl ConditionNode {
    spec fn model(&self) -> ConditionTree
        decreases self,
    {
        ConditionTree {
            fragment: self.fragment@,
            children: Seq::new(
                self.children@.len(),
                |i: int|
                    if 0 <= i < self.children@.len() {
                        self.children@[i].model()
                    } else {
                        arbitrary()
                    },
            ),
        }
    }

    #[verifier::type_invariant]
    spec fn sound(self) -> bool {
        &&& self@.well_formed()
        &&& self.height as nat == self@.height()
        &&& self.height <= MAX_HEIGHT
    }

    /// A node with this fragment that owns `children`, in this order.
    ///
    /// There is no such node when the fragment does not accept that many sub-trees,
    /// or when the node would be more than [`MAX_HEIGHT`] nodes high.
    pub fn new(fragment: Fragment, children: Vec<ConditionNode>) -> (node: Option<ConditionNode>)
        ensures
            node is Some <==> fragment@.accepts(children@.len()) && tallest(trees_of(children@))
                < MAX_HEIGHT,
            node matches Some(n) ==> n@ == (ConditionTree {
                fragment: fragment@,
                children: trees_of(children@),
            }),
    {
        if !fragment.accepts(children.len()) {
            return None;
        }
        let ghost trees = trees_of(children@);
        let mut below: u32 = 0;
        let mut i: usize = 0;
        while i < children.len()
            invariant
                i <= children.len(),
                trees == trees_of(children@),
                below as nat == tallest(trees.take(i as int)),
                forall|j: int| 0 <= j < i ==> (#[trigger] trees[j]).well_formed(),
            decreases children.len() - i,
        {
            let child = &children[i];
            proof {
                use_type_invariant(child);
                assert(trees.take(i + 1).drop_last() == trees.take(i as int));
                assert(trees.take(i + 1).last() == child@);
            }
            if child.height > below {
                below = child.height;
            }
            i += 1;
        }
        assert(trees.take(children.len() as int) == trees);
        if below >= MAX_HEIGHT {
            return None;
        }
        proof {
            let made = ConditionNode { fragment, children, height: (below + 1) as u32 };
            assert(made.model().children == trees);
            assert(made@.well_formed());
        }
        Some(ConditionNode { fragment, children, height: below + 1 })
    }

    /// The fragment at this node.
    pub fn fragment(&self) -> (fragment: &Fragment)
        ensures
            fragment@ == self@.fragment,
    {
        &self.fragment
    }

    /// The sub-trees of this node, in order.
    pub fn children(&self) -> (children: &Vec<ConditionNode>)
        ensures
            trees_of(children@) == self@.children,
    {
        assert(trees_of(self.children@) == self.model().children);
        &self.children
    }

    /// The number of nodes on the longest path from this node down to a leaf.
    pub fn height(&self) -> (height: u32)
        ensures
            height as nat == self@.height(),
            height <= MAX_HEIGHT,
            self@.well_formed(),
    {
        proof {
            use_type_invariant(self);
        }
        self.height
    }
}

} // verus!
