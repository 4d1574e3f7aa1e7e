//! The policy compiler boundary. The miniscript compiler parses and compiles a
//! resolved policy; this module reads the script it returns, node by node, into a
//! condition tree of the library's own.

use crate::error::PipelineError;
use crate::tree::{
    lemma_tallest_bounds, trees_of, ConditionNode, ConditionTree, Fragment, MAX_HEIGHT,
};
use bdk::miniscript::descriptor::Descriptor;
use bdk::miniscript::policy::compiler::CompilerError;
use bdk::miniscript::policy::Concrete;
use bdk::miniscript::{Miniscript, Segwitv0, Terminal};
use std::fmt::Write;
use std::str::FromStr;
use vstd::prelude::*;

verus! {

/// A policy as the miniscript parser read it, with keys kept as text.
#[verifier::external_body]
pub struct ParsedPolicy {
    inner: Concrete<String>,
}

/// A script as the miniscript compiler produced it for a pay-to-witness-script-hash
/// output, with keys kept as text.
#[verifier::external_body]
pub struct CompiledScript {
    inner: Miniscript<String, Segwitv0>,
}

/// miniscript's error, as its parser returns it: carried through and read only for
/// its message.
#[verifier::external_type_specification]
#[verifier::external_body]
pub struct ExMiniscriptError(bdk::miniscript::Error);

/// The error of miniscript's policy compiler: carried through and read only for its
/// message.
#[verifier::external_type_specification]
#[verifier::external_body]
pub struct ExCompilerError(CompilerError);

/// What miniscript's policy parser makes of `text`: the policy, or the error with
/// which it rejects the text.
pub uninterp spec fn parsed_policy(text: Seq<char>) -> Result<
    ParsedPolicy,
    bdk::miniscript::Error,
>;

/// What the `Display` impl of miniscript's error writes of `error`.
pub uninterp spec fn parser_message(error: bdk::miniscript::Error) -> Seq<char>;

/// What the `Display` impl of the policy compiler's error writes of `error`.
pub uninterp spec fn compiler_message(error: CompilerError) -> Seq<char>;

/// The sum of `odds`.
pub open spec fn total(odds: Seq<nat>) -> nat
    decreases odds.len(),
{
    if odds.len() == 0 {
        0
    } else {
        total(odds.drop_last()) + odds.last()
    }
}

/// The sum of the first `k` of `odds` is at most the sum of all of them.
pub proof fn lemma_total_grows(odds: Seq<nat>, k: int)
    requires
        0 <= k <= odds.len(),
    ensures
        total(odds.take(k)) <= total(odds),
    decreases odds.len() - k,
{
    if k < odds.len() {
        lemma_total_grows(odds, k + 1);
        assert(odds.take(k + 1).drop_last() == odds.take(k));
    } else {
        assert(odds.take(k) == odds);
    }
}

/// The least number that is no relative lock: its highest bit, which switches the
/// lock off.
pub const RELATIVE_LOCK_LIMIT: u32 = 0x8000_0000;

/// What the library reads of a parsed policy: the odds that a disjunction gives its
/// branches, the number of a relative lock, and the sub-policies of a conjunction, a
/// disjunction or a threshold, in order.
pub ghost struct PolicyShape {
    pub odds: Seq<nat>,
    pub age: Option<nat>,
    pub parts: Seq<PolicyShape>,
}

impl PolicyShape {
    /// The odds of every disjunction in the policy sum to a positive number that
    /// `usize` holds.
    pub open spec fn weighs(self) -> bool
        decreases self,
    {
        &&& self.odds.len() > 0 ==> 0 < total(self.odds) <= usize::MAX
        &&& forall|i: int| 0 <= i < self.parts.len() ==> (#[trigger] self.parts[i]).weighs()
    }

    /// Every relative lock in the policy has a number below [`RELATIVE_LOCK_LIMIT`].
    pub open spec fn ages_fit(self) -> bool
        decreases self,
    {
        &&& self.age matches Some(age) ==> age < RELATIVE_LOCK_LIMIT
        &&& forall|i: int| 0 <= i < self.parts.len() ==> (#[trigger] self.parts[i]).ages_fit()
    }

    /// The policy can be handed to the compiler.
    pub open spec fn fits_compiler(self) -> bool {
        self.weighs() && self.ages_fit()
    }
}

/// What `policy` holds of that.
pub uninterp spec fn policy_shape(policy: ParsedPolicy) -> PolicyShape;

/// What miniscript's compiler makes of `policy`: the script, or the error with which
/// it gives up where it finds none that is safe and within the script limits.
pub uninterp spec fn compiled_script(policy: ParsedPolicy) -> Result<
    CompiledScript,
    CompilerError,
>;

/// The text of the pay-to-witness-script-hash descriptor around `script`, checksum
/// included; or, where miniscript refuses the script at the top level or cannot
/// write it, the message of that error.
pub uninterp spec fn wsh_text(script: CompiledScript) -> Result<Seq<char>, Seq<char>>;

/// What `script` holds: the fragment at its root and, below it, what its branches
/// hold, in miniscript's order.
pub uninterp spec fn script_tree(script: CompiledScript) -> ConditionTree;

/// Calls `Concrete::<String>::from_str`. The parser is a function of the text alone,
/// so its outcome has a name; nothing is said of which texts it accepts.
#[verifier::external_body]
fn parse_policy(text: &str) -> (outcome: Result<ParsedPolicy, bdk::miniscript::Error>)
    ensures
        outcome == parsed_policy(text@),
{
    Concrete::<String>::from_str(text).map(|inner| ParsedPolicy { inner })
}

/// Writes miniscript's error with its `Display` impl, which writes the same of the
/// same error.
#[verifier::external_body]
fn parser_refusal(error: &bdk::miniscript::Error) -> (message: String)
    ensures
        message@ == parser_message(*error),
{
    error.to_string()
}

/// Writes the compiler's error with its `Display` impl, which writes the same of the
/// same error.
#[verifier::external_body]
fn compiler_refusal(error: &CompilerError) -> (message: String)
    ensures
        message@ == compiler_message(*error),
{
    error.to_string()
}

/// Reads the odds of the branches where the policy is `Concrete::Or`; no odds for
/// any other policy.
#[verifier::external_body]
fn branch_odds(policy: &ParsedPolicy) -> (odds: Vec<usize>)
    ensures
        odds@.len() == policy_shape(*policy).odds.len(),
        forall|i: int| 0 <= i < odds@.len() ==> odds@[i] as nat == policy_shape(*policy).odds[i],
{
    match &policy.inner {
        Concrete::Or(branches) => branches.iter().map(|branch| branch.0).collect(),
        _ => Vec::new(),
    }
}

/// Reads the number of the lock where the policy is `Concrete::Older`, taken as the
/// `u32` that the sequence number wraps; nothing for any other policy.
#[verifier::external_body]
fn relative_age(policy: &ParsedPolicy) -> (age: Option<u32>)
    ensures
        age is Some <==> policy_shape(*policy).age is Some,
        age matches Some(number) ==> policy_shape(*policy).age == Some(number as nat),
{
    match &policy.inner {
        Concrete::Older(age) => Some(age.0),
        _ => None,
    }
}

/// Hands out a copy of each sub-policy of `Concrete::And`, `Concrete::Or` and
/// `Concrete::Threshold`, in order; none for any other policy.
#[verifier::external_body]
fn sub_policies(policy: &ParsedPolicy) -> (parts: Vec<ParsedPolicy>)
    ensures
        parts@.len() == policy_shape(*policy).parts.len(),
        forall|i: int|
            0 <= i < parts@.len() ==> policy_shape(#[trigger] parts@[i]) == policy_shape(
                *policy,
            ).parts[i],
{
    match &policy.inner {
        Concrete::And(subs) | Concrete::Threshold(_, subs) => {
            subs.iter().map(|sub| ParsedPolicy { inner: sub.clone() }).collect()
        },
        Concrete::Or(branches) => {
            branches.iter().map(|branch| ParsedPolicy { inner: branch.1.clone() }).collect()
        },
        _ => Vec::new(),
    }
}

/// Calls `Concrete::compile` for the segwit v0 context. The compiler works on the
/// policy alone, with ordered maps, so its outcome has a name; nothing is said of
/// which policies it can compile.
///
/// Two kinds of policy that the parser lets through make the compiler panic, and are
/// kept from it. It adds the odds of the branches of a disjunction as `usize` and
/// divides each by the sum: a sum that `usize` cannot hold overflows, and a sum of
/// zero gives costs that are no numbers, which the compiler cannot order. And it
/// takes for granted that every leaf passes miniscript's type check, which refuses
/// a relative lock whose highest bit is set, while the parser refuses only numbers
/// above that bit.
#[verifier::external_body]
fn compile_policy(policy: &ParsedPolicy) -> (outcome: Result<CompiledScript, CompilerError>)
    requires
        policy_shape(*policy).fits_compiler(),
    ensures
        outcome == compiled_script(*policy),
{
    policy.inner.compile::<Segwitv0>().map(|inner| CompiledScript { inner })
}

/// Calls `Descriptor::new_wsh` on a copy of the script and writes the descriptor
/// with its `Display` impl. Either step can fail; the failure comes back as the
/// outside error's own message.
#[verifier::external_body]
fn wsh_descriptor(script: &CompiledScript) -> (outcome: Result<String, String>)
    ensures
        match wsh_text(*script) {
            Ok(text) => outcome matches Ok(written) && written@ == text,
            Err(cause) => outcome matches Err(message) && message@ == cause,
        },
{
    let descriptor = Descriptor::new_wsh(script.inner.clone()).map_err(|e| e.to_string())?;
    let mut text = String::new();
    write!(text, "{}", descriptor).map_err(|e| e.to_string())?;
    Ok(text)
}

/// Reads the root of the script where it is one of `Terminal`'s key-bearing leaves:
/// `PkK`, `PkH`, `RawPkH` (its hash written in hex), `Multi`, `MultiA`.
#[verifier::external_body]
fn key_leaf(script: &CompiledScript) -> (leaf: Option<Fragment>)
    ensures
        leaf is Some <==> script_tree(*script).fragment.names_keys(),
        leaf matches Some(fragment) ==> fragment@ == script_tree(*script).fragment,
{
    match &script.inner.node {
        Terminal::PkK(key) => Some(Fragment::PkK(key.clone())),
        Terminal::PkH(key) => Some(Fragment::PkH(key.clone())),
        Terminal::RawPkH(hash) => Some(Fragment::RawPkH(hash.to_string())),
        Terminal::Multi(k, keys) => Some(Fragment::Multi(*k, keys.clone())),
        Terminal::MultiA(k, keys) => Some(Fragment::MultiA(*k, keys.clone())),
        _ => None,
    }
}

/// Reads the root of the script where it is one of `Terminal`'s constants,
/// time-locks or hash-locks, the lock's number taken as the `u32` it wraps.
#[verifier::external_body]
fn plain_leaf(script: &CompiledScript) -> (leaf: Option<Fragment>)
    ensures
        leaf is Some <==> script_tree(*script).fragment.is_constant_or_lock(),
        leaf matches Some(fragment) ==> fragment@ == script_tree(*script).fragment,
{
    match &script.inner.node {
        Terminal::True => Some(Fragment::True),
        Terminal::False => Some(Fragment::False),
        Terminal::After(time) => Some(Fragment::After(time.0)),
        Terminal::Older(age) => Some(Fragment::Older(age.0)),
        Terminal::Sha256(digest) => Some(Fragment::Sha256(digest.clone())),
        Terminal::Hash256(digest) => Some(Fragment::Hash256(digest.clone())),
        Terminal::Ripemd160(digest) => Some(Fragment::Ripemd160(digest.clone())),
        Terminal::Hash160(digest) => Some(Fragment::Hash160(digest.clone())),
        _ => None,
    }
}

/// Reads the root of the script where it is one of `Terminal`'s seven wrappers.
#[verifier::external_body]
fn wrapper(script: &CompiledScript) -> (found: Option<Fragment>)
    ensures
        found is Some <==> script_tree(*script).fragment.is_unary(),
        found matches Some(fragment) ==> fragment@ == script_tree(*script).fragment,
{
    match &script.inner.node {
        Terminal::Alt(_) => Some(Fragment::Alt),
        Terminal::Swap(_) => Some(Fragment::Swap),
        Terminal::Check(_) => Some(Fragment::Check),
        Terminal::DupIf(_) => Some(Fragment::DupIf),
        Terminal::Verify(_) => Some(Fragment::Verify),
        Terminal::NonZero(_) => Some(Fragment::NonZero),
        Terminal::ZeroNotEqual(_) => Some(Fragment::ZeroNotEqual),
        _ => None,
    }
}

/// Reads the root of the script where it is one of `Terminal`'s connectives of two
/// scripts or more: the conjunctions, the disjunctions, `AndOr`, `Thresh`.
#[verifier::external_body]
fn connective(script: &CompiledScript) -> (found: Option<Fragment>)
    ensures
        found is Some <==> script_tree(*script).fragment.is_connective(),
        found matches Some(fragment) ==> fragment@ == script_tree(*script).fragment,
{
    match &script.inner.node {
        Terminal::AndV(_, _) => Some(Fragment::AndV),
        Terminal::AndB(_, _) => Some(Fragment::AndB),
        Terminal::AndOr(_, _, _) => Some(Fragment::AndOr),
        Terminal::OrB(_, _) => Some(Fragment::OrB),
        Terminal::OrD(_, _) => Some(Fragment::OrD),
        Terminal::OrC(_, _) => Some(Fragment::OrC),
        Terminal::OrI(_, _) => Some(Fragment::OrI),
        Terminal::Thresh(k, _) => Some(Fragment::Thresh(*k)),
        _ => None,
    }
}

/// Calls `Miniscript::branches` and hands out a copy of each branch, in the order
/// in which miniscript lists them.
#[verifier::external_body]
fn branches(script: &CompiledScript) -> (subs: Vec<CompiledScript>)
    ensures
        subs@.len() == script_tree(*script).children.len(),
        forall|i: int|
            0 <= i < subs@.len() ==> script_tree(#[trigger] subs@[i]) == script_tree(
                *script,
            ).children[i],
{
    script.inner.branches().into_iter().map(|sub| CompiledScript { inner: sub.clone() }).collect()
}

/// A tree that a [`ConditionNode`] can hold: well formed and at most [`MAX_HEIGHT`]
/// nodes high.
pub open spec fn admissible(tree: ConditionTree) -> bool {
    tree.well_formed() && tree.height() <= MAX_HEIGHT
}

/// The fragment at the root of `script`; `Unmatched` for a kind that none of the
/// four readers knows.
fn root_fragment(script: &CompiledScript) -> (fragment: Fragment)
    ensures
        fragment@ == script_tree(*script).fragment,
{
    if let Some(fragment) = key_leaf(script) {
        fragment
    } else if let Some(fragment) = plain_leaf(script) {
        fragment
    } else if let Some(fragment) = wrapper(script) {
        fragment
    } else if let Some(fragment) = connective(script) {
        fragment
    } else {
        Fragment::Unmatched
    }
}

/// Reads a compiled script into a condition tree: the same fragments, the same
/// sub-trees in the same order.
///
/// Nothing comes back where the script does not make a tree that a
/// [`ConditionNode`] can hold.
pub fn lift(script: &CompiledScript) -> (node: Option<ConditionNode>)
    ensures
        node is Some <==> admissible(script_tree(*script)),
        node matches Some(n) ==> n@ == script_tree(*script),
    decreases script_tree(*script),
{
    let ghost tree = script_tree(*script);
    let fragment = root_fragment(script);
    let subs = branches(script);
    let mut children: Vec<ConditionNode> = Vec::new();
    let mut i: usize = 0;
    while i < subs.len()
        invariant
            i <= subs.len(),
            children.len() == i,
            tree == script_tree(*script),
            subs@.len() == tree.children.len(),
            forall|j: int|
                0 <= j < subs@.len() ==> script_tree(#[trigger] subs@[j]) == tree.children[j],
            forall|j: int|
                0 <= j < i ==> (#[trigger] children[j])@ == tree.children[j] && admissible(
                    tree.children[j],
                ),
        decreases subs.len() - i,
    {
        match lift(&subs[i]) {
            Some(child) => {
                children.push(child);
            },
            None => {
                proof {
                    lemma_tallest_bounds(tree.children, i as int);
                }
                return None;
            },
        }
        i += 1;
    }
    assert(trees_of(children@) == tree.children);
    ConditionNode::new(fragment, children)
}

/// Whether the odds of every disjunction in `policy` sum to a positive number that
/// `usize` holds.
pub fn odds_are_positive(policy: &ParsedPolicy) -> (ok: bool)
    ensures
        ok == policy_shape(*policy).weighs(),
    decreases policy_shape(*policy),
{
    let ghost shape = policy_shape(*policy);
    let odds = branch_odds(policy);
    let mut sum: usize = 0;
    let mut i: usize = 0;
    while i < odds.len()
        invariant
            i <= odds.len(),
            shape == policy_shape(*policy),
            odds@.len() == shape.odds.len(),
            forall|j: int| 0 <= j < odds@.len() ==> odds@[j] as nat == shape.odds[j],
            sum as nat == total(shape.odds.take(i as int)),
        decreases odds.len() - i,
    {
        proof {
            let next = shape.odds.take(i + 1);
            assert(next.drop_last() == shape.odds.take(i as int));
            assert(total(next) == total(next.drop_last()) + next.last());
            lemma_total_grows(shape.odds, i + 1);
        }
        if odds[i] > usize::MAX - sum {
            return false;
        }
        sum = sum + odds[i];
        i += 1;
    }
    assert(shape.odds.take(odds.len() as int) == shape.odds);
    if odds.len() > 0 && sum == 0 {
        return false;
    }
    let parts = sub_policies(policy);
    let mut k: usize = 0;
    while k < parts.len()
        invariant
            k <= parts.len(),
            shape == policy_shape(*policy),
            parts@.len() == shape.parts.len(),
            forall|j: int|
                0 <= j < parts@.len() ==> policy_shape(#[trigger] parts@[j]) == shape.parts[j],
            forall|j: int| 0 <= j < k ==> (#[trigger] shape.parts[j]).weighs(),
        decreases parts.len() - k,
    {
        if !odds_are_positive(&parts[k]) {
            return false;
        }
        k += 1;
    }
    true
}

/// Whether every relative lock in `policy` has a number below
/// [`RELATIVE_LOCK_LIMIT`].
pub fn ages_are_relative(policy: &ParsedPolicy) -> (ok: bool)
    ensures
        ok == policy_shape(*policy).ages_fit(),
    decreases policy_shape(*policy),
{
    let ghost shape = policy_shape(*policy);
    if let Some(age) = relative_age(policy) {
        if age >= RELATIVE_LOCK_LIMIT {
            return false;
        }
    }
    let parts = sub_policies(policy);
    let mut k: usize = 0;
    while k < parts.len()
        invariant
            k <= parts.len(),
            shape == policy_shape(*policy),
            parts@.len() == shape.parts.len(),
            forall|j: int|
                0 <= j < parts@.len() ==> policy_shape(#[trigger] parts@[j]) == shape.parts[j],
            forall|j: int| 0 <= j < k ==> (#[trigger] shape.parts[j]).ages_fit(),
        decreases parts.len() - k,
    {
        if !ages_are_relative(&parts[k]) {
            return false;
        }
        k += 1;
    }
    true
}

/// One key-usage branch as the compiler boundary hands it on: the canonical
/// descriptor and the condition tree of the compiled policy.
#[derive(Debug, PartialEq, Eq)]
pub struct PolicyBranch {
    /// The descriptor text, checksum included.
    pub descriptor: String,
    /// The compiled policy.
    pub tree: ConditionNode,
}

/// What compiling `text` yields: the descriptor and the tree of the script that
/// miniscript compiles the policy to; or the cause for which there is none. The
/// steps, each of which can end it: the parser; the odds of the disjunctions; the
/// relative locks; the compiler; the descriptor; the tree.
pub open spec fn compile_outcome(text: Seq<char>) -> Result<(Seq<char>, ConditionTree), Seq<char>> {
    match parsed_policy(text) {
        Err(error) => Err(parser_message(error)),
        Ok(policy) => if !policy_shape(policy).weighs() {
            Err("the odds of a disjunction do not add up to a positive number"@)
        } else if !policy_shape(policy).ages_fit() {
            Err("a relative lock has its highest bit set"@)
        } else {
            match compiled_script(policy) {
                Err(error) => Err(compiler_message(error)),
                Ok(script) => match wsh_text(script) {
                    Err(cause) => Err(cause),
                    Ok(descriptor) => if admissible(script_tree(script)) {
                        Ok((descriptor, script_tree(script)))
                    } else {
                        Err("the compiled script is not a condition tree"@)
                    },
                },
            }
        },
    }
}

/// Compiles a resolved policy into one branch: its descriptor and its condition tree.
///
/// Every failure is a compilation error that carries the cause: the message of the
/// parser, the compiler or the descriptor, or the library's own where one of its
/// tests ends the run.
pub fn compile(policy: &str) -> (outcome: Result<PolicyBranch, PipelineError>)
    ensures
        match compile_outcome(policy@) {
            Ok(compiled) => outcome matches Ok(branch) && compiled == (
                branch.descriptor@,
                branch.tree@,
            ),
            Err(cause) => outcome matches Err(PipelineError::Compilation(message)) && message@
                == cause,
        },
{
    let parsed = match parse_policy(policy) {
        Ok(parsed) => parsed,
        Err(error) => {
            return Err(PipelineError::Compilation(parser_refusal(&error)));
        },
    };
    if !odds_are_positive(&parsed) {
        return Err(
            PipelineError::Compilation(
                "the odds of a disjunction do not add up to a positive number".to_owned(),
            ),
        );
    }
    if !ages_are_relative(&parsed) {
        return Err(
            PipelineError::Compilation("a relative lock has its highest bit set".to_owned()),
        );
    }
    let script = match compile_policy(&parsed) {
        Ok(script) => script,
        Err(error) => {
            return Err(PipelineError::Compilation(compiler_refusal(&error)));
        },
    };
    let descriptor = match wsh_descriptor(&script) {
        Ok(descriptor) => descriptor,
        Err(cause) => {
            return Err(PipelineError::Compilation(cause));
        },
    };
    match lift(&script) {
        Some(tree) => Ok(PolicyBranch { descriptor, tree }),
        None => Err(
            PipelineError::Compilation("the compiled script is not a condition tree".to_owned()),
        ),
    }
}

} // verus!
