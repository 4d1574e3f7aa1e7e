//! The wallet snapshot: what one run exports, and the steps that lead to it.

use crate::compiler::{compile, compile_outcome, PolicyBranch};
use crate::error::{PipelineError, PipelineErrorView};
use crate::input::{resolve_document, resolved_document};
use crate::ledger::{answer, Answer, AnswerView, Balance, Request};
use crate::serializer::{
    lemma_depths_follow_parents, serialize, serialized, SerializedNode, SerializedTree,
};
use crate::tree::ConditionTree;
use bdk::TransactionDetails;
use vstd::prelude::*;

verus! {

/// The settings of a run.
#[derive(Clone, Debug, PartialEq, Eq)]
pub struct PipelineConfig {
    /// Where the input configuration is read from.
    pub input_path: String,
    /// Where the snapshot is written to.
    pub output_path: String,
    /// How many fresh addresses a snapshot lists.
    pub address_count: u32,
}

impl Default for PipelineConfig {
    /// Reads `input.json`, writes `output.json`, lists ten addresses.
    fn default() -> (config: PipelineConfig)
        ensures
            config.input_path@ == "input.json"@,
            config.output_path@ == "output.json"@,
            config.address_count == 10,
    {
        PipelineConfig {
            input_path: "input.json".to_owned(),
            output_path: "output.json".to_owned(),
            address_count: 10,
        }
    }
}

/// The exported document. Its fields are written in the order in which they stand
/// here.
#[derive(Debug, PartialEq, Eq)]
pub struct WalletSnapshot {
    /// The wallet's totals.
    pub balance: Balance,
    /// The transaction history, as the ledger gave it.
    pub transactions: Vec<TransactionDetails>,
    /// The serialized policy of the external branch.
    pub external_policy: SerializedNode,
    /// The serialized policy of the internal branch.
    pub internal_policy: SerializedNode,
    /// The fresh addresses, in the order in which they were generated.
    pub addresses: Vec<String>,
    /// The descriptor of the external branch.
    pub external_descriptor: String,
    /// The descriptor of the internal branch.
    pub internal_descriptor: String,
}

/// The mathematical value of a [`WalletSnapshot`].
pub ghost struct WalletSnapshotView {
    pub balance: Balance,
    pub transactions: Seq<TransactionDetails>,
    pub external_policy: SerializedTree,
    pub internal_policy: SerializedTree,
    pub addresses: Seq<Seq<char>>,
    pub external_descriptor: Seq<char>,
    pub internal_descriptor: Seq<char>,
}

impl View for WalletSnapshot {
    type V = WalletSnapshotView;

    open spec fn view(&self) -> WalletSnapshotView {
        WalletSnapshotView {
            balance: self.balance,
            transactions: self.transactions@,
            external_policy: self.external_policy@,
            internal_policy: self.internal_policy@,
            addresses: self.addresses.deep_view(),
            external_descriptor: self.external_descriptor@,
            internal_descriptor: self.internal_descriptor@,
        }
    }
}

/// The mathematical value of a [`PolicyBranch`].
pub ghost struct PolicyBranchView {
    pub descriptor: Seq<char>,
    pub tree: ConditionTree,
}

impl View for PolicyBranch {
    type V = PolicyBranchView;

    open spec fn view(&self) -> PolicyBranchView {
        PolicyBranchView { descriptor: self.descriptor@, tree: self.tree@ }
    }
}

/// The snapshot that these answers and branches make: the balance, the transactions
/// and the addresses as they were given, and for each branch its descriptor and the
/// serialized form of its tree, the root at depth zero.
pub open spec fn assembled(
    balance: Balance,
    transactions: Seq<TransactionDetails>,
    external: PolicyBranchView,
    internal: PolicyBranchView,
    addresses: Seq<Seq<char>>,
) -> WalletSnapshotView {
    WalletSnapshotView {
        balance,
        transactions,
        external_policy: serialized(external.tree, 0),
        internal_policy: serialized(internal.tree, 0),
        addresses,
        external_descriptor: external.descriptor,
        internal_descriptor: internal.descriptor,
    }
}

/// Two runs on the same branches, to which the ledger gave the same balance and the
/// same history, export the same document but for the addresses; where the
/// addresses came out alike too, as they do for a descriptor without a wildcard, the
/// documents are the same.
pub proof fn lemma_rerun_agrees(
    balance: Balance,
    transactions: Seq<TransactionDetails>,
    external: PolicyBranchView,
    internal: PolicyBranchView,
    first_addresses: Seq<Seq<char>>,
    second_addresses: Seq<Seq<char>>,
)
    ensures
        ({
            let first = assembled(balance, transactions, external, internal, first_addresses);
            let second = assembled(balance, transactions, external, internal, second_addresses);
            &&& first.balance == second.balance
            &&& first.transactions == second.transactions
            &&& first.external_policy == second.external_policy
            &&& first.internal_policy == second.internal_policy
            &&& first.external_descriptor == second.external_descriptor
            &&& first.internal_descriptor == second.internal_descriptor
            &&& first_addresses == second_addresses ==> first == second
        }),
{
}

/// Puts a snapshot together from what the ledger answered and the two branches.
pub fn assemble(
    balance: Balance,
    transactions: Vec<TransactionDetails>,
    external: &PolicyBranch,
    internal: &PolicyBranch,
    addresses: Vec<String>,
) -> (snapshot: WalletSnapshot)
    ensures
        snapshot@ == assembled(
            balance,
            transactions@,
            external@,
            internal@,
            addresses.deep_view(),
        ),
{
    WalletSnapshot {
        balance,
        transactions,
        external_policy: serialize(&external.tree),
        internal_policy: serialize(&internal.tree),
        addresses,
        external_descriptor: external.descriptor.clone(),
        internal_descriptor: internal.descriptor.clone(),
    }
}

/// What inspecting the resolved policy `policy` yields: the serialized tree of what
/// the policy compiles to, or the cause for which it does not compile.
pub open spec fn inspected(policy: Seq<char>) -> Result<SerializedTree, Seq<char>> {
    match compile_outcome(policy) {
        Ok(compiled) => Ok(serialized(compiled.1, 0)),
        Err(cause) => Err(cause),
    }
}

/// Compiles a resolved policy and serializes its condition tree.
pub fn inspect(policy: &str) -> (outcome: Result<SerializedNode, PipelineError>)
    ensures
        match inspected(policy@) {
            Ok(tree) => outcome matches Ok(document) && document@ == tree,
            Err(cause) => outcome matches Err(PipelineError::Compilation(message)) && message@
                == cause,
        },
{
    let branch = compile(policy)?;
    Ok(serialize(&branch.tree))
}

/// Inspecting one policy twice ends alike both times: the same cause for which it
/// does not compile, or the same document, node for node, in which every node is
/// one level deeper than its parent.
pub proof fn lemma_inspection_repeats(
    policy: Seq<char>,
    first: Result<SerializedTree, Seq<char>>,
    second: Result<SerializedTree, Seq<char>>,
)
    requires
        first == inspected(policy),
        second == inspected(policy),
    ensures
        first == second,
        first matches Ok(document) ==> document.depths_from(0),
{
    if let Ok(compiled) = compile_outcome(policy) {
        lemma_depths_follow_parents(compiled.1, 0);
    }
}

/// What preparing the JSON text `document` yields: the descriptor and the tree of
/// the compiled policy, or the error that ends the run. A malformed document and a
/// missing field are input errors, whatever the compiler would say; a policy that
/// resolves goes to the compiler.
pub open spec fn prepared(document: Seq<char>) -> Result<
    (Seq<char>, ConditionTree),
    PipelineErrorView,
> {
    match resolved_document(document) {
        Err(fault) => Err(PipelineErrorView::Input(fault)),
        Ok(policy) => match compile_outcome(policy) {
            Ok(compiled) => Ok(compiled),
            Err(cause) => Err(PipelineErrorView::Compilation(cause)),
        },
    }
}

/// Reads the configuration, resolves the policy and compiles it into a branch.
///
/// An input error ends the run before the compiler is asked.
pub fn prepare(document: &str) -> (outcome: Result<PolicyBranch, PipelineError>)
    ensures
        match prepared(document@) {
            Ok(compiled) => outcome matches Ok(branch) && compiled == (
                branch.descriptor@,
                branch.tree@,
            ),
            Err(fault) => outcome matches Err(error) && error@ == fault,
        },
{
    match resolve_document(document) {
        Ok(policy) => compile(policy.as_str()),
        Err(fault) => Err(PipelineError::Input(fault)),
    }
}

/// How far a run has come with the ledger: how many addresses it wants, and what
/// the ledger has answered so far.
///
/// A run asks for its addresses one by one, then for the balance, then for the
/// history. The first refusal ends it, and no snapshot exists then.
#[derive(Debug, PartialEq, Eq)]
pub struct Collection {
    /// How many fresh addresses the snapshot lists.
    pub wanted: u32,
    /// The addresses given so far, in the order of the answers.
    pub addresses: Vec<String>,
    /// The totals, once given.
    pub balance: Option<Balance>,
    /// The history, once given.
    pub transactions: Option<Vec<TransactionDetails>>,
}

/// The mathematical value of a [`Collection`].
pub ghost struct CollectionView {
    pub wanted: nat,
    pub addresses: Seq<Seq<char>>,
    pub balance: Option<Balance>,
    pub transactions: Option<Seq<TransactionDetails>>,
}

impl View for Collection {
    type V = CollectionView;

    open spec fn view(&self) -> CollectionView {
        CollectionView {
            wanted: self.wanted as nat,
            addresses: self.addresses.deep_view(),
            balance: self.balance,
            transactions: match self.transactions {
                Some(history) => Some(history@),
                None => None,
            },
        }
    }
}

/// A run that wants `count` addresses and has no answer yet.
pub open spec fn started(count: nat) -> CollectionView {
    CollectionView { wanted: count, addresses: Seq::empty(), balance: None, transactions: None }
}

impl CollectionView {
    /// What the run asks next: an address while it holds fewer than it wants, then
    /// the balance, then the history, then nothing.
    pub open spec fn request(self) -> Request {
        if self.addresses.len() < self.wanted {
            Request::Address
        } else if self.balance is None {
            Request::Balance
        } else if self.transactions is None {
            Request::Transactions
        } else {
            Request::Nothing
        }
    }

    /// The run after an answer: the answer kept, where it is what the run asked for
    /// and the ledger gave a value. A refusal ends the run with the ledger's message,
    /// and an answer that was not asked for ends it with the library's own.
    pub open spec fn accepted(self, given: AnswerView) -> Result<CollectionView, Seq<char>> {
        match (self.request(), given) {
            (Request::Address, AnswerView::Address(Ok(address))) => Ok(
                CollectionView { addresses: self.addresses.push(address), ..self },
            ),
            (Request::Address, AnswerView::Address(Err(cause))) => Err(cause),
            (Request::Balance, AnswerView::Balance(Ok(totals))) => Ok(
                CollectionView { balance: Some(totals), ..self },
            ),
            (Request::Balance, AnswerView::Balance(Err(cause))) => Err(cause),
            (Request::Transactions, AnswerView::Transactions(Ok(history))) => Ok(
                CollectionView { transactions: Some(history), ..self },
            ),
            (Request::Transactions, AnswerView::Transactions(Err(cause))) => Err(cause),
            _ => Err("the ledger answered what was not asked"@),
        }
    }

    /// The run after the ledger gave these addresses, one per answer, in this order.
    pub open spec fn after_addresses(self, given: Seq<Seq<char>>) -> Option<CollectionView>
        decreases given.len(),
    {
        if given.len() == 0 {
            Some(self)
        } else {
            match self.accepted(AnswerView::Address(Ok(given[0]))) {
                Ok(next) => next.after_addresses(given.drop_first()),
                Err(_) => None,
            }
        }
    }

    /// The snapshot of a run that has every answer, for these two branches.
    pub open spec fn finished(
        self,
        external: PolicyBranchView,
        internal: PolicyBranchView,
    ) -> Option<WalletSnapshotView> {
        if self.request() == Request::Nothing {
            Some(
                assembled(
                    self.balance->0,
                    self.transactions->0,
                    external,
                    internal,
                    self.addresses,
                ),
            )
        } else {
            None
        }
    }
}

/// A run keeps the addresses it is given in the order of the answers, as long as it
/// still wants that many.
pub proof fn lemma_addresses_are_kept(run: CollectionView, given: Seq<Seq<char>>)
    requires
        run.addresses.len() + given.len() <= run.wanted,
    ensures
        run.after_addresses(given) == Some(
            CollectionView { addresses: run.addresses + given, ..run },
        ),
    decreases given.len(),
{
    if given.len() == 0 {
        assert(run.addresses + given == run.addresses);
    } else {
        let next = CollectionView { addresses: run.addresses.push(given[0]), ..run };
        lemma_addresses_are_kept(next, given.drop_first());
        assert(next.addresses + given.drop_first() == run.addresses + given);
    }
}

/// A run that wants `count` addresses asks for exactly that many: after each of
/// the first `count` answers it holds what came so far, in the order in which it
/// came, and it asks for another address until it holds `count`, and then for the
/// balance.
pub proof fn lemma_addresses_in_call_order(count: nat, given: Seq<Seq<char>>)
    requires
        given.len() == count,
    ensures
        forall|k: int|
            0 <= k <= count ==> {
                let run = CollectionView { addresses: given.take(k), ..started(count) };
                &&& #[trigger] started(count).after_addresses(given.take(k)) == Some(run)
                &&& run.request() == (if k < count {
                    Request::Address
                } else {
                    Request::Balance
                })
            },
        started(count).after_addresses(given) == Some(
            CollectionView { addresses: given, ..started(count) },
        ),
{
    assert forall|k: int| 0 <= k <= count implies #[trigger] started(count).after_addresses(
        given.take(k),
    ) == Some(CollectionView { addresses: given.take(k), ..started(count) }) by {
        lemma_addresses_are_kept(started(count), given.take(k));
        assert(Seq::<Seq<char>>::empty() + given.take(k) == given.take(k));
    }
    assert(given.take(count as int) == given);
}

/// A ledger that gives the same address every time, as a descriptor without a
/// wildcard does, is no fault: the run ends with that address listed as often as
/// addresses were wanted.
pub proof fn lemma_one_address_every_time(count: nat, address: Seq<char>)
    ensures
        started(count).after_addresses(Seq::new(count, |i: int| address)) == Some(
            CollectionView { addresses: Seq::new(count, |i: int| address), ..started(count) },
        ),
{
    lemma_addresses_in_call_order(count, Seq::new(count, |i: int| address));
}

impl Collection {
    /// A run that wants `count` addresses and has no answer yet.
    pub fn new(count: u32) -> (run: Collection)
        ensures
            run@ == started(count as nat),
    {
        let run = Collection {
            wanted: count,
            addresses: Vec::new(),
            balance: None,
            transactions: None,
        };
        assert(run.addresses.deep_view() == Seq::<Seq<char>>::empty());
        run
    }

    /// What to ask of the ledger next.
    pub fn request(&self) -> (request: Request)
        ensures
            request == self@.request(),
    {
        assert(self.addresses.deep_view().len() == self.addresses@.len());
        if self.addresses.len() < self.wanted as usize {
            Request::Address
        } else if self.balance.is_none() {
            Request::Balance
        } else if self.transactions.is_none() {
            Request::Transactions
        } else {
            Request::Nothing
        }
    }

    /// Takes the ledger's answer to the last request and gives the run as it stands
    /// then.
    ///
    /// A refusal ends the run with a network error that carries the ledger's own
    /// message, and so does an answer that the run did not ask for.
    pub fn accept(self, given: Answer) -> (outcome: Result<Collection, PipelineError>)
        ensures
            match self@.accepted(given@) {
                Ok(next) => outcome matches Ok(run) && run@ == next,
                Err(cause) => outcome matches Err(PipelineError::Network(message)) && message@
                    == cause,
            },
    {
        let request = self.request();
        let mut run = self;
        match (request, given) {
            (Request::Address, Answer::Address(outcome)) => {
                let address = answer(outcome)?;
                let ghost before = run.addresses.deep_view();
                run.addresses.push(address);
                assert(run.addresses.deep_view() == before.push(address@));
                Ok(run)
            },
            (Request::Balance, Answer::Balance(outcome)) => {
                let totals = answer(outcome)?;
                run.balance = Some(totals);
                Ok(run)
            },
            (Request::Transactions, Answer::Transactions(outcome)) => {
                let history = answer(outcome)?;
                run.transactions = Some(history);
                Ok(run)
            },
            _ => Err(PipelineError::Network("the ledger answered what was not asked".to_owned())),
        }
    }

    /// Puts the snapshot together once every answer is in; there is none before.
    pub fn finish(self, external: &PolicyBranch, internal: &PolicyBranch) -> (snapshot: Option<
        WalletSnapshot,
    >)
        ensures
            match self@.finished(external@, internal@) {
                Some(document) => snapshot matches Some(made) && made@ == document,
                None => snapshot is None,
            },
    {
        assert(self.addresses.deep_view().len() == self.addresses@.len());
        if self.addresses.len() < self.wanted as usize {
            return None;
        }
        match (self.balance, self.transactions) {
            (Some(totals), Some(history)) => Some(
                assemble(totals, history, external, internal, self.addresses),
            ),
            _ => None,
        }
    }
}

} // verus!
