//! The ledger boundary. The caller holds the synced wallet. The library says what to
//! ask of it next, and takes each answer as it comes: a value, or the wallet's
//! refusal.

use crate::error::PipelineError;
use bdk::TransactionDetails;
use vstd::prelude::*;

verus! {

/// bdk's record of one wallet transaction: passed through as the wallet gave it.
#[verifier::external_type_specification]
#[verifier::external_body]
pub struct ExTransactionDetails(TransactionDetails);

/// bdk's error: carried through and read only for its message.
#[verifier::external_type_specification]
#[verifier::external_body]
pub struct ExLedgerError(bdk::Error);

/// The totals of a wallet, in satoshi.
#[derive(Clone, Copy, Debug, PartialEq, Eq)]
pub struct Balance {
    /// Coinbase outputs that have not matured.
    pub immature: u64,
    /// Unconfirmed outputs that the wallet itself created.
    pub trusted_pending: u64,
    /// Unconfirmed outputs received from others.
    pub untrusted_pending: u64,
    /// Confirmed outputs, spendable at once.
    pub confirmed: u64,
}

/// What a run asks of the ledger next.
#[derive(Clone, Copy, Debug, PartialEq, Eq)]
pub enum Request {
    /// One fresh address.
    Address,
    /// The wallet's totals.
    Balance,
    /// The transaction history, raw transactions included.
    Transactions,
    /// Nothing: every answer is in.
    Nothing,
}

/// What the ledger answered to a request.
#[derive(Debug)]
pub enum Answer {
    /// A fresh address, written as text.
    Address(Result<String, bdk::Error>),
    /// The wallet's totals.
    Balance(Result<Balance, bdk::Error>),
    /// The transaction history, in the wallet's order.
    Transactions(Result<Vec<TransactionDetails>, bdk::Error>),
}

/// What the `Display` impl of bdk's error writes of `error`.
pub uninterp spec fn ledger_message(error: bdk::Error) -> Seq<char>;

/// Writes bdk's error with its `Display` impl, which writes the same of the same
/// error.
#[verifier::external_body]
fn ledger_refusal(error: &bdk::Error) -> (message: String)
    ensures
        message@ == ledger_message(*error),
{
    error.to_string()
}

/// The mathematical value of an [`Answer`]: what was given, or the message of the
/// ledger's refusal.
pub ghost enum AnswerView {
    Address(Result<Seq<char>, Seq<char>>),
    Balance(Result<Balance, Seq<char>>),
    Transactions(Result<Seq<TransactionDetails>, Seq<char>>),
}

impl View for Answer {
    type V = AnswerView;

    open spec fn view(&self) -> AnswerView {
        match *self {
            Answer::Address(Ok(address)) => AnswerView::Address(Ok(address@)),
            Answer::Address(Err(error)) => AnswerView::Address(Err(ledger_message(error))),
            Answer::Balance(Ok(totals)) => AnswerView::Balance(Ok(totals)),
            Answer::Balance(Err(error)) => AnswerView::Balance(Err(ledger_message(error))),
            Answer::Transactions(Ok(history)) => AnswerView::Transactions(Ok(history@)),
            Answer::Transactions(Err(error)) => AnswerView::Transactions(
                Err(ledger_message(error)),
            ),
        }
    }
}

/// Takes the ledger's answer to a request: the value it gave, or a network error
/// that carries the ledger's own message.
pub fn answer<T>(outcome: Result<T, bdk::Error>) -> (taken: Result<T, PipelineError>)
    ensures
        match outcome {
            Ok(value) => taken == Ok::<T, PipelineError>(value),
            Err(error) => taken matches Err(PipelineError::Network(message)) && message@
                == ledger_message(error),
        },
{
    match outcome {
        Ok(value) => Ok(value),
        Err(error) => Err(PipelineError::Network(ledger_refusal(&error))),
    }
}

} // verus!
