//! Inspection of spending policies: a policy template is resolved, compiled into a
//! condition tree, and the tree is turned into a depth-annotated document that sits
//! in a wallet snapshot next to balances, transactions and addresses.

pub mod compiler;
pub mod error;
pub mod input;
pub mod ledger;
pub mod serializer;
pub mod snapshot;
pub mod template;
pub mod tree;
