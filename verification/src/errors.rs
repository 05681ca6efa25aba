use vstd::prelude::*;

verus! {

/// The failure conditions this core can surface.  All of them are
/// deterministic in the inputs, so no call is worth retrying.
#[derive(Clone, Copy, Debug, PartialEq, Eq, Structural)]
pub enum TxError {
    /// A spend asked for more than the coin selection made available.
    InsufficientFunds,
    /// A referenced previous transaction could not be resolved (the
    /// resolver knows no transaction with that id, or only the empty-id
    /// sentinel that stands for "not found").
    UnresolvedPreviousTransaction,
    /// An address string could not be decoded into a public-key-hash.
    InvalidAddress,
}

} // verus!
