use vstd::prelude::*;

verus! {

/// Why an instruction or a completion was refused. Every error leaves the
/// contract's state as it was.
#[derive(Debug, Clone, Copy, PartialEq, Eq, Structural)]
pub enum ContractError {
    /// The sender is not in the owner set.
    Unauthorized,
    /// A checked debit asked for more than the ledger holds.
    InsufficientLiquidity,
    /// The same (chain, nonce) was sent again before the retry delay elapsed.
    Pending,
    /// The flow needs a native asset and was given a token contract.
    UnsupportedCw20,
    /// A completion arrived with a tag that no flow registered.
    UnknownReply,
    /// A delegated call that must increase a balance did not.
    NotEnoughOutput,
    /// The owner to remove is not in the owner set.
    OwnerNotFound,
    /// No chain setting is stored for the destination chain.
    ChainNotConfigured,
    /// A string is not a 20-byte hexadecimal EVM address.
    InvalidAddress,
    /// A single-asset deposit into a constant-product pool takes one coin.
    UnsupportedCoinCount,
    /// A swap route must hold at least one operation.
    EmptyRoute,
    /// The pool reported fewer than two assets.
    InvalidPool,
    /// The pool reported a fee of more than 10000 basis points.
    InvalidFee,
    /// A completion payload does not have the shape its flow produces.
    InvalidPayload,
    /// A ledger balance would exceed the largest representable amount.
    Overflow,
}

} // verus!
