use vstd::prelude::*;

verus! {

/// The reasons a ledger operation refuses to run. Every error is detected
/// before any record is written, so a failed operation changes nothing.
#[derive(Clone, Copy, Debug, PartialEq, Eq, Structural)]
pub enum ErrorCode {
    /// Instruction invoked without a valid admin.
    Unauthorized,
    /// Signing account cannot remove itself.
    CannotRemoveSelf,
    /// Cannot purchase from the selected listing with the presented currency.
    InvalidPurchaseMint,
    /// Overflow when applying an arithmetic operation.
    Overflow,
    /// Admin address was not found in the market whitelist.
    AdminNotFound,
    /// Admin whitelist exceeded its maximum length.
    AdminOutOfBounds,
    /// Collections cannot be closed until all listings are removed.
    CollectionNonEmpty,
    /// The presented escrow does not match the listing: wrong asset or
    /// authority, or not exactly the one escrowed unit. Surfaces the
    /// collaborator's account-validation failure.
    InvalidEscrow,
    /// The payer's balance does not cover the transfer. Surfaces the
    /// collaborator's failed payment, which aborts the whole operation.
    InsufficientFunds,
}

} // verus!
