//! The plain value types shared by the accounting core.

use vstd::prelude::*;

verus! {

/// A currency amount.
pub type Balance = u128;

/// Identifies a batch; batches are numbered consecutively from zero.
pub type EraIndex = u32;

/// An account identifier.
pub type AccountId = u64;

/// The two currencies the accounting core deals in.
#[derive(Clone, Copy, PartialEq, Eq, Structural, Debug)]
pub enum CurrencyId {
    /// The asset users lock up.
    Staking,
    /// The derivative asset minted against locked stake.
    Liquid,
}

/// The per-batch snapshot taken when a batch is closed: the total issuance of
/// both currencies at that instant, fixing the batch's exchange rate.
#[derive(Clone, Copy, PartialEq, Eq, Structural, Debug)]
pub struct TotalIssuanceInfo {
    pub staking_total: Balance,
    pub liquid_total: Balance,
}

/// The caller context of an operation: an ordinary signed user, the issuer
/// capability, or the governance capability.
#[derive(Clone, Copy, PartialEq, Eq, Structural, Debug)]
pub enum Origin {
    Signed(AccountId),
    Issuer,
    Governance,
}

/// Every way an operation can fail.
#[derive(Clone, Copy, PartialEq, Eq, Structural, Debug)]
pub enum Error {
    /// The batch has not been closed, so no exchange rate is fixed for it yet.
    LiquidCurrencyNotIssuedForThisBatch,
    /// No stash account has been configured to receive committed stake.
    RelayChainStashAccountNotSet,
    /// A batch cannot be closed with a zero staking total.
    InvalidStakedCurrencyTotalIssuance,
    /// The caller does not hold the capability the operation demands.
    Unauthorized,
    /// The exchange rate or the minted amount exceeds the representable range.
    ArithmeticOverflow,
    /// The transfer source holds less than the transferred amount.
    InsufficientBalance,
    /// Crediting the amount would overflow a balance or a total issuance.
    BalanceOverflow,
}

/// The notifications an operation emits, in call order.
#[derive(Clone, Copy, PartialEq, Eq, Structural, Debug)]
pub enum Event {
    /// A user committed stake to a batch: (batch, user, amount).
    MintRequested(EraIndex, AccountId, Balance),
    /// A batch was closed: (batch, staking total, liquid total).
    BatchProcessed(EraIndex, Balance, Balance),
    /// A user redeemed a commitment: (batch, user, minted amount).
    LiquidCurrencyClaimed(EraIndex, AccountId, Balance),
    /// The stash account was reconfigured: (new account).
    RelayChainStashAccountUpdated(AccountId),
}

} // verus!
