use vstd::prelude::*;

verus! {

/// Why an operation was refused. A refused operation changes nothing.
#[derive(Clone, Copy, Debug, PartialEq, Eq, Structural)]
pub enum TemporaError {
    /// A schedule with this identifier was created before.
    ScheduleConfigurationAlreadyExists,
    /// The calling account named itself as recipient.
    CallerCannotBeRecipient,
    /// The amount is zero.
    ScheduleAmountCannotBeZero,
    /// Neither a start time nor a list of execution times was given.
    WrongScheduleConfiguration,
    /// No schedule has this identifier.
    ScheduleConfigurationNotFound,
    /// No schedule with this identifier belongs to the calling account.
    UserScheduleConfigurationNotFound,
    /// The schedule was cancelled.
    ScheduleConfigurationDisabled,
    /// The value attached to a native payment differs from the amount.
    InsufficientBalance,
    /// The ledger or the token refused the transfer.
    TransferError,
    /// An execution time is not acceptable.
    IncorrectExecutionTime,
    /// The token is on the whitelist already.
    TokenIsAlreadyWhiteslited,
    /// The token is not on the whitelist.
    TokenIsNotWhitelisted,
    /// The calling account is not the administrator.
    Unauthorized,
}

} // verus!
