use crate::error::TemporaError;
use crate::ident::{AccountId, Balance, ScheduleId, Timestamp};
use crate::schedule::{ScheduleView, UserScheduleView};
use crate::table::list_of;
use vstd::prelude::*;

verus! {

/// The transfer that a triggered payment asks for.
#[derive(Clone, Copy, Debug, PartialEq, Eq)]
pub enum Transfer {
    /// The ledger forwards `amount` of the native asset to `to`.
    Native { to: AccountId, amount: Balance },
    /// The token `token` moves `amount` from `from` to `to`.
    Token { token: AccountId, from: AccountId, to: AccountId, amount: Balance },
}

/// The number of milliseconds in a second: the clock counts the former, the
/// histories hold the latter.
pub const MILLISECONDS_PER_SECOND: u64 = 1000;

/// The second in which the millisecond `block_timestamp` lies.
pub open spec fn seconds_of(block_timestamp: Timestamp) -> Timestamp {
    block_timestamp / MILLISECONDS_PER_SECOND
}

/// Everything the contract stores.
pub struct State {
    /// The one account that may change the whitelist and name its successor.
    pub admin: AccountId,
    /// Each schedule ever created, by its identifier.
    pub schedules: Map<ScheduleId, ScheduleView>,
    /// For each account the schedules it took part in when they were
    /// created, in the order of their creation.
    pub user_schedules: Map<AccountId, Seq<ScheduleId>>,
    /// For each schedule identifier the seconds at which a payment recorded
    /// against it went through, oldest first.
    pub payment_executions: Map<ScheduleId, Seq<Timestamp>>,
    /// The tokens in which a schedule may pay.
    pub tokens_whitelist: Seq<AccountId>,
}

impl State {
    /// The state of a contract that `admin` has just deployed.
    pub open spec fn new(admin: AccountId) -> State {
        State {
            admin,
            schedules: Map::empty(),
            user_schedules: Map::empty(),
            payment_executions: Map::empty(),
            tokens_whitelist: Seq::empty(),
        }
    }

    /// What holds of every state that the operations can reach: no token is
    /// listed twice; a schedule is stored under its own identifier; an
    /// account's list names no schedule twice and only schedules that
    /// exist; and a schedule stands in the list of its sender.
    pub open spec fn wf(self) -> bool {
        &&& self.tokens_whitelist.no_duplicates()
        &&& forall|id: ScheduleId| #[trigger]
            self.schedules.contains_key(id) ==> self.schedules[id].id == id
        &&& forall|account: AccountId| #[trigger]
            self.user_schedules.contains_key(account)
                ==> self.user_schedules[account].no_duplicates()
        &&& forall|account: AccountId, i: int|
            self.user_schedules.contains_key(account) && 0 <= i
                < self.user_schedules[account].len() ==> self.schedules.contains_key(
                #[trigger] self.user_schedules[account][i],
            )
        &&& forall|id: ScheduleId| #[trigger]
            self.schedules.contains_key(id) ==> self.schedule_ids_of(
                self.schedules[id].sender,
            ).contains(id)
    }

    /// Whether `token` is on the whitelist.
    pub open spec fn token_is_whitelisted(self, token: AccountId) -> bool {
        self.tokens_whitelist.contains(token)
    }

    /// The schedules in the list of `account`, in the order of their creation.
    pub open spec fn schedule_ids_of(self, account: AccountId) -> Seq<ScheduleId> {
        list_of(self.user_schedules, account)
    }

    /// The seconds at which payments were recorded against `id`, oldest first.
    pub open spec fn executions_of(self, id: ScheduleId) -> Seq<Timestamp> {
        list_of(self.payment_executions, id)
    }

    /// What a list of schedules shows of the schedule `id`: the record as it
    /// is stored, and its history.
    pub open spec fn user_schedule(self, id: ScheduleId) -> UserScheduleView {
        UserScheduleView {
            schedule_configuration: self.schedules[id],
            payment_executions: self.executions_of(id),
        }
    }

    /// What `account` is shown when it lists its schedules.
    pub open spec fn user_schedules_of(self, account: AccountId) -> Seq<UserScheduleView> {
        self.schedule_ids_of(account).map_values(|id: ScheduleId| self.user_schedule(id))
    }

    // The rules.

    /// Only the administrator passes.
    pub open spec fn ensure_admin(self, caller: AccountId) -> Result<(), TemporaError> {
        if caller != self.admin {
            Err(TemporaError::Unauthorized)
        } else {
            Ok(())
        }
    }

    /// Only a whitelisted token passes.
    pub open spec fn validate_token_is_whitelisted(self, token: AccountId) -> Result<
        (),
        TemporaError,
    > {
        if !self.token_is_whitelisted(token) {
            Err(TemporaError::TokenIsNotWhitelisted)
        } else {
            Ok(())
        }
    }

    /// The rules for the fields of a schedule, in the order in which they
    /// are tried: a new schedule needs an unused identifier; the caller
    /// does not pay itself; the amount is not zero; a token is whitelisted;
    /// a start time or a list of execution times is given.
    pub open spec fn validate_schedule(
        self,
        id: ScheduleId,
        caller: AccountId,
        recipient: AccountId,
        amount: Balance,
        token_address: Option<AccountId>,
        start_time: Option<Timestamp>,
        execution_times: Option<Seq<Timestamp>>,
        is_new: bool,
    ) -> Result<(), TemporaError> {
        if is_new && self.schedules.contains_key(id) {
            Err(TemporaError::ScheduleConfigurationAlreadyExists)
        } else if caller == recipient {
            Err(TemporaError::CallerCannotBeRecipient)
        } else if amount == 0 {
            Err(TemporaError::ScheduleAmountCannotBeZero)
        } else if token_address is Some && !self.token_is_whitelisted(token_address->0) {
            Err(TemporaError::TokenIsNotWhitelisted)
        } else if start_time is None && execution_times is None {
            Err(TemporaError::WrongScheduleConfiguration)
        } else {
            Ok(())
        }
    }

    /// Only the sender of an existing schedule passes. Anyone else is told
    /// that there is no such schedule, whether or not there is one.
    pub open spec fn validate_user_schedule_exists(
        self,
        caller: AccountId,
        id: ScheduleId,
    ) -> Result<(), TemporaError> {
        if self.schedules.contains_key(id) && self.schedules[id].sender == caller {
            Ok(())
        } else {
            Err(TemporaError::UserScheduleConfigurationNotFound)
        }
    }

    /// The rules for every payment: the caller does not pay itself, and the
    /// amount is not zero.
    pub open spec fn validate_trigger_payment(
        caller: AccountId,
        recipient: AccountId,
        amount: Balance,
    ) -> Result<(), TemporaError> {
        if recipient == caller {
            Err(TemporaError::CallerCannotBeRecipient)
        } else if amount == 0 {
            Err(TemporaError::ScheduleAmountCannotBeZero)
        } else {
            Ok(())
        }
    }

    // The operations: for each, when it is refused and with what, and the
    // state that it leaves when it is not. A refused operation leaves the
    // state as it was.

    /// Whether `caller` may name a new administrator.
    pub open spec fn set_admin_result(self, caller: AccountId) -> Result<(), TemporaError> {
        self.ensure_admin(caller)
    }

    /// The state in which `new_admin` is the administrator.
    pub open spec fn set_admin(self, new_admin: AccountId) -> State {
        State { admin: new_admin, ..self }
    }

    /// Whether `caller` may put `token` on the whitelist.
    pub open spec fn add_token_result(self, caller: AccountId, token: AccountId) -> Result<
        (),
        TemporaError,
    > {
        if caller != self.admin {
            Err(TemporaError::Unauthorized)
        } else if self.token_is_whitelisted(token) {
            Err(TemporaError::TokenIsAlreadyWhiteslited)
        } else {
            Ok(())
        }
    }

    /// The state with `token` at the end of the whitelist.
    pub open spec fn add_token(self, token: AccountId) -> State {
        State { tokens_whitelist: self.tokens_whitelist.push(token), ..self }
    }

    /// Whether `caller` may take `token` off the whitelist.
    pub open spec fn remove_token_result(self, caller: AccountId, token: AccountId) -> Result<
        (),
        TemporaError,
    > {
        if caller != self.admin {
            Err(TemporaError::Unauthorized)
        } else {
            self.validate_token_is_whitelisted(token)
        }
    }

    /// The state with `token` taken off the whitelist, the other tokens in
    /// their order.
    pub open spec fn remove_token(self, token: AccountId) -> State {
        State {
            tokens_whitelist: self.tokens_whitelist.remove(self.tokens_whitelist.index_of(token)),
            ..self
        }
    }

    /// The state in which the new schedule `schedule` is stored and stands
    /// at the end of the lists of its sender and of its recipient.
    pub open spec fn save_schedule(self, schedule: ScheduleView) -> State {
        let with_sender = self.user_schedules.insert(
            schedule.sender,
            list_of(self.user_schedules, schedule.sender).push(schedule.id),
        );
        State {
            schedules: self.schedules.insert(schedule.id, schedule),
            user_schedules: with_sender.insert(
                schedule.recipient,
                list_of(with_sender, schedule.recipient).push(schedule.id),
            ),
            ..self
        }
    }

    /// The state in which the schedule `id` is disabled and nothing else
    /// has changed.
    pub open spec fn remove_schedule(self, id: ScheduleId) -> State {
        State {
            schedules: self.schedules.insert(
                id,
                ScheduleView { enabled: false, ..self.schedules[id] },
            ),
            ..self
        }
    }

    /// Whether `caller` may replace the schedule `schedule.id` by `schedule`:
    /// it must be the sender of the stored schedule, and the new fields must
    /// obey the rules for a schedule.
    pub open spec fn update_schedule_result(
        self,
        caller: AccountId,
        schedule: ScheduleView,
    ) -> Result<(), TemporaError> {
        if self.validate_user_schedule_exists(caller, schedule.id) is Err {
            self.validate_user_schedule_exists(caller, schedule.id)
        } else {
            self.validate_schedule(
                schedule.id,
                caller,
                schedule.recipient,
                schedule.amount,
                schedule.token_address,
                schedule.start_time,
                schedule.execution_times,
                false,
            )
        }
    }

    /// The record that an update by `schedule` leaves: the stored record
    /// keeps its identifier, its sender and whether it is enabled, and takes
    /// every other field from `schedule`.
    pub open spec fn updated_schedule(self, schedule: ScheduleView) -> ScheduleView {
        ScheduleView {
            id: self.schedules[schedule.id].id,
            sender: self.schedules[schedule.id].sender,
            enabled: self.schedules[schedule.id].enabled,
            ..schedule
        }
    }

    /// The state in which the stored schedule `schedule.id` is replaced by
    /// [`Self::updated_schedule`]. The lists of the accounts stay as they
    /// are, also where the recipient is another one now.
    pub open spec fn update_schedule(self, schedule: ScheduleView) -> State {
        State {
            schedules: self.schedules.insert(schedule.id, self.updated_schedule(schedule)),
            ..self
        }
    }

    /// The transfer that a native payment asks for: the value attached to
    /// the call must be the amount, no more and no less.
    pub open spec fn native_payment(
        recipient: AccountId,
        amount: Balance,
        transferred_amount: Balance,
    ) -> Result<Transfer, TemporaError> {
        if amount != transferred_amount {
            Err(TemporaError::InsufficientBalance)
        } else {
            Ok(Transfer::Native { to: recipient, amount })
        }
    }

    /// The transfer that a token payment asks for: the token must be on the
    /// whitelist now.
    pub open spec fn psp22_payment(
        self,
        caller: AccountId,
        recipient: AccountId,
        amount: Balance,
        token_address: AccountId,
    ) -> Result<Transfer, TemporaError> {
        if !self.token_is_whitelisted(token_address) {
            Err(TemporaError::TokenIsNotWhitelisted)
        } else {
            Ok(Transfer::Token { token: token_address, from: caller, to: recipient, amount })
        }
    }

    /// Whether a payment is accepted, and the transfer that it then asks
    /// for. The schedule that the payment names is not looked at: the
    /// payment is judged by its own parameters alone.
    pub open spec fn payment_request(
        self,
        caller: AccountId,
        recipient: AccountId,
        amount: Balance,
        token_address: Option<AccountId>,
        transferred_value: Balance,
    ) -> Result<Transfer, TemporaError> {
        if recipient == caller {
            Err(TemporaError::CallerCannotBeRecipient)
        } else if amount == 0 {
            Err(TemporaError::ScheduleAmountCannotBeZero)
        } else {
            match token_address {
                Some(token) => self.psp22_payment(caller, recipient, amount, token),
                None => Self::native_payment(recipient, amount, transferred_value),
            }
        }
    }

    /// The state in which the second of `block_timestamp` stands at the end
    /// of the history of `id`.
    pub open spec fn record_execution(self, id: ScheduleId, block_timestamp: Timestamp) -> State {
        State {
            payment_executions: self.payment_executions.insert(
                id,
                self.executions_of(id).push(seconds_of(block_timestamp)),
            ),
            ..self
        }
    }

    /// How a whole payment ends: refused as [`Self::payment_request`] says,
    /// or failed because the transfer was not made, or done.
    pub open spec fn trigger_payment_result(
        self,
        caller: AccountId,
        recipient: AccountId,
        amount: Balance,
        token_address: Option<AccountId>,
        transferred_value: Balance,
        transfer_succeeded: bool,
    ) -> Result<(), TemporaError> {
        match self.payment_request(caller, recipient, amount, token_address, transferred_value) {
            Err(e) => Err(e),
            Ok(_) => if transfer_succeeded {
                Ok(())
            } else {
                Err(TemporaError::TransferError)
            },
        }
    }
}

/// The record of a schedule that `caller` creates: `caller` is its sender,
/// and it is enabled.
pub open spec fn new_schedule(
    caller: AccountId,
    id: ScheduleId,
    task_id: Seq<char>,
    recipient: AccountId,
    amount: Balance,
    token_address: Option<AccountId>,
    start_time: Option<Timestamp>,
    interval: Option<u64>,
    execution_times: Option<Seq<Timestamp>>,
) -> ScheduleView {
    ScheduleView {
        id,
        task_id,
        sender: caller,
        recipient,
        amount,
        token_address,
        start_time,
        interval,
        execution_times,
        enabled: true,
    }
}

/// One call of the contract, with everything that it depends on: who
/// calls, the arguments and, for a payment, the value that came with the
/// call, whether the transfer was made, and the time.
#[allow(inconsistent_fields)]
pub enum Operation {
    SetAdmin { caller: AccountId, new_admin: AccountId },
    AddTokenToWhitelist { caller: AccountId, token_address: AccountId },
    RemoveTokenFromWhitelist { caller: AccountId, token_address: AccountId },
    /// `schedule` is the record to create; its sender is the caller.
    SaveSchedule { schedule: ScheduleView },
    RemoveSchedule { caller: AccountId, schedule_id: ScheduleId },
    UpdateSchedule { caller: AccountId, schedule: ScheduleView },
    TriggerPayment {
        caller: AccountId,
        recipient: AccountId,
        amount: Balance,
        token_address: Option<AccountId>,
        schedule_id: ScheduleId,
        transferred_value: Balance,
        transfer_succeeded: bool,
        block_timestamp: Timestamp,
    },
}

impl State {
    /// Whether the operation is carried out, and the refusal if it is not.
    pub open spec fn result_of(self, op: Operation) -> Result<(), TemporaError> {
        match op {
            Operation::SetAdmin { caller, new_admin } => self.set_admin_result(caller),
            Operation::AddTokenToWhitelist { caller, token_address } => self.add_token_result(
                caller,
                token_address,
            ),
            Operation::RemoveTokenFromWhitelist { caller, token_address } => self.remove_token_result(
                caller,
                token_address,
            ),
            Operation::SaveSchedule { schedule } => self.validate_schedule(
                schedule.id,
                schedule.sender,
                schedule.recipient,
                schedule.amount,
                schedule.token_address,
                schedule.start_time,
                schedule.execution_times,
                true,
            ),
            Operation::RemoveSchedule { caller, schedule_id } => self.validate_user_schedule_exists(
                caller,
                schedule_id,
            ),
            Operation::UpdateSchedule { caller, schedule } => self.update_schedule_result(
                caller,
                schedule,
            ),
            Operation::TriggerPayment {
                caller,
                recipient,
                amount,
                token_address,
                schedule_id,
                transferred_value,
                transfer_succeeded,
                block_timestamp,
            } => self.trigger_payment_result(
                caller,
                recipient,
                amount,
                token_address,
                transferred_value,
                transfer_succeeded,
            ),
        }
    }

    /// The state that the operation leaves: changed as the operation says
    /// if it is carried out, and as it was if it is refused.
    pub open spec fn after(self, op: Operation) -> State {
        if self.result_of(op) is Err {
            self
        } else {
            match op {
                Operation::SetAdmin { caller, new_admin } => self.set_admin(new_admin),
                Operation::AddTokenToWhitelist { caller, token_address } => self.add_token(
                    token_address,
                ),
                Operation::RemoveTokenFromWhitelist { caller, token_address } => self.remove_token(
                    token_address,
                ),
                Operation::SaveSchedule { schedule } => self.save_schedule(
                    ScheduleView { enabled: true, ..schedule },
                ),
                Operation::RemoveSchedule { caller, schedule_id } => self.remove_schedule(
                    schedule_id,
                ),
                Operation::UpdateSchedule { caller, schedule } => self.update_schedule(schedule),
                Operation::TriggerPayment {
                    caller,
                    recipient,
                    amount,
                    token_address,
                    schedule_id,
                    transferred_value,
                    transfer_succeeded,
                    block_timestamp,
                } => self.record_execution(schedule_id, block_timestamp),
            }
        }
    }

    /// The state that the operations leave, carried out one after the
    /// other.
    pub open spec fn after_all(self, ops: Seq<Operation>) -> State
        decreases ops.len(),
    {
        if ops.len() == 0 {
            self
        } else {
            self.after_all(ops.drop_last()).after(ops.last())
        }
    }
}

} // verus!
