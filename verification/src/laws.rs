//! What holds of the contract whatever is asked of it, and in whatever
//! order. Each law is stated over [`State`], the view of the contract, and
//! over [`Operation`], which stands for one call of it.

use crate::error::TemporaError;
use crate::ident::{AccountId, Balance, ScheduleId, Timestamp};
use crate::model::{seconds_of, Operation, State, Transfer};
use crate::preserved::{
    lemma_add_token_wf, lemma_record_execution_wf, lemma_remove_no_duplicates,
    lemma_remove_schedule_wf, lemma_remove_token_wf, lemma_save_schedule_lists,
    lemma_save_schedule_wf, lemma_set_admin_wf, lemma_update_schedule_wf,
};
use crate::schedule::ScheduleView;
use vstd::prelude::*;

verus! {

/// Whatever is asked of a contract that is in order, it stays in order.
pub proof fn lemma_step_keeps_wf(state: State, op: Operation)
    requires
        state.wf(),
    ensures
        state.after(op).wf(),
{
    if state.result_of(op) is Ok {
        match op {
            Operation::SetAdmin { caller, new_admin } => {
                lemma_set_admin_wf(state, new_admin);
            },
            Operation::AddTokenToWhitelist { caller, token_address } => {
                lemma_add_token_wf(state, token_address);
            },
            Operation::RemoveTokenFromWhitelist { caller, token_address } => {
                lemma_remove_token_wf(state, token_address);
            },
            Operation::SaveSchedule { schedule } => {
                lemma_save_schedule_wf(state, ScheduleView { enabled: true, ..schedule });
            },
            Operation::RemoveSchedule { caller, schedule_id } => {
                lemma_remove_schedule_wf(state, schedule_id);
            },
            Operation::UpdateSchedule { caller, schedule } => {
                lemma_update_schedule_wf(state, schedule);
            },
            Operation::TriggerPayment {
                caller,
                recipient,
                amount,
                token_address,
                schedule_id,
                transferred_value,
                transfer_succeeded,
                block_timestamp,
            } => {
                lemma_record_execution_wf(state, schedule_id, block_timestamp);
            },
        }
    }
}

/// A contract that is in order stays in order through any run of
/// operations.
pub proof fn lemma_run_keeps_wf(state: State, ops: Seq<Operation>)
    requires
        state.wf(),
    ensures
        state.after_all(ops).wf(),
    decreases ops.len(),
{
    if ops.len() > 0 {
        lemma_run_keeps_wf(state, ops.drop_last());
        lemma_step_keeps_wf(state.after_all(ops.drop_last()), ops.last());
    }
}

/// An operation that is refused changes nothing.
pub proof fn lemma_refusal_changes_nothing(state: State, op: Operation)
    requires
        state.result_of(op) is Err,
    ensures
        state.after(op) == state,
{
}

/// Creation is carried out on exactly the records that obey the rules: an
/// unused identifier, a recipient other than the sender, an amount other
/// than zero, a token that is whitelisted if there is one, and a start
/// time or a list of execution times. The record is then stored as given,
/// enabled.
pub proof fn lemma_creation_rules(state: State, schedule: ScheduleView)
    ensures
        state.result_of(Operation::SaveSchedule { schedule }) is Ok <==> {
            &&& !state.schedules.contains_key(schedule.id)
            &&& schedule.sender != schedule.recipient
            &&& schedule.amount != 0
            &&& (schedule.token_address is Some ==> state.token_is_whitelisted(
                schedule.token_address->0,
            ))
            &&& (schedule.start_time is Some || schedule.execution_times is Some)
        },
        state.result_of(Operation::SaveSchedule { schedule }) is Ok ==> {
            let after = state.after(Operation::SaveSchedule { schedule });
            &&& after.schedules.contains_key(schedule.id)
            &&& after.schedules[schedule.id] == (ScheduleView { enabled: true, ..schedule })
        },
{
}

/// What one operation can do to a schedule that exists: it stays stored,
/// under its identifier and with its sender, and it is enabled afterwards
/// only if it was before.
pub proof fn lemma_step_keeps_schedule(state: State, op: Operation, id: ScheduleId)
    requires
        state.wf(),
        state.schedules.contains_key(id),
    ensures
        state.after(op).schedules.contains_key(id),
        state.after(op).schedules[id].id == id,
        state.after(op).schedules[id].sender == state.schedules[id].sender,
        state.after(op).schedules[id].enabled ==> state.schedules[id].enabled,
{
}

/// Through any run of operations a schedule that exists stays stored,
/// under its identifier and with its sender, and once it is disabled it
/// stays disabled: no operation enables a schedule again.
pub proof fn lemma_run_keeps_schedule(state: State, ops: Seq<Operation>, id: ScheduleId)
    requires
        state.wf(),
        state.schedules.contains_key(id),
    ensures
        state.after_all(ops).schedules.contains_key(id),
        state.after_all(ops).schedules[id].id == id,
        state.after_all(ops).schedules[id].sender == state.schedules[id].sender,
        state.after_all(ops).schedules[id].enabled ==> state.schedules[id].enabled,
    decreases ops.len(),
{
    if ops.len() > 0 {
        lemma_run_keeps_schedule(state, ops.drop_last(), id);
        lemma_run_keeps_wf(state, ops.drop_last());
        lemma_step_keeps_schedule(state.after_all(ops.drop_last()), ops.last(), id);
    }
}

/// A schedule is created once: from the moment one is stored under an
/// identifier, and whatever is done afterwards, creating a schedule under
/// that identifier is refused with `ScheduleConfigurationAlreadyExists`,
/// whatever its other fields are.
pub proof fn lemma_created_once(state: State, ops: Seq<Operation>, again: ScheduleView)
    requires
        state.wf(),
        state.schedules.contains_key(again.id),
    ensures
        state.after_all(ops).result_of(Operation::SaveSchedule { schedule: again }) == Err::<
            (),
            TemporaError,
        >(TemporaError::ScheduleConfigurationAlreadyExists),
{
    lemma_run_keeps_schedule(state, ops, again.id);
}

/// A schedule that pays its own sender is refused at creation, whatever
/// its amount and its asset: with `CallerCannotBeRecipient`, unless its
/// identifier is in use.
pub proof fn lemma_creation_refuses_self_payment(state: State, schedule: ScheduleView)
    requires
        schedule.sender == schedule.recipient,
    ensures
        state.result_of(Operation::SaveSchedule { schedule }) == Err::<(), TemporaError>(
            if state.schedules.contains_key(schedule.id) {
                TemporaError::ScheduleConfigurationAlreadyExists
            } else {
                TemporaError::CallerCannotBeRecipient
            },
        ),
{
}

/// A payment to the caller itself is refused with
/// `CallerCannotBeRecipient`, whatever its amount and its asset.
pub proof fn lemma_payment_refuses_self_payment(
    state: State,
    caller: AccountId,
    amount: Balance,
    token_address: Option<AccountId>,
    transferred_value: Balance,
)
    ensures
        state.payment_request(caller, caller, amount, token_address, transferred_value) == Err::<
            Transfer,
            TemporaError,
        >(TemporaError::CallerCannotBeRecipient),
{
}

/// A schedule over nothing is refused at creation, with or without a
/// token: with `ScheduleAmountCannotBeZero`, unless an earlier rule
/// refuses it.
pub proof fn lemma_creation_refuses_zero(state: State, schedule: ScheduleView)
    requires
        schedule.amount == 0,
    ensures
        state.result_of(Operation::SaveSchedule { schedule }) == Err::<(), TemporaError>(
            if state.schedules.contains_key(schedule.id) {
                TemporaError::ScheduleConfigurationAlreadyExists
            } else if schedule.sender == schedule.recipient {
                TemporaError::CallerCannotBeRecipient
            } else {
                TemporaError::ScheduleAmountCannotBeZero
            },
        ),
{
}

/// A payment of nothing is refused, with or without a token: with
/// `ScheduleAmountCannotBeZero`, unless it goes to the caller itself.
pub proof fn lemma_payment_refuses_zero(
    state: State,
    caller: AccountId,
    recipient: AccountId,
    token_address: Option<AccountId>,
    transferred_value: Balance,
)
    ensures
        state.payment_request(caller, recipient, 0, token_address, transferred_value) == Err::<
            Transfer,
            TemporaError,
        >(
            if recipient == caller {
                TemporaError::CallerCannotBeRecipient
            } else {
                TemporaError::ScheduleAmountCannotBeZero
            },
        ),
{
}

/// A schedule in a token that is not whitelisted is refused, at creation
/// and at an update alike.
pub proof fn lemma_unlisted_token_refused(state: State, caller: AccountId, schedule: ScheduleView)
    requires
        schedule.token_address is Some,
        !state.token_is_whitelisted(schedule.token_address->0),
    ensures
        state.result_of(Operation::SaveSchedule { schedule }) is Err,
        state.result_of(Operation::UpdateSchedule { caller, schedule }) is Err,
        state.after(Operation::SaveSchedule { schedule }) == state,
        state.after(Operation::UpdateSchedule { caller, schedule }) == state,
{
}

/// Taking a token off the whitelist touches no schedule: every record,
/// every list and every history is as it was, so a schedule in that token
/// is stored and shown as before. The token itself is off the list, every
/// other token is on it still, and a payment in the token is refused from
/// then on, for the whitelist is asked again at each payment.
pub proof fn lemma_token_removal_spares_schedules(
    state: State,
    caller: AccountId,
    token_address: AccountId,
)
    requires
        state.wf(),
        state.result_of(Operation::RemoveTokenFromWhitelist { caller, token_address }) is Ok,
    ensures
        ({
            let after = state.after(Operation::RemoveTokenFromWhitelist { caller, token_address });
            &&& after.schedules == state.schedules
            &&& after.user_schedules == state.user_schedules
            &&& after.payment_executions == state.payment_executions
            &&& forall|account: AccountId|
                after.user_schedules_of(account) == state.user_schedules_of(account)
            &&& !after.token_is_whitelisted(token_address)
            &&& forall|other: AccountId|
                other != token_address ==> (after.token_is_whitelisted(other)
                    <==> state.token_is_whitelisted(other))
            &&& forall|
                payer: AccountId,
                recipient: AccountId,
                amount: Balance,
                transferred_value: Balance,
            |
                #![trigger after.payment_request(payer, recipient, amount, Some(token_address), transferred_value)]
                after.payment_request(
                    payer,
                    recipient,
                    amount,
                    Some(token_address),
                    transferred_value,
                ) is Err
        }),
{
    lemma_remove_no_duplicates(state.tokens_whitelist, token_address);
}

/// Only its sender may cancel or update a schedule. Anyone else, the
/// recipient too, is refused with `UserScheduleConfigurationNotFound`, as
/// if the schedule did not exist, and so is everyone where it does not.
pub proof fn lemma_only_the_sender(state: State, caller: AccountId, schedule: ScheduleView)
    requires
        !state.schedules.contains_key(schedule.id) || state.schedules[schedule.id].sender != caller,
    ensures
        state.result_of(Operation::RemoveSchedule { caller, schedule_id: schedule.id }) == Err::<
            (),
            TemporaError,
        >(TemporaError::UserScheduleConfigurationNotFound),
        state.result_of(Operation::UpdateSchedule { caller, schedule }) == Err::<(), TemporaError>(
            TemporaError::UserScheduleConfigurationNotFound,
        ),
{
}

/// The sender of a schedule is the account that created it, for good:
/// whatever was done since the schedule was stored, any other account is
/// refused with `UserScheduleConfigurationNotFound` when it cancels or
/// updates the schedule.
pub proof fn lemma_only_the_original_sender(
    state: State,
    ops: Seq<Operation>,
    caller: AccountId,
    schedule: ScheduleView,
)
    requires
        state.wf(),
        state.schedules.contains_key(schedule.id),
        state.schedules[schedule.id].sender != caller,
    ensures
        state.after_all(ops).result_of(
            Operation::RemoveSchedule { caller, schedule_id: schedule.id },
        ) == Err::<(), TemporaError>(TemporaError::UserScheduleConfigurationNotFound),
        state.after_all(ops).result_of(Operation::UpdateSchedule { caller, schedule }) == Err::<
            (),
            TemporaError,
        >(TemporaError::UserScheduleConfigurationNotFound),
{
    lemma_run_keeps_schedule(state, ops, schedule.id);
    lemma_only_the_sender(state.after_all(ops), caller, schedule);
}

/// Cancelling disables the schedule and does nothing else: its other
/// fields, every other schedule, the lists, the histories, the whitelist
/// and the administrator are as they were.
pub proof fn lemma_cancel_disables(state: State, caller: AccountId, schedule_id: ScheduleId)
    requires
        state.result_of(Operation::RemoveSchedule { caller, schedule_id }) is Ok,
    ensures
        ({
            let after = state.after(Operation::RemoveSchedule { caller, schedule_id });
            &&& after.schedules[schedule_id] == (ScheduleView {
                enabled: false,
                ..state.schedules[schedule_id]
            })
            &&& after.schedules.dom() == state.schedules.dom()
            &&& forall|other: ScheduleId|
                other != schedule_id ==> after.schedules[other] == state.schedules[other]
            &&& after.user_schedules == state.user_schedules
            &&& after.payment_executions == state.payment_executions
            &&& after.tokens_whitelist == state.tokens_whitelist
            &&& after.admin == state.admin
        }),
{
    let after = state.after(Operation::RemoveSchedule { caller, schedule_id });
    assert(after.schedules.dom() =~= state.schedules.dom());
}

/// A cancelled schedule stays cancelled: whatever is done after it was
/// disabled, it is disabled.
pub proof fn lemma_cancelled_for_good(state: State, ops: Seq<Operation>, schedule_id: ScheduleId)
    requires
        state.wf(),
        state.schedules.contains_key(schedule_id),
        !state.schedules[schedule_id].enabled,
    ensures
        state.after_all(ops).schedules.contains_key(schedule_id),
        !state.after_all(ops).schedules[schedule_id].enabled,
{
    lemma_run_keeps_schedule(state, ops, schedule_id);
}

/// A new schedule is listed for its sender and for its recipient, at the
/// end of their lists, and for nobody else.
pub proof fn lemma_listed_for_both(state: State, schedule: ScheduleView, third: AccountId)
    requires
        state.wf(),
        state.result_of(Operation::SaveSchedule { schedule }) is Ok,
        third != schedule.sender,
        third != schedule.recipient,
    ensures
        ({
            let after = state.after(Operation::SaveSchedule { schedule });
            &&& after.schedule_ids_of(schedule.sender) == state.schedule_ids_of(
                schedule.sender,
            ).push(schedule.id)
            &&& after.schedule_ids_of(schedule.recipient) == state.schedule_ids_of(
                schedule.recipient,
            ).push(schedule.id)
            &&& after.schedule_ids_of(schedule.sender).contains(schedule.id)
            &&& after.schedule_ids_of(schedule.recipient).contains(schedule.id)
            &&& after.schedule_ids_of(third) == state.schedule_ids_of(third)
            &&& !after.schedule_ids_of(third).contains(schedule.id)
        }),
{
    let created = ScheduleView { enabled: true, ..schedule };
    let after = state.after(Operation::SaveSchedule { schedule });
    lemma_save_schedule_lists(state, created);
    let n = state.schedule_ids_of(schedule.sender).len() as int;
    assert(after.schedule_ids_of(schedule.sender)[n] == schedule.id);
    let m = state.schedule_ids_of(schedule.recipient).len() as int;
    assert(after.schedule_ids_of(schedule.recipient)[m] == schedule.id);
    lemma_unknown_is_unlisted(state, third, schedule.id);
}

/// No list names a schedule that does not exist.
pub proof fn lemma_unknown_is_unlisted(state: State, account: AccountId, id: ScheduleId)
    requires
        state.wf(),
        !state.schedules.contains_key(id),
    ensures
        !state.schedule_ids_of(account).contains(id),
{
    if state.schedule_ids_of(account).contains(id) {
        let i = state.schedule_ids_of(account).index_of(id);
        assert(state.schedules.contains_key(state.user_schedules[account][i]));
    }
}

/// What one operation can do to the list of an account: nothing, or put
/// the identifier of a schedule that it creates at its end. So whether a
/// schedule that exists is in the list does not change.
pub proof fn lemma_step_keeps_lists(state: State, op: Operation, account: AccountId, id: ScheduleId)
    requires
        state.wf(),
        state.schedules.contains_key(id),
    ensures
        state.schedule_ids_of(account).is_prefix_of(state.after(op).schedule_ids_of(account)),
        state.after(op).schedule_ids_of(account).contains(id) <==> state.schedule_ids_of(
            account,
        ).contains(id),
{
    let before = state.schedule_ids_of(account);
    let after = state.after(op).schedule_ids_of(account);
    if state.result_of(op) is Ok {
        match op {
            Operation::SaveSchedule { schedule } => {
                let created = ScheduleView { enabled: true, ..schedule };
                lemma_save_schedule_lists(state, created);
                if account == schedule.sender || account == schedule.recipient {
                    assert(after == before.push(schedule.id));
                    assert(schedule.id != id);
                    if after.contains(id) {
                        let i = after.index_of(id);
                        assert(before[i] == id);
                    }
                    if before.contains(id) {
                        let i = before.index_of(id);
                        assert(after[i] == id);
                    }
                } else {
                    assert(after == before);
                }
            },
            _ => {
                assert(after == before);
            },
        }
    }
}

/// Who is shown a schedule is settled when it is created: whatever is done
/// afterwards, it is in the list of an account if and only if it was there
/// from the start. It stays in that of its sender.
pub proof fn lemma_run_keeps_lists(
    state: State,
    ops: Seq<Operation>,
    account: AccountId,
    id: ScheduleId,
)
    requires
        state.wf(),
        state.schedules.contains_key(id),
    ensures
        state.after_all(ops).schedule_ids_of(account).contains(id) <==> state.schedule_ids_of(
            account,
        ).contains(id),
        state.after_all(ops).schedule_ids_of(state.schedules[id].sender).contains(id),
    decreases ops.len(),
{
    if ops.len() > 0 {
        let before = state.after_all(ops.drop_last());
        lemma_run_keeps_lists(state, ops.drop_last(), account, id);
        lemma_run_keeps_wf(state, ops.drop_last());
        lemma_run_keeps_schedule(state, ops.drop_last(), id);
        lemma_step_keeps_lists(before, ops.last(), account, id);
    }
    lemma_run_keeps_wf(state, ops);
    lemma_run_keeps_schedule(state, ops, id);
}

/// What an account is shown names the schedules of its list, one entry for
/// each and in their order, each with the record stored now and with its
/// history.
pub proof fn lemma_listing_shows_the_list(state: State, account: AccountId, i: int)
    requires
        state.wf(),
        0 <= i < state.schedule_ids_of(account).len(),
    ensures
        state.user_schedules_of(account).len() == state.schedule_ids_of(account).len(),
        state.user_schedules_of(account)[i].schedule_configuration.id == state.schedule_ids_of(
            account,
        )[i],
        state.user_schedules_of(account)[i].schedule_configuration
            == state.schedules[state.schedule_ids_of(account)[i]],
        state.user_schedules_of(account)[i].payment_executions == state.executions_of(
            state.schedule_ids_of(account)[i],
        ),
{
    assert(state.user_schedules.contains_key(account));
    assert(state.schedules.contains_key(state.user_schedules[account][i]));
}

/// A payment that goes through puts the second of its time at the end of
/// the history of its schedule, once, and changes nothing else. One that
/// is refused, or whose transfer fails, changes nothing at all.
pub proof fn lemma_payment_recorded_once(
    state: State,
    caller: AccountId,
    recipient: AccountId,
    amount: Balance,
    token_address: Option<AccountId>,
    schedule_id: ScheduleId,
    transferred_value: Balance,
    transfer_succeeded: bool,
    block_timestamp: Timestamp,
)
    ensures
        ({
            let op = Operation::TriggerPayment {
                caller,
                recipient,
                amount,
                token_address,
                schedule_id,
                transferred_value,
                transfer_succeeded,
                block_timestamp,
            };
            let after = state.after(op);
            &&& state.result_of(op) is Ok <==> transfer_succeeded && state.payment_request(
                caller,
                recipient,
                amount,
                token_address,
                transferred_value,
            ) is Ok
            &&& state.result_of(op) is Ok ==> {
                &&& after.executions_of(schedule_id) == state.executions_of(schedule_id).push(
                    seconds_of(block_timestamp),
                )
                &&& after.executions_of(schedule_id).len() == state.executions_of(
                    schedule_id,
                ).len() + 1
                &&& after.executions_of(schedule_id).last() == block_timestamp / 1000
                &&& forall|other: ScheduleId|
                    other != schedule_id ==> after.executions_of(other) == state.executions_of(
                        other,
                    )
                &&& after.schedules == state.schedules
                &&& after.user_schedules == state.user_schedules
                &&& after.tokens_whitelist == state.tokens_whitelist
                &&& after.admin == state.admin
            }
            &&& state.result_of(op) is Err ==> after == state
        }),
{
}

/// Histories only grow, and only at their end: whatever the operation, the
/// history of a schedule before it is the beginning of its history after
/// it; and no operation but a payment changes a history.
pub proof fn lemma_step_keeps_history(state: State, op: Operation, id: ScheduleId)
    ensures
        state.executions_of(id).is_prefix_of(state.after(op).executions_of(id)),
        !(op is TriggerPayment) ==> state.after(op).payment_executions == state.payment_executions,
{
    if state.result_of(op) is Ok {
        match op {
            Operation::TriggerPayment {
                caller,
                recipient,
                amount,
                token_address,
                schedule_id,
                transferred_value,
                transfer_succeeded,
                block_timestamp,
            } => {
                if schedule_id == id {
                    assert(state.after(op).executions_of(id) == state.executions_of(id).push(
                        seconds_of(block_timestamp),
                    ));
                } else {
                    assert(state.after(op).executions_of(id) == state.executions_of(id));
                }
            },
            _ => {
                assert(state.after(op).executions_of(id) == state.executions_of(id));
            },
        }
    }
}

/// Nothing is ever taken out of a history or moved in it: through any run
/// of operations, the history of a schedule at the start is the beginning
/// of its history at the end.
pub proof fn lemma_run_keeps_history(state: State, ops: Seq<Operation>, id: ScheduleId)
    ensures
        state.executions_of(id).is_prefix_of(state.after_all(ops).executions_of(id)),
    decreases ops.len(),
{
    if ops.len() > 0 {
        lemma_run_keeps_history(state, ops.drop_last(), id);
        lemma_step_keeps_history(state.after_all(ops.drop_last()), ops.last(), id);
    }
}

/// Only the administrator changes the whitelist or names a successor:
/// anyone else is refused with `Unauthorized`, and whatever anyone else
/// asks leaves the whitelist and the administrator as they were.
pub proof fn lemma_only_the_admin(
    state: State,
    caller: AccountId,
    account: AccountId,
    op: Operation,
)
    requires
        caller != state.admin,
    ensures
        state.result_of(Operation::SetAdmin { caller, new_admin: account }) == Err::<
            (),
            TemporaError,
        >(TemporaError::Unauthorized),
        state.result_of(Operation::AddTokenToWhitelist { caller, token_address: account }) == Err::<
            (),
            TemporaError,
        >(TemporaError::Unauthorized),
        state.result_of(
            Operation::RemoveTokenFromWhitelist { caller, token_address: account },
        ) == Err::<(), TemporaError>(TemporaError::Unauthorized),
        !(op is SetAdmin) ==> state.after(op).admin == state.admin,
        !(op is AddTokenToWhitelist) && !(op is RemoveTokenFromWhitelist) ==> state.after(
            op,
        ).tokens_whitelist == state.tokens_whitelist,
{
}

} // verus!
