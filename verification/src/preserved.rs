//! Each transition keeps [`State::wf`].

use crate::ident::{AccountId, ScheduleId, Timestamp};
use crate::model::State;
use crate::schedule::ScheduleView;
use crate::table::list_of;
use vstd::prelude::*;

verus! {

/// A list without repetitions stays one when an item that it lacks is put
/// at its end.
pub proof fn lemma_push_no_duplicates<T>(list: Seq<T>, item: T)
    requires
        list.no_duplicates(),
        !list.contains(item),
    ensures
        list.push(item).no_duplicates(),
        forall|other: T| list.push(item).contains(other) <==> (other == item || list.contains(other)),
{
    let longer = list.push(item);
    let n = list.len() as int;
    assert forall|a: int, b: int|
        0 <= a < longer.len() && 0 <= b < longer.len() && a != b implies longer[a] != longer[b] by {
        if a < n && b < n {
            assert(list[a] != list[b]);
        } else if a < n {
            assert(list.contains(list[a]));
        } else {
            assert(list.contains(list[b]));
        }
    }
    assert forall|other: T| longer.contains(other) <==> (other == item || list.contains(other)) by {
        if list.contains(other) {
            let j = list.index_of(other);
            assert(longer[j] == other);
        }
        if other == item {
            assert(longer[n] == other);
        }
    }
}

/// Taking an item out of a list without repetitions leaves a list without
/// repetitions that lacks the item and holds every other item still.
pub proof fn lemma_remove_no_duplicates<T>(list: Seq<T>, item: T)
    requires
        list.no_duplicates(),
        list.contains(item),
    ensures
        list.remove(list.index_of(item)).no_duplicates(),
        forall|other: T|
            list.remove(list.index_of(item)).contains(other) <==> (other != item && list.contains(
                other,
            )),
{
    let at = list.index_of(item);
    let shorter = list.remove(at);
    assert forall|a: int, b: int|
        0 <= a < shorter.len() && 0 <= b < shorter.len() && a != b implies shorter[a]
        != shorter[b] by {
        let a0 = if a < at { a } else { a + 1 };
        let b0 = if b < at { b } else { b + 1 };
        assert(list[a0] != list[b0]);
    }
    assert forall|other: T| shorter.contains(other) <==> (other != item && list.contains(other)) by {
        if shorter.contains(other) {
            let j = shorter.index_of(other);
            let j0 = if j < at { j } else { j + 1 };
            assert(list[j0] == other);
            assert(j0 != at);
        }
        if other != item && list.contains(other) {
            let j0 = list.index_of(other);
            let j = if j0 < at { j0 } else { j0 - 1 };
            assert(shorter[j] == other);
        }
    }
}

/// A contract that was just deployed is in order.
pub proof fn lemma_new_wf(admin: AccountId)
    ensures
        State::new(admin).wf(),
{
}

/// Naming a new administrator keeps the state in order.
pub proof fn lemma_set_admin_wf(state: State, new_admin: AccountId)
    requires
        state.wf(),
    ensures
        state.set_admin(new_admin).wf(),
{
    let after = state.set_admin(new_admin);
    assert forall|id: ScheduleId| #[trigger] after.schedules.contains_key(id) implies after.schedule_ids_of(
        after.schedules[id].sender,
    ).contains(id) by {
        assert(state.schedule_ids_of(state.schedules[id].sender).contains(id));
    }
}

/// Whitelisting a token that is not whitelisted keeps the state in order.
pub proof fn lemma_add_token_wf(state: State, token: AccountId)
    requires
        state.wf(),
        !state.token_is_whitelisted(token),
    ensures
        state.add_token(token).wf(),
{
    let after = state.add_token(token);
    lemma_push_no_duplicates(state.tokens_whitelist, token);
    assert forall|id: ScheduleId| #[trigger] after.schedules.contains_key(id) implies after.schedule_ids_of(
        after.schedules[id].sender,
    ).contains(id) by {
        assert(state.schedule_ids_of(state.schedules[id].sender).contains(id));
    }
}

/// Taking a whitelisted token off the list keeps the state in order.
pub proof fn lemma_remove_token_wf(state: State, token: AccountId)
    requires
        state.wf(),
        state.token_is_whitelisted(token),
    ensures
        state.remove_token(token).wf(),
{
    let after = state.remove_token(token);
    lemma_remove_no_duplicates(state.tokens_whitelist, token);
    assert forall|id: ScheduleId| #[trigger] after.schedules.contains_key(id) implies after.schedule_ids_of(
        after.schedules[id].sender,
    ).contains(id) by {
        assert(state.schedule_ids_of(state.schedules[id].sender).contains(id));
    }
}

/// What the lists of the accounts hold once a new schedule is stored: the
/// lists of its sender and of its recipient have its identifier at their
/// end, and every other list is as it was.
pub proof fn lemma_save_schedule_lists(state: State, schedule: ScheduleView)
    requires
        schedule.sender != schedule.recipient,
    ensures
        state.save_schedule(schedule).schedule_ids_of(schedule.sender) == state.schedule_ids_of(
            schedule.sender,
        ).push(schedule.id),
        state.save_schedule(schedule).schedule_ids_of(schedule.recipient) == state.schedule_ids_of(
            schedule.recipient,
        ).push(schedule.id),
        forall|account: AccountId|
            account != schedule.sender && account != schedule.recipient ==> #[trigger] state.save_schedule(
                schedule,
            ).schedule_ids_of(account) == state.schedule_ids_of(account),
        forall|account: AccountId| #[trigger]
            state.save_schedule(schedule).user_schedules.contains_key(account) <==> (account
                == schedule.sender || account == schedule.recipient
                || state.user_schedules.contains_key(account)),
{
}

/// Storing a schedule under an unused identifier, for a sender that is not
/// its recipient, keeps the state in order.
pub proof fn lemma_save_schedule_wf(state: State, schedule: ScheduleView)
    requires
        state.wf(),
        !state.schedules.contains_key(schedule.id),
        schedule.sender != schedule.recipient,
    ensures
        state.save_schedule(schedule).wf(),
{
    let after = state.save_schedule(schedule);
    lemma_save_schedule_lists(state, schedule);
    // No list named the new identifier before: every name is of a schedule that exists.
    assert forall|account: AccountId| !state.schedule_ids_of(account).contains(schedule.id) by {
        if state.schedule_ids_of(account).contains(schedule.id) {
            let i = state.schedule_ids_of(account).index_of(schedule.id);
            assert(state.schedules.contains_key(state.user_schedules[account][i]));
        }
    }
    lemma_push_no_duplicates(state.schedule_ids_of(schedule.sender), schedule.id);
    lemma_push_no_duplicates(state.schedule_ids_of(schedule.recipient), schedule.id);
    assert forall|account: AccountId| #[trigger]
        after.user_schedules.contains_key(account) implies after.user_schedules[account].no_duplicates() by {
        assert(after.user_schedules[account] == after.schedule_ids_of(account));
        if account != schedule.sender && account != schedule.recipient {
            assert(state.user_schedules.contains_key(account));
        }
    }
    assert forall|account: AccountId, i: int|
        after.user_schedules.contains_key(account) && 0 <= i
            < after.user_schedules[account].len() implies after.schedules.contains_key(
        #[trigger] after.user_schedules[account][i],
    ) by {
        let list = state.schedule_ids_of(account);
        assert(after.user_schedules[account] == after.schedule_ids_of(account));
        if i < list.len() {
            assert(state.user_schedules.contains_key(account));
            assert(after.user_schedules[account][i] == state.user_schedules[account][i]);
            assert(state.schedules.contains_key(state.user_schedules[account][i]));
        }
    }
    assert forall|id: ScheduleId| #[trigger] after.schedules.contains_key(id) implies after.schedule_ids_of(
        after.schedules[id].sender,
    ).contains(id) by {
        if id != schedule.id {
            let sender = state.schedules[id].sender;
            assert(state.schedule_ids_of(sender).contains(id));
            if sender == schedule.sender || sender == schedule.recipient {
                assert(state.schedule_ids_of(sender).push(schedule.id).contains(id));
            }
        }
    }
}

/// Disabling a schedule that exists keeps the state in order.
pub proof fn lemma_remove_schedule_wf(state: State, id: ScheduleId)
    requires
        state.wf(),
        state.schedules.contains_key(id),
    ensures
        state.remove_schedule(id).wf(),
{
    let after = state.remove_schedule(id);
    assert forall|account: AccountId, i: int|
        after.user_schedules.contains_key(account) && 0 <= i
            < after.user_schedules[account].len() implies after.schedules.contains_key(
        #[trigger] after.user_schedules[account][i],
    ) by {
        assert(state.schedules.contains_key(state.user_schedules[account][i]));
    }
    assert forall|other: ScheduleId| #[trigger] after.schedules.contains_key(other) implies after.schedule_ids_of(
        after.schedules[other].sender,
    ).contains(other) by {
        assert(state.schedules.contains_key(other));
        assert(state.schedule_ids_of(state.schedules[other].sender).contains(other));
    }
}

/// Updating a schedule that exists keeps the state in order.
pub proof fn lemma_update_schedule_wf(state: State, schedule: ScheduleView)
    requires
        state.wf(),
        state.schedules.contains_key(schedule.id),
    ensures
        state.update_schedule(schedule).wf(),
{
    let after = state.update_schedule(schedule);
    assert forall|account: AccountId, i: int|
        after.user_schedules.contains_key(account) && 0 <= i
            < after.user_schedules[account].len() implies after.schedules.contains_key(
        #[trigger] after.user_schedules[account][i],
    ) by {
        assert(state.schedules.contains_key(state.user_schedules[account][i]));
    }
    assert forall|other: ScheduleId| #[trigger] after.schedules.contains_key(other) implies after.schedule_ids_of(
        after.schedules[other].sender,
    ).contains(other) by {
        assert(state.schedules.contains_key(other));
        assert(state.schedule_ids_of(state.schedules[other].sender).contains(other));
    }
}

/// Recording a payment keeps the state in order.
pub proof fn lemma_record_execution_wf(state: State, id: ScheduleId, block_timestamp: Timestamp)
    requires
        state.wf(),
    ensures
        state.record_execution(id, block_timestamp).wf(),
{
    let after = state.record_execution(id, block_timestamp);
    assert forall|other: ScheduleId| #[trigger] after.schedules.contains_key(other) implies after.schedule_ids_of(
        after.schedules[other].sender,
    ).contains(other) by {
        assert(state.schedule_ids_of(state.schedules[other].sender).contains(other));
    }
}

} // verus!
