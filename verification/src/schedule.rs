use crate::ident::{AccountId, Balance, ScheduleId, Timestamp};
use vstd::prelude::*;

verus! {

/// One obligation of a sender to pay a recipient.
#[derive(Debug)]
pub struct ScheduleConfiguration {
    /// The identifier under which the schedule is stored, chosen by its creator.
    pub id: ScheduleId,
    /// A label for the creator's own use.
    pub task_id: String,
    /// The account that created the schedule and pays.
    pub sender: AccountId,
    /// The account that is paid.
    pub recipient: AccountId,
    /// What is paid each time, in the smallest unit of the asset.
    pub amount: Balance,
    /// The token that is paid; `None` for the native asset.
    pub token_address: Option<AccountId>,
    /// When a recurring schedule starts.
    pub start_time: Option<Timestamp>,
    /// The time between two payments of a recurring schedule.
    pub interval: Option<u64>,
    /// The times at which a schedule with fixed dates pays.
    pub execution_times: Option<Vec<Timestamp>>,
    /// `true` from creation until the schedule is cancelled.
    pub enabled: bool,
}

/// What a [`ScheduleConfiguration`] holds, as a mathematical value.
pub struct ScheduleView {
    pub id: ScheduleId,
    pub task_id: Seq<char>,
    pub sender: AccountId,
    pub recipient: AccountId,
    pub amount: Balance,
    pub token_address: Option<AccountId>,
    pub start_time: Option<Timestamp>,
    pub interval: Option<u64>,
    pub execution_times: Option<Seq<Timestamp>>,
    pub enabled: bool,
}

/// The view of a list of times that may be absent.
pub open spec fn times_view(times: Option<Vec<Timestamp>>) -> Option<Seq<Timestamp>> {
    match times {
        Some(list) => Some(list@),
        None => None,
    }
}

impl View for ScheduleConfiguration {
    type V = ScheduleView;

    open spec fn view(&self) -> ScheduleView {
        ScheduleView {
            id: self.id,
            task_id: self.task_id@,
            sender: self.sender,
            recipient: self.recipient,
            amount: self.amount,
            token_address: self.token_address,
            start_time: self.start_time,
            interval: self.interval,
            execution_times: times_view(self.execution_times),
            enabled: self.enabled,
        }
    }
}

/// A copy of a list of times.
pub fn copy_times(times: &Vec<Timestamp>) -> (copy: Vec<Timestamp>)
    ensures
        copy@ == times@,
{
    let mut copy: Vec<Timestamp> = Vec::new();
    let mut i: usize = 0;
    while i < times.len()
        invariant
            i <= times@.len(),
            copy@ == times@.take(i as int),
        decreases times@.len() - i,
    {
        copy.push(times[i]);
        assert(times@.take(i as int).push(times@[i as int]) =~= times@.take(i + 1));
        i = i + 1;
    }
    assert(times@.take(times@.len() as int) =~= times@);
    copy
}

impl Clone for ScheduleConfiguration {
    fn clone(&self) -> (copy: Self)
        ensures
            copy@ == self@,
    {
        ScheduleConfiguration {
            id: self.id,
            task_id: self.task_id.clone(),
            sender: self.sender,
            recipient: self.recipient,
            amount: self.amount,
            token_address: self.token_address,
            start_time: self.start_time,
            interval: self.interval,
            execution_times: match &self.execution_times {
                Some(list) => Some(copy_times(list)),
                None => None,
            },
            enabled: self.enabled,
        }
    }
}

/// A schedule together with the times at which it was paid.
#[derive(Debug)]
pub struct UserScheduleData {
    pub schedule_configuration: ScheduleConfiguration,
    pub payment_executions: Vec<Timestamp>,
}

/// What a [`UserScheduleData`] holds, as a mathematical value.
pub struct UserScheduleView {
    pub schedule_configuration: ScheduleView,
    pub payment_executions: Seq<Timestamp>,
}

impl View for UserScheduleData {
    type V = UserScheduleView;

    open spec fn view(&self) -> UserScheduleView {
        UserScheduleView {
            schedule_configuration: self.schedule_configuration@,
            payment_executions: self.payment_executions@,
        }
    }
}

/// The views of the items of a list of [`UserScheduleData`].
pub open spec fn views_of(list: Seq<UserScheduleData>) -> Seq<UserScheduleView> {
    list.map_values(|data: UserScheduleData| data@)
}

impl Clone for UserScheduleData {
    fn clone(&self) -> (copy: Self)
        ensures
            copy@ == self@,
    {
        UserScheduleData {
            schedule_configuration: self.schedule_configuration.clone(),
            payment_executions: copy_times(&self.payment_executions),
        }
    }
}

} // verus!
