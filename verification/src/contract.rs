use crate::error::TemporaError;
use crate::ident::{AccountId, Balance, ScheduleId, Timestamp};
use crate::model::{new_schedule, Operation, State, Transfer, MILLISECONDS_PER_SECOND};
use crate::preserved::{
    lemma_add_token_wf, lemma_new_wf, lemma_record_execution_wf, lemma_remove_schedule_wf,
    lemma_remove_token_wf, lemma_save_schedule_wf, lemma_set_admin_wf, lemma_update_schedule_wf,
};
use crate::schedule::{
    copy_times, times_view, views_of, ScheduleConfiguration, UserScheduleData,
};
use crate::table::{has_no_duplicates, position_of, Table};
use vstd::prelude::*;

verus! {

/// The contract: its administrator, the schedules, for each account the
/// schedules it took part in, for each schedule the times at which it was
/// paid, and the whitelist of tokens.
///
/// Its view is the [`State`] that these hold, and each method that changes
/// the contract carries out one [`Operation`] on it. Nothing here reads a
/// clock, asks who is calling or moves money: the caller of each method
/// hands in the calling account, and a payment is told what became of its
/// transfer, which takes place elsewhere.
pub struct TemporaContract {
    admin: AccountId,
    schedules: Table<ScheduleId, ScheduleConfiguration>,
    user_schedules: Table<AccountId, Vec<ScheduleId>>,
    payment_executions: Table<ScheduleId, Vec<Timestamp>>,
    tokens_whitelist: Vec<AccountId>,
}

impl View for TemporaContract {
    type V = State;

    closed spec fn view(&self) -> State {
        State {
            admin: self.admin,
            schedules: self.schedules@,
            user_schedules: self.user_schedules@,
            payment_executions: self.payment_executions@,
            tokens_whitelist: self.tokens_whitelist@,
        }
    }
}

impl TemporaContract {
    /// The three tables are in order.
    pub closed spec fn tables_wf(&self) -> bool {
        &&& self.schedules.wf()
        &&& self.user_schedules.wf()
        &&& self.payment_executions.wf()
    }

    /// The contract is in order: its tables are, and its state is.
    pub open spec fn wf(&self) -> bool {
        &&& self.tables_wf()
        &&& self@.wf()
    }

    /// A contract deployed by `caller`, who is its administrator. It holds
    /// no schedule and no token.
    pub fn new(caller: AccountId) -> (contract: Self)
        ensures
            contract.wf(),
            contract@ == State::new(caller),
    {
        proof {
            lemma_new_wf(caller);
        }
        TemporaContract {
            admin: caller,
            schedules: Table::new(),
            user_schedules: Table::new(),
            payment_executions: Table::new(),
            tokens_whitelist: Vec::new(),
        }
    }

    /// The contract that holds the given parts, if they are in order
    /// together: see [`State::wf`]. This is the way back from a contract
    /// that was taken apart, or written down and read again: what was read
    /// is held to the rules before any operation works on it.
    pub fn from_parts(
        admin: AccountId,
        schedules: Table<ScheduleId, ScheduleConfiguration>,
        user_schedules: Table<AccountId, Vec<ScheduleId>>,
        payment_executions: Table<ScheduleId, Vec<Timestamp>>,
        tokens_whitelist: Vec<AccountId>,
    ) -> (restored: Option<Self>)
        requires
            schedules.wf(),
            user_schedules.wf(),
            payment_executions.wf(),
        ensures
            match restored {
                Some(contract) => {
                    &&& contract.wf()
                    &&& contract@ == (State {
                        admin,
                        schedules: schedules@,
                        user_schedules: user_schedules@,
                        payment_executions: payment_executions@,
                        tokens_whitelist: tokens_whitelist@,
                    })
                },
                None => !(State {
                    admin,
                    schedules: schedules@,
                    user_schedules: user_schedules@,
                    payment_executions: payment_executions@,
                    tokens_whitelist: tokens_whitelist@,
                }).wf(),
            },
    {
        let contract = TemporaContract {
            admin,
            schedules,
            user_schedules,
            payment_executions,
            tokens_whitelist,
        };
        if contract.in_order() {
            Some(contract)
        } else {
            None
        }
    }

    /// The parts of the contract: the administrator, the schedules, the
    /// lists of the accounts, the histories and the whitelist.
    pub fn into_parts(self) -> (parts: (
        AccountId,
        Table<ScheduleId, ScheduleConfiguration>,
        Table<AccountId, Vec<ScheduleId>>,
        Table<ScheduleId, Vec<Timestamp>>,
        Vec<AccountId>,
    ))
        requires
            self.wf(),
        ensures
            parts.1.wf(),
            parts.2.wf(),
            parts.3.wf(),
            self@ == (State {
                admin: parts.0,
                schedules: parts.1@,
                user_schedules: parts.2@,
                payment_executions: parts.3@,
                tokens_whitelist: parts.4@,
            }),
    {
        (
            self.admin,
            self.schedules,
            self.user_schedules,
            self.payment_executions,
            self.tokens_whitelist,
        )
    }

    /// Whether the state is in order.
    fn in_order(&self) -> (ok: bool)
        requires
            self.tables_wf(),
        ensures
            ok == self@.wf(),
    {
        has_no_duplicates(&self.tokens_whitelist) && self.schedules_stored_by_id()
            && self.lists_in_order() && self.senders_listed()
    }

    /// Whether each schedule is stored under its own identifier.
    fn schedules_stored_by_id(&self) -> (ok: bool)
        requires
            self.tables_wf(),
        ensures
            ok == (forall|id: ScheduleId| #[trigger]
                self@.schedules.contains_key(id) ==> self@.schedules[id].id == id),
    {
        let mut i: usize = 0;
        while i < self.schedules.len()
            invariant
                self.tables_wf(),
                i <= self.schedules.keys().len(),
                forall|j: int|
                    0 <= j < i ==> self@.schedules[#[trigger] self.schedules.keys()[j]].id
                        == self.schedules.keys()[j],
            decreases self.schedules.keys().len() - i,
        {
            let key = self.schedules.key_at(i);
            if self.schedules.value_at(i).id != key {
                assert(self@.schedules.contains_key(key) && self@.schedules[key].id != key);
                return false;
            }
            i = i + 1;
        }
        assert forall|id: ScheduleId| #[trigger]
            self@.schedules.contains_key(id) implies self@.schedules[id].id == id by {
            self.schedules.lemma_keys();
            let j = self.schedules.keys().index_of(id);
            assert(self.schedules.keys()[j] == id);
        }
        true
    }

    /// Whether each list names no schedule twice and only schedules that
    /// exist.
    fn lists_in_order(&self) -> (ok: bool)
        requires
            self.tables_wf(),
        ensures
            ok == ({
                &&& forall|account: AccountId| #[trigger]
                    self@.user_schedules.contains_key(account)
                        ==> self@.user_schedules[account].no_duplicates()
                &&& forall|account: AccountId, k: int|
                    self@.user_schedules.contains_key(account) && 0 <= k
                        < self@.user_schedules[account].len() ==> self@.schedules.contains_key(
                        #[trigger] self@.user_schedules[account][k],
                    )
            }),
    {
        let mut i: usize = 0;
        while i < self.user_schedules.len()
            invariant
                self.tables_wf(),
                i <= self.user_schedules.keys().len(),
                forall|j: int|
                    0 <= j < i ==> self@.user_schedules[#[trigger] self.user_schedules.keys()[j]].no_duplicates(),
                forall|j: int, k: int|
                    0 <= j < i && 0 <= k < self@.user_schedules[self.user_schedules.keys()[j]].len()
                        ==> self@.schedules.contains_key(
                        #[trigger] self@.user_schedules[self.user_schedules.keys()[j]][k],
                    ),
            decreases self.user_schedules.keys().len() - i,
        {
            let ghost account = self.user_schedules.keys()[i as int];
            let list = self.user_schedules.value_at(i);
            if !has_no_duplicates(list) {
                assert(self@.user_schedules.contains_key(account)
                    && !self@.user_schedules[account].no_duplicates());
                return false;
            }
            let mut k: usize = 0;
            while k < list.len()
                invariant
                    self.tables_wf(),
                    i < self.user_schedules.keys().len(),
                    account == self.user_schedules.keys()[i as int],
                    self@.user_schedules.contains_key(account),
                    list@ == self@.user_schedules[account],
                    k <= list@.len(),
                    forall|m: int| 0 <= m < k ==> self@.schedules.contains_key(#[trigger] list@[m]),
                decreases list@.len() - k,
            {
                if !self.schedules.contains(&list[k]) {
                    assert(self@.user_schedules.contains_key(account) && 0 <= k
                        < self@.user_schedules[account].len() && !self@.schedules.contains_key(
                        self@.user_schedules[account][k as int],
                    ));
                    return false;
                }
                k = k + 1;
            }
            i = i + 1;
        }
        assert forall|account: AccountId| #[trigger]
            self@.user_schedules.contains_key(account) implies self@.user_schedules[account].no_duplicates() by {
            self.user_schedules.lemma_keys();
            let j = self.user_schedules.keys().index_of(account);
            assert(self.user_schedules.keys()[j] == account);
        }
        assert forall|account: AccountId, k: int|
            self@.user_schedules.contains_key(account) && 0 <= k
                < self@.user_schedules[account].len() implies self@.schedules.contains_key(
            #[trigger] self@.user_schedules[account][k],
        ) by {
            self.user_schedules.lemma_keys();
            let j = self.user_schedules.keys().index_of(account);
            assert(self.user_schedules.keys()[j] == account);
        }
        true
    }

    /// Whether each schedule stands in the list of its sender.
    fn senders_listed(&self) -> (ok: bool)
        requires
            self.tables_wf(),
        ensures
            ok == (forall|id: ScheduleId| #[trigger]
                self@.schedules.contains_key(id) ==> self@.schedule_ids_of(
                    self@.schedules[id].sender,
                ).contains(id)),
    {
        let mut i: usize = 0;
        while i < self.schedules.len()
            invariant
                self.tables_wf(),
                i <= self.schedules.keys().len(),
                forall|j: int|
                    0 <= j < i ==> self@.schedule_ids_of(
                        self@.schedules[#[trigger] self.schedules.keys()[j]].sender,
                    ).contains(self.schedules.keys()[j]),
            decreases self.schedules.keys().len() - i,
        {
            let key = self.schedules.key_at(i);
            let sender = self.schedules.value_at(i).sender;
            let listed = match self.user_schedules.get(&sender) {
                Some(list) => position_of(list, &key).is_some(),
                None => false,
            };
            if !listed {
                assert(self@.schedules.contains_key(key) && !self@.schedule_ids_of(
                    self@.schedules[key].sender,
                ).contains(key));
                return false;
            }
            i = i + 1;
        }
        assert forall|id: ScheduleId| #[trigger]
            self@.schedules.contains_key(id) implies self@.schedule_ids_of(
            self@.schedules[id].sender,
        ).contains(id) by {
            self.schedules.lemma_keys();
            let j = self.schedules.keys().index_of(id);
            assert(self.schedules.keys()[j] == id);
        }
        true
    }

    /// The administrator.
    pub fn admin(&self) -> (admin: AccountId)
        ensures
            admin == self@.admin,
    {
        self.admin
    }

    /// Makes `new_admin` the administrator, if `caller` is the
    /// administrator now; else refuses with `Unauthorized`.
    pub fn set_admin(&mut self, caller: AccountId, new_admin: AccountId) -> (result: Result<
        (),
        TemporaError,
    >)
        requires
            old(self).wf(),
        ensures
            final(self).wf(),
            result == old(self)@.result_of(Operation::SetAdmin { caller, new_admin }),
            final(self)@ == old(self)@.after(Operation::SetAdmin { caller, new_admin }),
    {
        self.ensure_admin(caller)?;
        proof {
            lemma_set_admin_wf(self@, new_admin);
        }
        self.admin = new_admin;
        Ok(())
    }

    /// Puts `token_address` at the end of the whitelist. Refuses with
    /// `Unauthorized` if `caller` is not the administrator, else with
    /// `TokenIsAlreadyWhiteslited` if the token is on the list.
    pub fn add_token_to_whitelist(&mut self, caller: AccountId, token_address: AccountId) -> (result:
        Result<(), TemporaError>)
        requires
            old(self).wf(),
        ensures
            final(self).wf(),
            result == old(self)@.result_of(
                Operation::AddTokenToWhitelist { caller, token_address },
            ),
            final(self)@ == old(self)@.after(
                Operation::AddTokenToWhitelist { caller, token_address },
            ),
    {
        self.ensure_admin(caller)?;
        if self.token_is_whitelisted(token_address) {
            return Err(TemporaError::TokenIsAlreadyWhiteslited);
        }
        proof {
            lemma_add_token_wf(self@, token_address);
        }
        self.tokens_whitelist.push(token_address);
        Ok(())
    }

    /// Takes `token_address` off the whitelist; the other tokens keep their
    /// order. Refuses with `Unauthorized` if `caller` is not the
    /// administrator, else with `TokenIsNotWhitelisted` if the token is not
    /// on the list.
    pub fn remove_token_from_whitelist(
        &mut self,
        caller: AccountId,
        token_address: AccountId,
    ) -> (result: Result<(), TemporaError>)
        requires
            old(self).wf(),
        ensures
            final(self).wf(),
            result == old(self)@.result_of(
                Operation::RemoveTokenFromWhitelist { caller, token_address },
            ),
            final(self)@ == old(self)@.after(
                Operation::RemoveTokenFromWhitelist { caller, token_address },
            ),
    {
        self.ensure_admin(caller)?;
        match self.token_position(token_address) {
            None => Err(TemporaError::TokenIsNotWhitelisted),
            Some(index) => {
                proof {
                    lemma_remove_token_wf(self@, token_address);
                    let at = self@.tokens_whitelist.index_of(token_address);
                    assert(self@.tokens_whitelist[at] == token_address);
                    assert(at == index);
                }
                self.tokens_whitelist.remove(index);
                Ok(())
            },
        }
    }

    /// The whitelist, in the order in which its tokens were added.
    pub fn get_whitelisted_tokens(&self) -> (tokens: Vec<AccountId>)
        ensures
            tokens@ == self@.tokens_whitelist,
    {
        let mut tokens: Vec<AccountId> = Vec::new();
        let mut i: usize = 0;
        while i < self.tokens_whitelist.len()
            invariant
                i <= self.tokens_whitelist@.len(),
                tokens@ == self.tokens_whitelist@.take(i as int),
            decreases self.tokens_whitelist@.len() - i,
        {
            tokens.push(self.tokens_whitelist[i]);
            assert(self.tokens_whitelist@.take(i as int).push(self.tokens_whitelist@[i as int])
                =~= self.tokens_whitelist@.take(i + 1));
            i = i + 1;
        }
        assert(self.tokens_whitelist@.take(self.tokens_whitelist@.len() as int)
            =~= self.tokens_whitelist@);
        tokens
    }

    /// Creates the schedule `id`, with `caller` as its sender, enabled, and
    /// lists it for the sender and for the recipient. Refuses as
    /// [`State::validate_schedule`] says for a new schedule.
    pub fn save_schedule(
        &mut self,
        caller: AccountId,
        id: ScheduleId,
        task_id: String,
        recipient: AccountId,
        amount: Balance,
        token_address: Option<AccountId>,
        start_time: Option<Timestamp>,
        interval: Option<u64>,
        execution_times: Option<Vec<Timestamp>>,
    ) -> (result: Result<(), TemporaError>)
        requires
            old(self).wf(),
        ensures
            final(self).wf(),
            result == old(self)@.result_of(
                Operation::SaveSchedule {
                    schedule: new_schedule(
                        caller,
                        id,
                        task_id@,
                        recipient,
                        amount,
                        token_address,
                        start_time,
                        interval,
                        times_view(execution_times),
                    ),
                },
            ),
            final(self)@ == old(self)@.after(
                Operation::SaveSchedule {
                    schedule: new_schedule(
                        caller,
                        id,
                        task_id@,
                        recipient,
                        amount,
                        token_address,
                        start_time,
                        interval,
                        times_view(execution_times),
                    ),
                },
            ),
    {
        self.validate_schedule(
            &id,
            caller,
            recipient,
            amount,
            token_address,
            start_time,
            &execution_times,
            true,
        )?;
        let new_schedule = ScheduleConfiguration {
            id,
            task_id,
            sender: caller,
            recipient,
            amount,
            token_address,
            start_time,
            interval,
            execution_times,
            enabled: true,
        };
        proof {
            lemma_save_schedule_wf(self@, new_schedule@);
        }
        self.schedules.insert(id, new_schedule);
        self.update_user_schedules(caller, &id);
        self.update_user_schedules(recipient, &id);
        Ok(())
    }

    /// Cancels the schedule `schedule_id`: it stays stored, disabled, and
    /// nothing else changes. Refuses with
    /// `UserScheduleConfigurationNotFound` unless `caller` is the sender of
    /// a schedule with that identifier.
    pub fn remove_schedule(&mut self, caller: AccountId, schedule_id: ScheduleId) -> (result: Result<
        (),
        TemporaError,
    >)
        requires
            old(self).wf(),
        ensures
            final(self).wf(),
            result == old(self)@.result_of(Operation::RemoveSchedule { caller, schedule_id }),
            final(self)@ == old(self)@.after(Operation::RemoveSchedule { caller, schedule_id }),
    {
        self.validate_user_schedule_exists(caller, &schedule_id)?;
        let mut schedule = self.get_schedule_by_id(&schedule_id)?;
        schedule.enabled = false;
        proof {
            lemma_remove_schedule_wf(self@, schedule_id);
        }
        self.schedules.insert(schedule_id, schedule);
        Ok(())
    }

    /// Replaces the stored schedule `schedule_configuration.id`. The stored
    /// record keeps its identifier, its sender and whether it is enabled;
    /// every other field is taken from `schedule_configuration`. The lists
    /// of the accounts are not touched, also where the recipient changes.
    ///
    /// Refuses with `UserScheduleConfigurationNotFound` unless `caller` is
    /// the sender of the stored schedule, else as
    /// [`State::validate_schedule`] says for a schedule that exists.
    pub fn update_schedule(
        &mut self,
        caller: AccountId,
        schedule_configuration: ScheduleConfiguration,
    ) -> (result: Result<(), TemporaError>)
        requires
            old(self).wf(),
        ensures
            final(self).wf(),
            result == old(self)@.result_of(
                Operation::UpdateSchedule { caller, schedule: schedule_configuration@ },
            ),
            final(self)@ == old(self)@.after(
                Operation::UpdateSchedule { caller, schedule: schedule_configuration@ },
            ),
    {
        self.validate_user_schedule_exists(caller, &schedule_configuration.id)?;
        self.validate_schedule(
            &schedule_configuration.id,
            caller,
            schedule_configuration.recipient,
            schedule_configuration.amount,
            schedule_configuration.token_address,
            schedule_configuration.start_time,
            &schedule_configuration.execution_times,
            false,
        )?;
        let stored = self.get_schedule_by_id(&schedule_configuration.id)?;
        let id = schedule_configuration.id;
        let ghost given = schedule_configuration@;
        let updated = ScheduleConfiguration {
            id: stored.id,
            task_id: schedule_configuration.task_id,
            sender: stored.sender,
            recipient: schedule_configuration.recipient,
            amount: schedule_configuration.amount,
            token_address: schedule_configuration.token_address,
            start_time: schedule_configuration.start_time,
            interval: schedule_configuration.interval,
            execution_times: schedule_configuration.execution_times,
            enabled: stored.enabled,
        };
        proof {
            lemma_update_schedule_wf(self@, given);
            assert(updated@ == self@.updated_schedule(given));
        }
        self.schedules.insert(id, updated);
        Ok(())
    }

    /// The schedules in the list of `caller`, in the order of their
    /// creation, each as it is stored now and with the times at which
    /// payments were recorded against it.
    pub fn get_user_schedules(&self, caller: AccountId) -> (list: Vec<UserScheduleData>)
        requires
            self.wf(),
        ensures
            list@.len() == self@.schedule_ids_of(caller).len(),
            views_of(list@) == self@.user_schedules_of(caller),
    {
        let mut list: Vec<UserScheduleData> = Vec::new();
        match self.user_schedules.get(&caller) {
            Some(ids) => {
                let mut i: usize = 0;
                while i < ids.len()
                    invariant
                        self.wf(),
                        self@.user_schedules.contains_key(caller),
                        ids@ == self@.user_schedules[caller],
                        i <= ids@.len(),
                        list@.len() == i,
                        forall|j: int| 0 <= j < i ==> (#[trigger] list@[j])@ == self@.user_schedule(ids@[j]),
                    decreases ids@.len() - i,
                {
                    let schedule_id = ids[i];
                    assert(self@.schedules.contains_key(self@.user_schedules[caller][i as int]));
                    let stored = self.schedules.get(&schedule_id);
                    let schedule_configuration = stored.unwrap().clone();
                    let payment_executions = self.get_payment_executions(schedule_id);
                    list.push(UserScheduleData { schedule_configuration, payment_executions });
                    i = i + 1;
                }
            },
            None => {},
        }
        assert(views_of(list@) =~= self@.user_schedules_of(caller));
        list
    }

    /// The stored schedule `schedule_id`; `ScheduleConfigurationNotFound`
    /// if there is none.
    pub fn get_schedule_by_id(&self, schedule_id: &ScheduleId) -> (result: Result<
        ScheduleConfiguration,
        TemporaError,
    >)
        requires
            self.wf(),
        ensures
            match result {
                Ok(schedule) => self@.schedules.contains_key(*schedule_id) && schedule@
                    == self@.schedules[*schedule_id],
                Err(e) => !self@.schedules.contains_key(*schedule_id) && e
                    == TemporaError::ScheduleConfigurationNotFound,
            },
    {
        match self.schedules.get(schedule_id) {
            Some(schedule) => Ok(schedule.clone()),
            None => Err(TemporaError::ScheduleConfigurationNotFound),
        }
    }

    /// The seconds at which payments were recorded against `schedule_id`,
    /// oldest first; empty if there were none.
    pub fn get_payment_executions(&self, schedule_id: ScheduleId) -> (times: Vec<Timestamp>)
        requires
            self.wf(),
        ensures
            times@ == self@.executions_of(schedule_id),
    {
        match self.payment_executions.get(&schedule_id) {
            Some(times) => copy_times(times),
            None => Vec::new(),
        }
    }

    /// The transfer that a payment of `amount` from `caller` to `recipient`
    /// asks for, in `token_address` or, without one, in the native asset, of
    /// which `transferred_value` came with the call; or the refusal that the
    /// rules give, see [`State::payment_request`]. Nothing is changed: this
    /// is what to ask of the ledger or of the token before
    /// [`Self::trigger_payment`] is told how it went.
    pub fn payment_transfer(
        &self,
        caller: AccountId,
        recipient: AccountId,
        amount: Balance,
        token_address: Option<AccountId>,
        transferred_value: Balance,
    ) -> (result: Result<Transfer, TemporaError>)
        ensures
            result == self@.payment_request(
                caller,
                recipient,
                amount,
                token_address,
                transferred_value,
            ),
    {
        Self::validate_trigger_payment(caller, recipient, amount)?;
        match token_address {
            Some(token) => self.trigger_psp22_payment(caller, recipient, amount, token),
            None => self.trigger_native_payment(recipient, amount, transferred_value),
        }
    }

    /// A payment of `amount` from `caller` to `recipient`, recorded against
    /// `schedule_id`. The payment is held to the rules as
    /// [`Self::payment_transfer`] holds it; `transfer_succeeded` says whether
    /// the transfer that it asks for was made, and is not looked at where
    /// the payment is refused. A payment that obeys the rules and whose
    /// transfer was made puts the second in which `block_timestamp` lies at
    /// the end of the history of `schedule_id`; one whose transfer was not
    /// made fails with `TransferError`. The stored schedule is not looked
    /// at: it need not be due, enabled, the caller's, or there at all.
    pub fn trigger_payment(
        &mut self,
        caller: AccountId,
        recipient: AccountId,
        amount: Balance,
        token_address: Option<AccountId>,
        schedule_id: ScheduleId,
        transferred_value: Balance,
        transfer_succeeded: bool,
        block_timestamp: Timestamp,
    ) -> (result: Result<(), TemporaError>)
        requires
            old(self).wf(),
        ensures
            final(self).wf(),
            result == old(self)@.result_of(
                Operation::TriggerPayment {
                    caller,
                    recipient,
                    amount,
                    token_address,
                    schedule_id,
                    transferred_value,
                    transfer_succeeded,
                    block_timestamp,
                },
            ),
            final(self)@ == old(self)@.after(
                Operation::TriggerPayment {
                    caller,
                    recipient,
                    amount,
                    token_address,
                    schedule_id,
                    transferred_value,
                    transfer_succeeded,
                    block_timestamp,
                },
            ),
    {
        self.payment_transfer(caller, recipient, amount, token_address, transferred_value)?;
        if !transfer_succeeded {
            return Err(TemporaError::TransferError);
        }
        self.update_schedule_execution_time(&schedule_id, block_timestamp);
        Ok(())
    }

    /// The native transfer of `amount` to `recipient`, if exactly `amount`
    /// came with the call; else `InsufficientBalance`.
    pub fn trigger_native_payment(
        &self,
        recipient: AccountId,
        amount: Balance,
        transferred_amount: Balance,
    ) -> (result: Result<Transfer, TemporaError>)
        ensures
            result == State::native_payment(recipient, amount, transferred_amount),
    {
        if amount != transferred_amount {
            return Err(TemporaError::InsufficientBalance);
        }
        Ok(Transfer::Native { to: recipient, amount })
    }

    /// The transfer of `amount` of `token_address` from `caller` to
    /// `recipient`, if the token is on the whitelist now; else
    /// `TokenIsNotWhitelisted`.
    pub fn trigger_psp22_payment(
        &self,
        caller: AccountId,
        recipient: AccountId,
        amount: Balance,
        token_address: AccountId,
    ) -> (result: Result<Transfer, TemporaError>)
        ensures
            result == self@.psp22_payment(caller, recipient, amount, token_address),
    {
        self.validate_token_is_whitelisted(token_address)?;
        Ok(Transfer::Token { token: token_address, from: caller, to: recipient, amount })
    }

    /// Whether the fields of a schedule obey the rules; see
    /// [`State::validate_schedule`] for the rules and their order.
    pub fn validate_schedule(
        &self,
        schedule_id: &ScheduleId,
        caller: AccountId,
        recipient: AccountId,
        amount: Balance,
        token_address: Option<AccountId>,
        start_time: Option<Timestamp>,
        execution_times: &Option<Vec<Timestamp>>,
        is_new: bool,
    ) -> (result: Result<(), TemporaError>)
        requires
            self.wf(),
        ensures
            result == self@.validate_schedule(
                *schedule_id,
                caller,
                recipient,
                amount,
                token_address,
                start_time,
                times_view(*execution_times),
                is_new,
            ),
    {
        if is_new && self.schedules.contains(schedule_id) {
            return Err(TemporaError::ScheduleConfigurationAlreadyExists);
        }
        if caller == recipient {
            return Err(TemporaError::CallerCannotBeRecipient);
        }
        if amount == 0 {
            return Err(TemporaError::ScheduleAmountCannotBeZero);
        }
        match token_address {
            Some(token) => self.validate_token_is_whitelisted(token)?,
            None => {},
        }
        if start_time.is_none() && execution_times.is_none() {
            return Err(TemporaError::WrongScheduleConfiguration);
        }
        Ok(())
    }

    /// Whether a payment obeys the rules that hold for every payment.
    pub fn validate_trigger_payment(caller: AccountId, recipient: AccountId, amount: Balance) -> (result:
        Result<(), TemporaError>)
        ensures
            result == State::validate_trigger_payment(caller, recipient, amount),
    {
        if recipient == caller {
            return Err(TemporaError::CallerCannotBeRecipient);
        }
        if amount == 0 {
            return Err(TemporaError::ScheduleAmountCannotBeZero);
        }
        Ok(())
    }

    /// Where `token_address` stands on the whitelist, if it does.
    fn token_position(&self, token_address: AccountId) -> (found: Option<usize>)
        ensures
            match found {
                Some(i) => i < self@.tokens_whitelist.len() && self@.tokens_whitelist[i as int]
                    == token_address,
                None => !self@.token_is_whitelisted(token_address),
            },
    {
        position_of(&self.tokens_whitelist, &token_address)
    }

    /// Whether `token_address` is on the whitelist.
    pub fn token_is_whitelisted(&self, token_address: AccountId) -> (listed: bool)
        ensures
            listed == self@.token_is_whitelisted(token_address),
    {
        self.token_position(token_address).is_some()
    }

    /// `TokenIsNotWhitelisted` unless `token_address` is on the whitelist.
    pub fn validate_token_is_whitelisted(&self, token_address: AccountId) -> (result: Result<
        (),
        TemporaError,
    >)
        ensures
            result == self@.validate_token_is_whitelisted(token_address),
    {
        if !self.token_is_whitelisted(token_address) {
            return Err(TemporaError::TokenIsNotWhitelisted);
        }
        Ok(())
    }

    /// `UserScheduleConfigurationNotFound` unless `caller` is the sender of
    /// a stored schedule `schedule_id`.
    pub fn validate_user_schedule_exists(&self, caller: AccountId, schedule_id: &ScheduleId) -> (result:
        Result<(), TemporaError>)
        requires
            self.wf(),
        ensures
            result == self@.validate_user_schedule_exists(caller, *schedule_id),
    {
        match self.schedules.get(schedule_id) {
            Some(schedule) => {
                if schedule.sender != caller {
                    return Err(TemporaError::UserScheduleConfigurationNotFound);
                }
            },
            None => return Err(TemporaError::UserScheduleConfigurationNotFound),
        }
        Ok(())
    }

    /// Puts the second in which `block_timestamp` lies at the end of the
    /// history of `schedule_id`.
    fn update_schedule_execution_time(&mut self, schedule_id: &ScheduleId, block_timestamp: Timestamp)
        requires
            old(self).wf(),
        ensures
            final(self).wf(),
            final(self)@ == old(self)@.record_execution(*schedule_id, block_timestamp),
    {
        let current_timestamp_in_seconds: Timestamp = block_timestamp / MILLISECONDS_PER_SECOND;
        proof {
            lemma_record_execution_wf(self@, *schedule_id, block_timestamp);
        }
        self.payment_executions.append(*schedule_id, current_timestamp_in_seconds);
    }

    /// Puts `schedule_id` at the end of the list of `user_account_id`.
    fn update_user_schedules(&mut self, user_account_id: AccountId, schedule_id: &ScheduleId)
        requires
            old(self).tables_wf(),
        ensures
            final(self).tables_wf(),
            final(self)@ == (State {
                user_schedules: old(self)@.user_schedules.insert(
                    user_account_id,
                    old(self)@.schedule_ids_of(user_account_id).push(*schedule_id),
                ),
                ..old(self)@
            }),
    {
        self.user_schedules.append(user_account_id, *schedule_id);
    }

    /// `Unauthorized` unless `caller` is the administrator.
    pub fn ensure_admin(&self, caller: AccountId) -> (result: Result<(), TemporaError>)
        ensures
            result == self@.ensure_admin(caller),
    {
        if caller != self.admin {
            return Err(TemporaError::Unauthorized);
        }
        Ok(())
    }
}

} // verus!
