use tempora_contract::{
    AccountId, ScheduleConfiguration, ScheduleId, TemporaContract, TemporaError,
};

fn alice() -> AccountId {
    AccountId::from([0x01; 32])
}

fn bob() -> AccountId {
    AccountId::from([0x02; 32])
}

fn charlie() -> AccountId {
    AccountId::from([0x03; 32])
}

fn init() -> TemporaContract {
    TemporaContract::new(alice())
}

#[test]
fn save_fixed_payment_schedule_works() {
    let mut contract = init();

    let schedule_id = ScheduleId::from([0x3; 32]);
    let task_id = String::from("task_123");
    let recipient = bob();
    let amount = 1000000;
    let token_address = None;
    let start_time = None;
    let interval = None;
    let execution_times = Some(vec![100, 200]);

    let _ = contract.save_schedule(
        alice(),
        schedule_id,
        task_id,
        recipient,
        amount,
        token_address,
        start_time,
        interval,
        execution_times,
    );

    let owner_schedules = contract.get_user_schedules(alice());
    let recipient_schedules = contract.get_user_schedules(bob());
    let schedule_result = contract.get_schedule_by_id(&schedule_id);

    assert_eq!(owner_schedules.len(), 1);
    assert_eq!(owner_schedules[0].schedule_configuration.id, schedule_id);
    assert_eq!(recipient_schedules.len(), 1);
    assert_eq!(recipient_schedules[0].schedule_configuration.id, schedule_id);
    assert!(schedule_result.is_ok());
}

#[test]
fn save_recurring_payment_schedule_works() {
    let mut contract = init();

    let schedule_id = ScheduleId::from([0x3; 32]);
    let task_id = String::from("task_123");
    let recipient = bob();
    let amount = 1000000;
    let token_address = None;
    let start_time = Some(100);
    let interval = Some(100);
    let execution_times = None;

    let _ = contract.save_schedule(
        alice(),
        schedule_id,
        task_id,
        recipient,
        amount,
        token_address,
        start_time,
        interval,
        execution_times,
    );

    let owner_schedules = contract.get_user_schedules(alice());
    let recipient_schedules = contract.get_user_schedules(bob());
    let schedule_result = contract.get_schedule_by_id(&schedule_id);

    assert_eq!(owner_schedules.len(), 1);
    assert_eq!(owner_schedules[0].schedule_configuration.id, schedule_id);
    assert_eq!(recipient_schedules.len(), 1);
    assert_eq!(recipient_schedules[0].schedule_configuration.id, schedule_id);
    assert!(schedule_result.is_ok());
}

#[test]
fn save_repeated_fixed_payment_fails() {
    let mut contract = init();

    let schedule_id = ScheduleId::from([0x3; 32]);
    let task_id = String::from("task_123");
    let recipient = bob();
    let amount = 1000000;
    let token_address = None;
    let start_time = None;
    let interval = None;
    let execution_times = Some(vec![100, 200]);

    let _ = contract.save_schedule(
        alice(),
        schedule_id,
        task_id.clone(),
        recipient,
        amount,
        token_address,
        start_time,
        interval,
        execution_times.clone(),
    );

    let result = contract.save_schedule(
        alice(),
        schedule_id,
        task_id,
        recipient,
        amount,
        token_address,
        start_time,
        interval,
        execution_times,
    );

    assert_eq!(result, Err(TemporaError::ScheduleConfigurationAlreadyExists));
}

#[test]
fn save_fixed_payment_with_same_caller_and_recipient_fails() {
    let mut contract = init();

    let schedule_id = ScheduleId::from([0x3; 32]);
    let task_id = String::from("task_123");
    let recipient = alice();
    let amount = 1000000;
    let token_address = None;
    let start_time = None;
    let interval = None;
    let execution_times = Some(vec![100, 200]);

    let result = contract.save_schedule(
        alice(),
        schedule_id,
        task_id,
        recipient,
        amount,
        token_address,
        start_time,
        interval,
        execution_times,
    );

    assert_eq!(result, Err(TemporaError::CallerCannotBeRecipient));
}

#[test]
fn save_fixed_payment_without_amount_fails() {
    let mut contract = init();

    let schedule_id = ScheduleId::from([0x3; 32]);
    let task_id = String::from("task_123");
    let recipient = bob();
    let amount = 0;
    let token_address = None;
    let start_time = None;
    let interval = None;
    let execution_times = Some(vec![100, 200]);

    let result = contract.save_schedule(
        alice(),
        schedule_id,
        task_id,
        recipient,
        amount,
        token_address,
        start_time,
        interval,
        execution_times,
    );

    assert_eq!(result, Err(TemporaError::ScheduleAmountCannotBeZero));
}

#[test]
fn save_fixed_payment_with_nonwhitelisted_token_fails() {
    let mut contract = init();

    let schedule_id = ScheduleId::from([0x3; 32]);
    let task_id = String::from("task_123");
    let recipient = bob();
    let amount = 1000000;
    let token_address = Some(AccountId::from([0x9; 32]));
    let start_time = None;
    let interval = None;
    let execution_times = Some(vec![100, 200]);

    let result = contract.save_schedule(
        alice(),
        schedule_id,
        task_id,
        recipient,
        amount,
        token_address,
        start_time,
        interval,
        execution_times,
    );

    assert_eq!(result, Err(TemporaError::TokenIsNotWhitelisted));
}

#[test]
fn save_schedule_without_timestamp_configuration_fails() {
    let mut contract = init();

    let schedule_id = ScheduleId::from([0x3; 32]);
    let task_id = String::from("task_123");
    let recipient = bob();
    let amount = 1000000;
    let token_address = None;
    let start_time = None;
    let interval = None;
    let execution_times = None;

    let result = contract.save_schedule(
        alice(),
        schedule_id,
        task_id,
        recipient,
        amount,
        token_address,
        start_time,
        interval,
        execution_times,
    );

    assert_eq!(result, Err(TemporaError::WrongScheduleConfiguration));
}

#[test]
fn remove_schedule_works() {
    let mut contract = init();

    let schedule_id = ScheduleId::from([0x3; 32]);
    let task_id = String::from("task_123");
    let recipient = bob();
    let amount = 1000000;
    let token_address = None;
    let start_time = Some(100);
    let interval = Some(100);
    let execution_times = None;

    let _ = contract.save_schedule(
        alice(),
        schedule_id,
        task_id,
        recipient,
        amount,
        token_address,
        start_time,
        interval,
        execution_times,
    );

    let _ = contract.remove_schedule(alice(), schedule_id);

    let schedule_result = contract.get_schedule_by_id(&schedule_id);

    assert!(schedule_result.is_ok());
    assert!(!schedule_result.unwrap().enabled);
}

#[test]
fn remove_nonexistent_schedule_fails() {
    let mut contract = init();

    let schedule_id = ScheduleId::from([0x3; 32]);
    let task_id = String::from("task_123");
    let recipient = bob();
    let amount = 1000000;
    let token_address = None;
    let start_time = Some(100);
    let interval = Some(100);
    let execution_times = None;

    let _ = contract.save_schedule(
        alice(),
        schedule_id,
        task_id,
        recipient,
        amount,
        token_address,
        start_time,
        interval,
        execution_times,
    );

    let result = contract.remove_schedule(bob(), schedule_id);

    assert_eq!(result, Err(TemporaError::UserScheduleConfigurationNotFound));
}

#[test]
fn remove_schedule_by_nonowner_fails() {
    let mut contract = init();

    let schedule_id = ScheduleId::from([0x3; 32]);

    let result = contract.remove_schedule(bob(), schedule_id);

    assert_eq!(result, Err(TemporaError::UserScheduleConfigurationNotFound));
}

#[test]
fn update_schedule_works() {
    let mut contract = init();

    let schedule_id = ScheduleId::from([0x3; 32]);
    let task_id = String::from("task_123");
    let recipient = bob();
    let amount = 1000000;
    let token_address = None;
    let start_time = Some(100);
    let interval = Some(100);
    let execution_times = None;

    let _ = contract.save_schedule(
        alice(),
        schedule_id,
        task_id,
        recipient,
        amount,
        token_address,
        start_time,
        interval,
        execution_times,
    );

    let mut schedule = contract.get_schedule_by_id(&schedule_id).unwrap();
    schedule.amount = 2000000;

    let _ = contract.update_schedule(alice(), schedule);

    let updated_schedule = contract.get_schedule_by_id(&schedule_id).unwrap();

    assert_eq!(updated_schedule.amount, 2000000);
}

#[test]
fn update_nonexistent_schedule_fails() {
    let mut contract = init();

    let schedule_id = ScheduleId::from([0x3; 32]);

    let schedule = ScheduleConfiguration {
        id: schedule_id,
        task_id: String::from("task_123"),
        sender: bob(),
        recipient: bob(),
        amount: 1000000,
        token_address: None,
        start_time: Some(100),
        interval: Some(100),
        execution_times: None,
        enabled: true,
    };

    let result = contract.update_schedule(alice(), schedule);

    assert_eq!(result, Err(TemporaError::UserScheduleConfigurationNotFound));
}

fn recurring(contract: &mut TemporaContract, id: ScheduleId) -> Result<(), TemporaError> {
    contract.save_schedule(
        alice(),
        id,
        String::from("task_123"),
        bob(),
        1000000,
        None,
        Some(100),
        Some(100),
        None,
    )
}

#[test]
fn created_schedule_holds_what_was_given() {
    let mut contract = init();
    let token = AccountId::from([0x9; 32]);
    assert_eq!(contract.add_token_to_whitelist(alice(), token), Ok(()));
    let schedule_id = ScheduleId::from([0x3; 32]);

    let result = contract.save_schedule(
        alice(),
        schedule_id,
        String::from("rent"),
        bob(),
        42,
        Some(token),
        Some(7),
        Some(9),
        Some(vec![100, 200]),
    );

    assert_eq!(result, Ok(()));
    let stored = contract.get_schedule_by_id(&schedule_id).unwrap();
    assert_eq!(stored.id, schedule_id);
    assert_eq!(stored.task_id, "rent");
    assert_eq!(stored.sender, alice());
    assert_eq!(stored.recipient, bob());
    assert_eq!(stored.amount, 42);
    assert_eq!(stored.token_address, Some(token));
    assert_eq!(stored.start_time, Some(7));
    assert_eq!(stored.interval, Some(9));
    assert_eq!(stored.execution_times, Some(vec![100, 200]));
    assert!(stored.enabled);
}

#[test]
fn second_creation_fails_whatever_the_other_fields() {
    let mut contract = init();
    let schedule_id = ScheduleId::from([0x3; 32]);
    assert_eq!(recurring(&mut contract, schedule_id), Ok(()));

    let by_another = contract.save_schedule(
        charlie(),
        schedule_id,
        String::from("other"),
        alice(),
        5,
        None,
        None,
        None,
        Some(vec![1]),
    );
    assert_eq!(by_another, Err(TemporaError::ScheduleConfigurationAlreadyExists));

    // The identifier is looked at first: fields that break other rules do not change the answer.
    let broken = contract.save_schedule(
        alice(),
        schedule_id,
        String::new(),
        alice(),
        0,
        Some(AccountId::from([0x9; 32])),
        None,
        None,
        None,
    );
    assert_eq!(broken, Err(TemporaError::ScheduleConfigurationAlreadyExists));

    let stored = contract.get_schedule_by_id(&schedule_id).unwrap();
    assert_eq!(stored.sender, alice());
    assert_eq!(stored.amount, 1000000);
    assert_eq!(contract.get_user_schedules(alice()).len(), 1);
    assert_eq!(contract.get_user_schedules(charlie()).len(), 0);
}

#[test]
fn rules_are_tried_in_their_order() {
    let mut contract = init();
    let schedule_id = ScheduleId::from([0x3; 32]);
    let unlisted = Some(AccountId::from([0x9; 32]));

    let to_self_of_nothing =
        contract.save_schedule(alice(), schedule_id, String::new(), alice(), 0, unlisted, None, None, None);
    assert_eq!(to_self_of_nothing, Err(TemporaError::CallerCannotBeRecipient));

    let of_nothing =
        contract.save_schedule(alice(), schedule_id, String::new(), bob(), 0, unlisted, None, None, None);
    assert_eq!(of_nothing, Err(TemporaError::ScheduleAmountCannotBeZero));

    let unlisted_token =
        contract.save_schedule(alice(), schedule_id, String::new(), bob(), 1, unlisted, None, None, None);
    assert_eq!(unlisted_token, Err(TemporaError::TokenIsNotWhitelisted));

    let no_times =
        contract.save_schedule(alice(), schedule_id, String::new(), bob(), 1, None, None, None, None);
    assert_eq!(no_times, Err(TemporaError::WrongScheduleConfiguration));

    // An interval alone is no time.
    let interval_only =
        contract.save_schedule(alice(), schedule_id, String::new(), bob(), 1, None, None, Some(5), None);
    assert_eq!(interval_only, Err(TemporaError::WrongScheduleConfiguration));

    assert_eq!(
        contract.get_schedule_by_id(&schedule_id).err(),
        Some(TemporaError::ScheduleConfigurationNotFound)
    );
    assert_eq!(contract.get_user_schedules(alice()).len(), 0);
    assert_eq!(contract.get_user_schedules(bob()).len(), 0);

    // An empty list of execution times is a list; one unit is an amount.
    let smallest = contract.save_schedule(
        alice(),
        schedule_id,
        String::new(),
        bob(),
        1,
        None,
        None,
        None,
        Some(Vec::new()),
    );
    assert_eq!(smallest, Ok(()));
}

#[test]
fn validate_schedule_answers_without_changing_anything() {
    let mut contract = init();
    let schedule_id = ScheduleId::from([0x3; 32]);
    assert_eq!(recurring(&mut contract, schedule_id), Ok(()));

    let new = contract.validate_schedule(&schedule_id, alice(), bob(), 1, None, Some(1), &None, true);
    assert_eq!(new, Err(TemporaError::ScheduleConfigurationAlreadyExists));
    let existing =
        contract.validate_schedule(&schedule_id, alice(), bob(), 1, None, Some(1), &None, false);
    assert_eq!(existing, Ok(()));
    let with_times =
        contract.validate_schedule(&schedule_id, alice(), bob(), 1, None, None, &Some(vec![3]), false);
    assert_eq!(with_times, Ok(()));

    assert_eq!(contract.validate_user_schedule_exists(alice(), &schedule_id), Ok(()));
    assert_eq!(
        contract.validate_user_schedule_exists(bob(), &schedule_id),
        Err(TemporaError::UserScheduleConfigurationNotFound)
    );
    assert_eq!(
        contract.validate_user_schedule_exists(alice(), &ScheduleId::from([0x4; 32])),
        Err(TemporaError::UserScheduleConfigurationNotFound)
    );
}

#[test]
fn only_the_sender_cancels_or_updates() {
    let mut contract = init();
    let schedule_id = ScheduleId::from([0x3; 32]);
    assert_eq!(recurring(&mut contract, schedule_id), Ok(()));

    for other in [bob(), charlie()] {
        assert_eq!(
            contract.remove_schedule(other, schedule_id),
            Err(TemporaError::UserScheduleConfigurationNotFound)
        );
        let mut schedule = contract.get_schedule_by_id(&schedule_id).unwrap();
        schedule.amount = 7;
        assert_eq!(
            contract.update_schedule(other, schedule),
            Err(TemporaError::UserScheduleConfigurationNotFound)
        );
    }

    let stored = contract.get_schedule_by_id(&schedule_id).unwrap();
    assert!(stored.enabled);
    assert_eq!(stored.amount, 1000000);
}

#[test]
fn cancelling_changes_the_flag_alone() {
    let mut contract = init();
    let schedule_id = ScheduleId::from([0x3; 32]);
    let other_id = ScheduleId::from([0x4; 32]);
    assert_eq!(
        contract.save_schedule(
            alice(),
            schedule_id,
            String::from("task_123"),
            bob(),
            1000000,
            None,
            Some(100),
            Some(50),
            Some(vec![100, 200]),
        ),
        Ok(())
    );
    assert_eq!(recurring(&mut contract, other_id), Ok(()));

    assert_eq!(contract.remove_schedule(alice(), schedule_id), Ok(()));

    let stored = contract.get_schedule_by_id(&schedule_id).unwrap();
    assert!(!stored.enabled);
    assert_eq!(stored.id, schedule_id);
    assert_eq!(stored.task_id, "task_123");
    assert_eq!(stored.sender, alice());
    assert_eq!(stored.recipient, bob());
    assert_eq!(stored.amount, 1000000);
    assert_eq!(stored.token_address, None);
    assert_eq!(stored.start_time, Some(100));
    assert_eq!(stored.interval, Some(50));
    assert_eq!(stored.execution_times, Some(vec![100, 200]));
    assert!(contract.get_schedule_by_id(&other_id).unwrap().enabled);

    // It is still listed, for both, and its identifier stays taken.
    assert_eq!(contract.get_user_schedules(alice()).len(), 2);
    assert_eq!(contract.get_user_schedules(bob()).len(), 2);
    assert!(!contract.get_user_schedules(bob())[0].schedule_configuration.enabled);
    assert_eq!(
        recurring(&mut contract, schedule_id),
        Err(TemporaError::ScheduleConfigurationAlreadyExists)
    );

    // Cancelling again is accepted and changes nothing.
    assert_eq!(contract.remove_schedule(alice(), schedule_id), Ok(()));
    assert!(!contract.get_schedule_by_id(&schedule_id).unwrap().enabled);
}

#[test]
fn update_cannot_enable_a_cancelled_schedule() {
    let mut contract = init();
    let schedule_id = ScheduleId::from([0x3; 32]);
    assert_eq!(recurring(&mut contract, schedule_id), Ok(()));
    let enabled_copy = contract.get_schedule_by_id(&schedule_id).unwrap();
    assert!(enabled_copy.enabled);
    assert_eq!(contract.remove_schedule(alice(), schedule_id), Ok(()));

    let mut update = enabled_copy;
    update.amount = 5;
    assert_eq!(contract.update_schedule(alice(), update), Ok(()));

    let stored = contract.get_schedule_by_id(&schedule_id).unwrap();
    assert!(!stored.enabled);
    assert_eq!(stored.amount, 5);
}

#[test]
fn update_cannot_disable_or_hand_over_a_schedule() {
    let mut contract = init();
    let schedule_id = ScheduleId::from([0x3; 32]);
    assert_eq!(recurring(&mut contract, schedule_id), Ok(()));

    let mut update = contract.get_schedule_by_id(&schedule_id).unwrap();
    update.sender = charlie();
    update.enabled = false;
    update.task_id = String::from("renamed");
    update.interval = None;
    update.start_time = None;
    update.execution_times = Some(vec![9]);
    assert_eq!(contract.update_schedule(alice(), update), Ok(()));

    let stored = contract.get_schedule_by_id(&schedule_id).unwrap();
    assert_eq!(stored.sender, alice());
    assert!(stored.enabled);
    assert_eq!(stored.task_id, "renamed");
    assert_eq!(stored.interval, None);
    assert_eq!(stored.start_time, None);
    assert_eq!(stored.execution_times, Some(vec![9]));

    assert_eq!(
        contract.remove_schedule(charlie(), schedule_id),
        Err(TemporaError::UserScheduleConfigurationNotFound)
    );
    assert_eq!(contract.remove_schedule(alice(), schedule_id), Ok(()));
}

#[test]
fn update_is_held_to_the_rules() {
    let mut contract = init();
    let schedule_id = ScheduleId::from([0x3; 32]);
    assert_eq!(recurring(&mut contract, schedule_id), Ok(()));
    let stored = contract.get_schedule_by_id(&schedule_id).unwrap();

    let mut to_self = stored.clone();
    to_self.recipient = alice();
    assert_eq!(
        contract.update_schedule(alice(), to_self),
        Err(TemporaError::CallerCannotBeRecipient)
    );

    let mut of_nothing = stored.clone();
    of_nothing.amount = 0;
    assert_eq!(
        contract.update_schedule(alice(), of_nothing),
        Err(TemporaError::ScheduleAmountCannotBeZero)
    );

    let mut unlisted = stored.clone();
    unlisted.token_address = Some(AccountId::from([0x9; 32]));
    assert_eq!(
        contract.update_schedule(alice(), unlisted),
        Err(TemporaError::TokenIsNotWhitelisted)
    );

    let mut no_times = stored.clone();
    no_times.start_time = None;
    no_times.execution_times = None;
    assert_eq!(
        contract.update_schedule(alice(), no_times),
        Err(TemporaError::WrongScheduleConfiguration)
    );

    let after = contract.get_schedule_by_id(&schedule_id).unwrap();
    assert_eq!(after.recipient, bob());
    assert_eq!(after.amount, 1000000);
    assert_eq!(after.token_address, None);
    assert_eq!(after.start_time, Some(100));
}

#[test]
fn a_new_recipient_is_not_listed() {
    let mut contract = init();
    let schedule_id = ScheduleId::from([0x3; 32]);
    assert_eq!(recurring(&mut contract, schedule_id), Ok(()));

    let mut update = contract.get_schedule_by_id(&schedule_id).unwrap();
    update.recipient = charlie();
    assert_eq!(contract.update_schedule(alice(), update), Ok(()));

    assert_eq!(contract.get_schedule_by_id(&schedule_id).unwrap().recipient, charlie());
    assert_eq!(contract.get_user_schedules(charlie()).len(), 0);
    let first = contract.get_user_schedules(bob());
    assert_eq!(first.len(), 1);
    assert_eq!(first[0].schedule_configuration.recipient, charlie());
    assert_eq!(contract.get_user_schedules(alice()).len(), 1);
}

#[test]
fn lists_show_sender_and_recipient_and_nobody_else() {
    let mut contract = init();
    let first = ScheduleId::from([0x3; 32]);
    let second = ScheduleId::from([0x4; 32]);
    let third = ScheduleId::from([0x5; 32]);
    assert_eq!(recurring(&mut contract, first), Ok(()));
    assert_eq!(
        contract.save_schedule(bob(), second, String::new(), charlie(), 2, None, Some(1), None, None),
        Ok(())
    );
    assert_eq!(
        contract.save_schedule(charlie(), third, String::new(), alice(), 3, None, Some(1), None, None),
        Ok(())
    );

    let ids = |who: AccountId| -> Vec<ScheduleId> {
        contract
            .get_user_schedules(who)
            .iter()
            .map(|data| data.schedule_configuration.id)
            .collect()
    };
    assert_eq!(ids(alice()), vec![first, third]);
    assert_eq!(ids(bob()), vec![first, second]);
    assert_eq!(ids(charlie()), vec![second, third]);
    assert_eq!(ids(AccountId::from([0x04; 32])), Vec::new());
}

#[test]
fn schedule_ids_differ_in_any_byte() {
    let mut contract = init();
    let schedule_id = ScheduleId::from([0x3; 32]);
    assert_eq!(recurring(&mut contract, schedule_id), Ok(()));

    let mut bytes = [0x3; 32];
    bytes[31] = 0x4;
    let neighbour = ScheduleId::from(bytes);
    assert_ne!(schedule_id, neighbour);
    assert_eq!(
        contract.get_schedule_by_id(&neighbour).err(),
        Some(TemporaError::ScheduleConfigurationNotFound)
    );
    assert_eq!(recurring(&mut contract, neighbour), Ok(()));
    assert_eq!(contract.get_user_schedules(alice()).len(), 2);
    assert_eq!(schedule_id.bytes, [0x3; 32]);
}
