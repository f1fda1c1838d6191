use mixed_pipeline::block::DataBlock;
use mixed_pipeline::error::ErrorCode;
use mixed_pipeline::mixed::{MixedProcessor, MixedWorker};

fn block(num_rows: usize) -> DataBlock {
    DataBlock { num_rows }
}

#[test]
fn creator_owns_slot_zero() {
    let creator: MixedProcessor<u64> = MixedProcessor::create(3);
    assert_eq!(creator.slot_index(), 0);
    assert_eq!(creator.name(), "MixedProcessor");
}

#[test]
fn shares_get_fresh_slots_in_order() {
    let creator: MixedProcessor<u64> = MixedProcessor::create(3);
    let second = creator.share().expect("slot 1 is free");
    let third = creator.share().expect("slot 2 is free");
    assert_eq!(second.slot_index(), 1);
    assert_eq!(third.slot_index(), 2);
}

#[test]
fn share_overflow_fails_and_keeps_failing() {
    let k = 3;
    let creator: MixedProcessor<u64> = MixedProcessor::create(k);
    let mut shares = Vec::new();
    for _ in 0..k - 1 {
        shares.push(creator.share().expect("below the width"));
    }
    let overflow = creator.share();
    assert_eq!(overflow.err(), Some(ErrorCode::LogicalError));
    let retry = creator.share();
    assert_eq!(retry.err(), Some(ErrorCode::LogicalError));
    let retry_from_share = shares[0].share();
    assert_eq!(retry_from_share.err(), Some(ErrorCode::LogicalError));
}

#[test]
fn connected_inputs_are_seen_by_every_handle() {
    let creator: MixedProcessor<u64> = MixedProcessor::create(2);
    let share = creator.share().expect("slot 1 is free");
    creator.connect_to(10).expect("registering an upstream succeeds");
    share.connect_to(11).expect("registering an upstream succeeds");
    assert_eq!(creator.inputs(), vec![10, 11]);
    assert_eq!(share.inputs(), vec![10, 11]);
}

#[test]
fn execute_without_inputs_is_a_configuration_error() {
    let creator: MixedProcessor<u64> = MixedProcessor::create(1);
    let outcome = creator.execute(|_plan| Ok(()));
    assert_eq!(
        outcome.err(),
        Some(ErrorCode::IllegalTransformConnectionState)
    );
    // The failure is synchronous and sticky until an upstream appears.
    let again = creator.execute(|_plan| Ok(()));
    assert_eq!(
        again.err(),
        Some(ErrorCode::IllegalTransformConnectionState)
    );
}

#[test]
fn only_the_first_execution_spawns_the_task_graph() {
    let creator: MixedProcessor<u64> = MixedProcessor::create(2);
    let share = creator.share().expect("slot 1 is free");
    creator.connect_to(10).expect("registering an upstream succeeds");
    let mut first_spawns = 0;
    let first = creator.execute(|_plan| {
        first_spawns += 1;
        Ok(())
    });
    assert!(first.is_ok());
    assert_eq!(first_spawns, 1, "the starting call runs the spawner once");
    let mut later_spawns = 0;
    let second = share.execute(|_plan| {
        later_spawns += 1;
        Ok(())
    });
    assert!(second.is_ok());
    assert_eq!(later_spawns, 0, "the worker is already started");
}

#[test]
fn executing_one_handle_twice_is_a_programming_error() {
    let creator: MixedProcessor<u64> = MixedProcessor::create(2);
    creator.connect_to(10).expect("registering an upstream succeeds");
    let first = creator.execute(|_plan| Ok(()));
    assert!(first.is_ok());
    let second = creator.execute(|_plan| Ok(()));
    assert_eq!(second.err(), Some(ErrorCode::ReceiverAlreadyTaken));
}

#[test]
fn rejected_spawn_rolls_the_start_back() {
    let creator: MixedProcessor<u64> = MixedProcessor::create(2);
    creator.connect_to(10).expect("registering an upstream succeeds");
    // The runtime rejects the tasks: the error comes straight back and the
    // worker must not count as started.
    let rejected = creator.execute(|_plan| Err(ErrorCode::UpstreamFailure));
    assert_eq!(rejected.err(), Some(ErrorCode::UpstreamFailure));
    // A retry attempts the start again, and this time keeps the slot.
    let mut spawns = 0;
    let retry = creator.execute(|_plan| {
        spawns += 1;
        Ok(())
    });
    assert!(retry.is_ok());
    assert_eq!(spawns, 1, "the rolled-back start is attempted again");
}

#[test]
fn start_plan_has_one_sender_per_output_slot() {
    let creator: MixedProcessor<u64> = MixedProcessor::create(3);
    creator.connect_to(10).expect("registering an upstream succeeds");
    let mut width = 0;
    let mut upstreams = 0;
    let outcome = creator.execute(|plan| {
        width = plan.out_senders.len();
        upstreams = plan.inputs.len();
        Ok(())
    });
    assert!(outcome.is_ok());
    assert_eq!(width, 3);
    assert_eq!(upstreams, 1);
}

#[test]
fn worker_issues_indexes_up_to_width_then_overflows() {
    let mut worker: MixedWorker<u64> = MixedWorker::new(2);
    assert_eq!(worker.issue_share_index(), Ok(0));
    assert_eq!(worker.issue_share_index(), Ok(1));
    assert_eq!(worker.issue_share_index(), Err(ErrorCode::LogicalError));
    assert_eq!(worker.issue_share_index(), Err(ErrorCode::LogicalError));
}

#[test]
fn worker_stream_preparation_rejects_zero_inputs() {
    let worker: MixedWorker<u64> = MixedWorker::new(2);
    match worker.prepare_inputstream() {
        Err(code) => assert_eq!(code, ErrorCode::IllegalTransformConnectionState),
        Ok(_) => panic!("a mixing stage with no inputs must not stream"),
    }
}

#[test]
fn worker_start_is_idempotent() {
    let mut worker: MixedWorker<u64> = MixedWorker::new(2);
    worker.push_input(7).expect("registering an upstream succeeds");
    let mut first_spawns = 0;
    worker
        .start(|_plan| {
            first_spawns += 1;
            Ok(())
        })
        .expect("the first start succeeds");
    assert_eq!(first_spawns, 1, "the first start builds the task graph");
    let mut later_spawns = 0;
    worker
        .start(|_plan| {
            later_spawns += 1;
            Ok(())
        })
        .expect("a later start is a no-op");
    assert_eq!(later_spawns, 0, "a started worker spawns nothing more");
}

#[test]
fn worker_start_without_inputs_changes_nothing() {
    let mut worker: MixedWorker<u64> = MixedWorker::new(2);
    assert_eq!(
        worker.start(|_plan| Ok(())).err(),
        Some(ErrorCode::IllegalTransformConnectionState)
    );
    // Still startable once an upstream is registered.
    worker.push_input(7).expect("registering an upstream succeeds");
    assert!(worker.start(|_plan| Ok(())).is_ok());
}

#[test]
fn worker_marks_started_only_after_the_spawn_succeeded() {
    let mut worker: MixedWorker<u64> = MixedWorker::new(2);
    worker.push_input(7).expect("registering an upstream succeeds");
    let rejected = worker.start(|_plan| Err(ErrorCode::UpstreamFailure));
    assert_eq!(rejected.err(), Some(ErrorCode::UpstreamFailure));
    // The flag stayed false, so the next call attempts the start again.
    let mut spawns = 0;
    let retry = worker.start(|_plan| {
        spawns += 1;
        Ok(())
    });
    assert!(retry.is_ok());
    assert_eq!(spawns, 1, "the rolled-back start is attempted again");
}

#[test]
fn worker_hands_each_receiver_out_once() {
    let mut worker: MixedWorker<u64> = MixedWorker::new(2);
    worker.push_input(7).expect("registering an upstream succeeds");
    worker.start(|_plan| Ok(())).expect("start succeeds");
    assert!(worker.take_receiver(0).is_ok());
    assert_eq!(
        worker.take_receiver(0).err(),
        Some(ErrorCode::ReceiverAlreadyTaken)
    );
    assert!(worker.take_receiver(1).is_ok());
    assert_eq!(
        worker.take_receiver(1).err(),
        Some(ErrorCode::ReceiverAlreadyTaken)
    );
}

#[test]
fn error_codes_carry_their_messages() {
    assert_eq!(
        ErrorCode::IllegalTransformConnectionState.message(),
        "Mixed processor inputs cannot be zero"
    );
    assert_eq!(ErrorCode::LogicalError.message(), "Mixed shared num overflow");
    assert_eq!(
        ErrorCode::ReceiverAlreadyTaken.message(),
        "Mixed processor receiver already taken"
    );
    assert_eq!(
        ErrorCode::TooManyInputs.message(),
        "Mixed processor cannot mirror more inputs"
    );
    assert_eq!(
        ErrorCode::UpstreamFailure.message(),
        "Mixed upstream failure"
    );
}

#[test]
fn handles_can_carry_block_inputs() {
    let creator: MixedProcessor<DataBlock> = MixedProcessor::create(1);
    creator
        .connect_to(block(5))
        .expect("registering an upstream succeeds");
    assert_eq!(creator.inputs(), vec![block(5)]);
}
