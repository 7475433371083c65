use redb::commit_protocol::{
    next_action, open_slot, primary_slot, CommitAction, Slot, SlotId, WriteStrategy,
};
use redb::error::Error;

fn slot(transaction_id: u64, valid: bool, intact: bool) -> Slot {
    Slot { transaction_id, valid, intact }
}

#[test]
fn primary_is_the_usable_slot_with_the_higher_id() {
    assert_eq!(primary_slot(slot(4, true, true), slot(5, true, true)), Some(SlotId::B));
    assert_eq!(primary_slot(slot(6, true, true), slot(5, true, true)), Some(SlotId::A));
    assert_eq!(primary_slot(slot(4, true, true), slot(5, false, true)), Some(SlotId::A));
    assert_eq!(primary_slot(slot(4, true, true), slot(5, true, false)), Some(SlotId::A));
    assert_eq!(primary_slot(slot(4, true, false), slot(3, true, true)), Some(SlotId::B));
    assert_eq!(primary_slot(slot(4, false, true), slot(5, true, false)), None);
}

#[test]
fn corrupt_new_root_falls_back_to_previous_snapshot() {
    let older = slot(7, true, true);
    let newer = slot(8, true, true);
    assert_eq!(
        open_slot(older, newer, WriteStrategy::Checksum, true, true, false),
        Ok(SlotId::A)
    );
    assert_eq!(
        open_slot(newer, older, WriteStrategy::Checksum, true, false, true),
        Ok(SlotId::B)
    );
    assert_eq!(
        open_slot(older, newer, WriteStrategy::Checksum, true, true, true),
        Ok(SlotId::B)
    );
    assert_eq!(
        open_slot(older, newer, WriteStrategy::Checksum, true, false, false),
        Err(Error::Corruption)
    );
}

#[test]
fn roots_are_not_checked_after_a_clean_close_or_with_two_phase() {
    let older = slot(7, true, true);
    let newer = slot(8, true, true);
    assert_eq!(
        open_slot(older, newer, WriteStrategy::Checksum, false, true, false),
        Ok(SlotId::B)
    );
    assert_eq!(
        open_slot(older, newer, WriteStrategy::TwoPhase, true, true, false),
        Ok(SlotId::B)
    );
    let unmarked = slot(1, false, true);
    let torn = slot(2, true, false);
    assert_eq!(
        open_slot(unmarked, torn, WriteStrategy::TwoPhase, false, true, true),
        Err(Error::Corruption)
    );
}

#[test]
fn two_phase_commit_has_three_steps() {
    assert_eq!(
        next_action(WriteStrategy::TwoPhase, SlotId::A, 9, 0),
        Some(CommitAction::WriteData)
    );
    assert_eq!(
        next_action(WriteStrategy::TwoPhase, SlotId::A, 9, 1),
        Some(CommitAction::WriteHeader {
            slot: SlotId::B,
            transaction_id: 10,
            valid: false,
            with_data: false
        })
    );
    assert_eq!(
        next_action(WriteStrategy::TwoPhase, SlotId::A, 9, 2),
        Some(CommitAction::MarkValid { slot: SlotId::B })
    );
    assert_eq!(next_action(WriteStrategy::TwoPhase, SlotId::A, 9, 3), None);
    assert_eq!(
        next_action(WriteStrategy::TwoPhase, SlotId::B, 0, 2),
        Some(CommitAction::MarkValid { slot: SlotId::A })
    );
}

#[test]
fn checksum_commit_has_one_step() {
    assert_eq!(
        next_action(WriteStrategy::Checksum, SlotId::B, 41, 0),
        Some(CommitAction::WriteHeader {
            slot: SlotId::A,
            transaction_id: 42,
            valid: true,
            with_data: true
        })
    );
    assert_eq!(next_action(WriteStrategy::Checksum, SlotId::B, 41, 1), None);
}
