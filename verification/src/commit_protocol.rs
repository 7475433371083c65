//! The two header slots of a database file and the order in which a commit
//! reaches the disk. The slot that holds the newest state that was wholly
//! written is the primary one; a commit writes the other slot, so that a
//! crash at any moment leaves a state that was committed.

use crate::error::Error;
use vstd::prelude::*;

verus! {

/// How a commit makes sure that a half-written state is never taken for a
/// committed one.
#[derive(Clone, Copy, Debug, PartialEq, Eq, Structural)]
pub enum WriteStrategy {
    /// The header is written and synced before it is marked valid.
    TwoPhase,
    /// Data and header are synced together, and the checksums of the pages
    /// tell a half-written state apart.
    Checksum,
}

/// One of the two header slots.
#[derive(Clone, Copy, Debug, PartialEq, Eq, Structural)]
pub enum SlotId {
    A,
    B,
}

/// What a header slot says of the state it records.
#[derive(Clone, Copy, Debug, PartialEq, Eq, Structural)]
pub struct Slot {
    /// The number of the transaction that wrote the state.
    pub transaction_id: u64,
    /// Whether the slot is marked valid.
    pub valid: bool,
    /// Whether the checksum of the slot verifies.
    pub intact: bool,
}

/// Whether a slot can be the primary one: its checksum verifies and it is
/// marked valid.
pub open spec fn usable(slot: Slot) -> bool {
    slot.intact && slot.valid
}

/// The other slot.
pub open spec fn other_slot(id: SlotId) -> SlotId {
    match id {
        SlotId::A => SlotId::B,
        SlotId::B => SlotId::A,
    }
}

/// The slot of the two that `id` names.
pub open spec fn slot_of(a: Slot, b: Slot, id: SlotId) -> Slot {
    match id {
        SlotId::A => a,
        SlotId::B => b,
    }
}

/// The primary slot: the usable slot with the higher transaction number;
/// none where neither slot is usable.
pub open spec fn primary_of(a: Slot, b: Slot) -> Option<SlotId> {
    if usable(a) && usable(b) {
        if b.transaction_id > a.transaction_id {
            Some(SlotId::B)
        } else {
            Some(SlotId::A)
        }
    } else if usable(a) {
        Some(SlotId::A)
    } else if usable(b) {
        Some(SlotId::B)
    } else {
        None
    }
}

/// The slot that a database is opened from. With the checksum strategy and
/// after an unclean close, the root page of the primary slot must verify,
/// or else the other slot is taken, if it is usable and its root verifies.
pub open spec fn opened_from(
    a: Slot,
    b: Slot,
    strategy: WriteStrategy,
    unclean: bool,
    root_a_verifies: bool,
    root_b_verifies: bool,
) -> Option<SlotId> {
    match primary_of(a, b) {
        None => None,
        Some(primary) => {
            let checked = strategy == WriteStrategy::Checksum && unclean;
            let fallback = other_slot(primary);
            if !checked || slot_of_flag(root_a_verifies, root_b_verifies, primary) {
                Some(primary)
            } else if usable(slot_of(a, b, fallback)) && slot_of_flag(
                root_a_verifies,
                root_b_verifies,
                fallback,
            ) {
                Some(fallback)
            } else {
                None
            }
        },
    }
}

/// The flag of the two that `id` names.
pub open spec fn slot_of_flag(a: bool, b: bool, id: SlotId) -> bool {
    match id {
        SlotId::A => a,
        SlotId::B => b,
    }
}

/// Picks the primary slot.
pub fn primary_slot(a: Slot, b: Slot) -> (primary: Option<SlotId>)
    ensures
        primary == primary_of(a, b),
{
    let a_usable = a.intact && a.valid;
    let b_usable = b.intact && b.valid;
    if a_usable && b_usable {
        if b.transaction_id > a.transaction_id {
            Some(SlotId::B)
        } else {
            Some(SlotId::A)
        }
    } else if a_usable {
        Some(SlotId::A)
    } else if b_usable {
        Some(SlotId::B)
    } else {
        None
    }
}

/// Decides which slot a database is opened from. Where the file holds no
/// state that can be trusted, the database cannot be opened.
pub fn open_slot(
    a: Slot,
    b: Slot,
    strategy: WriteStrategy,
    unclean: bool,
    root_a_verifies: bool,
    root_b_verifies: bool,
) -> (chosen: Result<SlotId, Error>)
    ensures
        chosen == match opened_from(a, b, strategy, unclean, root_a_verifies, root_b_verifies) {
            Some(slot) => Ok::<SlotId, Error>(slot),
            None => Err::<SlotId, Error>(Error::Corruption),
        },
{
    let primary = match primary_slot(a, b) {
        Some(primary) => primary,
        None => {
            return Err(Error::Corruption);
        },
    };
    let checked = match strategy {
        WriteStrategy::Checksum => unclean,
        WriteStrategy::TwoPhase => false,
    };
    let (primary_root, fallback, fallback_slot, fallback_root) = match primary {
        SlotId::A => (root_a_verifies, SlotId::B, b, root_b_verifies),
        SlotId::B => (root_b_verifies, SlotId::A, a, root_a_verifies),
    };
    if !checked || primary_root {
        Ok(primary)
    } else if fallback_slot.intact && fallback_slot.valid && fallback_root {
        Ok(fallback)
    } else {
        Err(Error::Corruption)
    }
}

/// With the checksum strategy, after an unclean close, a newest state whose
/// root page does not verify is passed over: the database opens from the
/// state before it, which is untouched.
pub proof fn corrupt_root_falls_back(older: Slot, newer: Slot)
    requires
        usable(older),
        usable(newer),
        newer.transaction_id > older.transaction_id,
    ensures
        opened_from(older, newer, WriteStrategy::Checksum, true, true, false) == Some(SlotId::A),
        opened_from(newer, older, WriteStrategy::Checksum, true, false, true) == Some(SlotId::B),
        opened_from(older, newer, WriteStrategy::Checksum, true, true, true) == Some(SlotId::B),
        opened_from(newer, older, WriteStrategy::Checksum, true, true, true) == Some(SlotId::A),
{
}

/// One step of a commit. Each step ends with a sync, and the next step
/// begins only when that sync has returned.
#[derive(Clone, Copy, Debug, PartialEq, Eq, Structural)]
pub enum CommitAction {
    /// Write the data pages.
    WriteData,
    /// Write the slot with the new transaction number, marked valid or not;
    /// together with the data pages where `with_data` says so.
    WriteHeader { slot: SlotId, transaction_id: u64, valid: bool, with_data: bool },
    /// Mark the slot valid.
    MarkValid { slot: SlotId },
}

/// The steps of a commit, in their order. The slot that is written is never
/// the primary one.
pub open spec fn commit_plan(strategy: WriteStrategy, primary: SlotId, committed: u64) -> Seq<
    CommitAction,
> {
    let slot = other_slot(primary);
    let transaction_id = (committed + 1) as u64;
    match strategy {
        WriteStrategy::TwoPhase => seq![
            CommitAction::WriteData,
            CommitAction::WriteHeader { slot, transaction_id, valid: false, with_data: false },
            CommitAction::MarkValid { slot },
        ],
        WriteStrategy::Checksum => seq![
            CommitAction::WriteHeader { slot, transaction_id, valid: true, with_data: true },
        ],
    }
}

/// The next step of a commit of which `done` steps are done; `None` when
/// the commit is complete.
pub fn next_action(strategy: WriteStrategy, primary: SlotId, committed: u64, done: u8) -> (action:
    Option<CommitAction>)
    requires
        committed < u64::MAX,
    ensures
        action == if done < commit_plan(strategy, primary, committed).len() {
            Some(commit_plan(strategy, primary, committed)[done as int])
        } else {
            None
        },
{
    let slot = match primary {
        SlotId::A => SlotId::B,
        SlotId::B => SlotId::A,
    };
    let transaction_id = committed + 1;
    match strategy {
        WriteStrategy::TwoPhase => {
            if done == 0 {
                Some(CommitAction::WriteData)
            } else if done == 1 {
                Some(
                    CommitAction::WriteHeader {
                        slot,
                        transaction_id,
                        valid: false,
                        with_data: false,
                    },
                )
            } else if done == 2 {
                Some(CommitAction::MarkValid { slot })
            } else {
                None
            }
        },
        WriteStrategy::Checksum => {
            if done == 0 {
                Some(
                    CommitAction::WriteHeader {
                        slot,
                        transaction_id,
                        valid: true,
                        with_data: true,
                    },
                )
            } else {
                None
            }
        },
    }
}

/// How much of a step had reached the disk when the machine stopped.
pub enum Reached {
    /// Nothing of it.
    Nothing,
    /// A part of it.
    Part,
    /// All of it.
    All,
}

/// What the slot that a step writes holds afterwards, given what it held
/// before and how much of the step reached the disk. A slot of which only a
/// part was written does not verify.
pub open spec fn slot_after(action: CommitAction, before: Slot, reached: Reached) -> Slot {
    match (action, reached) {
        (CommitAction::WriteData, _) => before,
        (_, Reached::Nothing) => before,
        (_, Reached::Part) => Slot {
            transaction_id: before.transaction_id,
            valid: before.valid,
            intact: false,
        },
        (CommitAction::WriteHeader { transaction_id, valid, .. }, Reached::All) => Slot {
            transaction_id,
            valid,
            intact: true,
        },
        (CommitAction::MarkValid { slot }, Reached::All) => Slot {
            transaction_id: before.transaction_id,
            valid: true,
            intact: before.intact,
        },
    }
}

/// What the written slot holds when the first `done` steps of a plan are
/// complete.
pub open spec fn slot_after_steps(plan: Seq<CommitAction>, before: Slot, done: int) -> Slot
    decreases done,
{
    if done <= 0 || done > plan.len() {
        before
    } else {
        slot_after(plan[done - 1], slot_after_steps(plan, before, done - 1), Reached::All)
    }
}

/// The two slots, of which the one that `primary` names holds `first`.
pub open spec fn slots_with(primary: SlotId, first: Slot, second: Slot) -> (Slot, Slot) {
    match primary {
        SlotId::A => (first, second),
        SlotId::B => (second, first),
    }
}

/// A two-phase commit is atomic and durable: if the machine stops in any
/// step, the primary slot is afterwards the old one, or, once the step that
/// marks the new slot valid has begun, the old or the new one; and when all
/// steps are complete it is the new one.
pub proof fn two_phase_commit_atomic(
    primary: SlotId,
    current: Slot,
    spare: Slot,
    done: int,
    reached: Reached,
)
    requires
        usable(current),
        current.transaction_id < u64::MAX,
        usable(spare) ==> spare.transaction_id < current.transaction_id,
        0 <= done < 3,
    ensures
        ({
            let plan = commit_plan(WriteStrategy::TwoPhase, primary, current.transaction_id);
            let stopped = slot_after(plan[done], slot_after_steps(plan, spare, done), reached);
            let slots = slots_with(primary, current, stopped);
            let complete = slots_with(primary, current, slot_after_steps(plan, spare, 3));
            &&& done < 2 ==> primary_of(slots.0, slots.1) == Some(primary)
            &&& done == 2 ==> primary_of(slots.0, slots.1) == Some(primary) || primary_of(
                slots.0,
                slots.1,
            ) == Some(other_slot(primary))
            &&& primary_of(complete.0, complete.1) == Some(other_slot(primary))
            &&& slot_after_steps(plan, spare, 3).transaction_id == current.transaction_id + 1
        }),
{
    let plan = commit_plan(WriteStrategy::TwoPhase, primary, current.transaction_id);
    reveal_with_fuel(slot_after_steps, 4);
    assert(plan[0] == CommitAction::WriteData);
    assert(plan[1] == CommitAction::WriteHeader {
        slot: other_slot(primary),
        transaction_id: (current.transaction_id + 1) as u64,
        valid: false,
        with_data: false,
    });
    assert(plan[2] == CommitAction::MarkValid { slot: other_slot(primary) });
}

/// A commit with the checksum strategy is atomic and durable: if the machine
/// stops while data and header are written, the database opens afterwards
/// from the old state, unless the header was written whole and the new root
/// verifies; and when the step is complete it opens from the new state.
pub proof fn checksum_commit_atomic(
    primary: SlotId,
    current: Slot,
    spare: Slot,
    reached: Reached,
    new_root_verifies: bool,
)
    requires
        usable(current),
        current.transaction_id < u64::MAX,
        usable(spare) ==> spare.transaction_id < current.transaction_id,
    ensures
        ({
            let plan = commit_plan(WriteStrategy::Checksum, primary, current.transaction_id);
            let stopped = slot_after(plan[0], spare, reached);
            let slots = slots_with(primary, current, stopped);
            let roots = slots_with_flags(primary, true, new_root_verifies);
            let chosen = opened_from(
                slots.0,
                slots.1,
                WriteStrategy::Checksum,
                true,
                roots.0,
                roots.1,
            );
            &&& chosen == Some(primary) || chosen == Some(other_slot(primary))
            &&& !new_root_verifies ==> chosen == Some(primary)
            &&& !(reached is All) ==> chosen == Some(primary)
            &&& reached is All && new_root_verifies ==> chosen == Some(other_slot(primary))
        }),
{
    let plan = commit_plan(WriteStrategy::Checksum, primary, current.transaction_id);
    assert(plan[0] == CommitAction::WriteHeader {
        slot: other_slot(primary),
        transaction_id: (current.transaction_id + 1) as u64,
        valid: true,
        with_data: true,
    });
}

/// The two flags, of which the one that `primary` names is `first`.
pub open spec fn slots_with_flags(primary: SlotId, first: bool, second: bool) -> (bool, bool) {
    match primary {
        SlotId::A => (first, second),
        SlotId::B => (second, first),
    }
}

} // verus!
