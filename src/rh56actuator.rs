//! The gripper backend: actuator IDs `offset ..= offset + 5` name the six
//! fingers of one gripper, and positions on the external 0-100 scale become
//! raw set-points in 0-1000.
use vstd::prelude::*;
use crate::hand::FINGER_COUNT;

verus! {

/// The lowest raw finger set-point.
pub const MIN_HAND_POSITION: i32 = 0;

/// The highest raw finger set-point.
pub const MAX_HAND_POSITION: i32 = 1000;

/// A position command for one actuator, as the gripper backend receives it.
///
/// `scaled_position` is the external position times ten, truncated to an
/// integer; `None` when the command carries no position.
#[derive(Debug, Clone, Copy, PartialEq, Eq, Structural)]
pub struct FingerCommand {
    pub actuator_id: u32,
    pub scaled_position: Option<i32>,
}

/// One finger set-point to apply, with the actuator it was asked for.
#[derive(Debug, Clone, Copy, PartialEq, Eq, Structural)]
pub struct FingerMove {
    pub actuator_id: u32,
    pub finger: usize,
    pub position: i32,
}

/// One finger whose cached position answers a state query for `actuator_id`.
#[derive(Debug, Clone, Copy, PartialEq, Eq, Structural)]
pub struct FingerRead {
    pub actuator_id: u32,
    pub finger: usize,
}

/// The finger that actuator `id` names under `offset`, if any.
pub open spec fn finger_of(offset: u8, id: u32) -> Option<int> {
    if offset <= id && id <= offset + 5 {
        Some(id - offset)
    } else {
        None
    }
}

/// A scaled position limited to the raw set-point range.
pub open spec fn clamp_position(scaled: i32) -> i32 {
    if scaled < MIN_HAND_POSITION {
        MIN_HAND_POSITION
    } else if scaled > MAX_HAND_POSITION {
        MAX_HAND_POSITION
    } else {
        scaled
    }
}

/// The moves that a batch of commands asks for, in batch order: one for each
/// command that names a finger of this gripper and carries a position.
pub open spec fn planned_moves(offset: u8, cmds: Seq<FingerCommand>) -> Seq<FingerMove>
    decreases cmds.len(),
{
    if cmds.len() == 0 {
        Seq::empty()
    } else {
        let prev = planned_moves(offset, cmds.drop_last());
        let c = cmds.last();
        match (finger_of(offset, c.actuator_id), c.scaled_position) {
            (Some(f), Some(p)) => prev.push(
                FingerMove { actuator_id: c.actuator_id, finger: f as usize, position: clamp_position(p) },
            ),
            _ => prev,
        }
    }
}

/// The fingers that a state query reads, in query order: one for each ID
/// that names a finger of this gripper.
pub open spec fn planned_reads(offset: u8, ids: Seq<u32>) -> Seq<FingerRead>
    decreases ids.len(),
{
    if ids.len() == 0 {
        Seq::empty()
    } else {
        let prev = planned_reads(offset, ids.drop_last());
        let id = ids.last();
        match finger_of(offset, id) {
            Some(f) => prev.push(FingerRead { actuator_id: id, finger: f as usize }),
            None => prev,
        }
    }
}

/// Limits a scaled position to the raw set-point range.
pub fn hand_position(scaled: i32) -> (r: i32)
    ensures
        r == clamp_position(scaled),
        MIN_HAND_POSITION <= r <= MAX_HAND_POSITION,
{
    if scaled < MIN_HAND_POSITION {
        MIN_HAND_POSITION
    } else if scaled > MAX_HAND_POSITION {
        MAX_HAND_POSITION
    } else {
        scaled
    }
}

/// The gripper backend's mapping from actuator IDs to fingers.
pub struct RH56Actuator {
    id_offset: u8,
}

impl RH56Actuator {
    /// The actuator ID of finger 0.
    pub closed spec fn offset(&self) -> u8 {
        self.id_offset
    }

    /// A backend whose fingers are actuators `id_offset ..= id_offset + 5`.
    pub fn new(id_offset: u8) -> (r: RH56Actuator)
        ensures
            r.offset() == id_offset,
    {
        RH56Actuator { id_offset }
    }

    /// The actuator ID of finger 0.
    pub fn id_offset(&self) -> (r: u8)
        ensures
            r == self.offset(),
    {
        self.id_offset
    }

    /// The finger that `actuator_id` names, if it is one of this gripper's.
    pub fn finger_index(&self, actuator_id: u32) -> (r: Option<usize>)
        ensures
            match finger_of(self.offset(), actuator_id) {
                Some(f) => r == Some(f as usize) && f < FINGER_COUNT,
                None => r is None,
            },
    {
        let offset = self.id_offset as u32;
        if offset <= actuator_id && actuator_id <= offset + 5 {
            Some((actuator_id - offset) as usize)
        } else {
            None
        }
    }

    /// The finger moves that a batch of commands asks for, in batch order.
    /// Commands for other actuators, or without a position, are left out.
    pub fn command_actuators(&self, commands: &Vec<FingerCommand>) -> (r: Vec<FingerMove>)
        ensures
            r@ == planned_moves(self.offset(), commands@),
    {
        let mut moves: Vec<FingerMove> = Vec::new();
        let mut i: usize = 0;
        while i < commands.len()
            invariant
                i <= commands@.len(),
                moves@ == planned_moves(self.offset(), commands@.subrange(0, i as int)),
            decreases commands@.len() - i,
        {
            let c = commands[i];
            let ghost before = commands@.subrange(0, i as int);
            proof {
                assert(commands@.subrange(0, i + 1).drop_last() =~= before);
            }
            match (self.finger_index(c.actuator_id), c.scaled_position) {
                (Some(finger), Some(p)) => {
                    moves.push(FingerMove { actuator_id: c.actuator_id, finger, position: hand_position(p) });
                },
                _ => {},
            }
            i = i + 1;
        }
        assert(commands@.subrange(0, i as int) =~= commands@);
        moves
    }

    /// The fingers whose cached positions answer a state query, in query
    /// order. IDs of other actuators are left out.
    pub fn get_actuators_state(&self, actuator_ids: &Vec<u32>) -> (r: Vec<FingerRead>)
        ensures
            r@ == planned_reads(self.offset(), actuator_ids@),
    {
        let mut reads: Vec<FingerRead> = Vec::new();
        let mut i: usize = 0;
        while i < actuator_ids.len()
            invariant
                i <= actuator_ids@.len(),
                reads@ == planned_reads(self.offset(), actuator_ids@.subrange(0, i as int)),
            decreases actuator_ids@.len() - i,
        {
            let id = actuator_ids[i];
            proof {
                assert(actuator_ids@.subrange(0, i + 1).drop_last() =~= actuator_ids@.subrange(0, i as int));
            }
            match self.finger_index(id) {
                Some(finger) => {
                    reads.push(FingerRead { actuator_id: id, finger });
                },
                None => {},
            }
            i = i + 1;
        }
        assert(actuator_ids@.subrange(0, i as int) =~= actuator_ids@);
        reads
    }
}

} // verus!
