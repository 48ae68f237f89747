//! The gripper driver's state: the device ID and the cache of the six finger
//! positions, with the frames that keep device and cache in step.
//!
//! The cache is the only record of finger positions: reads are answered from
//! it, writes update it and then resend all six set-points, and a periodic
//! poll overwrites it with the measured angles.
use vstd::prelude::*;
use crate::frame::{
    fits_i16, lemma_write6_round_trip, pack6, pack_6, parse_read_response, read_frame, read_register_frame, response_payload,
    unpack6, unpack_6, write_frame, write_register_frame, FrameError,
};
use crate::registers::{register_addr, register_address, REG_ANGLE_ACT, REG_ANGLE_SET};

verus! {

/// Number of fingers, and of values in a six-value register.
pub const FINGER_COUNT: usize = 6;

/// Cache value of a finger whose position is not known yet.
pub const UNSET_POSITION: i32 = -1;

/// Number of payload bytes of a six-value register.
pub const SIX_VALUE_BYTES: u8 = 12;

/// Why a gripper operation was refused or failed.
#[derive(Debug, Clone, Copy, PartialEq, Eq, Structural)]
pub enum HandError {
    /// The finger index is not below the number of fingers.
    InvalidFinger,
    /// A frame could not be built or understood.
    Frame(FrameError),
}

/// The dictionary gives the two six-value registers that the driver uses.
proof fn lemma_six_value_registers()
    ensures
        register_addr("angleSet"@) == Some(REG_ANGLE_SET),
        register_addr("angleAct"@) == Some(REG_ANGLE_ACT),
{
    reveal_strlit("ID");
    reveal_strlit("baudrate");
    reveal_strlit("clearErr");
    reveal_strlit("forceClb");
    reveal_strlit("angleSet");
    reveal_strlit("forceSet");
    reveal_strlit("speedSet");
    reveal_strlit("angleAct");
    assert("angleSet"@.len() != "ID"@.len());
    assert("angleSet"@[0] != "baudrate"@[0]);
    assert("angleSet"@[0] != "clearErr"@[0]);
    assert("angleSet"@[0] != "forceClb"@[0]);
    assert("angleAct"@.len() != "ID"@.len());
    assert("angleAct"@[0] != "baudrate"@[0]);
    assert("angleAct"@[0] != "clearErr"@[0]);
    assert("angleAct"@[0] != "forceClb"@[0]);
    assert("angleAct"@[5] != "angleSet"@[5]);
    assert("angleAct"@[0] != "forceSet"@[0]);
    assert("angleAct"@[0] != "speedSet"@[0]);
}

/// Encodes the frame that writes six values to the register called `reg`.
pub fn write_6(id: u8, reg: &str, values: &[i32; 6]) -> (r: Result<Vec<u8>, FrameError>)
    ensures
        match register_addr(reg@) {
            Some(addr) => r is Ok && r->Ok_0@ == write_frame(id, addr, pack6(values@)),
            None => r == Err::<Vec<u8>, FrameError>(FrameError::UnknownRegister),
        },
{
    match register_address(reg) {
        Some(addr) => {
            let payload = pack_6(values);
            Ok(write_register_frame(id, addr, &payload))
        },
        None => Err(FrameError::UnknownRegister),
    }
}

/// Encodes the request for the six values of the register called `reg`.
pub fn read_6_request(id: u8, reg: &str) -> (r: Result<Vec<u8>, FrameError>)
    ensures
        match register_addr(reg@) {
            Some(addr) => r is Ok && r->Ok_0@ == read_frame(id, addr, SIX_VALUE_BYTES),
            None => r == Err::<Vec<u8>, FrameError>(FrameError::UnknownRegister),
        },
{
    match register_address(reg) {
        Some(addr) => Ok(read_register_frame(id, addr, SIX_VALUE_BYTES)),
        None => Err(FrameError::UnknownRegister),
    }
}

/// What a response to a six-value read yields: the values, or why not.
pub open spec fn six_values_of(resp: Seq<u8>) -> Result<Seq<i32>, FrameError> {
    match response_payload(resp) {
        None => Err(FrameError::Malformed),
        Some(p) => if p.len() < 12 {
            Err(FrameError::NoData)
        } else {
            Ok(unpack6(p))
        },
    }
}

/// Decodes the response to a six-value read.
pub fn read_6_response(resp: &Vec<u8>) -> (r: Result<[i32; 6], FrameError>)
    ensures
        match six_values_of(resp@) {
            Ok(v) => r is Ok && r->Ok_0@ == v,
            Err(e) => r == Err::<[i32; 6], FrameError>(e),
        },
{
    match parse_read_response(resp) {
        Ok(payload) => unpack_6(&payload),
        Err(e) => Err(e),
    }
}

/// Six values that fit in 16 bits, written with `write_6` and read back
/// through `read_6_response`, come back unchanged.
pub proof fn lemma_write_6_read_6_round_trip(id: u8, addr: u16, vals: Seq<i32>)
    requires
        vals.len() == 6,
        fits_i16(vals),
    ensures
        six_values_of(write_frame(id, addr, pack6(vals))) == Ok::<Seq<i32>, FrameError>(vals),
{
    lemma_write6_round_trip(id, addr, vals);
}

/// The gripper driver's state: which device it talks to and what it last
/// knew of each finger.
pub struct Hand {
    finger_positions: [i32; 6],
    hand_id: u8,
}

impl Hand {
    /// The cached finger positions, finger 0 first.
    pub closed spec fn positions(&self) -> Seq<i32> {
        self.finger_positions@
    }

    /// The device ID that frames are addressed to.
    pub closed spec fn id(&self) -> u8 {
        self.hand_id
    }

    /// A driver for device `hand_id` that knows no finger position yet.
    pub fn new(hand_id: u8) -> (r: Hand)
        ensures
            r.id() == hand_id,
            r.positions() == Seq::new(6, |i: int| UNSET_POSITION),
            r.positions().len() == FINGER_COUNT,
    {
        let r = Hand {
            finger_positions: [UNSET_POSITION, UNSET_POSITION, UNSET_POSITION, UNSET_POSITION, UNSET_POSITION, UNSET_POSITION],
            hand_id,
        };
        assert(r.positions() =~= Seq::new(6, |i: int| UNSET_POSITION));
        r
    }

    /// The device ID that frames are addressed to.
    pub fn hand_id(&self) -> (r: u8)
        ensures
            r == self.id(),
    {
        self.hand_id
    }

    /// Records a new set-point for one finger and returns the frame that sends
    /// all six cached set-points to the angle-set register.
    ///
    /// An index past the last finger is refused, with the cache unchanged and
    /// no frame to send.
    pub fn set_finger_position(&mut self, finger: usize, position: i32) -> (r: Result<Vec<u8>, HandError>)
        ensures
            finger >= FINGER_COUNT ==> r == Err::<Vec<u8>, HandError>(HandError::InvalidFinger)
                && *final(self) == *old(self),
            finger < FINGER_COUNT ==> {
                &&& final(self).id() == old(self).id()
                &&& final(self).positions() == old(self).positions().update(finger as int, position)
                &&& r is Ok
                &&& r->Ok_0@ == write_frame(old(self).id(), REG_ANGLE_SET, pack6(final(self).positions()))
            },
    {
        if finger >= FINGER_COUNT {
            return Err(HandError::InvalidFinger);
        }
        self.finger_positions[finger] = position;
        proof {
            lemma_six_value_registers();
        }
        match write_6(self.hand_id, "angleSet", &self.finger_positions) {
            Ok(frame) => Ok(frame),
            Err(e) => Err(HandError::Frame(e)),
        }
    }

    /// The cached position of one finger; no frame is exchanged.
    pub fn get_finger_position(&self, finger: usize) -> (r: Result<i32, HandError>)
        ensures
            finger >= FINGER_COUNT ==> r == Err::<i32, HandError>(HandError::InvalidFinger),
            finger < FINGER_COUNT ==> r == Ok::<i32, HandError>(self.positions()[finger as int]),
    {
        if finger >= FINGER_COUNT {
            return Err(HandError::InvalidFinger);
        }
        Ok(self.finger_positions[finger])
    }

    /// The request that the poll sends: the six measured finger angles.
    pub fn poll_request(&self) -> (r: Vec<u8>)
        ensures
            r@ == read_frame(self.id(), REG_ANGLE_ACT, SIX_VALUE_BYTES),
    {
        proof {
            lemma_six_value_registers();
        }
        match read_6_request(self.hand_id, "angleAct") {
            Ok(frame) => frame,
            Err(_) => Vec::new(),
        }
    }

    /// Takes the poll's response: on six values the whole cache is replaced;
    /// otherwise the cache stays as it was and the reason is returned.
    pub fn apply_poll_response(&mut self, resp: &Vec<u8>) -> (r: Result<(), HandError>)
        ensures
            final(self).id() == old(self).id(),
            match six_values_of(resp@) {
                Ok(v) => r is Ok && final(self).positions() == v,
                Err(e) => r == Err::<(), HandError>(HandError::Frame(e))
                    && *final(self) == *old(self),
            },
    {
        match read_6_response(resp) {
            Ok(values) => {
                self.finger_positions = values;
                Ok(())
            },
            Err(e) => Err(HandError::Frame(e)),
        }
    }
}

} // verus!
