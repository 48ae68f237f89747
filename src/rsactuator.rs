//! The CAN motor backend's decisions: which transport a port name opens,
//! which configured motors a bus scan missed, the order of configuration
//! steps, and when a motor's feedback counts as fresh.
use vstd::prelude::*;
use crate::text::{has_prefix, starts_with_text};

verus! {

/// Feedback older than this many nanoseconds marks a motor offline.
pub const ONLINE_WINDOW_NANOS: u128 = 1_000_000_000;

/// The kind of transport that a port name stands for.
#[derive(Debug, Clone, Copy, PartialEq, Eq, Structural)]
pub enum TransportKind {
    /// A serial-to-CAN bridge, named by a `/dev/tty` device path.
    Ch341,
    /// A native CAN interface, named `can...`.
    SocketCan,
}

/// A port name that names no known kind of transport.
#[derive(Debug, Clone, Copy, PartialEq, Eq, Structural)]
pub enum PortError {
    InvalidPort,
}

/// The transport that a port name stands for, by its prefix.
pub open spec fn transport_of(port: Seq<char>) -> Option<TransportKind> {
    if has_prefix(port, "/dev/tty"@) {
        Some(TransportKind::Ch341)
    } else if has_prefix(port, "can"@) {
        Some(TransportKind::SocketCan)
    } else {
        None
    }
}

/// Tells a serial bridge from a native CAN interface by the port's name.
pub fn transport_kind(port: &str) -> (r: Result<TransportKind, PortError>)
    ensures
        match transport_of(port@) {
            Some(k) => r == Ok::<TransportKind, PortError>(k),
            None => r == Err::<TransportKind, PortError>(PortError::InvalidPort),
        },
{
    if starts_with_text(port, "/dev/tty") {
        Ok(TransportKind::Ch341)
    } else if starts_with_text(port, "can") {
        Ok(TransportKind::SocketCan)
    } else {
        Err(PortError::InvalidPort)
    }
}

/// The bus ID of an actuator: the low byte of its actuator ID.
pub fn motor_id(actuator_id: u32) -> (r: u8)
    ensures
        r == actuator_id % 256,
{
    (actuator_id % 256) as u8
}

/// Whether motor `id` answered the scan of some bus.
pub open spec fn motor_found(id: u8, discovered: Seq<Seq<u8>>) -> bool {
    exists|p: int| 0 <= p < discovered.len() && #[trigger] discovered[p].contains(id)
}

/// The positions in `configured` of the motors that no bus scan found, in
/// ascending order.
pub open spec fn missing_positions(configured: Seq<u8>, discovered: Seq<Seq<u8>>) -> Seq<usize>
    decreases configured.len(),
{
    if configured.len() == 0 {
        Seq::empty()
    } else {
        let prev = missing_positions(configured.drop_last(), discovered);
        if motor_found(configured.last(), discovered) {
            prev
        } else {
            prev.push((configured.len() - 1) as usize)
        }
    }
}

/// Whether `id` is among `ids`.
fn contains_id(ids: &Vec<u8>, id: u8) -> (r: bool)
    ensures
        r == ids@.contains(id),
{
    let mut i: usize = 0;
    while i < ids.len()
        invariant
            i <= ids@.len(),
            forall|k: int| 0 <= k < i ==> ids@[k] != id,
        decreases ids@.len() - i,
    {
        if ids[i] == id {
            return true;
        }
        i = i + 1;
    }
    false
}

/// Whether motor `id` answered the scan of some bus.
fn found_on_any_bus(discovered: &Vec<Vec<u8>>, id: u8) -> (r: bool)
    ensures
        r == motor_found(id, discovered.deep_view()),
{
    let mut p: usize = 0;
    while p < discovered.len()
        invariant
            p <= discovered@.len(),
            forall|k: int| 0 <= k < p ==> !(#[trigger] discovered.deep_view()[k]).contains(id),
        decreases discovered@.len() - p,
    {
        if contains_id(&discovered[p], id) {
            assert(discovered.deep_view()[p as int] == discovered@[p as int]@);
            return true;
        }
        p = p + 1;
    }
    false
}

/// The positions in `configured` of the motors that no bus scan found.
/// `discovered` holds, for each bus, the IDs that answered its scan.
pub fn missing_motors(configured: &Vec<u8>, discovered: &Vec<Vec<u8>>) -> (r: Vec<usize>)
    ensures
        r@ == missing_positions(configured@, discovered.deep_view()),
{
    let mut missing: Vec<usize> = Vec::new();
    let mut i: usize = 0;
    while i < configured.len()
        invariant
            i <= configured@.len(),
            missing@ == missing_positions(configured@.subrange(0, i as int), discovered.deep_view()),
        decreases configured@.len() - i,
    {
        proof {
            assert(configured@.subrange(0, i + 1).drop_last() =~= configured@.subrange(0, i as int));
        }
        if !found_on_any_bus(discovered, configured[i]) {
            missing.push(i);
        }
        i = i + 1;
    }
    assert(configured@.subrange(0, i as int) =~= configured@);
    missing
}

/// One step of a motor configuration, after its gains are set.
#[derive(Debug, Clone, Copy, PartialEq, Eq, Structural)]
pub enum ConfigStep {
    /// Switch torque on.
    Enable,
    /// Switch torque off.
    Disable,
    /// Take the present angle as zero.
    Zero,
    /// Give the motor a new bus ID.
    ChangeId(u8),
}

/// The switches of a configuration request that decide its steps.
#[derive(Debug, Clone, Copy, PartialEq, Eq, Structural)]
pub struct ConfigureFlags {
    pub actuator_id: u32,
    pub torque_enabled: Option<bool>,
    pub zero_position: Option<bool>,
    pub new_actuator_id: Option<u32>,
}

/// The steps that follow the gains, in their fixed order: torque on or off,
/// then zeroing, then the change of ID.
pub open spec fn configure_plan(flags: ConfigureFlags) -> Seq<ConfigStep> {
    let torque = match flags.torque_enabled {
        Some(true) => seq![ConfigStep::Enable],
        Some(false) => seq![ConfigStep::Disable],
        None => Seq::empty(),
    };
    let zero = if flags.zero_position == Some(true) {
        seq![ConfigStep::Zero]
    } else {
        Seq::empty()
    };
    let change = match flags.new_actuator_id {
        Some(n) => seq![ConfigStep::ChangeId((n % 256) as u8)],
        None => Seq::empty(),
    };
    torque + zero + change
}

/// The configuration steps to run after the gains, in the order they must run.
pub fn configure_steps(flags: &ConfigureFlags) -> (r: Vec<ConfigStep>)
    ensures
        r@ == configure_plan(*flags),
{
    let mut steps: Vec<ConfigStep> = Vec::new();
    match flags.torque_enabled {
        Some(true) => steps.push(ConfigStep::Enable),
        Some(false) => steps.push(ConfigStep::Disable),
        None => {},
    }
    if flags.zero_position == Some(true) {
        steps.push(ConfigStep::Zero);
    }
    match flags.new_actuator_id {
        Some(n) => steps.push(ConfigStep::ChangeId((n % 256) as u8)),
        None => {},
    }
    assert(steps@ =~= configure_plan(*flags));
    steps
}

/// Whether feedback of the given age counts as fresh. `None` stands for an
/// age that could not be measured, such as a timestamp in the future.
pub open spec fn fresh(age_nanos: Option<u128>) -> bool {
    match age_nanos {
        Some(a) => a < ONLINE_WINDOW_NANOS,
        None => false,
    }
}

/// Whether a motor whose last feedback is `age_nanos` old is online.
pub fn is_online(age_nanos: Option<u128>) -> (r: bool)
    ensures
        r == fresh(age_nanos),
        r ==> age_nanos is Some && age_nanos->0 < ONLINE_WINDOW_NANOS,
{
    match age_nanos {
        Some(a) => a < ONLINE_WINDOW_NANOS,
        None => false,
    }
}

} // verus!
