//! Wire types of the client input protocol.
use vstd::prelude::*;

verus! {

/// Sequence number of a player input command; zero is never handed out.
pub type InputSeq = u32;
/// Simulation tick.
pub type Tick = u64;
/// Network id of a player.
pub type PlayerNetId = u32;
/// Network id of a vehicle.
pub type VehicleNetId = u32;

/// What a command steers.
#[derive(Clone, Copy, Debug, PartialEq, Eq, Structural)]
pub enum ControlTarget {
    OnFoot,
    VehiclePilot { vehicle_id: VehicleNetId, seat_index: u8 },
}

/// Quantized analog axes, each in `-127..=127`.
#[derive(Clone, Copy, Debug, PartialEq, Eq, Structural)]
pub struct InputAxes {
    pub forward: i8,
    pub strafe: i8,
    pub throttle: i8,
    pub yaw: i8,
    pub pitch: i8,
    pub roll: i8,
}

/// Digital buttons.
#[derive(Clone, Copy, Debug, PartialEq, Eq, Structural)]
pub struct InputButtons {
    pub jump: bool,
    pub sprint: bool,
    pub brake: bool,
    pub interact: bool,
    pub primary_action: bool,
}

/// One player input command.
#[derive(Clone, Copy, Debug, PartialEq, Eq, Structural)]
pub struct PlayerInputCmd {
    pub seq: InputSeq,
    pub tick: Tick,
    pub player_id: PlayerNetId,
    pub target: ControlTarget,
    pub axes: InputAxes,
    pub buttons: InputButtons,
    /// Look delta in units of 1/4096 radian.
    pub look_delta_yaw: i16,
    /// Look delta in units of 1/4096 radian.
    pub look_delta_pitch: i16,
}

/// A batch of recent commands, oldest first, sent redundantly so that a
/// lost packet costs nothing.
#[derive(Clone, Debug)]
pub struct InputPacket {
    pub newest_seq: InputSeq,
    pub commands: Vec<PlayerInputCmd>,
}

} // verus!
