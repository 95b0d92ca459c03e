//! Turning a frame of player input into numbered commands.
use vstd::prelude::*;

use crate::client::protocol::{
    ControlTarget, InputAxes, InputButtons, InputSeq, PlayerInputCmd, PlayerNetId, Tick, VehicleNetId,
};

verus! {

/// The sequence number after `seq`: the next one up, wrapping past the
/// largest back to 1 (zero is never used).
pub open spec fn next_seq_after(seq: InputSeq) -> InputSeq {
    if seq == u32::MAX {
        1
    } else {
        (seq + 1) as InputSeq
    }
}

/// A frame of input already quantized to wire units.
#[derive(Clone, Copy, Debug, PartialEq, Eq, Structural)]
pub struct QuantizedInputFrame {
    pub axes: InputAxes,
    pub buttons: InputButtons,
    pub look_delta_yaw: i16,
    pub look_delta_pitch: i16,
}

/// The command with sequence number `seq` that carries `input` for `target`.
pub open spec fn command_for(
    seq: InputSeq,
    tick: Tick,
    player_id: PlayerNetId,
    target: ControlTarget,
    input: QuantizedInputFrame,
) -> PlayerInputCmd {
    PlayerInputCmd {
        seq,
        tick,
        player_id,
        target,
        axes: input.axes,
        buttons: input.buttons,
        look_delta_yaw: input.look_delta_yaw,
        look_delta_pitch: input.look_delta_pitch,
    }
}

/// Numbers the local player's commands.
#[derive(Debug)]
pub struct InputCommandSequencer {
    local_player_id: PlayerNetId,
    next_seq: InputSeq,
}

/// Abstract sequencer: the player it numbers commands for and the number the
/// next command gets.
pub ghost struct SequencerView {
    pub local_player_id: PlayerNetId,
    pub next_seq: InputSeq,
}

impl View for InputCommandSequencer {
    type V = SequencerView;

    closed spec fn view(&self) -> SequencerView {
        SequencerView { local_player_id: self.local_player_id, next_seq: self.next_seq }
    }
}

impl InputCommandSequencer {
    #[verifier::type_invariant]
    closed spec fn seq_nonzero(self) -> bool {
        self.next_seq != 0
    }

    /// A sequencer whose first command gets number 1.
    pub fn new(local_player_id: PlayerNetId) -> (s: Self)
        ensures
            s@.local_player_id == local_player_id,
            s@.next_seq == 1,
    {
        InputCommandSequencer { local_player_id, next_seq: 1 }
    }

    pub fn local_player_id(&self) -> (id: PlayerNetId)
        ensures
            id == self@.local_player_id,
    {
        self.local_player_id
    }

    /// The number the next command gets; never zero.
    pub fn next_seq(&self) -> (seq: InputSeq)
        ensures
            seq == self@.next_seq,
            seq != 0,
    {
        proof {
            use_type_invariant(self);
        }
        self.next_seq
    }

    /// Numbers an on-foot command.
    pub fn build_on_foot_command(&mut self, tick: Tick, input: QuantizedInputFrame) -> (cmd: PlayerInputCmd)
        ensures
            cmd == command_for(old(self)@.next_seq, tick, old(self)@.local_player_id, ControlTarget::OnFoot, input),
            cmd.seq != 0,
            final(self)@.local_player_id == old(self)@.local_player_id,
            final(self)@.next_seq == next_seq_after(old(self)@.next_seq),
    {
        self.build_command(tick, ControlTarget::OnFoot, input)
    }

    /// Numbers a command for the pilot of a vehicle seat.
    pub fn build_vehicle_pilot_command(
        &mut self,
        tick: Tick,
        vehicle_id: VehicleNetId,
        seat_index: u8,
        input: QuantizedInputFrame,
    ) -> (cmd: PlayerInputCmd)
        ensures
            cmd == command_for(
                old(self)@.next_seq,
                tick,
                old(self)@.local_player_id,
                ControlTarget::VehiclePilot { vehicle_id, seat_index },
                input,
            ),
            cmd.seq != 0,
            final(self)@.local_player_id == old(self)@.local_player_id,
            final(self)@.next_seq == next_seq_after(old(self)@.next_seq),
    {
        self.build_command(tick, ControlTarget::VehiclePilot { vehicle_id, seat_index }, input)
    }

    fn build_command(&mut self, tick: Tick, target: ControlTarget, input: QuantizedInputFrame) -> (cmd: PlayerInputCmd)
        ensures
            cmd == command_for(old(self)@.next_seq, tick, old(self)@.local_player_id, target, input),
            cmd.seq != 0,
            final(self)@.local_player_id == old(self)@.local_player_id,
            final(self)@.next_seq == next_seq_after(old(self)@.next_seq),
    {
        proof {
            use_type_invariant(&*self);
        }
        let seq = self.next_seq;
        let bumped = self.next_seq.wrapping_add(1);
        self.next_seq = if bumped < 1 {
            1
        } else {
            bumped
        };
        PlayerInputCmd {
            seq,
            tick,
            player_id: self.local_player_id,
            target,
            axes: input.axes,
            buttons: input.buttons,
            look_delta_yaw: input.look_delta_yaw,
            look_delta_pitch: input.look_delta_pitch,
        }
    }
}

} // verus!
