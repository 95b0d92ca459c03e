use subdivism::client::input::{InputCommandSequencer, QuantizedInputFrame};
use subdivism::client::network::{RemoteClientStub, StartupGameMode};
use subdivism::client::prediction::ClientPredictionState;
use subdivism::client::protocol::{ControlTarget, InputAxes, InputButtons, InputPacket, PlayerInputCmd};

fn frame(forward: i8) -> QuantizedInputFrame {
    QuantizedInputFrame {
        axes: InputAxes { forward, strafe: 0, throttle: 0, yaw: 0, pitch: 0, roll: 0 },
        buttons: InputButtons { jump: false, sprint: true, brake: false, interact: false, primary_action: false },
        look_delta_yaw: 12,
        look_delta_pitch: -3,
    }
}

fn command(seq: u32) -> PlayerInputCmd {
    let mut sequencer = InputCommandSequencer::new(9);
    let mut cmd = sequencer.build_on_foot_command(100, frame(1));
    cmd.seq = seq;
    cmd
}

#[test]
fn sequencer_numbers_commands_from_one() {
    let mut sequencer = InputCommandSequencer::new(7);
    assert_eq!(sequencer.local_player_id(), 7);
    assert_eq!(sequencer.next_seq(), 1);
    let first = sequencer.build_on_foot_command(40, frame(127));
    assert_eq!(first.seq, 1);
    assert_eq!(first.tick, 40);
    assert_eq!(first.player_id, 7);
    assert_eq!(first.target, ControlTarget::OnFoot);
    assert_eq!(first.axes.forward, 127);
    assert_eq!(first.look_delta_pitch, -3);
    let second = sequencer.build_vehicle_pilot_command(41, 3, 1, frame(-5));
    assert_eq!(second.seq, 2);
    assert_eq!(second.target, ControlTarget::VehiclePilot { vehicle_id: 3, seat_index: 1 });
    assert_eq!(sequencer.next_seq(), 3);
}

#[test]
fn startup_modes_have_labels() {
    assert_eq!(StartupGameMode::SinglePlayer.label(), "SOLO");
    assert_eq!(StartupGameMode::HostOpenServer.menu_label(), "HOST (OPEN SERVER)");
    assert_eq!(StartupGameMode::MultiplayerDirect.network_label(), "multiplayer-direct");
    let mut stub = RemoteClientStub::new(4, "127.0.0.1:4000".to_string());
    assert_eq!(stub.mode(), StartupGameMode::MultiplayerDirect);
    assert_eq!(stub.dropped_packet_count(), 0);
    stub.enqueue_input_packet(InputPacket { newest_seq: 1, commands: vec![command(1)] });
    stub.enqueue_input_packet(InputPacket { newest_seq: 2, commands: vec![] });
    assert_eq!(stub.dropped_packet_count(), 2);
}

#[test]
fn prediction_acknowledges_only_newer_sequences() {
    let mut state = ClientPredictionState::new(20, 4);
    for seq in 1..=5 {
        state.record_local_input(command(seq));
    }
    assert_eq!(state.pending_input_count(), 5);
    state.acknowledge_through(3);
    assert_eq!(state.pending_input_count(), 2);
    assert_eq!(state.last_acked_seq(), 3);
    let before: Vec<u32> = state.pending_inputs().iter().map(|c| c.seq).collect();
    state.acknowledge_through(3);
    state.acknowledge_through(2);
    let after: Vec<u32> = state.pending_inputs().iter().map(|c| c.seq).collect();
    assert_eq!(before, after);
    assert_eq!(after, vec![4, 5]);
    state.acknowledge_through(99);
    assert_eq!(state.pending_input_count(), 0);
}

#[test]
fn prediction_sends_one_packet_per_interval_of_newest_commands() {
    let mut state = ClientPredictionState::new(20, 2);
    state.tick_network_send(200_000_000);
    assert_eq!(state.staged_packet_count(), 0);
    for seq in 1..=3 {
        state.record_local_input(command(seq));
    }
    state.tick_network_send(49_999_999);
    assert_eq!(state.staged_packet_count(), 0);
    state.tick_network_send(1);
    assert_eq!(state.staged_packet_count(), 1);
    assert_eq!(state.last_sent_seq(), 3);
    let packet = state.pop_outbound_packet().expect("one packet");
    assert_eq!(packet.newest_seq, 3);
    let seqs: Vec<u32> = packet.commands.iter().map(|c| c.seq).collect();
    assert_eq!(seqs, vec![2, 3]);
    // A long frame banks at most four intervals.
    state.tick_network_send(10_000_000_000);
    assert_eq!(state.staged_packet_count(), 4);
    assert!(state.pop_outbound_packet().is_some());
    // A zero send rate counts as one packet a second.
    let mut slow = ClientPredictionState::new(0, 0);
    slow.record_local_input(command(8));
    slow.tick_network_send(999_999_999);
    assert_eq!(slow.staged_packet_count(), 0);
    slow.tick_network_send(1);
    let packet = slow.pop_outbound_packet().expect("one packet");
    assert_eq!(packet.commands.len(), 1);
    assert!(slow.pop_outbound_packet().is_none());
}

#[test]
fn prediction_takes_a_given_send_period() {
    let mut state = ClientPredictionState::with_send_interval(16_666_668, 0);
    state.record_local_input(command(1));
    state.tick_network_send(16_666_667);
    assert_eq!(state.staged_packet_count(), 0);
    state.tick_network_send(1);
    assert_eq!(state.staged_packet_count(), 1);
}
