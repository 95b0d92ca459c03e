//! How a client starts a session, and the direct-connect client stub.
use vstd::prelude::*;

use crate::client::protocol::{InputPacket, PlayerNetId};

verus! {

/// How the game was started.
#[derive(Clone, Copy, Debug, PartialEq, Eq, Structural)]
pub enum StartupGameMode {
    SinglePlayer,
    HostOpenServer,
    MultiplayerDirect,
}

impl StartupGameMode {
    pub fn label(self) -> (s: &'static str)
        ensures
            s@ == match self {
                StartupGameMode::SinglePlayer => "SOLO"@,
                StartupGameMode::HostOpenServer => "HOST"@,
                StartupGameMode::MultiplayerDirect => "JOIN"@,
            },
    {
        match self {
            StartupGameMode::SinglePlayer => "SOLO",
            StartupGameMode::HostOpenServer => "HOST",
            StartupGameMode::MultiplayerDirect => "JOIN",
        }
    }

    pub fn menu_label(self) -> (s: &'static str)
        ensures
            s@ == match self {
                StartupGameMode::SinglePlayer => "SOLO (LOCAL AUTHORITY)"@,
                StartupGameMode::HostOpenServer => "HOST (OPEN SERVER)"@,
                StartupGameMode::MultiplayerDirect => "JOIN SERVER (DIRECT)"@,
            },
    {
        match self {
            StartupGameMode::SinglePlayer => "SOLO (LOCAL AUTHORITY)",
            StartupGameMode::HostOpenServer => "HOST (OPEN SERVER)",
            StartupGameMode::MultiplayerDirect => "JOIN SERVER (DIRECT)",
        }
    }

    pub fn network_label(self) -> (s: &'static str)
        ensures
            s@ == match self {
                StartupGameMode::SinglePlayer => "singleplayer-local"@,
                StartupGameMode::HostOpenServer => "host-open-server"@,
                StartupGameMode::MultiplayerDirect => "multiplayer-direct"@,
            },
    {
        match self {
            StartupGameMode::SinglePlayer => "singleplayer-local",
            StartupGameMode::HostOpenServer => "host-open-server",
            StartupGameMode::MultiplayerDirect => "multiplayer-direct",
        }
    }
}

/// A client for a remote server that is not connected yet: input packets
/// are counted and dropped, and no snapshots ever arrive.
pub struct RemoteClientStub {
    local_player_id: PlayerNetId,
    remote_address: String,
    dropped_packet_count: u64,
}

impl RemoteClientStub {
    pub fn new(local_player_id: PlayerNetId, remote_address: String) -> (stub: Self)
        ensures
            stub.local_player_id() == local_player_id,
            stub.remote_address()@ == remote_address@,
            stub.dropped_packets() == 0,
    {
        RemoteClientStub { local_player_id, remote_address, dropped_packet_count: 0 }
    }

    pub closed spec fn local_player_id(&self) -> PlayerNetId {
        self.local_player_id
    }

    pub closed spec fn remote_address(&self) -> String {
        self.remote_address
    }

    pub closed spec fn dropped_packets(&self) -> u64 {
        self.dropped_packet_count
    }

    /// The stub always speaks for a direct-connect session.
    pub fn mode(&self) -> (mode: StartupGameMode)
        ensures
            mode == StartupGameMode::MultiplayerDirect,
    {
        StartupGameMode::MultiplayerDirect
    }

    /// Drops the packet, counting it (the count saturates).
    pub fn enqueue_input_packet(&mut self, packet: InputPacket)
        ensures
            final(self).dropped_packets() == if old(self).dropped_packets() == u64::MAX {
                u64::MAX
            } else {
                (old(self).dropped_packets() + 1) as u64
            },
            final(self).local_player_id() == old(self).local_player_id(),
            final(self).remote_address() == old(self).remote_address(),
    {
        self.dropped_packet_count = self.dropped_packet_count.saturating_add(1);
    }

    /// Number of input packets dropped so far.
    pub fn dropped_packet_count(&self) -> (n: u64)
        ensures
            n == self.dropped_packets(),
    {
        self.dropped_packet_count
    }
}

} // verus!
