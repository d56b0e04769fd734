//! The UDP protocol engine: a three-state machine (`Stopped`,
//! `PendingConnection`, `InCall`) driven by commands from the other tasks
//! and by received datagrams.  Each step returns the datagrams to send, the
//! notifications for the UI and the decoded media for playback; the socket
//! itself lives outside the core and performs them.

use vstd::prelude::*;

use crate::addr::PeerAddr;
use crate::packet::NetworkPacket;
use crate::packet::NetworkPacketType;
use crate::packet::PacketModel;
use crate::packet::bytes_of_samples;
use crate::packet::bytes_to_samples;
use crate::packet::samples_of_bytes;
use crate::packet::spec_deserialize;
use crate::packet::spec_serialize;
use crate::ui::CallScreenCommand;

verus! {

/// The commands the network task receives.
pub enum NetworkTaskCommand {
    StartConnection(PeerAddr),
    StopConnection,
    SendAccept,
    SendAudio(Vec<i16>),
    Exit,
}

/// The protocol state: idle, awaiting call establishment with a peer, or in
/// a call with a peer.  A peer is present exactly in the latter two.
#[derive(Clone, Copy, PartialEq, Eq, Structural, Debug)]
pub enum NetworkState {
    PendingConnection(PeerAddr),
    InCall(PeerAddr),
    Stopped,
}

/// An effect the engine asks its surroundings to perform.
pub enum NetworkAction {
    /// Send these bytes as one UDP datagram to this peer.
    SendDatagram { dest: PeerAddr, bytes: Vec<u8> },
    /// Hand this command to the UI task.
    NotifyUi { command: CallScreenCommand },
    /// Hand these decoded samples to the playback task.
    PlayAudio { samples: Vec<i16> },
}

/// The wire form of a payload-free packet of the given kind.
pub open spec fn empty_packet_bytes(kind: NetworkPacketType) -> Seq<u8> {
    spec_serialize(PacketModel { kind, payload: Seq::empty() })
}

/// The wire form of an `Audio` packet carrying the given samples.
pub open spec fn audio_packet_bytes(samples: Seq<i16>) -> Seq<u8> {
    spec_serialize(
        PacketModel { kind: NetworkPacketType::Audio, payload: bytes_of_samples(samples) },
    )
}

/// The peer the state carries, if any.
pub open spec fn state_peer(s: NetworkState) -> Option<PeerAddr> {
    match s {
        NetworkState::PendingConnection(p) => Some(p),
        NetworkState::InCall(p) => Some(p),
        NetworkState::Stopped => None,
    }
}

/// The state after one command: dialing moves to `PendingConnection` towards
/// the dialed peer from any state, `SendAccept` establishes the call when
/// one is pending, `StopConnection` always ends in `Stopped`, and media
/// egress and `Exit` leave the state alone.
pub open spec fn spec_state_after_command(s: NetworkState, cmd: NetworkTaskCommand) -> NetworkState {
    match cmd {
        NetworkTaskCommand::StartConnection(peer) => NetworkState::PendingConnection(peer),
        NetworkTaskCommand::SendAccept => match s {
            NetworkState::PendingConnection(p) => NetworkState::InCall(p),
            _ => s,
        },
        NetworkTaskCommand::StopConnection => NetworkState::Stopped,
        NetworkTaskCommand::SendAudio(_) => s,
        NetworkTaskCommand::Exit => s,
    }
}

/// The state after one received datagram: a `StartConnection` rings while
/// `Stopped`; an `Accept` from the pending peer establishes the call; a
/// `StopConnection` tears a pending or established call down; everything
/// else, malformed datagrams included, changes nothing.
pub open spec fn spec_state_after_datagram(
    s: NetworkState,
    source: PeerAddr,
    data: Seq<u8>,
) -> NetworkState {
    match spec_deserialize(data) {
        Some(p) => match s {
            NetworkState::Stopped => if p.kind is StartConnection {
                NetworkState::PendingConnection(source)
            } else {
                s
            },
            NetworkState::PendingConnection(q) => if p.kind is Accept && source == q {
                NetworkState::InCall(q)
            } else if p.kind is StopConnection {
                NetworkState::Stopped
            } else {
                s
            },
            NetworkState::InCall(q) => if p.kind is StopConnection {
                NetworkState::Stopped
            } else {
                s
            },
        },
        None => s,
    }
}

/// Every cell of the protocol's state table is defined: from any state,
/// every command and every datagram (well-formed or not, from any source)
/// lead to a next state, and a next state carries a peer exactly when it is
/// `PendingConnection` or `InCall` — reaching `Stopped` always erases the
/// peer identity.
pub proof fn lemma_transition_total(
    s: NetworkState,
    cmd: NetworkTaskCommand,
    source: PeerAddr,
    data: Seq<u8>,
)
    ensures
        state_peer(spec_state_after_command(s, cmd)) is Some <==> (spec_state_after_command(s, cmd)
            is PendingConnection || spec_state_after_command(s, cmd) is InCall),
        state_peer(spec_state_after_datagram(s, source, data)) is Some <==> (
        spec_state_after_datagram(s, source, data) is PendingConnection || spec_state_after_datagram(
            s,
            source,
            data,
        ) is InCall),
{
}

/// Apply one command from the other tasks to the engine.  Returns the next
/// state, the actions to perform, and whether the task must exit.  Media is
/// admitted to the wire only while `InCall`, and only towards the call peer.
pub fn handle_command(state: NetworkState, cmd: NetworkTaskCommand) -> (r: (
    NetworkState,
    Vec<NetworkAction>,
    bool,
))
    ensures
        r.0 == spec_state_after_command(state, cmd),
        r.2 == (cmd is Exit),
        cmd matches NetworkTaskCommand::StartConnection(peer) ==> r.1@.len() == 1 && (r.1@[0]
            matches NetworkAction::SendDatagram { dest, bytes } && dest == peer && bytes@
            == empty_packet_bytes(NetworkPacketType::StartConnection)),
        cmd is SendAccept ==> match state {
            NetworkState::PendingConnection(p) => r.1@.len() == 1 && (r.1@[0]
                matches NetworkAction::SendDatagram { dest, bytes } && dest == p && bytes@
                == empty_packet_bytes(NetworkPacketType::Accept)),
            _ => r.1@.len() == 0,
        },
        cmd is StopConnection ==> match state {
            NetworkState::InCall(p) => r.1@.len() == 1 && (r.1@[0]
                matches NetworkAction::SendDatagram { dest, bytes } && dest == p && bytes@
                == empty_packet_bytes(NetworkPacketType::StopConnection)),
            _ => r.1@.len() == 0,
        },
        cmd matches NetworkTaskCommand::SendAudio(samples) ==> match state {
            NetworkState::InCall(p) => r.1@.len() == 1 && (r.1@[0]
                matches NetworkAction::SendDatagram { dest, bytes } && dest == p && bytes@
                == audio_packet_bytes(samples@)),
            _ => r.1@.len() == 0,
        },
        cmd is Exit ==> r.1@.len() == 0,
{
    let mut actions: Vec<NetworkAction> = Vec::new();
    match cmd {
        NetworkTaskCommand::StartConnection(peer) => {
            let packet = NetworkPacket::new_start_connection();
            let bytes = packet.serialize();
            actions.push(NetworkAction::SendDatagram { dest: peer, bytes });
            (NetworkState::PendingConnection(peer), actions, false)
        },
        NetworkTaskCommand::SendAccept => {
            match state {
                NetworkState::PendingConnection(peer) => {
                    let packet = NetworkPacket::new_accept();
                    let bytes = packet.serialize();
                    actions.push(NetworkAction::SendDatagram { dest: peer, bytes });
                    (NetworkState::InCall(peer), actions, false)
                },
                _ => (state, actions, false),
            }
        },
        NetworkTaskCommand::StopConnection => {
            match state {
                NetworkState::InCall(peer) => {
                    let packet = NetworkPacket::new_stop_connection();
                    let bytes = packet.serialize();
                    actions.push(NetworkAction::SendDatagram { dest: peer, bytes });
                    (NetworkState::Stopped, actions, false)
                },
                _ => (NetworkState::Stopped, actions, false),
            }
        },
        NetworkTaskCommand::SendAudio(samples) => {
            match state {
                NetworkState::InCall(peer) => {
                    let packet = NetworkPacket::new_audio(samples);
                    let bytes = packet.serialize();
                    actions.push(NetworkAction::SendDatagram { dest: peer, bytes });
                    (state, actions, false)
                },
                _ => (state, actions, false),
            }
        },
        NetworkTaskCommand::Exit => (state, actions, true),
    }
}

/// Apply one received datagram to the engine.  Returns the next state and
/// the actions to perform.  Empty datagrams, unknown kind bytes and `Audio`
/// payloads that are not whole stereo frames are discarded without any state
/// change; incoming rings are answered with a `Heartbeat` and reported to
/// the UI; media is forwarded to playback only while `InCall`.
pub fn handle_datagram(state: NetworkState, source: PeerAddr, data: Vec<u8>) -> (r: (
    NetworkState,
    Vec<NetworkAction>,
))
    ensures
        r.0 == spec_state_after_datagram(state, source, data@),
        spec_deserialize(data@) is None ==> r.1@.len() == 0,
        spec_deserialize(data@) matches Some(p) ==> match state {
            NetworkState::Stopped => {
                if p.kind is StartConnection {
                    r.1@.len() == 2 && (r.1@[0] matches NetworkAction::SendDatagram { dest, bytes }
                        && dest == source && bytes@ == empty_packet_bytes(
                        NetworkPacketType::Heartbeat,
                    )) && r.1@[1] == (NetworkAction::NotifyUi {
                        command: CallScreenCommand::IncomingCall(source),
                    })
                } else {
                    r.1@.len() == 0
                }
            },
            NetworkState::PendingConnection(q) => {
                if p.kind is Accept && source == q {
                    r.1@.len() == 1 && r.1@[0] == (NetworkAction::NotifyUi {
                        command: CallScreenCommand::StartCall(q),
                    })
                } else if p.kind is StopConnection {
                    r.1@.len() == 1 && r.1@[0] == (NetworkAction::NotifyUi {
                        command: CallScreenCommand::StopCall,
                    })
                } else {
                    r.1@.len() == 0
                }
            },
            NetworkState::InCall(q) => {
                if p.kind is Audio && p.payload.len() % 4 == 0 {
                    r.1@.len() == 1 && (r.1@[0] matches NetworkAction::PlayAudio { samples }
                        && samples@ == samples_of_bytes(p.payload))
                } else if p.kind is StopConnection {
                    r.1@.len() == 1 && r.1@[0] == (NetworkAction::NotifyUi {
                        command: CallScreenCommand::StopCall,
                    })
                } else {
                    r.1@.len() == 0
                }
            },
        },
{
    let mut actions: Vec<NetworkAction> = Vec::new();
    let packet = match NetworkPacket::deserialize(data) {
        Some(p) => p,
        None => {
            return (state, actions);
        },
    };
    match state {
        NetworkState::Stopped => {
            match packet.packet_type {
                NetworkPacketType::StartConnection => {
                    let heartbeat = NetworkPacket::new_heartbeat();
                    let bytes = heartbeat.serialize();
                    actions.push(NetworkAction::SendDatagram { dest: source, bytes });
                    actions.push(
                        NetworkAction::NotifyUi {
                            command: CallScreenCommand::IncomingCall(source),
                        },
                    );
                    (NetworkState::PendingConnection(source), actions)
                },
                _ => (state, actions),
            }
        },
        NetworkState::PendingConnection(peer) => {
            match packet.packet_type {
                NetworkPacketType::Accept => {
                    if source == peer {
                        actions.push(
                            NetworkAction::NotifyUi { command: CallScreenCommand::StartCall(peer) },
                        );
                        (NetworkState::InCall(peer), actions)
                    } else {
                        (state, actions)
                    }
                },
                NetworkPacketType::StopConnection => {
                    actions.push(NetworkAction::NotifyUi { command: CallScreenCommand::StopCall });
                    (NetworkState::Stopped, actions)
                },
                _ => (state, actions),
            }
        },
        NetworkState::InCall(_) => {
            match packet.packet_type {
                NetworkPacketType::Audio => {
                    if packet.data.len() % 4 == 0 {
                        let samples = bytes_to_samples(&packet.data);
                        actions.push(NetworkAction::PlayAudio { samples });
                        (state, actions)
                    } else {
                        (state, actions)
                    }
                },
                NetworkPacketType::StopConnection => {
                    actions.push(NetworkAction::NotifyUi { command: CallScreenCommand::StopCall });
                    (NetworkState::Stopped, actions)
                },
                _ => (state, actions),
            }
        },
    }
}

} // verus!
