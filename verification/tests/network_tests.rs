use intercom::addr::IpAddress;
use intercom::addr::PeerAddr;
use intercom::network::NetworkAction;
use intercom::network::NetworkState;
use intercom::network::NetworkTaskCommand;
use intercom::network::handle_command;
use intercom::network::handle_datagram;
use intercom::packet::NetworkPacket;
use intercom::ui::CallScreenCommand;

fn peer(a: u8, b: u8, c: u8, d: u8) -> PeerAddr {
    PeerAddr { ip: IpAddress::V4(a, b, c, d), port: 33445 }
}

#[test]
fn outbound_call_caller_hangs_up() {
    // UI dials: a StartConnection datagram goes out, state becomes pending.
    let callee = peer(192, 0, 2, 7);
    let (state, actions, exit) = handle_command(
        NetworkState::Stopped,
        NetworkTaskCommand::StartConnection(callee),
    );
    assert_eq!(state, NetworkState::PendingConnection(callee));
    assert!(!exit);
    assert_eq!(actions.len(), 1);
    match &actions[0] {
        NetworkAction::SendDatagram { dest, bytes } => {
            assert_eq!(*dest, callee);
            assert_eq!(*bytes, vec![0u8]);
        }
        _ => panic!("expected a datagram"),
    }

    // The mock peer replies Accept: the UI hears StartCall.
    let accept = NetworkPacket::new_accept().serialize();
    let (state, actions) = handle_datagram(state, callee, accept);
    assert_eq!(state, NetworkState::InCall(callee));
    assert_eq!(actions.len(), 1);
    assert!(matches!(
        actions[0],
        NetworkAction::NotifyUi { command: CallScreenCommand::StartCall(p) } if p == callee
    ));

    // The caller hangs up: a StopConnection datagram goes out, state ends Stopped.
    let (state, actions, exit) = handle_command(state, NetworkTaskCommand::StopConnection);
    assert_eq!(state, NetworkState::Stopped);
    assert!(!exit);
    assert_eq!(actions.len(), 1);
    match &actions[0] {
        NetworkAction::SendDatagram { dest, bytes } => {
            assert_eq!(*dest, callee);
            assert_eq!(*bytes, vec![1u8]);
        }
        _ => panic!("expected a datagram"),
    }
}

#[test]
fn inbound_call_callee_accepts() {
    // A peer rings: state pending, heartbeat reply, IncomingCall to the UI.
    let caller = peer(198, 51, 100, 3);
    let ring = NetworkPacket::new_start_connection().serialize();
    let (state, actions) = handle_datagram(NetworkState::Stopped, caller, ring);
    assert_eq!(state, NetworkState::PendingConnection(caller));
    assert_eq!(actions.len(), 2);
    match &actions[0] {
        NetworkAction::SendDatagram { dest, bytes } => {
            assert_eq!(*dest, caller);
            assert_eq!(*bytes, vec![3u8]);
        }
        _ => panic!("expected a heartbeat datagram"),
    }
    assert!(matches!(
        actions[1],
        NetworkAction::NotifyUi { command: CallScreenCommand::IncomingCall(p) } if p == caller
    ));

    // The user accepts: an Accept datagram goes out, state InCall, and no
    // spurious StartCall reaches the UI.
    let (state, actions, exit) = handle_command(state, NetworkTaskCommand::SendAccept);
    assert_eq!(state, NetworkState::InCall(caller));
    assert!(!exit);
    assert_eq!(actions.len(), 1);
    match &actions[0] {
        NetworkAction::SendDatagram { dest, bytes } => {
            assert_eq!(*dest, caller);
            assert_eq!(*bytes, vec![4u8]);
        }
        _ => panic!("expected an accept datagram"),
    }
}

#[test]
fn media_gating() {
    // Audio while Stopped: no datagram.
    let (state, actions, _) = handle_command(
        NetworkState::Stopped,
        NetworkTaskCommand::SendAudio(vec![0x0001i16, 0x0002i16]),
    );
    assert_eq!(state, NetworkState::Stopped);
    assert!(actions.is_empty());

    // Audio while InCall: exactly one datagram to the peer, LE encoded.
    let p = peer(203, 0, 113, 9);
    let (state, actions, _) = handle_command(
        NetworkState::InCall(p),
        NetworkTaskCommand::SendAudio(vec![0x0001i16, 0x0002i16]),
    );
    assert_eq!(state, NetworkState::InCall(p));
    assert_eq!(actions.len(), 1);
    match &actions[0] {
        NetworkAction::SendDatagram { dest, bytes } => {
            assert_eq!(*dest, p);
            assert_eq!(*bytes, vec![0x02u8, 0x01, 0x00, 0x02, 0x00]);
        }
        _ => panic!("expected a datagram"),
    }
}

#[test]
fn audio_ingress_forwarded_to_playback() {
    let p = peer(203, 0, 113, 9);
    let datagram = vec![0x02u8, 0x01, 0x00, 0x02, 0x00, 0x03, 0x00, 0x04, 0x00];
    let (state, actions) = handle_datagram(NetworkState::InCall(p), p, datagram);
    assert_eq!(state, NetworkState::InCall(p));
    assert_eq!(actions.len(), 1);
    match &actions[0] {
        NetworkAction::PlayAudio { samples } => {
            assert_eq!(*samples, vec![1i16, 2, 3, 4]);
        }
        _ => panic!("expected playback audio"),
    }
}

#[test]
fn audio_ingress_partial_frame_dropped() {
    // A payload that is not a whole number of stereo frames is dropped.
    let p = peer(203, 0, 113, 9);
    let datagram = vec![0x02u8, 0x01, 0x00];
    let (state, actions) = handle_datagram(NetworkState::InCall(p), p, datagram);
    assert_eq!(state, NetworkState::InCall(p));
    assert!(actions.is_empty());
}

#[test]
fn stop_datagram_tears_down() {
    let p = peer(203, 0, 113, 9);
    let stop = NetworkPacket::new_stop_connection().serialize();
    let (state, actions) = handle_datagram(NetworkState::InCall(p), p, stop.clone());
    assert_eq!(state, NetworkState::Stopped);
    assert_eq!(actions.len(), 1);
    assert!(matches!(
        actions[0],
        NetworkAction::NotifyUi { command: CallScreenCommand::StopCall }
    ));

    let (state, actions) = handle_datagram(NetworkState::PendingConnection(p), p, stop);
    assert_eq!(state, NetworkState::Stopped);
    assert_eq!(actions.len(), 1);
}

#[test]
fn accept_from_another_source_ignored() {
    let p = peer(203, 0, 113, 9);
    let other = peer(203, 0, 113, 10);
    let accept = NetworkPacket::new_accept().serialize();
    let (state, actions) = handle_datagram(NetworkState::PendingConnection(p), other, accept);
    assert_eq!(state, NetworkState::PendingConnection(p));
    assert!(actions.is_empty());
}

#[test]
fn malformed_packet_tolerance() {
    // Kind byte 7 and a zero-length datagram leave every state unchanged.
    let p = peer(203, 0, 113, 9);
    let states = vec![
        NetworkState::Stopped,
        NetworkState::PendingConnection(p),
        NetworkState::InCall(p),
    ];
    for s in states {
        let (after, actions) = handle_datagram(s, p, vec![7u8, 1, 2]);
        assert_eq!(after, s);
        assert!(actions.is_empty());
        let (after, actions) = handle_datagram(s, p, Vec::new());
        assert_eq!(after, s);
        assert!(actions.is_empty());
    }
}

#[test]
fn heartbeat_while_pending_is_ignored() {
    let p = peer(192, 0, 2, 7);
    let heartbeat = NetworkPacket::new_heartbeat().serialize();
    let (state, actions) = handle_datagram(NetworkState::PendingConnection(p), p, heartbeat);
    assert_eq!(state, NetworkState::PendingConnection(p));
    assert!(actions.is_empty());
}

#[test]
fn stop_command_while_pending_sends_nothing() {
    let p = peer(192, 0, 2, 7);
    let (state, actions, _) =
        handle_command(NetworkState::PendingConnection(p), NetworkTaskCommand::StopConnection);
    assert_eq!(state, NetworkState::Stopped);
    assert!(actions.is_empty());
}

#[test]
fn redial_replaces_pending_peer() {
    let first = peer(192, 0, 2, 1);
    let second = peer(192, 0, 2, 2);
    let (state, _, _) = handle_command(
        NetworkState::PendingConnection(first),
        NetworkTaskCommand::StartConnection(second),
    );
    assert_eq!(state, NetworkState::PendingConnection(second));
}

#[test]
fn exit_command_leaves_loop() {
    let (state, actions, exit) = handle_command(NetworkState::Stopped, NetworkTaskCommand::Exit);
    assert_eq!(state, NetworkState::Stopped);
    assert!(actions.is_empty());
    assert!(exit);
}
