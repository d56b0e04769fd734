use intercom::addr::IpAddress;
use intercom::addr::PeerAddr;
use intercom::capture::InputAudioCommand;
use intercom::network::NetworkTaskCommand;
use intercom::playback::OutputAudioTaskCommand;
use intercom::ui::AppState;
use intercom::ui::CallScreenCommand;
use intercom::ui::CallScreenStatus;
use intercom::ui::KeyInput;
use intercom::ui::LedColor;
use intercom::ui::LedWrite;
use intercom::ui::ScreenState;
use intercom::ui::UiAction;

fn peer(a: u8, b: u8, c: u8, d: u8) -> PeerAddr {
    PeerAddr { ip: IpAddress::V4(a, b, c, d), port: 33445 }
}

fn ringing_app() -> AppState {
    let mut app = AppState::new(vec![9i16, 9, 9]);
    let (_, quit) = app.handle_command(CallScreenCommand::IncomingCall(peer(198, 51, 100, 3)), 0);
    assert!(!quit);
    app
}

fn call_volume(app: &AppState) -> i64 {
    match &app.screen_state {
        ScreenState::Call(c) => c.volume,
        _ => panic!("expected the call screen"),
    }
}

#[test]
fn volume_clamp_up() {
    // From volume 98, three increments end at 100, not 113.
    let mut app = ringing_app();
    match &mut app.screen_state {
        ScreenState::Call(c) => c.volume = 98,
        _ => unreachable!(),
    }
    for _ in 0..3 {
        app.handle_command(CallScreenCommand::IncreaseVolume, 0);
    }
    assert_eq!(call_volume(&app), 100);
}

#[test]
fn volume_clamp_down() {
    // From volume 2, three decrements end at 0, not -13.
    let mut app = ringing_app();
    match &mut app.screen_state {
        ScreenState::Call(c) => c.volume = 2,
        _ => unreachable!(),
    }
    for _ in 0..3 {
        app.handle_command(CallScreenCommand::DecreaseVolume, 0);
    }
    assert_eq!(call_volume(&app), 0);
}

#[test]
fn volume_commands_reach_playback() {
    let mut app = ringing_app();
    let (actions, _) = app.handle_command(CallScreenCommand::DecreaseVolume, 0);
    assert_eq!(actions.len(), 1);
    assert!(matches!(
        actions[0],
        UiAction::Playback(OutputAudioTaskCommand::SetVolume(95))
    ));
}

#[test]
fn toggle_mute_flips_and_notifies() {
    let mut app = ringing_app();
    let (actions, _) = app.handle_command(CallScreenCommand::ToggleMute, 0);
    assert!(matches!(
        actions[0],
        UiAction::Playback(OutputAudioTaskCommand::SetMute(true))
    ));
    let (actions, _) = app.handle_command(CallScreenCommand::ToggleMute, 0);
    assert!(matches!(
        actions[0],
        UiAction::Playback(OutputAudioTaskCommand::SetMute(false))
    ));
}

fn expect_led_row(writes: &[UiAction], expected: &[(u8, LedColor, u8)]) {
    let led_writes: Vec<LedWrite> = writes
        .iter()
        .filter_map(|a| match a {
            UiAction::Led(w) => Some(*w),
            _ => None,
        })
        .collect();
    assert_eq!(led_writes.len(), expected.len());
    for (w, (led, color, value)) in led_writes.iter().zip(expected.iter()) {
        assert_eq!(w.led, *led);
        assert_eq!(w.color, *color);
        assert_eq!(w.value, *value);
    }
}

#[test]
fn led_ring_cycles() {
    // Starting at phase 0, five calls visit phases 1,2,3,4,0 and write the
    // patterns of the animation table.
    let mut app = AppState::new(Vec::new());
    assert_eq!(app.animation_state, 0);

    let rows: Vec<Vec<u8>> = vec![
        vec![0, 0, 0, 0, 0, 0, 0, 0, 0],
        vec![128, 128, 128, 128, 128, 128, 128, 128, 128],
        vec![128, 0, 0, 0, 128, 0, 0, 0, 128],
        vec![0, 128, 0, 0, 0, 128, 128, 0, 0],
        vec![0, 0, 128, 128, 0, 0, 0, 128, 0],
    ];
    let expected_phases = vec![1u8, 2, 3, 4, 0];
    for (row, phase) in rows.iter().zip(expected_phases.iter()) {
        let writes = app.animation();
        assert_eq!(app.animation_state, *phase);
        assert_eq!(writes.len(), 9);
        for (k, w) in writes.iter().enumerate() {
            assert_eq!(w.led, (k / 3) as u8);
            let color = match k % 3 {
                0 => LedColor::Red,
                1 => LedColor::Green,
                _ => LedColor::Blue,
            };
            assert_eq!(w.color, color);
            assert_eq!(w.value, row[k]);
        }
    }
}

#[test]
fn stop_animation_darkens_and_resets() {
    let mut app = AppState::new(Vec::new());
    app.animation();
    app.animation();
    assert_eq!(app.animation_state, 2);
    let writes = app.stop_animation();
    assert_eq!(app.animation_state, 0);
    assert_eq!(writes.len(), 9);
    for w in writes {
        assert_eq!(w.value, 0);
    }
}

#[test]
fn animation_ticks_only_while_ringing() {
    let mut app = AppState::new(Vec::new());
    assert!(app.animation_tick().is_empty());
    let mut app = ringing_app();
    assert_eq!(app.animation_tick().len(), 9);
}

#[test]
fn incoming_call_stops_playback_and_rings() {
    let tone = vec![4i16, 5, 6];
    let mut app = AppState::new(tone.clone());
    let (actions, quit) =
        app.handle_command(CallScreenCommand::IncomingCall(peer(198, 51, 100, 3)), 0);
    assert!(!quit);
    assert_eq!(actions.len(), 2);
    assert!(matches!(actions[0], UiAction::Playback(OutputAudioTaskCommand::Stop)));
    match &actions[1] {
        UiAction::Playback(OutputAudioTaskCommand::Play(samples)) => {
            assert_eq!(*samples, tone);
        }
        _ => panic!("expected the ring tone"),
    }
    match &app.screen_state {
        ScreenState::Call(c) => {
            assert_eq!(c.call_status, CallScreenStatus::IncomingCall);
            assert_eq!(c.remote_ip, IpAddress::V4(198, 51, 100, 3));
            assert_eq!(c.volume, 100);
            assert!(!c.is_muted);
        }
        _ => panic!("expected the call screen"),
    }
}

#[test]
fn start_call_starts_capture() {
    let mut app = AppState::new(Vec::new());
    let (actions, _) = app.handle_command(CallScreenCommand::StartCall(peer(192, 0, 2, 7)), 1234);
    assert_eq!(actions.len(), 2);
    assert!(matches!(actions[0], UiAction::Playback(OutputAudioTaskCommand::Stop)));
    assert!(matches!(actions[1], UiAction::Capture(InputAudioCommand::Start)));
    match &app.screen_state {
        ScreenState::Call(c) => {
            assert_eq!(c.call_status, CallScreenStatus::InCall { start_time: 1234 });
        }
        _ => panic!("expected the call screen"),
    }
}

#[test]
fn accept_call_sends_accept_and_establishes() {
    let mut app = ringing_app();
    let (actions, quit) = app.handle_command(CallScreenCommand::AcceptCall, 77);
    assert!(!quit);
    assert!(matches!(actions[0], UiAction::Network(NetworkTaskCommand::SendAccept)));
    assert!(matches!(actions[1], UiAction::Capture(InputAudioCommand::Start)));
    assert!(matches!(actions[2], UiAction::Playback(OutputAudioTaskCommand::Stop)));
    assert_eq!(actions.len(), 12);
    match &app.screen_state {
        ScreenState::Call(c) => {
            assert_eq!(c.call_status, CallScreenStatus::InCall { start_time: 77 });
        }
        _ => panic!("expected the call screen"),
    }
    assert_eq!(app.animation_state, 0);
}

#[test]
fn accept_call_without_ring_is_ignored() {
    let mut app = AppState::new(Vec::new());
    let (actions, quit) = app.handle_command(CallScreenCommand::AcceptCall, 0);
    assert!(actions.is_empty());
    assert!(!quit);
    assert!(matches!(app.screen_state, ScreenState::Home(_)));
}

#[test]
fn stop_call_tears_down() {
    let mut app = ringing_app();
    let (actions, quit) = app.handle_command(CallScreenCommand::StopCall, 0);
    assert!(!quit);
    assert!(matches!(actions[0], UiAction::Network(NetworkTaskCommand::StopConnection)));
    assert!(matches!(actions[1], UiAction::Capture(InputAudioCommand::Stop)));
    assert!(matches!(actions[2], UiAction::Playback(OutputAudioTaskCommand::Stop)));
    expect_led_row(
        &actions[3..],
        &[
            (0, LedColor::Red, 0),
            (0, LedColor::Green, 0),
            (0, LedColor::Blue, 0),
            (1, LedColor::Red, 0),
            (1, LedColor::Green, 0),
            (1, LedColor::Blue, 0),
            (2, LedColor::Red, 0),
            (2, LedColor::Green, 0),
            (2, LedColor::Blue, 0),
        ],
    );
    assert!(matches!(app.screen_state, ScreenState::Home(_)));
}

#[test]
fn stop_call_off_call_screen_is_ignored() {
    let mut app = AppState::new(Vec::new());
    let (actions, quit) = app.handle_command(CallScreenCommand::StopCall, 0);
    assert!(actions.is_empty());
    assert!(!quit);
}

#[test]
fn reject_call_tears_down_unconditionally() {
    let mut app = AppState::new(Vec::new());
    let (actions, quit) = app.handle_command(CallScreenCommand::RejectCall, 0);
    assert!(!quit);
    assert_eq!(actions.len(), 12);
    assert!(matches!(actions[0], UiAction::Network(NetworkTaskCommand::StopConnection)));
    assert!(matches!(actions[1], UiAction::Capture(InputAudioCommand::Stop)));
    assert!(matches!(actions[2], UiAction::Playback(OutputAudioTaskCommand::Stop)));
    assert!(matches!(app.screen_state, ScreenState::Home(_)));
}

#[test]
fn end_call_only_stops_connection() {
    let mut app = ringing_app();
    let (actions, quit) = app.handle_command(CallScreenCommand::EndCall, 0);
    assert!(!quit);
    assert_eq!(actions.len(), 1);
    assert!(matches!(actions[0], UiAction::Network(NetworkTaskCommand::StopConnection)));
    assert!(matches!(app.screen_state, ScreenState::Home(_)));
}

#[test]
fn contacts_screen_is_inert() {
    let mut app = AppState::new(Vec::new());
    app.handle_key(KeyInput::Down, 0);
    let (_, quit) = app.handle_key(KeyInput::Enter, 0);
    assert!(!quit);
    assert!(matches!(app.screen_state, ScreenState::Contacts(_)));
    let (actions, quit) = app.handle_key(KeyInput::Enter, 0);
    assert!(actions.is_empty());
    assert!(!quit);
    assert!(matches!(app.screen_state, ScreenState::Contacts(_)));
}

#[test]
fn exit_command_terminates() {
    let mut app = AppState::new(Vec::new());
    let (actions, quit) = app.handle_command(CallScreenCommand::Exit, 0);
    assert!(actions.is_empty());
    assert!(quit);
}

#[test]
fn menu_wraps_both_ways() {
    let mut app = AppState::new(Vec::new());
    let selected = |app: &AppState| match &app.screen_state {
        ScreenState::Home(h) => h.menu_list_state.selected.unwrap(),
        _ => panic!("expected the home screen"),
    };
    assert_eq!(selected(&app), 0);
    app.handle_key(KeyInput::Up, 0);
    assert_eq!(selected(&app), 2);
    app.handle_key(KeyInput::Down, 0);
    assert_eq!(selected(&app), 0);
    app.handle_key(KeyInput::Down, 0);
    assert_eq!(selected(&app), 1);
    app.handle_key(KeyInput::Down, 0);
    assert_eq!(selected(&app), 2);
    app.handle_key(KeyInput::Down, 0);
    assert_eq!(selected(&app), 0);
}

#[test]
fn menu_exit_terminates() {
    let mut app = AppState::new(Vec::new());
    app.handle_key(KeyInput::Up, 0);
    let (_, quit) = app.handle_key(KeyInput::Enter, 0);
    assert!(quit);
}

#[test]
fn dial_flow_starts_connection() {
    let mut app = AppState::new(Vec::new());
    let (_, quit) = app.handle_key(KeyInput::Enter, 0);
    assert!(!quit);
    assert!(matches!(app.screen_state, ScreenState::EnterCallInfo(_)));
    for ch in "192.0.2.7".chars() {
        app.handle_key(KeyInput::Char(ch), 0);
    }
    let (actions, quit) = app.handle_key(KeyInput::Enter, 0);
    assert!(!quit);
    assert_eq!(actions.len(), 1);
    assert!(matches!(
        actions[0],
        UiAction::Network(NetworkTaskCommand::StartConnection(p)) if p == peer(192, 0, 2, 7)
    ));
    match &app.screen_state {
        ScreenState::Call(c) => {
            assert_eq!(c.call_status, CallScreenStatus::Calling);
            assert_eq!(c.remote_ip, IpAddress::V4(192, 0, 2, 7));
        }
        _ => panic!("expected the call screen"),
    }
}

#[test]
fn dial_flow_accepts_ipv6() {
    let mut app = AppState::new(Vec::new());
    app.handle_key(KeyInput::Enter, 0);
    for ch in "2001:db8::1".chars() {
        app.handle_key(KeyInput::Char(ch), 0);
    }
    let (actions, quit) = app.handle_key(KeyInput::Enter, 0);
    assert!(!quit);
    assert_eq!(actions.len(), 1);
    let expected = IpAddress::V6(0x2001_0db8_0000_0000_0000_0000_0000_0001);
    assert!(matches!(
        actions[0],
        UiAction::Network(NetworkTaskCommand::StartConnection(p))
            if p == PeerAddr { ip: expected, port: 33445 }
    ));
    match &app.screen_state {
        ScreenState::Call(c) => {
            assert_eq!(c.call_status, CallScreenStatus::Calling);
            assert_eq!(c.remote_ip, expected);
        }
        _ => panic!("expected the call screen"),
    }
}

#[test]
fn dial_parse_failure_stays() {
    let mut app = AppState::new(Vec::new());
    app.handle_key(KeyInput::Enter, 0);
    for ch in "not.an.ip".chars() {
        app.handle_key(KeyInput::Char(ch), 0);
    }
    let (actions, quit) = app.handle_key(KeyInput::Enter, 0);
    assert!(actions.is_empty());
    assert!(!quit);
    assert!(matches!(app.screen_state, ScreenState::EnterCallInfo(_)));
}

#[test]
fn dial_backspace_edits() {
    let mut app = AppState::new(Vec::new());
    app.handle_key(KeyInput::Enter, 0);
    for ch in "10.0.0.12".chars() {
        app.handle_key(KeyInput::Char(ch), 0);
    }
    app.handle_key(KeyInput::Backspace, 0);
    let (actions, _) = app.handle_key(KeyInput::Enter, 0);
    assert!(matches!(
        actions[0],
        UiAction::Network(NetworkTaskCommand::StartConnection(p)) if p == peer(10, 0, 0, 1)
    ));
}

#[test]
fn dial_esc_returns_home() {
    let mut app = AppState::new(Vec::new());
    app.handle_key(KeyInput::Enter, 0);
    app.handle_key(KeyInput::Esc, 0);
    assert!(matches!(app.screen_state, ScreenState::Home(_)));
}

#[test]
fn call_screen_keyboard() {
    let mut app = ringing_app();
    // 'a' lowers the volume by five, 'd' raises it.
    let (actions, _) = app.handle_key(KeyInput::Char('a'), 0);
    assert!(matches!(
        actions[0],
        UiAction::Playback(OutputAudioTaskCommand::SetVolume(95))
    ));
    let (actions, _) = app.handle_key(KeyInput::Char('d'), 0);
    assert!(matches!(
        actions[0],
        UiAction::Playback(OutputAudioTaskCommand::SetVolume(100))
    ));
    // 'm' toggles mute.
    let (actions, _) = app.handle_key(KeyInput::Char('m'), 0);
    assert!(matches!(
        actions[0],
        UiAction::Playback(OutputAudioTaskCommand::SetMute(true))
    ));
    // Enter accepts the ringing call.
    let (actions, _) = app.handle_key(KeyInput::Enter, 55);
    assert!(matches!(actions[0], UiAction::Network(NetworkTaskCommand::SendAccept)));
    match &app.screen_state {
        ScreenState::Call(c) => {
            assert_eq!(c.call_status, CallScreenStatus::InCall { start_time: 55 });
        }
        _ => panic!("expected the call screen"),
    }
    // Esc hangs up.
    let (actions, quit) = app.handle_key(KeyInput::Esc, 0);
    assert!(!quit);
    assert!(matches!(actions[0], UiAction::Network(NetworkTaskCommand::StopConnection)));
    assert!(matches!(app.screen_state, ScreenState::Home(_)));
}
