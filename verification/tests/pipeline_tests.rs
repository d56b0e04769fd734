use intercom::capture::CaptureAction;
use intercom::capture::CaptureState;
use intercom::capture::InputAudioCommand;
use intercom::playback::OutputAudioTaskCommand;
use intercom::playback::PlaybackAction;
use intercom::playback::PlaybackState;

#[test]
fn playback_drain_keeps_order() {
    // Two Play submissions with the device idle drain front-first; after the
    // queue fits the device, it is empty.
    let mut playback = PlaybackState::new();
    playback.handle_command(OutputAudioTaskCommand::Play(vec![1i16]));
    playback.handle_command(OutputAudioTaskCommand::Play(vec![2i16]));
    let first = playback.schedule(false, 1).expect("device idle, queue non-empty");
    assert_eq!(first, vec![1i16]);
    let second = playback.schedule(false, 8).expect("device idle, queue non-empty");
    assert_eq!(second, vec![2i16]);
    assert!(playback.play_buffer.is_empty());
    assert!(playback.schedule(false, 8).is_none());
}

#[test]
fn playback_refuses_while_running() {
    let mut playback = PlaybackState::new();
    playback.handle_command(OutputAudioTaskCommand::Play(vec![1i16, 2]));
    assert!(playback.schedule(true, 8).is_none());
    assert_eq!(playback.play_buffer, vec![1i16, 2]);
}

#[test]
fn playback_writes_at_most_available() {
    let mut playback = PlaybackState::new();
    playback.handle_command(OutputAudioTaskCommand::Play(vec![1i16, 2, 3, 4, 5]));
    let written = playback.schedule(false, 3).expect("device idle");
    assert_eq!(written, vec![1i16, 2, 3]);
    assert_eq!(playback.play_buffer, vec![4i16, 5]);
}

#[test]
fn playback_stop_truncates_queue() {
    let mut playback = PlaybackState::new();
    playback.handle_command(OutputAudioTaskCommand::Play(vec![1i16, 2, 3]));
    let action = playback.handle_command(OutputAudioTaskCommand::Stop);
    assert_eq!(action, PlaybackAction::HaltDevice);
    assert!(playback.play_buffer.is_empty());
    // A Play after the Stop is appended to the empty queue.
    playback.handle_command(OutputAudioTaskCommand::Play(vec![7i16]));
    assert_eq!(playback.play_buffer, vec![7i16]);
}

#[test]
fn playback_volume_and_mute() {
    let mut playback = PlaybackState::new();
    assert_eq!(
        playback.handle_command(OutputAudioTaskCommand::SetVolume(40)),
        PlaybackAction::SetMixer(40)
    );
    assert_eq!(
        playback.handle_command(OutputAudioTaskCommand::SetMute(true)),
        PlaybackAction::SetMixer(0)
    );
    // Unmuting does not preserve the prior volume: the mixer goes to 100.
    assert_eq!(
        playback.handle_command(OutputAudioTaskCommand::SetMute(false)),
        PlaybackAction::SetMixer(100)
    );
    assert_eq!(
        playback.handle_command(OutputAudioTaskCommand::Exit),
        PlaybackAction::Quit
    );
}

#[test]
fn capture_commands_gate_recording() {
    let mut capture = CaptureState::new();
    assert!(!capture.recording);
    assert_eq!(capture.handle_command(InputAudioCommand::Start), CaptureAction::Prepare);
    assert!(capture.recording);
    assert_eq!(capture.handle_command(InputAudioCommand::Stop), CaptureAction::Halt);
    assert!(!capture.recording);
    assert_eq!(capture.handle_command(InputAudioCommand::Exit), CaptureAction::Quit);
}

#[test]
fn capture_forwards_only_while_recording() {
    let mut capture = CaptureState::new();
    let buffer = vec![10i16, 11, 12, 13, 14, 15];
    assert!(capture.frame_to_send(&buffer, 2).is_none());
    capture.handle_command(InputAudioCommand::Start);
    let sent = capture.frame_to_send(&buffer, 2).expect("recording");
    assert_eq!(sent, vec![10i16, 11, 12, 13]);
    assert!(capture.frame_to_send(&buffer, 0).is_none());
    capture.handle_command(InputAudioCommand::Stop);
    assert!(capture.frame_to_send(&buffer, 2).is_none());
}
