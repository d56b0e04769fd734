//! The audio capture pipeline's decisions: a `recording` gate set by the
//! commands of the UI task, and the rule for which samples a device read
//! forwards to the network engine.  The device itself is driven outside the
//! core through the returned actions.

use vstd::prelude::*;

verus! {

/// The commands the capture task receives.
#[derive(Clone, Copy, PartialEq, Eq, Structural, Debug)]
pub enum InputAudioCommand {
    Start,
    Stop,
    Exit,
}

/// What the capture task must do to its device after a command.
#[derive(Clone, Copy, PartialEq, Eq, Structural, Debug)]
pub enum CaptureAction {
    /// Prepare the device so that reads may start.
    Prepare,
    /// Halt the device; nothing is recorded.
    Halt,
    /// Leave the capture loop.
    Quit,
}

/// The capture pipeline's state: whether frames read from the device are
/// forwarded to the network engine.
pub struct CaptureState {
    pub recording: bool,
}

impl CaptureState {
    /// Capture starts idle: nothing is forwarded until a `Start` arrives.
    pub fn new() -> (r: CaptureState)
        ensures
            r.recording == false,
    {
        CaptureState { recording: false }
    }

    /// Apply one command: `Start` begins recording and prepares the device,
    /// `Stop` ends recording and halts it, `Exit` leaves the loop.
    pub fn handle_command(&mut self, cmd: InputAudioCommand) -> (r: CaptureAction)
        ensures
            final(self).recording == match cmd {
                InputAudioCommand::Start => true,
                InputAudioCommand::Stop => false,
                InputAudioCommand::Exit => old(self).recording,
            },
            r == match cmd {
                InputAudioCommand::Start => CaptureAction::Prepare,
                InputAudioCommand::Stop => CaptureAction::Halt,
                InputAudioCommand::Exit => CaptureAction::Quit,
            },
    {
        match cmd {
            InputAudioCommand::Start => {
                self.recording = true;
                CaptureAction::Prepare
            },
            InputAudioCommand::Stop => {
                self.recording = false;
                CaptureAction::Halt
            },
            InputAudioCommand::Exit => CaptureAction::Quit,
        }
    }

    /// The samples one device read forwards: when recording and the read
    /// returned at least one frame, the first `frames_read` stereo frames of
    /// the buffer, in order; otherwise nothing.
    pub fn frame_to_send(&self, buffer: &Vec<i16>, frames_read: usize) -> (r: Option<Vec<i16>>)
        requires
            2 * frames_read <= buffer@.len(),
        ensures
            r is Some <==> (self.recording && frames_read > 0),
            r matches Some(v) ==> v@ == buffer@.take(2 * frames_read as int),
    {
        if !self.recording || frames_read == 0 {
            return None;
        }
        let buffer_len = buffer.len();
        assert(2 * frames_read <= buffer_len);
        let samples = frames_read * 2;
        let mut send_buffer: Vec<i16> = Vec::new();
        let mut i: usize = 0;
        while i < samples
            invariant
                i <= samples,
                samples == 2 * frames_read,
                samples <= buffer@.len(),
                send_buffer@ == buffer@.take(i as int),
            decreases samples - i,
        {
            send_buffer.push(buffer[i]);
            i = i + 1;
            assert(send_buffer@ =~= buffer@.take(i as int));
        }
        Some(send_buffer)
    }
}

} // verus!
