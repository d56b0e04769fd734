//! The playback pipeline: a FIFO of pending samples fed by `Play` commands
//! and drained to the output device only on idle edges, plus the volume and
//! mute rules for the mixer.  The device and mixer are driven outside the
//! core through the returned actions.

use vstd::prelude::*;

verus! {

/// The commands the playback task receives.
pub enum OutputAudioTaskCommand {
    Play(Vec<i16>),
    Stop,
    SetVolume(i64),
    SetMute(bool),
    Exit,
}

/// What the playback task must do to its device or mixer after a command.
#[derive(Clone, Copy, PartialEq, Eq, Structural, Debug)]
pub enum PlaybackAction {
    /// No device or mixer work.
    Nothing,
    /// Halt the device and discard what it still holds.
    HaltDevice,
    /// Set every mixer channel to the carried level.
    SetMixer(i64),
    /// Leave the playback loop.
    Quit,
}

/// The playback pipeline's state: the ordered samples waiting for the device.
pub struct PlaybackState {
    pub play_buffer: Vec<i16>,
}

impl PlaybackState {
    /// Playback starts with an empty queue.
    pub fn new() -> (r: PlaybackState)
        ensures
            r.play_buffer@.len() == 0,
    {
        PlaybackState { play_buffer: Vec::new() }
    }

    /// Apply one command: `Play` appends to the queue, `Stop` empties it and
    /// halts the device, `SetVolume(v)` sets the mixer to `v`, `SetMute`
    /// sets the mixer to 0 when muting and back to 100 when unmuting (the
    /// prior volume is not preserved), `Exit` leaves the loop.
    pub fn handle_command(&mut self, cmd: OutputAudioTaskCommand) -> (r: PlaybackAction)
        ensures
            match cmd {
                OutputAudioTaskCommand::Play(samples) => {
                    &&& final(self).play_buffer@ == old(self).play_buffer@ + samples@
                    &&& r == PlaybackAction::Nothing
                },
                OutputAudioTaskCommand::Stop => {
                    &&& final(self).play_buffer@.len() == 0
                    &&& r == PlaybackAction::HaltDevice
                },
                OutputAudioTaskCommand::SetVolume(v) => {
                    &&& final(self).play_buffer@ == old(self).play_buffer@
                    &&& r == PlaybackAction::SetMixer(v)
                },
                OutputAudioTaskCommand::SetMute(mute) => {
                    &&& final(self).play_buffer@ == old(self).play_buffer@
                    &&& r == PlaybackAction::SetMixer(if mute { 0i64 } else { 100i64 })
                },
                OutputAudioTaskCommand::Exit => {
                    &&& final(self).play_buffer@ == old(self).play_buffer@
                    &&& r == PlaybackAction::Quit
                },
            },
    {
        match cmd {
            OutputAudioTaskCommand::Play(samples) => {
                let mut samples = samples;
                self.play_buffer.append(&mut samples);
                PlaybackAction::Nothing
            },
            OutputAudioTaskCommand::Stop => {
                self.play_buffer.clear();
                PlaybackAction::HaltDevice
            },
            OutputAudioTaskCommand::SetVolume(v) => PlaybackAction::SetMixer(v),
            OutputAudioTaskCommand::SetMute(mute) => {
                if mute {
                    PlaybackAction::SetMixer(0)
                } else {
                    PlaybackAction::SetMixer(100)
                }
            },
            OutputAudioTaskCommand::Exit => PlaybackAction::Quit,
        }
    }

    /// One scheduling step: when the queue holds samples and the device is
    /// not already running, hand out the first `min(available, queue length)`
    /// samples, removing them from the queue; otherwise hand out nothing and
    /// leave the queue as it is.  Handing out only on idle edges is the
    /// intended jitter absorber.
    pub fn schedule(&mut self, device_running: bool, available: usize) -> (r: Option<Vec<i16>>)
        ensures
            ({
                let take_n = if available as int <= old(self).play_buffer@.len() {
                    available as int
                } else {
                    old(self).play_buffer@.len() as int
                };
                if old(self).play_buffer@.len() > 0 && !device_running {
                    &&& r matches Some(v) && v@ == old(self).play_buffer@.take(take_n)
                    &&& final(self).play_buffer@ == old(self).play_buffer@.skip(take_n)
                } else {
                    &&& r is None
                    &&& final(self).play_buffer@ == old(self).play_buffer@
                }
            }),
    {
        if self.play_buffer.len() == 0 || device_running {
            return None;
        }
        let n: usize = if available > self.play_buffer.len() {
            self.play_buffer.len()
        } else {
            available
        };
        let mut out: Vec<i16> = Vec::new();
        let mut i: usize = 0;
        while i < n
            invariant
                i <= n,
                n <= self.play_buffer@.len(),
                self.play_buffer@ == old(self).play_buffer@,
                out@ == self.play_buffer@.take(i as int),
            decreases n - i,
        {
            out.push(self.play_buffer[i]);
            i = i + 1;
            assert(out@ =~= self.play_buffer@.take(i as int));
        }
        let mut rest: Vec<i16> = Vec::new();
        let mut j: usize = n;
        while j < self.play_buffer.len()
            invariant
                n <= j <= self.play_buffer@.len(),
                self.play_buffer@ == old(self).play_buffer@,
                rest@ == self.play_buffer@.subrange(n as int, j as int),
            decreases self.play_buffer@.len() - j,
        {
            rest.push(self.play_buffer[j]);
            j = j + 1;
            assert(rest@ =~= self.play_buffer@.subrange(n as int, j as int));
        }
        proof {
            assert(rest@ =~= old(self).play_buffer@.skip(n as int));
        }
        self.play_buffer = rest;
        Some(out)
    }
}

} // verus!
