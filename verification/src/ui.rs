//! The UI/controller state machine: screen states, the commands arriving
//! asynchronously from the other tasks, keyboard handling, and the LED ring
//! animation.  Every step is a pure transition from state and event to new
//! state and a list of actions for the playback, capture and network tasks
//! and the LED files.

use vstd::prelude::*;

use crate::addr::CALL_PORT;
use crate::addr::IpAddress;
use crate::addr::PeerAddr;
use crate::addr::ipv4_text;
use crate::addr::ipv6_groups;
use crate::addr::ipv6_value;
use crate::addr::is_ipv4_literal;
use crate::capture::InputAudioCommand;
use crate::network::NetworkTaskCommand;
use crate::playback::OutputAudioTaskCommand;

verus! {

/// A selectable list: the items and which of them, if any, is selected.
pub struct StatefulList<T> {
    pub selected: Option<usize>,
    pub items: Vec<T>,
}

impl<T> StatefulList<T> {
    /// A list holding `items` with nothing selected yet.
    pub fn with_items(items: Vec<T>) -> (r: StatefulList<T>)
        ensures
            r.selected is None,
            r.items@ == items@,
    {
        StatefulList { selected: None, items }
    }

    /// Move the selection one item down, wrapping from the last item to the
    /// first; an empty selection becomes the first item.
    pub fn next(&mut self)
        requires
            old(self).items@.len() > 0,
            old(self).selected matches Some(i) ==> i < old(self).items@.len(),
        ensures
            final(self).items@ == old(self).items@,
            final(self).selected == Some(
                match old(self).selected {
                    Some(i) => if i + 1 == old(self).items@.len() { 0usize } else { (i + 1) as usize },
                    None => 0usize,
                },
            ),
    {
        let i: usize = match self.selected {
            Some(i) => if i >= self.items.len() - 1 {
                0
            } else {
                i + 1
            },
            None => 0,
        };
        self.selected = Some(i);
    }

    /// Move the selection one item up, wrapping from the first item to the
    /// last; an empty selection becomes the first item.
    pub fn previous(&mut self)
        requires
            old(self).items@.len() > 0,
        ensures
            final(self).items@ == old(self).items@,
            final(self).selected == Some(
                match old(self).selected {
                    Some(i) => if i == 0 { (old(self).items@.len() - 1) as usize } else { (i - 1) as usize },
                    None => 0usize,
                },
            ),
    {
        let i: usize = match self.selected {
            Some(i) => if i == 0 {
                self.items.len() - 1
            } else {
                i - 1
            },
            None => 0,
        };
        self.selected = Some(i);
    }
}

/// The home screen: the three-item main menu.
pub struct HomeScreenState {
    pub menu_list_state: StatefulList<&'static str>,
}

/// The menu labels of the home screen.
pub open spec fn home_menu_labels() -> Seq<Seq<char>> {
    seq!["Call"@, "Contacts"@, "Exit"@]
}

impl HomeScreenState {
    /// The home screen as first shown: menu Call / Contacts / Exit with the
    /// first item selected.
    pub fn new() -> (r: HomeScreenState)
        ensures
            r.wf(),
            r.menu_list_state.selected == Some(0usize),
            r.menu_list_state.items@.map_values(|s: &'static str| s@) == home_menu_labels(),
    {
        let mut items: Vec<&'static str> = Vec::new();
        items.push("Call");
        items.push("Contacts");
        items.push("Exit");
        let mut menu_list_state = StatefulList::with_items(items);
        menu_list_state.next();
        proof {
            assert(menu_list_state.items@.map_values(|s: &'static str| s@) =~= home_menu_labels());
        }
        HomeScreenState { menu_list_state }
    }

    /// The menu always has its three items and a selection among them.
    pub open spec fn wf(&self) -> bool {
        &&& self.menu_list_state.items@.len() == 3
        &&& self.menu_list_state.selected matches Some(i) && i < 3
    }
}

/// Where a call stands on the call screen.
#[derive(Clone, Copy, PartialEq, Eq, Structural, Debug)]
pub enum CallScreenStatus {
    Calling,
    IncomingCall,
    InCall { start_time: u64 },
    CallEnded { start_time: u64, end_time: u64 },
}

/// The commands the UI task receives, from the network engine, the hardware
/// input forwarder and the terminal.
#[derive(Clone, Copy, PartialEq, Eq, Structural, Debug)]
pub enum CallScreenCommand {
    StartCall(PeerAddr),
    IncomingCall(PeerAddr),
    StopCall,
    EndCall,
    AcceptCall,
    RejectCall,
    IncreaseVolume,
    DecreaseVolume,
    ToggleMute,
    Exit,
}

/// The call screen: who the call is with, how it stands, and the local
/// volume and mute settings.
pub struct CallScreenState {
    pub is_muted: bool,
    pub volume: i64,
    pub remote_ip: IpAddress,
    pub remote_name: Option<String>,
    pub call_status: CallScreenStatus,
}

impl CallScreenState {
    /// A fresh call screen towards `ip`: dialing, full volume, not muted.
    pub fn new(ip: IpAddress) -> (r: CallScreenState)
        ensures
            r.is_muted == false,
            r.volume == 100,
            r.remote_ip == ip,
            r.remote_name is None,
            r.call_status == CallScreenStatus::Calling,
    {
        CallScreenState {
            is_muted: false,
            volume: 100,
            call_status: CallScreenStatus::Calling,
            remote_ip: ip,
            remote_name: None,
        }
    }
}

/// The contacts screen (a placeholder: no persistent contacts store).
pub struct ContactsScreenState {
    pub contacts: Vec<String>,
    pub selected_contact: Option<usize>,
    pub new_contact_name: String,
    pub new_contact_ip: String,
}

impl ContactsScreenState {
    /// An empty contacts screen.
    pub fn new() -> (r: ContactsScreenState)
        ensures
            r.contacts@.len() == 0,
            r.selected_contact is None,
            r.new_contact_name@.len() == 0,
            r.new_contact_ip@.len() == 0,
    {
        ContactsScreenState {
            contacts: Vec::new(),
            selected_contact: None,
            new_contact_name: String::new(),
            new_contact_ip: String::new(),
        }
    }
}

/// The dial dialog: the IP literal typed so far.
pub struct CallInfoScreenState {
    pub ip: Vec<char>,
}

/// Which screen the UI shows; exactly one exists at any moment.
pub enum ScreenState {
    Home(HomeScreenState),
    Contacts(ContactsScreenState),
    EnterCallInfo(CallInfoScreenState),
    Call(CallScreenState),
}

/// One of the three RGB channels of an indicator LED.
#[derive(Clone, Copy, PartialEq, Eq, Structural, Debug)]
pub enum LedColor {
    Red,
    Green,
    Blue,
}

/// One brightness write: which LED, which channel, which value.
#[derive(Clone, Copy, PartialEq, Eq, Structural, Debug)]
pub struct LedWrite {
    pub led: u8,
    pub color: LedColor,
    pub value: u8,
}

/// An effect the UI asks its surroundings to perform.
pub enum UiAction {
    Playback(OutputAudioTaskCommand),
    Capture(InputAudioCommand),
    Network(NetworkTaskCommand),
    Led(LedWrite),
}

/// A keypress as the UI sees it.
#[derive(Clone, Copy, PartialEq, Eq, Structural, Debug)]
pub enum KeyInput {
    Up,
    Down,
    Enter,
    Esc,
    Backspace,
    Char(char),
}

/// The three channel writes that set one LED to the given RGB values, in
/// the order the writes are performed: red, then green, then blue.
pub open spec fn led_rgb(led: u8, red: u8, green: u8, blue: u8) -> Seq<LedWrite> {
    seq![
        LedWrite { led, color: LedColor::Red, value: red },
        LedWrite { led, color: LedColor::Green, value: green },
        LedWrite { led, color: LedColor::Blue, value: blue },
    ]
}

/// The nine channel writes of one phase of the five-phase ring animation:
/// all dark, all half bright, then the three rotations of (red, green,
/// blue) over the three LEDs.
pub open spec fn animation_writes(phase: u8) -> Seq<LedWrite> {
    if phase == 0 {
        led_rgb(0, 0, 0, 0) + led_rgb(1, 0, 0, 0) + led_rgb(2, 0, 0, 0)
    } else if phase == 1 {
        led_rgb(0, 128, 128, 128) + led_rgb(1, 128, 128, 128) + led_rgb(2, 128, 128, 128)
    } else if phase == 2 {
        led_rgb(0, 128, 0, 0) + led_rgb(1, 0, 128, 0) + led_rgb(2, 0, 0, 128)
    } else if phase == 3 {
        led_rgb(0, 0, 128, 0) + led_rgb(1, 0, 0, 128) + led_rgb(2, 128, 0, 0)
    } else {
        led_rgb(0, 0, 0, 128) + led_rgb(1, 128, 0, 0) + led_rgb(2, 0, 128, 0)
    }
}

/// The nine writes that turn every LED channel off, wrapped as UI actions.
pub open spec fn led_off_actions() -> Seq<UiAction> {
    animation_writes(0).map_values(|w: LedWrite| UiAction::Led(w))
}

/// The actions that tear a call down: stop the connection, stop capture,
/// stop playback, and turn the LEDs off.
pub open spec fn teardown_actions() -> Seq<UiAction> {
    seq![
        UiAction::Network(NetworkTaskCommand::StopConnection),
        UiAction::Capture(InputAudioCommand::Stop),
        UiAction::Playback(OutputAudioTaskCommand::Stop),
    ] + led_off_actions()
}

/// The actions that accept a ringing call: answer over the network, start
/// capture, stop the ring tone, and turn the LEDs off.
pub open spec fn accept_actions() -> Seq<UiAction> {
    seq![
        UiAction::Network(NetworkTaskCommand::SendAccept),
        UiAction::Capture(InputAudioCommand::Start),
        UiAction::Playback(OutputAudioTaskCommand::Stop),
    ] + led_off_actions()
}

/// Whether `s` is the home screen as freshly shown: three menu items with
/// the first selected.
pub open spec fn is_fresh_home(s: ScreenState) -> bool {
    &&& s matches ScreenState::Home(h)
    &&& h.wf()
    &&& h.menu_list_state.selected == Some(0usize)
    &&& h.menu_list_state.items@.map_values(|t: &'static str| t@) == home_menu_labels()
}

/// Whether `c` is a freshly created call screen towards `ip` with the given
/// status: full volume, not muted, no remote name.
pub open spec fn fresh_call_screen(c: CallScreenState, ip: IpAddress, status: CallScreenStatus) -> bool {
    &&& c.is_muted == false
    &&& c.volume == 100
    &&& c.remote_ip == ip
    &&& c.remote_name is None
    &&& c.call_status == status
}

/// Whether `c` is `c0` with only its call status replaced.
pub open spec fn same_call_with_status(c: CallScreenState, c0: CallScreenState, status: CallScreenStatus) -> bool {
    &&& c.is_muted == c0.is_muted
    &&& c.volume == c0.volume
    &&& c.remote_ip == c0.remote_ip
    &&& c.remote_name == c0.remote_name
    &&& c.call_status == status
}

/// The volume five steps up from `v`, ceiling 100.
pub open spec fn volume_up(v: i64) -> i64
    recommends
        0 <= v <= 100,
{
    if v + 5 >= 100 {
        100
    } else {
        (v + 5) as i64
    }
}

/// The volume five steps down from `v`, floor 0.
pub open spec fn volume_down(v: i64) -> i64
    recommends
        0 <= v <= 100,
{
    if v - 5 <= 0 {
        0
    } else {
        (v - 5) as i64
    }
}

/// The whole UI state: the screen, the phase of the LED ring animation, and
/// the pre-decoded ring tone submitted to playback on an incoming call.
pub struct AppState {
    pub screen_state: ScreenState,
    pub animation_state: u8,
    pub ring_tone: Vec<i16>,
}

impl AppState {
    /// The UI state is well formed: the animation phase is one of the five
    /// phases, the home menu has its three items, and on the call screen the
    /// volume lies in `[0, 100]`.
    pub open spec fn wf(&self) -> bool {
        &&& self.animation_state < 5
        &&& match self.screen_state {
            ScreenState::Home(h) => h.wf(),
            ScreenState::Call(c) => 0 <= c.volume <= 100,
            _ => true,
        }
    }

    /// The initial UI state: home screen, animation at phase 0, holding the
    /// ring tone to play on incoming calls.
    pub fn new(ring_tone: Vec<i16>) -> (r: AppState)
        ensures
            r.wf(),
            r.screen_state matches ScreenState::Home(h) && h.menu_list_state.selected == Some(0usize),
            r.animation_state == 0,
            r.ring_tone@ == ring_tone@,
    {
        AppState {
            screen_state: ScreenState::Home(HomeScreenState::new()),
            animation_state: 0,
            ring_tone,
        }
    }

    /// Advance the ring animation one step: write the pattern of the current
    /// phase and move to the next of the five phases, wrapping around.
    pub fn animation(&mut self) -> (writes: Vec<LedWrite>)
        requires
            old(self).animation_state < 5,
        ensures
            writes@ == animation_writes(old(self).animation_state),
            final(self).animation_state == (old(self).animation_state + 1) % 5,
            final(self).screen_state == old(self).screen_state,
            final(self).ring_tone == old(self).ring_tone,
    {
        let mut writes: Vec<LedWrite> = Vec::new();
        if self.animation_state == 0 {
            push_led(&mut writes, 0, 0, 0, 0);
            push_led(&mut writes, 1, 0, 0, 0);
            push_led(&mut writes, 2, 0, 0, 0);
            self.animation_state = 1;
        } else if self.animation_state == 1 {
            push_led(&mut writes, 0, 128, 128, 128);
            push_led(&mut writes, 1, 128, 128, 128);
            push_led(&mut writes, 2, 128, 128, 128);
            self.animation_state = 2;
        } else if self.animation_state == 2 {
            push_led(&mut writes, 0, 128, 0, 0);
            push_led(&mut writes, 1, 0, 128, 0);
            push_led(&mut writes, 2, 0, 0, 128);
            self.animation_state = 3;
        } else if self.animation_state == 3 {
            push_led(&mut writes, 0, 0, 128, 0);
            push_led(&mut writes, 1, 0, 0, 128);
            push_led(&mut writes, 2, 128, 0, 0);
            self.animation_state = 4;
        } else {
            push_led(&mut writes, 0, 0, 0, 128);
            push_led(&mut writes, 1, 128, 0, 0);
            push_led(&mut writes, 2, 0, 128, 0);
            self.animation_state = 0;
        }
        writes
    }

    /// End the ring animation: drive all nine channels dark and reset the
    /// phase to 0.
    pub fn stop_animation(&mut self) -> (writes: Vec<LedWrite>)
        ensures
            writes@ == animation_writes(0),
            final(self).animation_state == 0,
            final(self).screen_state == old(self).screen_state,
            final(self).ring_tone == old(self).ring_tone,
    {
        self.animation_state = 0;
        let mut writes: Vec<LedWrite> = Vec::new();
        push_led(&mut writes, 0, 0, 0, 0);
        push_led(&mut writes, 1, 0, 0, 0);
        push_led(&mut writes, 2, 0, 0, 0);
        writes
    }

    /// Advance the ring animation only while an incoming call is ringing;
    /// on any other screen or status, write nothing.
    pub fn animation_tick(&mut self) -> (writes: Vec<LedWrite>)
        requires
            old(self).wf(),
        ensures
            final(self).wf(),
            final(self).screen_state == old(self).screen_state,
            final(self).ring_tone == old(self).ring_tone,
            ({
                let ringing = old(self).screen_state matches ScreenState::Call(c)
                    && c.call_status is IncomingCall;
                if ringing {
                    &&& writes@ == animation_writes(old(self).animation_state)
                    &&& final(self).animation_state == (old(self).animation_state + 1) % 5
                } else {
                    writes@.len() == 0 && final(self).animation_state == old(self).animation_state
                }
            }),
    {
        let ringing = match &self.screen_state {
            ScreenState::Call(c) => match c.call_status {
                CallScreenStatus::IncomingCall => true,
                _ => false,
            },
            _ => false,
        };
        if ringing {
            self.animation()
        } else {
            Vec::new()
        }
    }

    /// Apply one command from the UI task's inbound channel.  Returns the
    /// actions to hand to the playback, capture and network tasks and the
    /// LED files, in order, and whether the UI must terminate.  `now` is the
    /// current time in milliseconds, recorded when a call becomes
    /// established.
    pub fn handle_command(&mut self, cmd: CallScreenCommand, now: u64) -> (r: (Vec<UiAction>, bool))
        requires
            old(self).wf(),
        ensures
            final(self).wf(),
            final(self).ring_tone == old(self).ring_tone,
            r.1 == (cmd is Exit),
            match cmd {
                CallScreenCommand::StartCall(peer) => {
                    &&& final(self).screen_state matches ScreenState::Call(c) && fresh_call_screen(
                        c,
                        peer.ip,
                        CallScreenStatus::InCall { start_time: now },
                    )
                    &&& final(self).animation_state == old(self).animation_state
                    &&& r.0@ == seq![
                        UiAction::Playback(OutputAudioTaskCommand::Stop),
                        UiAction::Capture(InputAudioCommand::Start),
                    ]
                },
                CallScreenCommand::IncomingCall(peer) => {
                    &&& final(self).screen_state matches ScreenState::Call(c) && fresh_call_screen(
                        c,
                        peer.ip,
                        CallScreenStatus::IncomingCall,
                    )
                    &&& final(self).animation_state == old(self).animation_state
                    &&& r.0@.len() == 2
                    &&& r.0@[0] == UiAction::Playback(OutputAudioTaskCommand::Stop)
                    &&& (r.0@[1] matches UiAction::Playback(OutputAudioTaskCommand::Play(v)) && v@
                        == old(self).ring_tone@)
                },
                CallScreenCommand::StopCall => match old(self).screen_state {
                    ScreenState::Call(_) => {
                        &&& is_fresh_home(final(self).screen_state)
                        &&& final(self).animation_state == 0
                        &&& r.0@ == teardown_actions()
                    },
                    _ => {
                        &&& final(self).screen_state == old(self).screen_state
                        &&& final(self).animation_state == old(self).animation_state
                        &&& r.0@.len() == 0
                    },
                },
                CallScreenCommand::AcceptCall => match old(self).screen_state {
                    ScreenState::Call(c0) => {
                        if c0.call_status is IncomingCall {
                            &&& final(self).screen_state matches ScreenState::Call(c)
                                && same_call_with_status(
                                c,
                                c0,
                                CallScreenStatus::InCall { start_time: now },
                            )
                            &&& final(self).animation_state == 0
                            &&& r.0@ == accept_actions()
                        } else {
                            &&& final(self).screen_state == old(self).screen_state
                            &&& final(self).animation_state == old(self).animation_state
                            &&& r.0@.len() == 0
                        }
                    },
                    _ => {
                        &&& final(self).screen_state == old(self).screen_state
                        &&& final(self).animation_state == old(self).animation_state
                        &&& r.0@.len() == 0
                    },
                },
                CallScreenCommand::RejectCall => {
                    &&& is_fresh_home(final(self).screen_state)
                    &&& final(self).animation_state == 0
                    &&& r.0@ == teardown_actions()
                },
                CallScreenCommand::EndCall => {
                    &&& is_fresh_home(final(self).screen_state)
                    &&& final(self).animation_state == old(self).animation_state
                    &&& r.0@ == seq![UiAction::Network(NetworkTaskCommand::StopConnection)]
                },
                CallScreenCommand::IncreaseVolume => match old(self).screen_state {
                    ScreenState::Call(c0) => {
                        &&& final(self).screen_state matches ScreenState::Call(c)
                            && same_call_but_volume(c, c0, volume_up(c0.volume))
                        &&& final(self).animation_state == old(self).animation_state
                        &&& r.0@ == seq![
                            UiAction::Playback(OutputAudioTaskCommand::SetVolume(volume_up(c0.volume))),
                        ]
                    },
                    _ => {
                        &&& final(self).screen_state == old(self).screen_state
                        &&& final(self).animation_state == old(self).animation_state
                        &&& r.0@.len() == 0
                    },
                },
                CallScreenCommand::DecreaseVolume => match old(self).screen_state {
                    ScreenState::Call(c0) => {
                        &&& final(self).screen_state matches ScreenState::Call(c)
                            && same_call_but_volume(c, c0, volume_down(c0.volume))
                        &&& final(self).animation_state == old(self).animation_state
                        &&& r.0@ == seq![
                            UiAction::Playback(OutputAudioTaskCommand::SetVolume(volume_down(c0.volume))),
                        ]
                    },
                    _ => {
                        &&& final(self).screen_state == old(self).screen_state
                        &&& final(self).animation_state == old(self).animation_state
                        &&& r.0@.len() == 0
                    },
                },
                CallScreenCommand::ToggleMute => match old(self).screen_state {
                    ScreenState::Call(c0) => {
                        &&& final(self).screen_state matches ScreenState::Call(c)
                            && same_call_but_mute(c, c0, !c0.is_muted)
                        &&& final(self).animation_state == old(self).animation_state
                        &&& r.0@ == seq![
                            UiAction::Playback(OutputAudioTaskCommand::SetMute(!c0.is_muted)),
                        ]
                    },
                    _ => {
                        &&& final(self).screen_state == old(self).screen_state
                        &&& final(self).animation_state == old(self).animation_state
                        &&& r.0@.len() == 0
                    },
                },
                CallScreenCommand::Exit => {
                    &&& final(self).screen_state == old(self).screen_state
                    &&& final(self).animation_state == old(self).animation_state
                    &&& r.0@.len() == 0
                },
            },
    {
        let mut actions: Vec<UiAction> = Vec::new();
        match cmd {
            CallScreenCommand::StartCall(peer) => {
                let mut call_screen_state = CallScreenState::new(peer.ip);
                call_screen_state.call_status = CallScreenStatus::InCall { start_time: now };
                actions.push(UiAction::Playback(OutputAudioTaskCommand::Stop));
                actions.push(UiAction::Capture(InputAudioCommand::Start));
                self.screen_state = ScreenState::Call(call_screen_state);
                proof {
                    assert(actions@ =~= seq![
                        UiAction::Playback(OutputAudioTaskCommand::Stop),
                        UiAction::Capture(InputAudioCommand::Start),
                    ]);
                }
                (actions, false)
            },
            CallScreenCommand::IncomingCall(peer) => {
                let mut call_screen_state = CallScreenState::new(peer.ip);
                call_screen_state.call_status = CallScreenStatus::IncomingCall;
                actions.push(UiAction::Playback(OutputAudioTaskCommand::Stop));
                let tone = copy_samples(&self.ring_tone);
                actions.push(UiAction::Playback(OutputAudioTaskCommand::Play(tone)));
                self.screen_state = ScreenState::Call(call_screen_state);
                (actions, false)
            },
            CallScreenCommand::StopCall => {
                match &self.screen_state {
                    ScreenState::Call(_) => {
                        self.screen_state = ScreenState::Home(HomeScreenState::new());
                        actions.push(UiAction::Network(NetworkTaskCommand::StopConnection));
                        actions.push(UiAction::Capture(InputAudioCommand::Stop));
                        actions.push(UiAction::Playback(OutputAudioTaskCommand::Stop));
                        let writes = self.stop_animation();
                        push_led_actions(&mut actions, writes);
                        proof {
                            assert(actions@ =~= teardown_actions());
                        }
                        (actions, false)
                    },
                    _ => (actions, false),
                }
            },
            CallScreenCommand::AcceptCall => {
                match &mut self.screen_state {
                    ScreenState::Call(call_state) => {
                        match call_state.call_status {
                            CallScreenStatus::IncomingCall => {
                                actions.push(UiAction::Network(NetworkTaskCommand::SendAccept));
                                actions.push(UiAction::Capture(InputAudioCommand::Start));
                                call_state.call_status = CallScreenStatus::InCall {
                                    start_time: now,
                                };
                                actions.push(UiAction::Playback(OutputAudioTaskCommand::Stop));
                                let writes = self.stop_animation();
                                push_led_actions(&mut actions, writes);
                                proof {
                                    assert(actions@ =~= accept_actions());
                                }
                                (actions, false)
                            },
                            _ => (actions, false),
                        }
                    },
                    _ => (actions, false),
                }
            },
            CallScreenCommand::RejectCall => {
                self.screen_state = ScreenState::Home(HomeScreenState::new());
                actions.push(UiAction::Network(NetworkTaskCommand::StopConnection));
                actions.push(UiAction::Capture(InputAudioCommand::Stop));
                actions.push(UiAction::Playback(OutputAudioTaskCommand::Stop));
                let writes = self.stop_animation();
                push_led_actions(&mut actions, writes);
                proof {
                    assert(actions@ =~= teardown_actions());
                }
                (actions, false)
            },
            CallScreenCommand::EndCall => {
                actions.push(UiAction::Network(NetworkTaskCommand::StopConnection));
                self.screen_state = ScreenState::Home(HomeScreenState::new());
                proof {
                    assert(actions@ =~= seq![
                        UiAction::Network(NetworkTaskCommand::StopConnection),
                    ]);
                }
                (actions, false)
            },
            CallScreenCommand::Exit => (actions, true),
            CallScreenCommand::IncreaseVolume => {
                match &mut self.screen_state {
                    ScreenState::Call(call_state) => {
                        call_state.volume = if call_state.volume + 5 >= 100 {
                            100
                        } else {
                            call_state.volume + 5
                        };
                        actions.push(
                            UiAction::Playback(OutputAudioTaskCommand::SetVolume(call_state.volume)),
                        );
                        (actions, false)
                    },
                    _ => (actions, false),
                }
            },
            CallScreenCommand::DecreaseVolume => {
                match &mut self.screen_state {
                    ScreenState::Call(call_state) => {
                        call_state.volume = if call_state.volume - 5 <= 0 {
                            0
                        } else {
                            call_state.volume - 5
                        };
                        actions.push(
                            UiAction::Playback(OutputAudioTaskCommand::SetVolume(call_state.volume)),
                        );
                        (actions, false)
                    },
                    _ => (actions, false),
                }
            },
            CallScreenCommand::ToggleMute => {
                match &mut self.screen_state {
                    ScreenState::Call(call_state) => {
                        call_state.is_muted = !call_state.is_muted;
                        actions.push(
                            UiAction::Playback(OutputAudioTaskCommand::SetMute(call_state.is_muted)),
                        );
                        (actions, false)
                    },
                    _ => (actions, false),
                }
            },
        }
    }
}

/// Whether the UI dialed `ip`: the screen shows a fresh outbound call and
/// the network engine is told to start a connection to `ip` on the call
/// port.
pub open spec fn dials(post: ScreenState, acts: Seq<UiAction>, ip: IpAddress) -> bool {
    &&& post matches ScreenState::Call(cs) && fresh_call_screen(cs, ip, CallScreenStatus::Calling)
    &&& acts == seq![
        UiAction::Network(
            NetworkTaskCommand::StartConnection(PeerAddr { ip, port: CALL_PORT }),
        ),
    ]
}

/// The menu index one step down from `i`, wrapping among three items.
pub open spec fn menu_next(i: usize) -> usize
    recommends
        i < 3,
{
    if i + 1 == 3 {
        0usize
    } else {
        (i + 1) as usize
    }
}

/// The menu index one step up from `i`, wrapping among three items.
pub open spec fn menu_prev(i: usize) -> usize
    recommends
        i < 3,
{
    if i == 0 {
        2usize
    } else {
        (i - 1) as usize
    }
}

impl AppState {
    /// Apply one keypress from the terminal.  Returns the actions to
    /// perform and whether the UI must terminate.  On the home screen the
    /// keys move and activate the menu; in the dial dialog they edit and
    /// submit the IP literal; on the call screen Esc hangs up, `m` toggles
    /// mute, `a` and `d` step the volume, and Enter accepts a ringing call.
    pub fn handle_key(&mut self, key: KeyInput, now: u64) -> (r: (Vec<UiAction>, bool))
        requires
            old(self).wf(),
        ensures
            final(self).wf(),
            final(self).ring_tone == old(self).ring_tone,
            match old(self).screen_state {
                ScreenState::Home(h0) => match key {
                    KeyInput::Up => {
                        &&& final(self).screen_state matches ScreenState::Home(h)
                        &&& h.menu_list_state.items@ == h0.menu_list_state.items@
                        &&& (h0.menu_list_state.selected matches Some(i) ==> h.menu_list_state.selected
                            == Some(menu_prev(i)))
                        &&& final(self).animation_state == old(self).animation_state
                        &&& r.0@.len() == 0
                        &&& !r.1
                    },
                    KeyInput::Down => {
                        &&& final(self).screen_state matches ScreenState::Home(h)
                        &&& h.menu_list_state.items@ == h0.menu_list_state.items@
                        &&& (h0.menu_list_state.selected matches Some(i) ==> h.menu_list_state.selected
                            == Some(menu_next(i)))
                        &&& final(self).animation_state == old(self).animation_state
                        &&& r.0@.len() == 0
                        &&& !r.1
                    },
                    KeyInput::Enter => {
                        &&& r.0@.len() == 0
                        &&& final(self).animation_state == old(self).animation_state
                        &&& (h0.menu_list_state.selected == Some(0usize) ==> !r.1
                            && (final(self).screen_state matches ScreenState::EnterCallInfo(e)
                            && e.ip@.len() == 0))
                        &&& (h0.menu_list_state.selected == Some(1usize) ==> !r.1
                            && final(self).screen_state is Contacts)
                        &&& (h0.menu_list_state.selected == Some(2usize) ==> r.1)
                    },
                    _ => {
                        &&& final(self).screen_state == old(self).screen_state
                        &&& final(self).animation_state == old(self).animation_state
                        &&& r.0@.len() == 0
                        &&& !r.1
                    },
                },
                ScreenState::EnterCallInfo(e0) => match key {
                    KeyInput::Enter => {
                        &&& !r.1
                        &&& final(self).animation_state == old(self).animation_state
                        &&& (forall|a: u8, b: u8, c: u8, d: u8|
                            e0.ip@ == ipv4_text(a, b, c, d) ==> dials(
                                final(self).screen_state,
                                r.0@,
                                IpAddress::V4(a, b, c, d),
                            ))
                        &&& (!is_ipv4_literal(e0.ip@) ==> match ipv6_groups(e0.ip@) {
                            Some(gs) => (final(self).screen_state matches ScreenState::Call(cs)
                                && cs.remote_ip matches IpAddress::V6(bits) && bits as int
                                == ipv6_value(gs) && dials(
                                final(self).screen_state,
                                r.0@,
                                IpAddress::V6(bits),
                            )),
                            None => (final(self).screen_state matches ScreenState::EnterCallInfo(e)
                                && e.ip@ == e0.ip@ && r.0@.len() == 0),
                        })
                    },
                    KeyInput::Esc => {
                        &&& is_fresh_home(final(self).screen_state)
                        &&& final(self).animation_state == old(self).animation_state
                        &&& r.0@.len() == 0
                        &&& !r.1
                    },
                    KeyInput::Char(ch) => {
                        &&& final(self).screen_state matches ScreenState::EnterCallInfo(e) && e.ip@
                            == e0.ip@.push(ch)
                        &&& final(self).animation_state == old(self).animation_state
                        &&& r.0@.len() == 0
                        &&& !r.1
                    },
                    KeyInput::Backspace => {
                        &&& final(self).screen_state matches ScreenState::EnterCallInfo(e) && e.ip@
                            == (if e0.ip@.len() > 0 {
                            e0.ip@.drop_last()
                        } else {
                            e0.ip@
                        })
                        &&& final(self).animation_state == old(self).animation_state
                        &&& r.0@.len() == 0
                        &&& !r.1
                    },
                    _ => {
                        &&& final(self).screen_state == old(self).screen_state
                        &&& final(self).animation_state == old(self).animation_state
                        &&& r.0@.len() == 0
                        &&& !r.1
                    },
                },
                ScreenState::Contacts(_) => {
                    &&& final(self).screen_state == old(self).screen_state
                    &&& final(self).animation_state == old(self).animation_state
                    &&& r.0@.len() == 0
                    &&& !r.1
                },
                ScreenState::Call(c0) => match key {
                    KeyInput::Esc => {
                        &&& is_fresh_home(final(self).screen_state)
                        &&& final(self).animation_state == 0
                        &&& r.0@ == teardown_actions()
                        &&& !r.1
                    },
                    KeyInput::Char(ch) => {
                        &&& !r.1
                        &&& (ch == 'm' ==> (final(self).screen_state matches ScreenState::Call(c)
                            && same_call_but_mute(c, c0, !c0.is_muted) && r.0@ == seq![
                            UiAction::Playback(OutputAudioTaskCommand::SetMute(!c0.is_muted)),
                        ]))
                        &&& (ch == 'a' ==> (final(self).screen_state matches ScreenState::Call(c)
                            && same_call_but_volume(c, c0, volume_down(c0.volume)) && r.0@ == seq![
                            UiAction::Playback(
                                OutputAudioTaskCommand::SetVolume(volume_down(c0.volume)),
                            ),
                        ]))
                        &&& (ch == 'd' ==> (final(self).screen_state matches ScreenState::Call(c)
                            && same_call_but_volume(c, c0, volume_up(c0.volume)) && r.0@ == seq![
                            UiAction::Playback(
                                OutputAudioTaskCommand::SetVolume(volume_up(c0.volume)),
                            ),
                        ]))
                        &&& (ch != 'm' && ch != 'a' && ch != 'd' ==> final(self).screen_state
                            == old(self).screen_state && r.0@.len() == 0)
                        &&& final(self).animation_state == old(self).animation_state
                    },
                    KeyInput::Enter => {
                        &&& !r.1
                        &&& if c0.call_status is IncomingCall {
                            &&& final(self).screen_state matches ScreenState::Call(c)
                                && same_call_with_status(
                                c,
                                c0,
                                CallScreenStatus::InCall { start_time: now },
                            )
                            &&& final(self).animation_state == 0
                            &&& r.0@ == accept_actions()
                        } else {
                            &&& final(self).screen_state == old(self).screen_state
                            &&& final(self).animation_state == old(self).animation_state
                            &&& r.0@.len() == 0
                        }
                    },
                    _ => {
                        &&& final(self).screen_state == old(self).screen_state
                        &&& final(self).animation_state == old(self).animation_state
                        &&& r.0@.len() == 0
                        &&& !r.1
                    },
                },
            },
    {
        let mut actions: Vec<UiAction> = Vec::new();
        match &mut self.screen_state {
            ScreenState::Home(home_state) => {
                match key {
                    KeyInput::Up => {
                        home_state.menu_list_state.previous();
                        (actions, false)
                    },
                    KeyInput::Down => {
                        home_state.menu_list_state.next();
                        (actions, false)
                    },
                    KeyInput::Enter => {
                        match home_state.menu_list_state.selected {
                            Some(0) => {
                                self.screen_state = ScreenState::EnterCallInfo(
                                    CallInfoScreenState { ip: Vec::new() },
                                );
                                (actions, false)
                            },
                            Some(1) => {
                                self.screen_state = ScreenState::Contacts(
                                    ContactsScreenState::new(),
                                );
                                (actions, false)
                            },
                            Some(2) => (actions, true),
                            _ => (actions, false),
                        }
                    },
                    _ => (actions, false),
                }
            },
            ScreenState::EnterCallInfo(state) => {
                match key {
                    KeyInput::Enter => {
                        match crate::addr::parse_ip(&state.ip) {
                            Some(ip) => {
                                self.screen_state = ScreenState::Call(CallScreenState::new(ip));
                                let peer = PeerAddr { ip, port: CALL_PORT };
                                actions.push(
                                    UiAction::Network(NetworkTaskCommand::StartConnection(peer)),
                                );
                                proof {
                                    assert(actions@ =~= seq![
                                        UiAction::Network(
                                            NetworkTaskCommand::StartConnection(
                                                PeerAddr { ip, port: CALL_PORT },
                                            ),
                                        ),
                                    ]);
                                }
                                (actions, false)
                            },
                            None => (actions, false),
                        }
                    },
                    KeyInput::Esc => {
                        self.screen_state = ScreenState::Home(HomeScreenState::new());
                        (actions, false)
                    },
                    KeyInput::Char(ch) => {
                        state.ip.push(ch);
                        (actions, false)
                    },
                    KeyInput::Backspace => {
                        let _ = state.ip.pop();
                        (actions, false)
                    },
                    _ => (actions, false),
                }
            },
            ScreenState::Contacts(_) => (actions, false),
            ScreenState::Call(state) => {
                match key {
                    KeyInput::Esc => {
                        self.screen_state = ScreenState::Home(HomeScreenState::new());
                        actions.push(UiAction::Network(NetworkTaskCommand::StopConnection));
                        actions.push(UiAction::Capture(InputAudioCommand::Stop));
                        actions.push(UiAction::Playback(OutputAudioTaskCommand::Stop));
                        let writes = self.stop_animation();
                        push_led_actions(&mut actions, writes);
                        proof {
                            assert(actions@ =~= teardown_actions());
                        }
                        (actions, false)
                    },
                    KeyInput::Char(ch) => {
                        if ch == 'm' {
                            state.is_muted = !state.is_muted;
                            actions.push(
                                UiAction::Playback(OutputAudioTaskCommand::SetMute(state.is_muted)),
                            );
                            (actions, false)
                        } else if ch == 'a' {
                            state.volume = if state.volume - 5 <= 0 {
                                0
                            } else {
                                state.volume - 5
                            };
                            actions.push(
                                UiAction::Playback(
                                    OutputAudioTaskCommand::SetVolume(state.volume),
                                ),
                            );
                            (actions, false)
                        } else if ch == 'd' {
                            state.volume = if state.volume + 5 >= 100 {
                                100
                            } else {
                                state.volume + 5
                            };
                            actions.push(
                                UiAction::Playback(
                                    OutputAudioTaskCommand::SetVolume(state.volume),
                                ),
                            );
                            (actions, false)
                        } else {
                            (actions, false)
                        }
                    },
                    KeyInput::Enter => {
                        match state.call_status {
                            CallScreenStatus::IncomingCall => {
                                actions.push(UiAction::Network(NetworkTaskCommand::SendAccept));
                                actions.push(UiAction::Capture(InputAudioCommand::Start));
                                state.call_status = CallScreenStatus::InCall { start_time: now };
                                actions.push(UiAction::Playback(OutputAudioTaskCommand::Stop));
                                let writes = self.stop_animation();
                                push_led_actions(&mut actions, writes);
                                proof {
                                    assert(actions@ =~= accept_actions());
                                }
                                (actions, false)
                            },
                            _ => (actions, false),
                        }
                    },
                    _ => (actions, false),
                }
            },
        }
    }
}

/// Whether `c` is `c0` with only its volume replaced.
pub open spec fn same_call_but_volume(c: CallScreenState, c0: CallScreenState, volume: i64) -> bool {
    &&& c.is_muted == c0.is_muted
    &&& c.volume == volume
    &&& c.remote_ip == c0.remote_ip
    &&& c.remote_name == c0.remote_name
    &&& c.call_status == c0.call_status
}

/// Whether `c` is `c0` with only its mute flag replaced.
pub open spec fn same_call_but_mute(c: CallScreenState, c0: CallScreenState, muted: bool) -> bool {
    &&& c.is_muted == muted
    &&& c.volume == c0.volume
    &&& c.remote_ip == c0.remote_ip
    &&& c.remote_name == c0.remote_name
    &&& c.call_status == c0.call_status
}

/// Append the three channel writes that set one LED to the given RGB values.
fn push_led(writes: &mut Vec<LedWrite>, led: u8, red: u8, green: u8, blue: u8)
    ensures
        final(writes)@ == old(writes)@ + led_rgb(led, red, green, blue),
{
    writes.push(LedWrite { led, color: LedColor::Red, value: red });
    writes.push(LedWrite { led, color: LedColor::Green, value: green });
    writes.push(LedWrite { led, color: LedColor::Blue, value: blue });
    proof {
        assert(writes@ =~= old(writes)@ + led_rgb(led, red, green, blue));
    }
}

/// Append each LED write as a UI action, keeping the order.
fn push_led_actions(actions: &mut Vec<UiAction>, writes: Vec<LedWrite>)
    ensures
        final(actions)@ == old(actions)@ + writes@.map_values(|w: LedWrite| UiAction::Led(w)),
{
    let mut i: usize = 0;
    while i < writes.len()
        invariant
            i <= writes@.len(),
            actions@ == old(actions)@ + writes@.take(i as int).map_values(
                |w: LedWrite| UiAction::Led(w),
            ),
        decreases writes@.len() - i,
    {
        actions.push(UiAction::Led(writes[i]));
        proof {
            assert(writes@.take(i + 1) =~= writes@.take(i as int).push(writes@[i as int]));
            assert(writes@.take(i + 1).map_values(|w: LedWrite| UiAction::Led(w)) =~= writes@.take(
                i as int,
            ).map_values(|w: LedWrite| UiAction::Led(w)).push(UiAction::Led(writes@[i as int])));
            assert(actions@ =~= old(actions)@ + writes@.take(i + 1).map_values(
                |w: LedWrite| UiAction::Led(w),
            ));
        }
        i = i + 1;
    }
    proof {
        assert(writes@.take(writes@.len() as int) =~= writes@);
    }
}

/// The samples of `v`, copied into a fresh vector.
fn copy_samples(v: &Vec<i16>) -> (r: Vec<i16>)
    ensures
        r@ == v@,
{
    let mut out: Vec<i16> = Vec::new();
    let mut i: usize = 0;
    while i < v.len()
        invariant
            i <= v@.len(),
            out@ == v@.take(i as int),
        decreases v@.len() - i,
    {
        out.push(v[i]);
        i = i + 1;
        assert(out@ =~= v@.take(i as int));
    }
    proof {
        assert(v@.take(v@.len() as int) =~= v@);
    }
    out
}

} // verus!
