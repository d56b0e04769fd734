//! Core logic of a point-to-point voice-call appliance.
//!
//! Two instances reach each other over UDP and exchange duplex 16-bit PCM
//! audio while a terminal UI, hardware keys and RGB indicators drive and
//! reflect call state.  This crate holds the verified core: the wire-packet
//! codec, the network protocol engine, the capture and playback scheduling
//! rules, the key-event mapping and the UI/controller state machine.  All of
//! them are pure transition functions from state and event to new state and
//! a list of actions; the surrounding I/O (sockets, audio devices, terminal,
//! LED files) performs those actions outside the verified core.

pub mod addr;
pub mod capture;
pub mod events;
pub mod network;
pub mod packet;
pub mod playback;
pub mod tone;
pub mod ui;
