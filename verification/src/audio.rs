//! Plain data the client's audio engine exchanges with the rest of the
//! program.

use vstd::prelude::*;

verus! {

/// An audio device as listed to the user.
#[derive(Debug, Clone)]
pub struct DeviceInfo {
    pub name: String,
    pub is_default: bool,
}

/// Commands for the audio engine.
#[derive(Debug, Clone)]
pub enum AudioCmd {
    SetInputDevice(String),
    SetOutputDevice(String),
    SetMuted(bool),
    SetDeafened(bool),
    Stop,
}

} // verus!
