//! Lights.

use crate::appliance::common::Button;
use vstd::prelude::*;

verus! {

/// A light: its state and the buttons of its remote control.
#[derive(Clone, PartialEq, Eq, Debug)]
pub struct Light {
    pub state: LightState,
    pub buttons: Vec<Button>,
}

/// The state of a light as the service last knew it.
#[derive(Clone, PartialEq, Eq, Debug)]
pub struct LightState {
    pub brightness: String,
    pub power: String,
    pub last_button: String,
}

} // verus!
