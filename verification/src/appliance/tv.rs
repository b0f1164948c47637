//! Televisions.

use crate::appliance::common::Button;
use vstd::prelude::*;

verus! {

/// A television: its state and the buttons of its remote control.
#[derive(Clone, PartialEq, Eq, Debug)]
pub struct TV {
    pub state: TVState,
    pub buttons: Vec<Button>,
}

/// The state of a television as the service last knew it.
#[derive(Clone, PartialEq, Eq, Debug)]
pub struct TVState {
    pub input: String,
}

} // verus!
