//! What a remote control offers for selection.

use vstd::prelude::*;

verus! {

/// An infrared signal stored for an appliance.
#[derive(Clone, PartialEq, Eq, Debug)]
pub struct Signal {
    pub id: String,
    pub name: String,
    pub image: String,
}

/// A button of a remote control.
#[derive(Clone, PartialEq, Eq, Debug)]
pub struct Button {
    pub name: String,
    pub image: String,
    pub label: String,
}

} // verus!
