//! Smart meters.

use vstd::prelude::*;

verus! {

/// A smart meter and the register readings it reports.
#[derive(Clone, PartialEq, Eq, Debug)]
pub struct SmartMeter {
    pub echonetlite_properties: Vec<EchonetLiteProperty>,
    pub power: String,
    pub last_button: String,
}

/// One register reading of a smart meter.
#[derive(Clone, PartialEq, Eq, Debug)]
pub struct EchonetLiteProperty {
    pub name: String,
    /// The ECHONET Lite property code, which says what `val` means.
    pub epic: i64,
    /// The reading as the service wrote it. How to read it depends on `epic`.
    pub val: String,
    /// An ISO 8601 time, kept as the service wrote it.
    pub updated_at: String,
}

} // verus!
