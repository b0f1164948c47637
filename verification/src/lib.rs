//! A client for the Nature Remo cloud API that performs no I/O of its own.
//!
//! Every operation is split in two: a method of [`Client`] that says what to
//! send, and a function that reads what came back. The program around the
//! library carries the request over the network and decodes the response body.

pub mod appliance;
pub mod client;
pub mod device;
pub mod order;
pub mod params;
pub mod reply;
pub mod user;
pub mod util;

pub use crate::appliance::aircon::{
    read_detected_appliance, read_settings_update, AirCon, AirConParams, AirConRangeMode,
    ApplianceModelAndParam, InfraredMessage, Modes, Range,
};
pub use crate::appliance::common::{Button, Signal};
pub use crate::appliance::light::{Light, LightState};
pub use crate::appliance::smart_meter::{EchonetLiteProperty, SmartMeter};
pub use crate::appliance::tv::{TVState, TV};
pub use crate::appliance::{
    read_appliance_signals, read_appliances, read_created_appliance, Appliance, ApplianceModel,
};
pub use crate::client::{Client, Header, Method, Request, BASE_URL};
pub use crate::device::{read_devices, Device, DeviceCore, Events, SensorValue};
pub use crate::params::Params;
pub use crate::reply::{ApiError, DecodeError, Listing, Reply, Response, TransportError};
pub use crate::user::{read_user, User};
pub use crate::util::{encode_params, percent_encode};
