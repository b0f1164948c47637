//! The hub devices that observe their surroundings and send infrared signals.

use crate::client::{request_of, Client, Method, Request};
use crate::params::Params;
use crate::reply::{read_strict, strict_result, ApiError, Reply};
use crate::user::User;
use vstd::prelude::*;

verus! {

/// What identifies and describes a device, without its sensor readings and
/// users. The service embeds this in each appliance, and uses the same field
/// names and types for the device itself.
#[derive(Clone, PartialEq, Eq, Debug)]
pub struct DeviceCore {
    pub id: String,
    pub name: String,
    pub temperature_offset: i64,
    pub humidity_offset: i64,
    /// An ISO 8601 time, kept as the service wrote it.
    pub created_at: String,
    /// An ISO 8601 time, kept as the service wrote it.
    pub updated_at: String,
    pub firmware_version: String,
    pub mac_address: String,
    pub bt_mac_address: String,
    pub serial_number: String,
}

/// A device with its newest sensor readings and its users.
///
/// Nothing here looks at a reading, so the type `R` of one is the caller's
/// choice; the service sends numbers with a fraction. The first ten fields
/// are those of [`DeviceCore`], under the same names and with the same types.
#[derive(Clone, PartialEq, Eq, Debug)]
pub struct Device<R> {
    pub id: String,
    pub name: String,
    pub temperature_offset: i64,
    pub humidity_offset: i64,
    /// An ISO 8601 time, kept as the service wrote it.
    pub created_at: String,
    /// An ISO 8601 time, kept as the service wrote it.
    pub updated_at: String,
    pub firmware_version: String,
    pub mac_address: String,
    pub bt_mac_address: String,
    pub serial_number: String,
    pub newest_events: Events<R>,
    /// The users of the device, in the order in which the service lists them.
    pub users: Vec<User>,
}

/// One sensor reading and the time it was taken.
#[derive(Clone, PartialEq, Eq, Debug)]
pub struct SensorValue<R> {
    pub val: R,
    /// An ISO 8601 time, kept as the service wrote it.
    pub created_at: String,
}

/// The newest readings of a device. The service sends all four.
#[derive(Clone, PartialEq, Eq, Debug)]
pub struct Events<R> {
    /// Temperature.
    pub te: SensorValue<R>,
    /// Humidity.
    pub hu: SensorValue<R>,
    /// Illuminance.
    pub il: SensorValue<R>,
    /// Motion.
    pub mo: SensorValue<R>,
}

/// The fields that a device shares with [`DeviceCore`].
pub open spec fn core_of<R>(device: Device<R>) -> DeviceCore {
    DeviceCore {
        id: device.id,
        name: device.name,
        temperature_offset: device.temperature_offset,
        humidity_offset: device.humidity_offset,
        created_at: device.created_at,
        updated_at: device.updated_at,
        firmware_version: device.firmware_version,
        mac_address: device.mac_address,
        bt_mac_address: device.bt_mac_address,
        serial_number: device.serial_number,
    }
}

impl<R> Device<R> {
    /// The device without its readings and users, as an appliance embeds it.
    pub fn to_core(&self) -> (r: DeviceCore)
        ensures
            r == core_of(*self),
    {
        DeviceCore {
            id: self.id.clone(),
            name: self.name.clone(),
            temperature_offset: self.temperature_offset,
            humidity_offset: self.humidity_offset,
            created_at: self.created_at.clone(),
            updated_at: self.updated_at.clone(),
            firmware_version: self.firmware_version.clone(),
            mac_address: self.mac_address.clone(),
            bt_mac_address: self.bt_mac_address.clone(),
            serial_number: self.serial_number.clone(),
        }
    }
}

impl Client {
    /// The request for the devices of the user.
    pub fn get_devices(&self) -> (r: Request)
        ensures
            r@ == request_of(self.token(), Method::Get, "/devices"@, Seq::empty()),
    {
        self.request(Method::Get, "/devices", &Params::new())
    }
}

/// Reads the reply to [`Client::get_devices`]. A body that is no list of
/// devices is an error.
pub fn read_devices<R>(reply: Reply<Vec<Device<R>>>) -> (r: Result<Vec<Device<R>>, ApiError>)
    ensures
        r == strict_result(reply),
{
    read_strict(reply)
}

} // verus!
