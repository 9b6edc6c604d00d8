//! The error of a device lookup in a house.
use vstd::prelude::*;
use vstd::string::*;

verus! {

/// Why a device could not be found in a house.
#[derive(Debug, Clone, PartialEq)]
pub enum DeviceLookupError {
    /// No room has the given name.
    RoomNotFound(String),
    /// The room has no device of the given name.
    DeviceNotFound(String),
}

/// The message for a room that no house room has the name of.
pub open spec fn missing_room_message(name: Seq<char>) -> Seq<char> {
    "Комната '"@ + name + "' не найдена"@
}

/// The message for a device that the room has no device of the name of.
pub open spec fn missing_device_message(name: Seq<char>) -> Seq<char> {
    "Устройство '"@ + name + "' не найдено"@
}

/// The message of a lookup error.
pub open spec fn lookup_error_message(e: DeviceLookupError) -> Seq<char> {
    match e {
        DeviceLookupError::RoomNotFound(name) => missing_room_message(name@),
        DeviceLookupError::DeviceNotFound(name) => missing_device_message(name@),
    }
}

impl DeviceLookupError {
    /// The human-readable message of the error.
    pub fn message(&self) -> (r: String)
        ensures
            r@ == lookup_error_message(*self),
    {
        match self {
            DeviceLookupError::RoomNotFound(name) => {
                let mut r = String::from_str("Комната '");
                r.append(name.as_str());
                r.append("' не найдена");
                r
            },
            DeviceLookupError::DeviceNotFound(name) => {
                let mut r = String::from_str("Устройство '");
                r.append(name.as_str());
                r.append("' не найдено");
                r
            },
        }
    }
}

} // verus!
