//! The rules of the web front end: how service answers become HTTP answers
//! and how request bodies name device types.
use vstd::prelude::*;
use vstd::string::*;
use crate::service::{DeviceDetails, DeviceInfo, DeviceKind, ServiceError};
use crate::text::text_equal;

verus! {

/// The status a service call ended with, as far as the front end tells
/// them apart.
#[derive(Debug, Clone, Copy, PartialEq, Eq)]
pub enum CallStatus {
    NotFound,
    AlreadyExists,
    InvalidArgument,
    /// Any other failure of the call, such as the service being unreachable.
    Other,
}

/// The status of a refusal.
pub open spec fn status_of(e: ServiceError) -> CallStatus {
    match e {
        ServiceError::InvalidArgument(_) => CallStatus::InvalidArgument,
        ServiceError::NotFound(_) => CallStatus::NotFound,
        ServiceError::AlreadyExists(_) => CallStatus::AlreadyExists,
    }
}

/// The HTTP status for a failed call.
pub open spec fn http_status_of(s: CallStatus) -> u16 {
    match s {
        CallStatus::NotFound => 404,
        CallStatus::AlreadyExists => 409,
        CallStatus::InvalidArgument => 400,
        CallStatus::Other => 502,
    }
}

impl ServiceError {
    /// The status of the refusal.
    pub fn status(&self) -> (r: CallStatus)
        ensures
            r == status_of(*self),
    {
        match self {
            ServiceError::InvalidArgument(_) => CallStatus::InvalidArgument,
            ServiceError::NotFound(_) => CallStatus::NotFound,
            ServiceError::AlreadyExists(_) => CallStatus::AlreadyExists,
        }
    }
}

/// The HTTP status code answered for a failed call: not found 404, already
/// exists 409 (conflict), invalid argument 400, anything else 502 (bad
/// gateway).
pub fn http_status(s: CallStatus) -> (r: u16)
    ensures
        r == http_status_of(s),
{
    match s {
        CallStatus::NotFound => 404,
        CallStatus::AlreadyExists => 409,
        CallStatus::InvalidArgument => 400,
        CallStatus::Other => 502,
    }
}

/// The name of a device type in the web API; `None` stands for a type code
/// that is not known.
pub open spec fn kind_name(kind: Option<DeviceKind>) -> Seq<char> {
    match kind {
        Some(DeviceKind::Thermometer) => "thermometer"@,
        Some(DeviceKind::Socket) => "socket"@,
        _ => "unknown"@,
    }
}

/// The name of a device type in the web API.
pub fn device_type_name(kind: Option<DeviceKind>) -> (r: String)
    ensures
        r@ == kind_name(kind),
{
    match kind {
        Some(DeviceKind::Thermometer) => String::from_str("thermometer"),
        Some(DeviceKind::Socket) => String::from_str("socket"),
        _ => String::from_str("unknown"),
    }
}

/// The device type that a request body names: `thermometer` or `socket`,
/// nothing else.
pub open spec fn named_device_type(name: Seq<char>) -> Option<DeviceKind> {
    if name == "thermometer"@ {
        Some(DeviceKind::Thermometer)
    } else if name == "socket"@ {
        Some(DeviceKind::Socket)
    } else {
        None
    }
}

/// The device type that a request body names: `thermometer` or `socket`,
/// nothing else.
pub fn parse_device_type(name: &str) -> (r: Option<DeviceKind>)
    ensures
        r == named_device_type(name@),
{
    if text_equal(name, "thermometer") {
        Some(DeviceKind::Thermometer)
    } else if text_equal(name, "socket") {
        Some(DeviceKind::Socket)
    } else {
        None
    }
}

/// The message answered for a body with an unknown device type.
pub fn bad_device_type_message() -> (r: String)
    ensures
        r@ == "device_type должен быть thermometer или socket"@,
{
    String::from_str("device_type должен быть thermometer или socket")
}

/// What a request to add a device asks of the service: the type it names
/// and the two readings, each taken as given or, when absent, the default
/// (a temperature of 20, a power of 100).
pub open spec fn device_request(
    kind: DeviceKind,
    temperature: Option<String>,
    power_when_on: Option<String>,
) -> (DeviceKind, Seq<char>, Seq<char>) {
    (
        kind,
        match temperature {
            Some(t) => t@,
            None => "20"@,
        },
        match power_when_on {
            Some(p) => p@,
            None => "100"@,
        },
    )
}

/// Reads the body of a request to add a device: the type must be
/// `thermometer` or `socket`; a missing temperature stands for 20 and a
/// missing power for 100. A body with any other type is answered 400 with
/// a message, before the service is asked anything.
pub fn add_device_request(
    device_type: &str,
    temperature: Option<String>,
    power_when_on: Option<String>,
) -> (r: Result<(DeviceKind, String, String), (u16, String)>)
    ensures
        r is Ok <==> named_device_type(device_type@) is Some,
        match r {
            Ok((kind, t, p)) => {
                &&& (kind, t@, p@) == device_request(
                    named_device_type(device_type@)->0,
                    temperature,
                    power_when_on,
                )
                &&& t@ == (match temperature {
                    Some(x) => x@,
                    None => "20"@,
                })
                &&& p@ == (match power_when_on {
                    Some(x) => x@,
                    None => "100"@,
                })
            },
            Err((status, message)) => status == 400 && message@
                == "device_type должен быть thermometer или socket"@,
        },
{
    match parse_device_type(device_type) {
        None => Err((400, bad_device_type_message())),
        Some(kind) => {
            let t = match temperature {
                Some(t) => t,
                None => String::from_str("20"),
            };
            let p = match power_when_on {
                Some(p) => p,
                None => String::from_str("100"),
            };
            Ok((kind, t, p))
        },
    }
}

/// A device as the web API shows it: readings that do not apply to its
/// type are absent.
#[derive(Debug, Clone, PartialEq)]
pub struct DeviceDto {
    pub name: String,
    pub device_type: String,
    pub temperature: Option<String>,
    pub enabled: Option<bool>,
    pub current_power: Option<String>,
    pub power_when_on: Option<String>,
}

/// `dto` shows the device `info` (whose type code is known as `kind`).
pub open spec fn shows_device(dto: DeviceDto, info: DeviceInfo, kind: Option<DeviceKind>) -> bool {
    &&& dto.name == info.name
    &&& dto.device_type@ == kind_name(kind)
    &&& match info.details {
        DeviceDetails::Thermometer { temperature } => {
            &&& dto.temperature == Some(temperature)
            &&& dto.enabled is None
            &&& dto.current_power is None
            &&& dto.power_when_on is None
        },
        DeviceDetails::Socket { enabled, current_power, power_when_on } => {
            &&& dto.temperature is None
            &&& dto.enabled == Some(enabled)
            &&& dto.current_power == Some(current_power)
            &&& dto.power_when_on == Some(power_when_on)
        },
    }
}

/// Shows the device `info` in the web API.
pub fn device_dto(info: DeviceInfo) -> (r: DeviceDto)
    ensures
        shows_device(r, info, Some(info.kind)),
{
    let device_type = device_type_name(Some(info.kind));
    let mut dto = DeviceDto {
        name: info.name,
        device_type,
        temperature: None,
        enabled: None,
        current_power: None,
        power_when_on: None,
    };
    match info.details {
        DeviceDetails::Thermometer { temperature } => {
            dto.temperature = Some(temperature);
        },
        DeviceDetails::Socket { enabled, current_power, power_when_on } => {
            dto.enabled = Some(enabled);
            dto.current_power = Some(current_power);
            dto.power_when_on = Some(power_when_on);
        },
    }
    dto
}

} // verus!
