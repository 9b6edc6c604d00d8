//! The devices of a smart home: thermometers and sockets.
//!
//! A reading (a temperature, a power) is held as the decimal text by which it
//! is displayed, for instance `"22.5"`. The library stores, selects and
//! prints readings; it does no arithmetic on them.
use vstd::prelude::*;
use vstd::string::*;
use vstd::std_specs::convert::FromSpecImpl;
use crate::report::Report;

verus! {

/// What a socket is: whether it is on, and the power it draws when on.
pub struct SocketView {
    pub enabled: bool,
    pub power_when_on: Seq<char>,
}

/// What a device is.
pub enum DeviceView {
    Thermometer(Seq<char>),
    Socket(SocketView),
}

/// The power a socket draws now: its rated power when on, zero when off.
pub open spec fn current_power_text(s: SocketView) -> Seq<char> {
    if s.enabled {
        s.power_when_on
    } else {
        "0"@
    }
}

/// The report line of a thermometer showing `temperature`.
pub open spec fn thermometer_report(temperature: Seq<char>) -> Seq<char> {
    "Термометр: температура = "@ + temperature + "°C"@
}

/// The word for a socket's state.
pub open spec fn socket_state_word(enabled: bool) -> Seq<char> {
    if enabled {
        "включена"@
    } else {
        "выключена"@
    }
}

/// The report line of a socket.
pub open spec fn socket_report(s: SocketView) -> Seq<char> {
    "Розетка: "@ + socket_state_word(s.enabled) + ", мощность = "@ + current_power_text(s)
        + " Вт"@
}

/// The report line of a device.
pub open spec fn device_report(d: DeviceView) -> Seq<char> {
    match d {
        DeviceView::Thermometer(t) => thermometer_report(t),
        DeviceView::Socket(s) => socket_report(s),
    }
}

/// A smart thermometer.
#[derive(Debug, Clone, PartialEq)]
pub struct SmartThermometer {
    temperature: String,
}

impl View for SmartThermometer {
    type V = Seq<char>;

    closed spec fn view(&self) -> Seq<char> {
        self.temperature@
    }
}

impl SmartThermometer {
    /// A thermometer showing `temperature`.
    pub fn new(temperature: String) -> (r: Self)
        ensures
            r@ == temperature@,
    {
        SmartThermometer { temperature }
    }

    /// The temperature shown.
    pub fn temperature(&self) -> (r: &str)
        ensures
            r@ == self@,
    {
        self.temperature.as_str()
    }
}

impl Report for SmartThermometer {
    open spec fn report_text(&self) -> Seq<char> {
        thermometer_report(self@)
    }

    fn report(&self) -> (r: String) {
        let mut r = String::from_str("Термометр: температура = ");
        r.append(self.temperature.as_str());
        r.append("°C");
        r
    }
}

/// A smart socket, off until turned on.
#[derive(Debug, Clone, PartialEq)]
pub struct SmartSocket {
    enabled: bool,
    power_when_on: String,
}

impl View for SmartSocket {
    type V = SocketView;

    closed spec fn view(&self) -> SocketView {
        SocketView { enabled: self.enabled, power_when_on: self.power_when_on@ }
    }
}

impl SmartSocket {
    /// A socket that is off and draws `power_when_on` when turned on.
    pub fn new(power_when_on: String) -> (r: Self)
        ensures
            r@ == (SocketView { enabled: false, power_when_on: power_when_on@ }),
    {
        SmartSocket { enabled: false, power_when_on }
    }

    /// Turns the socket on.
    pub fn turn_on(&mut self)
        ensures
            final(self)@ == (SocketView { enabled: true, power_when_on: old(self)@.power_when_on }),
    {
        self.enabled = true;
    }

    /// Turns the socket off.
    pub fn turn_off(&mut self)
        ensures
            final(self)@ == (SocketView { enabled: false, power_when_on: old(self)@.power_when_on }),
    {
        self.enabled = false;
    }

    /// Whether the socket is on.
    pub fn is_on(&self) -> (r: bool)
        ensures
            r == self@.enabled,
    {
        self.enabled
    }

    /// The power the socket draws now.
    pub fn current_power(&self) -> (r: String)
        ensures
            r@ == current_power_text(self@),
    {
        if self.enabled {
            self.power_when_on.clone()
        } else {
            String::from_str("0")
        }
    }

    /// The power the socket draws when on.
    pub fn power_when_on(&self) -> (r: &str)
        ensures
            r@ == self@.power_when_on,
    {
        self.power_when_on.as_str()
    }
}

impl Report for SmartSocket {
    open spec fn report_text(&self) -> Seq<char> {
        socket_report(self@)
    }

    fn report(&self) -> (r: String) {
        let mut r = String::from_str("Розетка: ");
        if self.enabled {
            r.append("включена");
        } else {
            r.append("выключена");
        }
        r.append(", мощность = ");
        let power = self.current_power();
        r.append(power.as_str());
        r.append(" Вт");
        r
    }
}

/// A device of the smart home.
#[derive(Debug, Clone, PartialEq)]
pub enum SmartDevice {
    Thermometer(SmartThermometer),
    Socket(SmartSocket),
}

impl View for SmartDevice {
    type V = DeviceView;

    open spec fn view(&self) -> DeviceView {
        match self {
            SmartDevice::Thermometer(t) => DeviceView::Thermometer(t@),
            SmartDevice::Socket(s) => DeviceView::Socket(s@),
        }
    }
}

impl Report for SmartDevice {
    open spec fn report_text(&self) -> Seq<char> {
        device_report(self@)
    }

    fn report(&self) -> (r: String) {
        match self {
            SmartDevice::Thermometer(t) => t.report(),
            SmartDevice::Socket(s) => s.report(),
        }
    }
}

impl From<SmartThermometer> for SmartDevice {
    fn from(t: SmartThermometer) -> (r: Self) {
        SmartDevice::Thermometer(t)
    }
}

impl FromSpecImpl<SmartThermometer> for SmartDevice {
    open spec fn obeys_from_spec() -> bool {
        true
    }

    open spec fn from_spec(v: SmartThermometer) -> SmartDevice {
        SmartDevice::Thermometer(v)
    }
}

impl From<SmartSocket> for SmartDevice {
    fn from(s: SmartSocket) -> (r: Self) {
        SmartDevice::Socket(s)
    }
}

impl FromSpecImpl<SmartSocket> for SmartDevice {
    open spec fn obeys_from_spec() -> bool {
        true
    }

    open spec fn from_spec(v: SmartSocket) -> SmartDevice {
        SmartDevice::Socket(v)
    }
}

} // verus!
