//! The smart home service: the requests a remote client makes on a shared
//! house, what each changes and what each answers.
use vstd::prelude::*;
use vstd::string::*;
use crate::device::{
    current_power_text, DeviceView, SmartDevice, SmartSocket, SmartThermometer,
};
use crate::error::{missing_device_message, missing_room_message};
use crate::house::SmartHouse;
use crate::name_map::strictly_sorted;
use crate::report::Report;
use crate::room::Room;
use crate::text::{trim_text, trimmed};

verus! {

/// Why a request was refused, with its message.
#[derive(Debug, Clone, PartialEq)]
pub enum ServiceError {
    /// The request is malformed.
    InvalidArgument(String),
    /// The room or device asked for does not exist.
    NotFound(String),
    /// The room or device to create exists already.
    AlreadyExists(String),
}

/// The type of a device, as requests and answers name it.
#[derive(Debug, Clone, Copy, PartialEq, Eq)]
pub enum DeviceKind {
    Unspecified,
    Thermometer,
    Socket,
}

/// The readings of a device, as answers give them.
#[derive(Debug, Clone, PartialEq)]
pub enum DeviceDetails {
    Thermometer { temperature: String },
    Socket { enabled: bool, current_power: String, power_when_on: String },
}

/// A device, as answers give it.
#[derive(Debug, Clone, PartialEq)]
pub struct DeviceInfo {
    pub name: String,
    pub kind: DeviceKind,
    pub details: DeviceDetails,
}

/// A room, as answers give it: its name and its device names in ascending
/// order.
#[derive(Debug, Clone, PartialEq)]
pub struct RoomInfo {
    pub name: String,
    pub device_names: Vec<String>,
}

/// The texts of a list of strings.
pub open spec fn texts(v: Seq<String>) -> Seq<Seq<char>> {
    v.map_values(|s: String| s@)
}

/// `names` lists the names of `m` in ascending order.
pub open spec fn lists_names<V>(names: Seq<Seq<char>>, m: Map<Seq<char>, V>) -> bool {
    &&& strictly_sorted(names)
    &&& names.to_set() == m.dom()
}

/// `info` describes the device `d` named `name`.
pub open spec fn describes_device(info: DeviceInfo, name: Seq<char>, d: DeviceView) -> bool {
    &&& info.name@ == name
    &&& match d {
        DeviceView::Thermometer(t) => {
            &&& info.kind == DeviceKind::Thermometer
            &&& info.details matches DeviceDetails::Thermometer { temperature }
            &&& temperature@ == t
        },
        DeviceView::Socket(s) => {
            &&& info.kind == DeviceKind::Socket
            &&& info.details matches DeviceDetails::Socket {
                enabled,
                current_power,
                power_when_on,
            }
            &&& enabled == s.enabled
            &&& current_power@ == current_power_text(s)
            &&& power_when_on@ == s.power_when_on
        },
    }
}

/// `info` describes the room `room` named `name`.
pub open spec fn describes_room(
    info: RoomInfo,
    name: Seq<char>,
    room: Map<Seq<char>, DeviceView>,
) -> bool {
    &&& info.name@ == name
    &&& lists_names(texts(info.device_names@), room)
}

/// The text of a refusal.
pub open spec fn error_text(e: ServiceError) -> Seq<char> {
    match e {
        ServiceError::InvalidArgument(m) => m@,
        ServiceError::NotFound(m) => m@,
        ServiceError::AlreadyExists(m) => m@,
    }
}

/// The message for a missing room.
pub open spec fn room_not_found_message(name: Seq<char>) -> Seq<char> {
    "комната '"@ + name + "' не найдена"@
}

/// The message for a room that exists already.
pub open spec fn room_exists_message(name: Seq<char>) -> Seq<char> {
    "комната '"@ + name + "' уже существует"@
}

/// The message for a device that exists already.
pub open spec fn device_exists_message(device: Seq<char>, room: Seq<char>) -> Seq<char> {
    "устройство '"@ + device + "' уже существует в комнате '"@ + room + "'"@
}

/// The message for a device missing from a room.
pub open spec fn device_not_in_room_message(device: Seq<char>, room: Seq<char>) -> Seq<char> {
    "устройство '"@ + device + "' не найдено в комнате '"@ + room + "'"@
}

/// The message for an empty room name.
pub open spec fn empty_room_name_message() -> Seq<char> {
    "имя комнаты не может быть пустым"@
}

/// The message for an empty device name.
pub open spec fn empty_device_name_message() -> Seq<char> {
    "имя устройства не может быть пустым"@
}

/// The message for a device type that is not known.
pub open spec fn unknown_kind_message() -> Seq<char> {
    "неизвестный тип устройства"@
}

/// The message for a device type left unspecified.
pub open spec fn unspecified_kind_message() -> Seq<char> {
    "необходимо указать тип устройства"@
}

fn invalid_argument(message: &str) -> (r: ServiceError)
    ensures
        r matches ServiceError::InvalidArgument(m) && m@ == message@,
{
    ServiceError::InvalidArgument(String::from_str(message))
}

fn room_not_found(name: &str) -> (r: ServiceError)
    ensures
        r matches ServiceError::NotFound(m) && m@ == room_not_found_message(name@),
{
    let mut m = String::from_str("комната '");
    m.append(name);
    m.append("' не найдена");
    ServiceError::NotFound(m)
}

/// Describes the device `device` named `name`.
pub fn device_info(name: &str, device: &SmartDevice) -> (r: DeviceInfo)
    ensures
        describes_device(r, name@, device@),
{
    match device {
        SmartDevice::Thermometer(t) => DeviceInfo {
            name: String::from_str(name),
            kind: DeviceKind::Thermometer,
            details: DeviceDetails::Thermometer {
                temperature: String::from_str(t.temperature()),
            },
        },
        SmartDevice::Socket(s) => DeviceInfo {
            name: String::from_str(name),
            kind: DeviceKind::Socket,
            details: DeviceDetails::Socket {
                enabled: s.is_on(),
                current_power: s.current_power(),
                power_when_on: String::from_str(s.power_when_on()),
            },
        },
    }
}

/// Describes the room `room` named `name`.
pub fn room_info(name: &str, room: &Room) -> (r: RoomInfo)
    requires
        room.wf(),
    ensures
        describes_room(r, name@, room@),
{
    let entries = room.devices();
    let ghost names = room.names();
    let mut device_names: Vec<String> = Vec::new();
    let mut i: usize = 0;
    while i < entries.len()
        invariant
            entries@.len() == names.len(),
            names == room.names(),
            forall|j: int| 0 <= j < entries@.len() ==> (#[trigger] entries@[j]).0@ == names[j],
            i <= entries@.len(),
            texts(device_names@) == names.take(i as int),
        decreases entries@.len() - i,
    {
        let ghost before = device_names@;
        let ghost nm = entries@[i as int].0;
        device_names.push(entries[i].0.clone());
        proof {
            assert(nm@ == names[i as int]);
            assert(device_names@ == before.push(nm));
            assert(texts(device_names@) =~= texts(before).push(nm@));
            assert(names.take(i + 1) =~= names.take(i as int).push(names[i as int]));
        }
        i = i + 1;
    }
    proof {
        room.lemma_names();
        assert(names.take(i as int) =~= names);
    }
    RoomInfo { name: String::from_str(name), device_names }
}

/// The smart home service: a house and the requests on it.
pub struct SmartHomeService {
    house: SmartHouse,
}

impl View for SmartHomeService {
    type V = Map<Seq<char>, Map<Seq<char>, DeviceView>>;

    closed spec fn view(&self) -> Map<Seq<char>, Map<Seq<char>, DeviceView>> {
        self.house@
    }
}

impl SmartHomeService {
    /// The service is well formed.
    pub closed spec fn wf(&self) -> bool {
        self.house.wf()
    }

    /// The house the service keeps.
    pub closed spec fn house(&self) -> SmartHouse {
        self.house
    }

    /// The rooms and devices of the service, and its well-formedness, are
    /// those of its house.
    pub proof fn lemma_house(&self)
        ensures
            self@ == self.house()@,
            self.wf() == self.house().wf(),
    {
    }

    /// The report of the service: that of its house.
    pub open spec fn report_text(&self) -> Seq<char> {
        self.house().report_text()
    }

    /// A service on an empty house.
    pub fn new() -> (r: Self)
        ensures
            r.wf(),
            r@ == Map::<Seq<char>, Map<Seq<char>, DeviceView>>::empty(),
    {
        let house = SmartHouse::new(Vec::new());
        assert(house@ =~= Map::<Seq<char>, Map<Seq<char>, DeviceView>>::empty());
        SmartHomeService { house }
    }

    /// All rooms, in ascending order of names.
    pub fn list_rooms(&self) -> (r: Vec<RoomInfo>)
        requires
            self.wf(),
        ensures
            lists_names(r@.map_values(|info: RoomInfo| info.name@), self@),
            forall|i: int|
                0 <= i < r@.len() ==> describes_room(
                    #[trigger] r@[i],
                    r@[i].name@,
                    self@[r@[i].name@],
                ),
    {
        let entries = self.house.rooms();
        let ghost names = self.house.room_names();
        let mut out: Vec<RoomInfo> = Vec::new();
        let mut i: usize = 0;
        proof {
            self.house.lemma_room_names();
        }
        while i < entries.len()
            invariant
                self.house.wf(),
                entries@.len() == names.len(),
                names == self.house.room_names(),
                names.len() == self.house.room_seq().len(),
                forall|j: int|
                    0 <= j < entries@.len() ==> (#[trigger] entries@[j]).0@ == names[j]
                        && entries@[j].1 == self.house.room_seq()[j],
                forall|j: int|
                    0 <= j < names.len() ==> (#[trigger] self.house.room_seq()[j]).wf()
                        && self@[names[j]] == self.house.room_seq()[j]@,
                i <= entries@.len(),
                out@.map_values(|info: RoomInfo| info.name@) == names.take(i as int),
                forall|j: int|
                    0 <= j < out@.len() ==> describes_room(
                        #[trigger] out@[j],
                        out@[j].name@,
                        self@[out@[j].name@],
                    ),
            decreases entries@.len() - i,
        {
            let (name, room) = &entries[i];
            let ghost before = out@;
            proof {
                assert(entries@[i as int].0@ == names[i as int]);
            }
            let info = room_info(name.as_str(), room);
            out.push(info);
            proof {
                assert(out@ == before.push(info));
                assert(out@.map_values(|info: RoomInfo| info.name@) =~= before.map_values(
                    |info: RoomInfo| info.name@,
                ).push(names[i as int]));
                assert(names.take(i + 1) =~= names.take(i as int).push(names[i as int]));
            }
            i = i + 1;
        }
        proof {
            assert(names.take(i as int) =~= names);
        }
        out
    }

    /// The room named `name`.
    pub fn get_room(&self, name: &str) -> (r: Result<RoomInfo, ServiceError>)
        requires
            self.wf(),
        ensures
            match r {
                Ok(info) => self@.contains_key(name@) && describes_room(info, name@, self@[name@]),
                Err(e) => !self@.contains_key(name@) && e is NotFound && error_text(e)
                    == room_not_found_message(name@),
            },
    {
        match self.house.get_room(name) {
            Some(room) => Ok(room_info(name, room)),
            None => Err(room_not_found(name)),
        }
    }

    /// Creates an empty room named `name` with surrounding whitespace
    /// removed. Refused when that name is empty or taken.
    pub fn add_room(&mut self, name: &str) -> (r: Result<RoomInfo, ServiceError>)
        requires
            old(self).wf(),
        ensures
            final(self).wf(),
            match r {
                Ok(info) => {
                    &&& trimmed(name@).len() > 0
                    &&& !old(self)@.contains_key(trimmed(name@))
                    &&& final(self)@ == old(self)@.insert(trimmed(name@), Map::empty())
                    &&& info.name@ == trimmed(name@)
                    &&& info.device_names@.len() == 0
                },
                Err(e) => {
                    &&& final(self)@ == old(self)@
                    &&& if trimmed(name@).len() == 0 {
                        e is InvalidArgument && error_text(e) == empty_room_name_message()
                    } else {
                        &&& old(self)@.contains_key(trimmed(name@))
                        &&& e is AlreadyExists
                        &&& error_text(e) == room_exists_message(trimmed(name@))
                    }
                },
            },
    {
        let t = trim_text(name);
        if t.unicode_len() == 0 {
            return Err(invalid_argument("имя комнаты не может быть пустым"));
        }
        if self.house.get_room(t.as_str()).is_some() {
            let mut m = String::from_str("комната '");
            m.append(t.as_str());
            m.append("' уже существует");
            return Err(ServiceError::AlreadyExists(m));
        }
        let empty = Room::new(Vec::new());
        assert(empty@ =~= Map::<Seq<char>, DeviceView>::empty());
        self.house.add_room(t.clone(), empty);
        Ok(RoomInfo { name: t, device_names: Vec::new() })
    }

    /// Removes the room named `name`.
    pub fn remove_room(&mut self, name: &str) -> (r: Result<(), ServiceError>)
        requires
            old(self).wf(),
        ensures
            final(self).wf(),
            final(self)@ == old(self)@.remove(name@),
            match r {
                Ok(()) => old(self)@.contains_key(name@),
                Err(e) => !old(self)@.contains_key(name@) && e is NotFound && error_text(e)
                    == room_not_found_message(name@),
            },
    {
        match self.house.remove_room(name) {
            Some(_) => Ok(()),
            None => Err(room_not_found(name)),
        }
    }

    /// The devices of the room named `room_name`, in ascending order of
    /// names.
    pub fn list_devices(&self, room_name: &str) -> (r: Result<Vec<DeviceInfo>, ServiceError>)
        requires
            self.wf(),
        ensures
            match r {
                Ok(infos) => {
                    &&& self@.contains_key(room_name@)
                    &&& lists_names(
                        infos@.map_values(|info: DeviceInfo| info.name@),
                        self@[room_name@],
                    )
                    &&& forall|i: int|
                        0 <= i < infos@.len() ==> describes_device(
                            #[trigger] infos@[i],
                            infos@[i].name@,
                            self@[room_name@][infos@[i].name@],
                        )
                },
                Err(e) => !self@.contains_key(room_name@) && e is NotFound && error_text(e)
                    == room_not_found_message(room_name@),
            },
    {
        let room = match self.house.get_room(room_name) {
            Some(room) => room,
            None => {
                return Err(room_not_found(room_name));
            },
        };
        let entries = room.devices();
        let ghost names = room.names();
        let ghost views = room.device_views();
        proof {
            room.lemma_names();
        }
        let mut out: Vec<DeviceInfo> = Vec::new();
        let mut i: usize = 0;
        while i < entries.len()
            invariant
                room.wf(),
                entries@.len() == names.len(),
                names == room.names(),
                views == room.device_views(),
                views.len() == names.len(),
                forall|j: int|
                    0 <= j < entries@.len() ==> (#[trigger] entries@[j]).0@ == names[j]
                        && entries@[j].1@ == views[j],
                forall|j: int| 0 <= j < names.len() ==> room@[#[trigger] names[j]] == views[j],
                i <= entries@.len(),
                out@.map_values(|info: DeviceInfo| info.name@) == names.take(i as int),
                forall|j: int|
                    0 <= j < out@.len() ==> describes_device(
                        #[trigger] out@[j],
                        out@[j].name@,
                        room@[out@[j].name@],
                    ),
            decreases entries@.len() - i,
        {
            let (name, device) = &entries[i];
            let ghost before = out@;
            proof {
                assert(entries@[i as int].0@ == names[i as int]);
            }
            let info = device_info(name.as_str(), device);
            out.push(info);
            proof {
                assert(out@ == before.push(info));
                assert(out@.map_values(|info: DeviceInfo| info.name@) =~= before.map_values(
                    |info: DeviceInfo| info.name@,
                ).push(names[i as int]));
                assert(names.take(i + 1) =~= names.take(i as int).push(names[i as int]));
            }
            i = i + 1;
        }
        proof {
            assert(names.take(i as int) =~= names);
        }
        Ok(out)
    }

    /// The device `device_name` of the room `room_name`.
    pub fn get_device(&self, room_name: &str, device_name: &str) -> (r: Result<
        DeviceInfo,
        ServiceError,
    >)
        requires
            self.wf(),
        ensures
            match r {
                Ok(info) => {
                    &&& self@.contains_key(room_name@)
                    &&& self@[room_name@].contains_key(device_name@)
                    &&& describes_device(info, device_name@, self@[room_name@][device_name@])
                },
                Err(e) => {
                    &&& e is NotFound
                    &&& if !self@.contains_key(room_name@) {
                        error_text(e) == missing_room_message(room_name@)
                    } else {
                        &&& !self@[room_name@].contains_key(device_name@)
                        &&& error_text(e) == missing_device_message(device_name@)
                    }
                },
            },
    {
        match self.house.get_device(room_name, device_name) {
            Ok(device) => Ok(device_info(device_name, device)),
            Err(e) => Err(ServiceError::NotFound(e.message())),
        }
    }

    /// Adds to the room `room_name` a new device `device_name` of type
    /// `kind` (`None` for a type that is not known), built from
    /// `temperature` or `power_when_on`. Both names have surrounding
    /// whitespace removed first. Refused, in this order of checks, when a
    /// name is empty, the type is unknown or unspecified, the room does not
    /// exist, or the room has a device of that name.
    pub fn add_device(
        &mut self,
        room_name: &str,
        device_name: &str,
        kind: Option<DeviceKind>,
        temperature: String,
        power_when_on: String,
    ) -> (r: Result<DeviceInfo, ServiceError>)
        requires
            old(self).wf(),
        ensures
            final(self).wf(),
            ({
                let room = trimmed(room_name@);
                let device = trimmed(device_name@);
                match r {
                    Ok(info) => {
                        &&& room.len() > 0
                        &&& device.len() > 0
                        &&& kind is Some
                        &&& kind != Some(DeviceKind::Unspecified)
                        &&& old(self)@.contains_key(room)
                        &&& !old(self)@[room].contains_key(device)
                        &&& final(self)@ == old(self)@.insert(
                            room,
                            old(self)@[room].insert(
                                device,
                                new_device(kind->0, temperature@, power_when_on@),
                            ),
                        )
                        &&& describes_device(
                            info,
                            device,
                            new_device(kind->0, temperature@, power_when_on@),
                        )
                    },
                    Err(e) => {
                        &&& final(self)@ == old(self)@
                        &&& if room.len() == 0 {
                            e is InvalidArgument && error_text(e) == empty_room_name_message()
                        } else if device.len() == 0 {
                            e is InvalidArgument && error_text(e) == empty_device_name_message()
                        } else if kind is None {
                            e is InvalidArgument && error_text(e) == unknown_kind_message()
                        } else if kind == Some(DeviceKind::Unspecified) {
                            e is InvalidArgument && error_text(e) == unspecified_kind_message()
                        } else if !old(self)@.contains_key(room) {
                            e is NotFound && error_text(e) == room_not_found_message(room)
                        } else {
                            &&& old(self)@[room].contains_key(device)
                            &&& e is AlreadyExists
                            &&& error_text(e) == device_exists_message(device, room)
                        }
                    },
                }
            }),
    {
        let room_t = trim_text(room_name);
        let device_t = trim_text(device_name);
        if room_t.unicode_len() == 0 {
            return Err(invalid_argument("имя комнаты не может быть пустым"));
        }
        if device_t.unicode_len() == 0 {
            return Err(invalid_argument("имя устройства не может быть пустым"));
        }
        let device = match kind {
            None => {
                return Err(invalid_argument("неизвестный тип устройства"));
            },
            Some(DeviceKind::Unspecified) => {
                return Err(invalid_argument("необходимо указать тип устройства"));
            },
            Some(DeviceKind::Thermometer) => {
                SmartDevice::Thermometer(SmartThermometer::new(temperature))
            },
            Some(DeviceKind::Socket) => SmartDevice::Socket(SmartSocket::new(power_when_on)),
        };
        match self.house.get_room_mut(room_t.as_str()) {
            None => Err(room_not_found(room_t.as_str())),
            Some(room) => {
                if room.get_device(device_t.as_str()).is_some() {
                    let mut m = String::from_str("устройство '");
                    m.append(device_t.as_str());
                    m.append("' уже существует в комнате '");
                    m.append(room_t.as_str());
                    m.append("'");
                    return Err(ServiceError::AlreadyExists(m));
                }
                let info = device_info(device_t.as_str(), &device);
                room.add_device(device_t, device);
                Ok(info)
            },
        }
    }

    /// Removes the device `device_name` from the room `room_name`.
    pub fn remove_device(&mut self, room_name: &str, device_name: &str) -> (r: Result<
        (),
        ServiceError,
    >)
        requires
            old(self).wf(),
        ensures
            final(self).wf(),
            match r {
                Ok(()) => {
                    &&& old(self)@.contains_key(room_name@)
                    &&& old(self)@[room_name@].contains_key(device_name@)
                    &&& final(self)@ == old(self)@.insert(
                        room_name@,
                        old(self)@[room_name@].remove(device_name@),
                    )
                },
                Err(e) => {
                    &&& final(self)@ == old(self)@
                    &&& e is NotFound
                    &&& if !old(self)@.contains_key(room_name@) {
                        error_text(e) == room_not_found_message(room_name@)
                    } else {
                        &&& !old(self)@[room_name@].contains_key(device_name@)
                        &&& error_text(e) == device_not_in_room_message(
                            device_name@,
                            room_name@,
                        )
                    }
                },
            },
    {
        let ghost old_view = self@;
        match self.house.get_room_mut(room_name) {
            None => Err(room_not_found(room_name)),
            Some(room) => {
                let removed = room.remove_device(device_name);
                match removed {
                Some(_) => Ok(()),
                None => {
                    proof {
                        let before = old_view[room_name@];
                        assert(before.remove(device_name@) =~= before);
                        assert(old_view.insert(room_name@, old_view[room_name@]) =~= old_view);
                    }
                    let mut m = String::from_str("устройство '");
                    m.append(device_name);
                    m.append("' не найдено в комнате '");
                    m.append(room_name);
                    m.append("'");
                    Err(ServiceError::NotFound(m))
                },
                }
            },
        }
    }

    /// The report of the house.
    pub fn get_report(&self) -> (r: String)
        ensures
            r@ == self.report_text(),
    {
        self.house.report()
    }
}

/// The device that a request to add one of type `kind` creates.
pub open spec fn new_device(
    kind: DeviceKind,
    temperature: Seq<char>,
    power_when_on: Seq<char>,
) -> DeviceView {
    match kind {
        DeviceKind::Thermometer => DeviceView::Thermometer(temperature),
        _ => DeviceView::Socket(
            crate::device::SocketView { enabled: false, power_when_on: power_when_on },
        ),
    }
}

impl Default for SmartHomeService {
    fn default() -> (r: Self)
        ensures
            r.wf(),
            r@ == Map::<Seq<char>, Map<Seq<char>, DeviceView>>::empty(),
    {
        Self::new()
    }
}

} // verus!
