//! A house: named rooms.
use vstd::prelude::*;
use vstd::string::*;
use crate::device::{DeviceView, SmartDevice};
use crate::error::DeviceLookupError;
use crate::name_map::{lemma_pairs_map_values, pairs_map, strictly_sorted, NameMap};
use crate::report::Report;
use crate::room::Room;

verus! {

/// The sections of a house report for rooms `names[i]` with reports
/// `reports[i]`, in order.
pub open spec fn room_sections(names: Seq<Seq<char>>, reports: Seq<Seq<char>>) -> Seq<char>
    decreases names.len(),
{
    if names.len() == 0 || reports.len() == 0 {
        Seq::empty()
    } else {
        room_sections(names.drop_last(), reports.drop_last()) + "\nКомната '"@ + names.last()
            + "':\n"@ + reports.last() + "\n"@
    }
}

/// The report of a house whose rooms `names[i]` report `reports[i]`.
pub open spec fn house_report(names: Seq<Seq<char>>, reports: Seq<Seq<char>>) -> Seq<char> {
    "=== УМНЫЙ ДОМ ===\n"@ + room_sections(names, reports)
}

/// A smart house: rooms by name.
#[derive(Debug, Clone, PartialEq)]
pub struct SmartHouse {
    rooms: NameMap<Room>,
}

/// Every room of a list is well formed.
pub open spec fn all_rooms_wf(rooms: Seq<Room>) -> bool {
    forall|i: int| 0 <= i < rooms.len() ==> (#[trigger] rooms[i]).wf()
}

impl View for SmartHouse {
    type V = Map<Seq<char>, Map<Seq<char>, DeviceView>>;

    closed spec fn view(&self) -> Map<Seq<char>, Map<Seq<char>, DeviceView>> {
        self.rooms.map().map_values(|r: Room| r@)
    }
}

impl SmartHouse {
    /// The house is well formed: room names strictly ascending, every room
    /// well formed.
    pub closed spec fn wf(&self) -> bool {
        &&& self.rooms.wf()
        &&& all_rooms_wf(self.rooms.values())
    }

    /// The room names, in ascending order.
    pub closed spec fn room_names(&self) -> Seq<Seq<char>> {
        self.rooms.keys()
    }

    /// The rooms, in the order of their names.
    pub closed spec fn room_seq(&self) -> Seq<Room> {
        self.rooms.values()
    }

    /// The names list the rooms of the house, in ascending order.
    pub proof fn lemma_room_names(&self)
        requires
            self.wf(),
        ensures
            strictly_sorted(self.room_names()),
            self@.dom() == self.room_names().to_set(),
            self@.len() == self.room_names().len(),
            self.room_seq().len() == self.room_names().len(),
            forall|i: int|
                0 <= i < self.room_names().len() ==> (#[trigger] self.room_seq()[i]).wf()
                    && self@[self.room_names()[i]] == self.room_seq()[i]@,
    {
        self.rooms.lemma_dom();
        assert(self@.dom() =~= self.rooms.map().dom());
        assert forall|i: int| 0 <= i < self.room_names().len() implies (#[trigger] self.room_seq()[
            i
        ]).wf() && self@[self.room_names()[i]] == self.room_seq()[i]@ by {
            self.rooms.lemma_at(i);
        }
    }

    /// A house holding `rooms`, inserted one after the other: of two rooms
    /// with the same name the later one stays.
    pub fn new(rooms: Vec<(String, Room)>) -> (r: Self)
        requires
            forall|i: int| 0 <= i < rooms@.len() ==> (#[trigger] rooms@[i]).1.wf(),
        ensures
            r.wf(),
            r@ == pairs_map(rooms@).map_values(|room: Room| room@),
    {
        let ghost pairs = rooms@;
        let map = NameMap::from_pairs(rooms);
        proof {
            lemma_pairs_map_values(pairs, |room: Room| room.wf());
            assert forall|i: int| 0 <= i < map.values().len() implies (#[trigger] map.values()[
                i
            ]).wf() by {
                map.lemma_at(i);
                assert(map.map().contains_key(map.keys()[i]));
            }
        }
        SmartHouse { rooms: map }
    }

    /// The house of the rooms of `rooms`.
    pub(crate) fn from_rooms(rooms: NameMap<Room>) -> (r: Self)
        requires
            rooms.wf(),
            all_rooms_wf(rooms.values()),
        ensures
            r.wf(),
            r@ == rooms.map().map_values(|room: Room| room@),
    {
        SmartHouse { rooms }
    }

    /// The room named `name`, if any.
    pub fn get_room(&self, name: &str) -> (r: Option<&Room>)
        requires
            self.wf(),
        ensures
            match r {
                Some(room) => self@.contains_key(name@) && room@ == self@[name@] && room.wf(),
                None => !self@.contains_key(name@),
            },
    {
        let r = self.rooms.get(name);
        proof {
            if r.is_some() {
                let i = self.rooms.keys().index_of(name@);
                self.rooms.lemma_at(i);
            }
        }
        r
    }

    /// A mutable reference to the room named `name`, if any. The house stays
    /// well formed as long as the room does.
    pub fn get_room_mut(&mut self, name: &str) -> (r: Option<&mut Room>)
        requires
            old(self).wf(),
        ensures
            match r {
                Some(room) => {
                    &&& old(self)@.contains_key(name@)
                    &&& room@ == old(self)@[name@]
                    &&& room.wf()
                    &&& final(room).wf() ==> final(self).wf()
                    &&& final(self).room_names() == old(self).room_names()
                    &&& final(self)@ == old(self)@.insert(name@, final(room)@)
                },
                None => {
                    &&& !old(self)@.contains_key(name@)
                    &&& *final(self) == *old(self)
                },
            },
    {
        proof {
            if self.rooms.map().contains_key(name@) {
                let i = self.rooms.keys().index_of(name@);
                self.rooms.lemma_at(i);
                assert forall|x: Room| #![trigger self.rooms.values().update(i, x)]
                    x.wf() ==> all_rooms_wf(self.rooms.values().update(i, x)) by {}
            }
            assert forall|m: Map<Seq<char>, Room>, x: Room| #![trigger m.insert(name@, x)]
                m.insert(name@, x).map_values(|r: Room| r@) =~= m.map_values(|r: Room| r@).insert(
                    name@,
                    x@,
                ) by {}
        }
        self.rooms.get_mut(name)
    }

    /// Adds `room` under `name`, replacing any room of that name.
    pub fn add_room(&mut self, name: String, room: Room)
        requires
            old(self).wf(),
            room.wf(),
        ensures
            final(self).wf(),
            final(self)@ == old(self)@.insert(name@, room@),
    {
        let ghost k = name@;
        let ghost rv = room@;
        let ghost old_rooms = self.rooms;
        let ghost old_map = self.rooms.map();
        self.rooms.insert(name, room);
        proof {
            assert forall|i: int| 0 <= i < self.rooms.values().len() implies (
            #[trigger] self.rooms.values()[i]).wf() by {
                self.rooms.lemma_at(i);
                let q = self.rooms.keys()[i];
                if q != k {
                    let j = old_rooms.keys().index_of(q);
                    old_rooms.lemma_at(j);
                }
            }
        }
        assert(self@ =~= old_map.map_values(|r: Room| r@).insert(k, rv));
    }

    /// Removes the room named `name`, giving it back if there was one.
    pub fn remove_room(&mut self, name: &str) -> (r: Option<Room>)
        requires
            old(self).wf(),
        ensures
            final(self).wf(),
            final(self)@ == old(self)@.remove(name@),
            match r {
                Some(room) => old(self)@.contains_key(name@) && room@ == old(self)@[name@]
                    && room.wf(),
                None => !old(self)@.contains_key(name@),
            },
    {
        let ghost old_map = self.rooms.map();
        let ghost old_rooms = self.rooms;
        let r = self.rooms.remove(name);
        proof {
            assert forall|i: int| 0 <= i < self.rooms.values().len() implies (
            #[trigger] self.rooms.values()[i]).wf() by {
                self.rooms.lemma_at(i);
                let q = self.rooms.keys()[i];
                let j = old_rooms.keys().index_of(q);
                old_rooms.lemma_at(j);
            }
            if r.is_some() {
                let j = old_rooms.keys().index_of(name@);
                old_rooms.lemma_at(j);
            }
        }
        assert(self@ =~= old_map.map_values(|r: Room| r@).remove(name@));
        r
    }

    /// The device `device_name` of the room `room_name`. The room is looked
    /// up first: a missing room is reported even when the device name is
    /// missing too.
    pub fn get_device(&self, room_name: &str, device_name: &str) -> (r: Result<
        &SmartDevice,
        DeviceLookupError,
    >)
        requires
            self.wf(),
        ensures
            match r {
                Ok(d) => {
                    &&& self@.contains_key(room_name@)
                    &&& self@[room_name@].contains_key(device_name@)
                    &&& d@ == self@[room_name@][device_name@]
                },
                Err(DeviceLookupError::RoomNotFound(n)) => {
                    &&& !self@.contains_key(room_name@)
                    &&& n@ == room_name@
                },
                Err(DeviceLookupError::DeviceNotFound(n)) => {
                    &&& self@.contains_key(room_name@)
                    &&& !self@[room_name@].contains_key(device_name@)
                    &&& n@ == device_name@
                },
            },
    {
        match self.get_room(room_name) {
            None => Err(DeviceLookupError::RoomNotFound(String::from_str(room_name))),
            Some(room) => match room.get_device(device_name) {
                Some(d) => Ok(d),
                None => Err(DeviceLookupError::DeviceNotFound(String::from_str(device_name))),
            },
        }
    }

    /// A mutable reference to the device `device_name` of the room
    /// `room_name`, with the same errors as `get_device`.
    pub fn get_device_mut(&mut self, room_name: &str, device_name: &str) -> (r: Result<
        &mut SmartDevice,
        DeviceLookupError,
    >)
        requires
            old(self).wf(),
        ensures
            match r {
                Ok(d) => {
                    &&& old(self)@.contains_key(room_name@)
                    &&& old(self)@[room_name@].contains_key(device_name@)
                    &&& d@ == old(self)@[room_name@][device_name@]
                    &&& final(self).wf()
                    &&& final(self)@ == old(self)@.insert(
                        room_name@,
                        old(self)@[room_name@].insert(device_name@, final(d)@),
                    )
                },
                Err(DeviceLookupError::RoomNotFound(n)) => {
                    &&& !old(self)@.contains_key(room_name@)
                    &&& n@ == room_name@
                    &&& *final(self) == *old(self)
                },
                Err(DeviceLookupError::DeviceNotFound(n)) => {
                    &&& old(self)@.contains_key(room_name@)
                    &&& !old(self)@[room_name@].contains_key(device_name@)
                    &&& n@ == device_name@
                    &&& final(self)@ == old(self)@
                    &&& final(self).wf()
                },
            },
    {
        match self.get_room_mut(room_name) {
            None => Err(DeviceLookupError::RoomNotFound(String::from_str(room_name))),
            Some(room) => match room.get_device_mut(device_name) {
                Some(d) => Ok(d),
                None => Err(DeviceLookupError::DeviceNotFound(String::from_str(device_name))),
            },
        }
    }

    /// The rooms with their names, in ascending order of names.
    pub fn rooms(&self) -> (r: &Vec<(String, Room)>)
        requires
            self.wf(),
        ensures
            r@.len() == self.room_names().len(),
            forall|i: int|
                0 <= i < r@.len() ==> (#[trigger] r@[i]).0@ == self.room_names()[i] && r@[i].1
                    == self.room_seq()[i],
    {
        self.rooms.entries()
    }
}

impl Report for SmartHouse {
    open spec fn report_text(&self) -> Seq<char> {
        house_report(self.room_names(), self.room_seq().map_values(|r: Room| r.report_text()))
    }

    fn report(&self) -> (r: String) {
        let entries = self.rooms.entries();
        let ghost names = self.room_names();
        let ghost reports = self.room_seq().map_values(|r: Room| r.report_text());
        let mut r = String::from_str("=== УМНЫЙ ДОМ ===\n");
        let mut i: usize = 0;
        assert(names.take(0) =~= Seq::<Seq<char>>::empty());
        assert(r@ + room_sections(names.take(0), reports.take(0)) =~= r@);
        while i < entries.len()
            invariant
                entries@ == self.rooms.entry_seq(),
                names == self.room_names(),
                reports == self.room_seq().map_values(|r: Room| r.report_text()),
                names.len() == entries@.len(),
                reports.len() == entries@.len(),
                i <= entries@.len(),
                r@ == "=== УМНЫЙ ДОМ ===\n"@ + room_sections(
                    names.take(i as int),
                    reports.take(i as int),
                ),
            decreases entries@.len() - i,
        {
            let (name, room) = &entries[i];
            r.append("\nКомната '");
            r.append(name.as_str());
            r.append("':\n");
            let text = room.report();
            r.append(text.as_str());
            r.append("\n");
            proof {
                assert(names.take(i + 1).drop_last() =~= names.take(i as int));
                assert(reports.take(i + 1).drop_last() =~= reports.take(i as int));
            }
            i = i + 1;
        }
        assert(names.take(i as int) =~= names);
        assert(reports.take(i as int) =~= reports);
        r
    }
}

} // verus!
