//! A step-by-step builder of houses whose state, a type parameter, rules out
//! adding a device before any room: `add_device` exists only once a room has
//! been added, and it adds to the room added last.
use std::marker::PhantomData;
use vstd::prelude::*;
use vstd::string::*;
use crate::device::{DeviceView, SmartDevice};
use crate::house::{all_rooms_wf, SmartHouse};
use crate::name_map::NameMap;
use crate::room::Room;

verus! {

/// The state of a builder that has no room yet.
pub struct NoRoomsYet;

/// The state of a builder that has at least one room.
pub struct HasRooms;

/// A builder of a `SmartHouse`, in state `State`.
pub struct SmartHouseBuilder<State = NoRoomsYet> {
    rooms: NameMap<Room>,
    current_room: Option<String>,
    _state: PhantomData<State>,
}

impl<State> SmartHouseBuilder<State> {
    /// The builder is well formed: its rooms are, and the room that devices
    /// go to, when there is one, is among them.
    pub closed spec fn wf(&self) -> bool {
        &&& self.rooms.wf()
        &&& all_rooms_wf(self.rooms.values())
        &&& (self.current_room matches Some(n) ==> self.rooms.map().contains_key(n@))
    }

    /// The rooms built so far.
    pub closed spec fn rooms_view(&self) -> Map<Seq<char>, Map<Seq<char>, DeviceView>> {
        self.rooms.map().map_values(|r: Room| r@)
    }

    /// The room that devices go to: the one added last.
    pub closed spec fn current(&self) -> Option<Seq<char>> {
        match self.current_room {
            Some(n) => Some(n@),
            None => None,
        }
    }

    /// Adds an empty room `name` and makes it the room devices go to.
    fn insert_room(self, name: &str) -> (r: SmartHouseBuilder<HasRooms>)
        requires
            self.wf(),
        ensures
            r.wf(),
            r.rooms_view() == self.rooms_view().insert(name@, Map::empty()),
            r.current() == Some(name@),
    {
        let mut rooms = self.rooms;
        let ghost old_rooms = rooms;
        let empty = Room::new(Vec::new());
        assert(empty@ =~= Map::<Seq<char>, DeviceView>::empty());
        rooms.insert(String::from_str(name), empty);
        proof {
            assert forall|i: int| 0 <= i < rooms.values().len() implies (
            #[trigger] rooms.values()[i]).wf() by {
                rooms.lemma_at(i);
                let q = rooms.keys()[i];
                if q != name@ {
                    let j = old_rooms.keys().index_of(q);
                    old_rooms.lemma_at(j);
                }
            }
        }
        let r = SmartHouseBuilder {
            rooms,
            current_room: Some(String::from_str(name)),
            _state: PhantomData,
        };
        assert(r.rooms_view() =~= old_rooms.map().map_values(|r: Room| r@).insert(
            name@,
            Map::empty(),
        ));
        r
    }
}

impl SmartHouseBuilder<NoRoomsYet> {
    /// A builder with no rooms.
    pub fn new() -> (r: Self)
        ensures
            r.wf(),
            r.rooms_view() == Map::<Seq<char>, Map<Seq<char>, DeviceView>>::empty(),
            r.current() is None,
    {
        let r = SmartHouseBuilder { rooms: NameMap::new(), current_room: None, _state: PhantomData };
        assert(r.rooms_view() =~= Map::<Seq<char>, Map<Seq<char>, DeviceView>>::empty());
        r
    }

    /// Adds an empty room `name` (replacing a room of that name); devices
    /// added next go to it.
    pub fn add_room(self, name: &str) -> (r: SmartHouseBuilder<HasRooms>)
        requires
            self.wf(),
        ensures
            r.ready(),
            r.rooms_view() == self.rooms_view().insert(name@, Map::empty()),
            r.current() == Some(name@),
    {
        self.insert_room(name)
    }
}

impl SmartHouseBuilder<HasRooms> {
    /// A builder that has rooms is well formed and has a room that devices
    /// go to.
    pub closed spec fn ready(&self) -> bool {
        &&& self.wf()
        &&& self.current_room is Some
    }

    /// Adds `device` under `name` to the room added last.
    pub fn add_device(self, name: &str, device: SmartDevice) -> (r: Self)
        requires
            self.ready(),
        ensures
            r.ready(),
            r.current() == self.current(),
            r.rooms_view() == self.rooms_view().insert(
                self.current()->0,
                self.rooms_view()[self.current()->0].insert(name@, device@),
            ),
    {
        let ghost old_rooms = self.rooms;
        let ghost cur = self.current()->0;
        let ghost dv = device@;
        let mut b = self;
        match &b.current_room {
            Some(room_name) => {
                match b.rooms.get_mut(room_name.as_str()) {
                    Some(room) => {
                        proof {
                            let i = old_rooms.keys().index_of(cur);
                            old_rooms.lemma_at(i);
                        }
                        room.add_device(String::from_str(name), device);
                    },
                    None => {},
                }
            },
            None => {},
        }
        proof {
            assert forall|i: int| 0 <= i < b.rooms.values().len() implies (
            #[trigger] b.rooms.values()[i]).wf() by {
                let j = old_rooms.keys().index_of(cur);
                old_rooms.lemma_at(j);
            }
            assert(b.rooms_view() =~= old_rooms.map().map_values(|r: Room| r@).insert(
                cur,
                old_rooms.map().map_values(|r: Room| r@)[cur].insert(name@, dv),
            ));
        }
        b
    }

    /// Adds an empty room `name` (replacing a room of that name); devices
    /// added next go to it.
    pub fn add_room(self, name: &str) -> (r: Self)
        requires
            self.ready(),
        ensures
            r.ready(),
            r.rooms_view() == self.rooms_view().insert(name@, Map::empty()),
            r.current() == Some(name@),
    {
        self.insert_room(name)
    }

    /// The house built.
    pub fn build(self) -> (r: SmartHouse)
        requires
            self.ready(),
        ensures
            r.wf(),
            r@ == self.rooms_view(),
    {
        SmartHouse::from_rooms(self.rooms)
    }
}

impl Default for SmartHouseBuilder<NoRoomsYet> {
    fn default() -> (r: Self)
        ensures
            r.wf(),
            r.rooms_view() == Map::<Seq<char>, Map<Seq<char>, DeviceView>>::empty(),
            r.current() is None,
    {
        Self::new()
    }
}

} // verus!
