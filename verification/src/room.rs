//! A room: named devices.
use vstd::prelude::*;
use vstd::string::*;
use crate::device::{device_report, DeviceView, SmartDevice};
use crate::name_map::{pairs_map, strictly_sorted, NameMap};
use crate::report::Report;
use crate::text::{decimal, decimal_text};

verus! {

/// The report lines of devices `names[i]` showing `devices[i]`, in order.
pub open spec fn device_lines(names: Seq<Seq<char>>, devices: Seq<DeviceView>) -> Seq<char>
    decreases names.len(),
{
    if names.len() == 0 || devices.len() == 0 {
        Seq::empty()
    } else {
        device_lines(names.drop_last(), devices.drop_last()) + "\n  - "@ + names.last() + ": "@
            + device_report(devices.last())
    }
}

/// The report of a room holding devices `names[i]` showing `devices[i]`.
pub open spec fn room_report(names: Seq<Seq<char>>, devices: Seq<DeviceView>) -> Seq<char> {
    "Комната (устройств: "@ + decimal(names.len()) + "):"@ + device_lines(names, devices)
}

/// A room of the smart home: devices by name.
#[derive(Debug, Clone, PartialEq)]
pub struct Room {
    devices: NameMap<SmartDevice>,
}

impl View for Room {
    type V = Map<Seq<char>, DeviceView>;

    closed spec fn view(&self) -> Map<Seq<char>, DeviceView> {
        self.devices.map().map_values(|d: SmartDevice| d@)
    }
}

impl Room {
    /// The room is well formed: its device names are strictly ascending.
    pub closed spec fn wf(&self) -> bool {
        self.devices.wf()
    }

    /// The device names, in ascending order.
    pub closed spec fn names(&self) -> Seq<Seq<char>> {
        self.devices.keys()
    }

    /// The devices, in the order of their names.
    pub closed spec fn device_views(&self) -> Seq<DeviceView> {
        self.devices.values().map_values(|d: SmartDevice| d@)
    }

    /// The names list the devices of the room, in ascending order.
    pub proof fn lemma_names(&self)
        requires
            self.wf(),
        ensures
            strictly_sorted(self.names()),
            self@.dom() == self.names().to_set(),
            self@.len() == self.names().len(),
            self.device_views().len() == self.names().len(),
            forall|i: int|
                0 <= i < self.names().len() ==> #[trigger] self@[self.names()[i]]
                    == self.device_views()[i],
    {
        self.devices.lemma_dom();
        assert(self@.dom() =~= self.devices.map().dom());
        assert forall|i: int| 0 <= i < self.names().len() implies #[trigger] self@[self.names()[i]]
            == self.device_views()[i] by {
            self.devices.lemma_at(i);
        }
    }

    /// A room holding `devices`, inserted one after the other: of two
    /// devices with the same name the later one stays.
    pub fn new(devices: Vec<(String, SmartDevice)>) -> (r: Self)
        ensures
            r.wf(),
            r@ == pairs_map(devices@).map_values(|d: SmartDevice| d@),
    {
        Room { devices: NameMap::from_pairs(devices) }
    }

    /// The device named `name`, if any.
    pub fn get_device(&self, name: &str) -> (r: Option<&SmartDevice>)
        requires
            self.wf(),
        ensures
            match r {
                Some(d) => self@.contains_key(name@) && d@ == self@[name@],
                None => !self@.contains_key(name@),
            },
    {
        self.devices.get(name)
    }

    /// A mutable reference to the device named `name`, if any.
    pub fn get_device_mut(&mut self, name: &str) -> (r: Option<&mut SmartDevice>)
        requires
            old(self).wf(),
        ensures
            match r {
                Some(d) => {
                    &&& old(self)@.contains_key(name@)
                    &&& d@ == old(self)@[name@]
                    &&& final(self).wf()
                    &&& final(self).names() == old(self).names()
                    &&& final(self)@ == old(self)@.insert(name@, final(d)@)
                },
                None => {
                    &&& !old(self)@.contains_key(name@)
                    &&& *final(self) == *old(self)
                },
            },
    {
        proof {
            assert forall|m: Map<Seq<char>, SmartDevice>, x: SmartDevice|
                #![trigger m.insert(name@, x)]
                m.insert(name@, x).map_values(|d: SmartDevice| d@) =~= m.map_values(
                    |d: SmartDevice| d@,
                ).insert(name@, x@) by {}
        }
        self.devices.get_mut(name)
    }

    /// Adds `device` under `name`, replacing any device of that name.
    pub fn add_device(&mut self, name: String, device: SmartDevice)
        requires
            old(self).wf(),
        ensures
            final(self).wf(),
            final(self)@ == old(self)@.insert(name@, device@),
    {
        let ghost k = name@;
        let ghost dv = device@;
        let ghost old_map = self.devices.map();
        self.devices.insert(name, device);
        assert(self@ =~= old_map.map_values(|d: SmartDevice| d@).insert(k, dv));
    }

    /// Removes the device named `name`, giving it back if there was one.
    pub fn remove_device(&mut self, name: &str) -> (r: Option<SmartDevice>)
        requires
            old(self).wf(),
        ensures
            final(self).wf(),
            final(self)@ == old(self)@.remove(name@),
            match r {
                Some(d) => old(self)@.contains_key(name@) && d@ == old(self)@[name@],
                None => !old(self)@.contains_key(name@),
            },
    {
        let ghost old_map = self.devices.map();
        let r = self.devices.remove(name);
        assert(self@ =~= old_map.map_values(|d: SmartDevice| d@).remove(name@));
        r
    }

    /// The devices with their names, in ascending order of names.
    pub fn devices(&self) -> (r: &Vec<(String, SmartDevice)>)
        requires
            self.wf(),
        ensures
            r@.len() == self.names().len(),
            forall|i: int|
                0 <= i < r@.len() ==> (#[trigger] r@[i]).0@ == self.names()[i] && r@[i].1@
                    == self.device_views()[i],
    {
        self.devices.entries()
    }

    /// The number of devices.
    pub fn len(&self) -> (r: usize)
        requires
            self.wf(),
        ensures
            r == self@.len(),
    {
        proof {
            self.lemma_names();
        }
        self.devices.len()
    }
}

impl Report for Room {
    open spec fn report_text(&self) -> Seq<char> {
        room_report(self.names(), self.device_views())
    }

    fn report(&self) -> (r: String) {
        let entries = self.devices.entries();
        let ghost names = self.names();
        let ghost views = self.device_views();
        let mut r = String::from_str("Комната (устройств: ");
        let count = decimal_text(entries.len());
        r.append(count.as_str());
        r.append("):");
        let ghost header = r@;
        let mut i: usize = 0;
        assert(names.take(0) =~= Seq::<Seq<char>>::empty());
        assert(header + device_lines(names.take(0), views.take(0)) =~= header);
        while i < entries.len()
            invariant
                entries@ == self.devices.entry_seq(),
                names == self.names(),
                views == self.device_views(),
                names.len() == entries@.len(),
                views.len() == entries@.len(),
                header == "Комната (устройств: "@ + decimal(names.len()) + "):"@,
                i <= entries@.len(),
                r@ == header + device_lines(names.take(i as int), views.take(i as int)),
            decreases entries@.len() - i,
        {
            let (name, device) = &entries[i];
            r.append("\n  - ");
            r.append(name.as_str());
            r.append(": ");
            let line = device.report();
            r.append(line.as_str());
            proof {
                assert(names.take(i + 1).drop_last() =~= names.take(i as int));
                assert(views.take(i + 1).drop_last() =~= views.take(i as int));
            }
            i = i + 1;
        }
        assert(names.take(i as int) =~= names);
        assert(views.take(i as int) =~= views);
        r
    }
}

} // verus!
