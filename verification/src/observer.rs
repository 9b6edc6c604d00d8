//! A room that tells its observers about every device added to it.
use vstd::prelude::*;
use vstd::string::*;
use crate::device::{DeviceView, SmartDevice};
use crate::name_map::pairs_map;
use crate::room::Room;

verus! {

/// Something told about devices added to an observed room.
pub trait Observer: Send + Sync {
    /// What the observer has learned once `update` has told it that
    /// `device` was added under `device_name`. An observer may define it
    /// over its own state; by default it holds of every pair, so that an
    /// observer that defines nothing promises nothing. A room cannot know
    /// which it is, so it has to make the call to have it hold.
    open spec fn told(&self, device_name: Seq<char>, device: DeviceView) -> bool {
        true
    }

    /// Called after `device` has been added under `device_name`.
    fn update(&self, device_name: &str, device: &SmartDevice)
        ensures
            self.told(device_name@, device@),
    ;
}

/// One round of telling: each of `count` observers, in registration order,
/// is told once that `device` was added under `name`. An entry is the
/// observer's place in registration order, the name and the device.
pub open spec fn one_round(count: nat, name: Seq<char>, device: DeviceView) -> Seq<
    (int, Seq<char>, DeviceView),
> {
    Seq::new(count, |i: int| (i, name, device))
}

/// A room with observers.
pub struct ObservableRoom {
    inner: Room,
    observers: Vec<Box<dyn Observer>>,
    calls: Ghost<Seq<(int, Seq<char>, DeviceView)>>,
}

impl ObservableRoom {
    /// The room is well formed.
    pub closed spec fn wf(&self) -> bool {
        self.inner.wf()
    }

    /// The devices of the room.
    pub closed spec fn room_view(&self) -> Map<Seq<char>, DeviceView> {
        self.inner@
    }

    /// The registered observers, in the order they were registered.
    pub closed spec fn observers(&self) -> Seq<Box<dyn Observer>> {
        self.observers@
    }

    /// The calls of `update` made on the observers so far, in the order they
    /// were made: the observer's place in registration order, the name and
    /// the device it was told about.
    pub closed spec fn notifications(&self) -> Seq<(int, Seq<char>, DeviceView)> {
        self.calls@
    }

    /// An observed room holding `devices` and no observers.
    pub fn new(devices: Vec<(String, SmartDevice)>) -> (r: Self)
        ensures
            r.wf(),
            r.room_view() == pairs_map(devices@).map_values(|d: SmartDevice| d@),
            r.observers() == Seq::<Box<dyn Observer>>::empty(),
            r.notifications() == Seq::<(int, Seq<char>, DeviceView)>::empty(),
    {
        ObservableRoom { inner: Room::new(devices), observers: Vec::new(), calls: Ghost(Seq::empty()) }
    }

    /// Adds `device` under `name`, then tells every observer, in the order
    /// they were registered, about the device as the room now holds it:
    /// each observer is called once.
    pub fn add_device(&mut self, name: String, device: SmartDevice)
        requires
            old(self).wf(),
        ensures
            final(self).wf(),
            final(self).room_view() == old(self).room_view().insert(name@, device@),
            final(self).observers() == old(self).observers(),
            final(self).notifications() == old(self).notifications() + one_round(
                old(self).observers().len(),
                name@,
                device@,
            ),
            forall|i: int|
                0 <= i < final(self).observers().len() ==> #[trigger] final(self).observers()[i].told(
                    name@,
                    device@,
                ),
    {
        let key = name.clone();
        self.inner.add_device(name, device);
        match self.inner.get_device(key.as_str()) {
            Some(added) => Self::notify_observers(
                &self.observers,
                &mut self.calls,
                key.as_str(),
                added,
            ),
            None => {},
        }
    }

    /// Removes the device named `name`, giving it back if there was one.
    pub fn remove_device(&mut self, name: &str) -> (r: Option<SmartDevice>)
        requires
            old(self).wf(),
        ensures
            final(self).wf(),
            final(self).room_view() == old(self).room_view().remove(name@),
            final(self).observers() == old(self).observers(),
            final(self).notifications() == old(self).notifications(),
            match r {
                Some(d) => old(self).room_view().contains_key(name@) && d@ == old(
                    self,
                ).room_view()[name@],
                None => !old(self).room_view().contains_key(name@),
            },
    {
        self.inner.remove_device(name)
    }

    /// Registers `observer` after those already registered.
    pub fn register_observer(&mut self, observer: Box<dyn Observer>)
        ensures
            final(self).wf() == old(self).wf(),
            final(self).room_view() == old(self).room_view(),
            final(self).observers() == old(self).observers().push(observer),
            final(self).notifications() == old(self).notifications(),
            final(self).observers().len() == old(self).observers().len() + 1,
    {
        let ghost before = self.observers@;
        let ghost added = observer;
        self.observers.push(observer);
        proof {
            vstd::seq::axiom_seq_push_len(before, added);
        }
    }

    /// The observed room, for changes that tell no observer (as through
    /// `DerefMut`).
    pub fn room_mut(&mut self) -> (r: &mut Room)
        ensures
            r@ == old(self).room_view(),
            r.wf() == old(self).wf(),
            final(self).room_view() == final(r)@,
            final(self).wf() == final(r).wf(),
            final(self).observers() == old(self).observers(),
            final(self).notifications() == old(self).notifications(),
    {
        &mut self.inner
    }

    /// Tells every observer, in order, about `device` under `device_name`,
    /// recording each call in `calls`.
    fn notify_observers(
        observers: &Vec<Box<dyn Observer>>,
        calls: &mut Ghost<Seq<(int, Seq<char>, DeviceView)>>,
        device_name: &str,
        device: &SmartDevice,
    )
        ensures
            final(calls)@ == old(calls)@ + one_round(observers@.len(), device_name@, device@),
            forall|j: int|
                0 <= j < observers@.len() ==> #[trigger] observers@[j].told(
                    device_name@,
                    device@,
                ),
    {
        let mut i: usize = 0;
        assert(one_round(0, device_name@, device@) =~= Seq::empty());
        while i < observers.len()
            invariant
                i <= observers@.len(),
                calls@ == old(calls)@ + one_round(i as nat, device_name@, device@),
                forall|j: int| 0 <= j < i ==> #[trigger] observers@[j].told(device_name@, device@),
            decreases observers@.len() - i,
        {
            observers[i].update(device_name, device);
            *calls = Ghost(calls@.push((i as int, device_name@, device@)));
            assert(one_round((i + 1) as nat, device_name@, device@) =~= one_round(
                i as nat,
                device_name@,
                device@,
            ).push((i as int, device_name@, device@)));
            i = i + 1;
        }
    }
}

impl std::ops::Deref for ObservableRoom {
    type Target = Room;

    fn deref(&self) -> (r: &Room)
        ensures
            r@ == self.room_view(),
            r.wf() == self.wf(),
    {
        &self.inner
    }
}

} // verus!
