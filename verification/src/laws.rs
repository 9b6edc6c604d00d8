//! Properties of the library that relate several operations or hold of
//! every state.
use vstd::prelude::*;
use crate::device::{current_power_text, device_report, DeviceView, SmartDevice, SmartSocket, SmartThermometer, SocketView};
use crate::emulator::emulator_step;
use crate::house::{room_sections, SmartHouse};
use crate::name_map::strictly_sorted;
use crate::observer::one_round;
use crate::report::Report;
use crate::report_builder::report_lines;
use crate::room::{device_lines, Room};
use crate::service::{lists_names, DeviceKind, SmartHomeService};
use crate::web::device_request;
use crate::text::{
    all_digits, decimal, digit_char, digit_value, digits_value, is_digit,
    lemma_text_less_irreflexive, lemma_text_less_transitive, parsed_u64,
};

verus! {

/// `t` occurs in `s` at place `i`.
pub open spec fn occurs_at(s: Seq<char>, t: Seq<char>, i: int) -> bool {
    0 <= i && i + t.len() <= s.len() && s.subrange(i, i + t.len()) == t
}

/// `t` occurs in `s`.
pub open spec fn text_contains(s: Seq<char>, t: Seq<char>) -> bool {
    exists|i: int| #[trigger] occurs_at(s, t, i)
}

proof fn lemma_contains_left(a: Seq<char>, b: Seq<char>, t: Seq<char>)
    requires
        text_contains(a, t),
    ensures
        text_contains(a + b, t),
{
    let i = choose|i: int| occurs_at(a, t, i);
    assert((a + b).subrange(i, i + t.len()) =~= a.subrange(i, i + t.len()));
    assert(occurs_at(a + b, t, i));
}

proof fn lemma_contains_right(a: Seq<char>, b: Seq<char>, t: Seq<char>)
    requires
        text_contains(b, t),
    ensures
        text_contains(a + b, t),
{
    let i = choose|i: int| occurs_at(b, t, i);
    assert((a + b).subrange(a.len() + i, a.len() + i + t.len()) =~= b.subrange(i, i + t.len()));
    assert(occurs_at(a + b, t, a.len() + i));
}

proof fn lemma_contains_self(t: Seq<char>)
    ensures
        text_contains(t, t),
{
    assert(t.subrange(0, t.len() as int) =~= t);
    assert(occurs_at(t, t, 0));
}

/// A socket that is on draws its rated power; one that is off draws zero.
pub proof fn socket_power_follows_switch(power_when_on: Seq<char>)
    ensures
        current_power_text(SocketView { enabled: true, power_when_on }) == power_when_on,
        current_power_text(SocketView { enabled: false, power_when_on }) == "0"@,
{
}

/// A device reports what it is and the state it is in: a thermometer its
/// temperature; a socket `включена` and its rated power when on, and
/// `выключена` and 0 when off.
pub proof fn device_report_shows_state(s: SocketView, t: Seq<char>)
    ensures
        device_report(DeviceView::Socket(s)) == (if s.enabled {
            "Розетка: включена, мощность = "@ + s.power_when_on + " Вт"@
        } else {
            "Розетка: выключена, мощность = 0 Вт"@
        }),
        device_report(DeviceView::Thermometer(t)) == "Термометр: температура = "@ + t + "°C"@,
{
    reveal_strlit("Розетка: ");
    reveal_strlit("включена");
    reveal_strlit("выключена");
    reveal_strlit(", мощность = ");
    reveal_strlit(" Вт");
    reveal_strlit("0");
    reveal_strlit("Розетка: включена, мощность = ");
    reveal_strlit("Розетка: выключена, мощность = 0 Вт");
    if s.enabled {
        assert("Розетка: "@ + "включена"@ + ", мощность = "@ =~= "Розетка: включена, мощность = "@);
        assert(device_report(DeviceView::Socket(s)) =~= "Розетка: включена, мощность = "@
            + s.power_when_on + " Вт"@);
    } else {
        assert("Розетка: "@ + "выключена"@ + ", мощность = "@ + "0"@ + " Вт"@
            =~= "Розетка: выключена, мощность = 0 Вт"@);
    }
}

/// A device that is a socket or a thermometer reports exactly as that socket
/// or thermometer does, in whatever state it is.
pub proof fn device_reports_as_itself(s: SmartSocket, t: SmartThermometer)
    ensures
        SmartDevice::Socket(s).report_text() == s.report_text(),
        SmartDevice::Thermometer(t).report_text() == t.report_text(),
{
}

/// A device added under a name is what a lookup of that name finds; the
/// other names keep their devices; removing the name again leaves the room
/// as removing it before the addition would have.
pub proof fn lookup_after_add(
    room: Map<Seq<char>, DeviceView>,
    name: Seq<char>,
    device: DeviceView,
    other: Seq<char>,
)
    requires
        other != name,
    ensures
        room.insert(name, device).contains_key(name),
        room.insert(name, device)[name] == device,
        room.insert(name, device).contains_key(other) == room.contains_key(other),
        room.contains_key(other) ==> room.insert(name, device)[other] == room[other],
        room.insert(name, device).remove(name) == room.remove(name),
        !room.remove(name).contains_key(name),
{
    assert(room.insert(name, device).remove(name) =~= room.remove(name));
}

/// Adding a room under a name the house does not have and removing it
/// again leaves the house as it was.
pub proof fn remove_undoes_add(
    house: Map<Seq<char>, Map<Seq<char>, DeviceView>>,
    name: Seq<char>,
    room: Map<Seq<char>, DeviceView>,
)
    requires
        !house.contains_key(name),
    ensures
        house.insert(name, room).remove(name) == house,
{
    assert(house.insert(name, room).remove(name) =~= house);
}

/// A list in ascending order of the names of a map is unique: any two such
/// lists are the same, so every listing of the same rooms or devices comes
/// out in the same order.
pub proof fn listing_is_unique<V>(a: Seq<Seq<char>>, b: Seq<Seq<char>>, m: Map<Seq<char>, V>)
    requires
        lists_names(a, m),
        lists_names(b, m),
    ensures
        a == b,
{
    lemma_sorted_equal_sets(a, b);
}

proof fn lemma_sorted_equal_sets(a: Seq<Seq<char>>, b: Seq<Seq<char>>)
    requires
        strictly_sorted(a),
        strictly_sorted(b),
        a.to_set() == b.to_set(),
    ensures
        a == b,
    decreases a.len(),
{
    if a.len() == 0 {
        if b.len() > 0 {
            assert(b.to_set().contains(b[0]));
        }
        assert(a =~= b);
    } else if b.len() == 0 {
        assert(a.to_set().contains(a[0]));
    } else {
        // The smallest name of each list is the smallest name of the set.
        assert(a.to_set().contains(a[0]));
        assert(b.to_set().contains(b[0]));
        let ia = choose|i: int| 0 <= i < b.len() && b[i] == a[0];
        let ib = choose|i: int| 0 <= i < a.len() && a[i] == b[0];
        if ia > 0 {
            // b[0] < b[ia] == a[0], but a[0] <= a[ib] == b[0].
            if ib > 0 {
                lemma_text_less_transitive(b[0], a[0], b[0]);
            }
            lemma_text_less_irreflexive(b[0]);
        }
        assert(a[0] == b[0]);
        let ra = a.drop_first();
        let rb = b.drop_first();
        assert forall|x: Seq<char>| ra.to_set().contains(x) implies rb.to_set().contains(x) by {
            let i = choose|i: int| 0 <= i < ra.len() && ra[i] == x;
            assert(a[i + 1] == x);
            assert(b.to_set().contains(x));
            let j = choose|j: int| 0 <= j < b.len() && b[j] == x;
            if j == 0 {
                lemma_text_less_irreflexive(a[0]);
            }
            assert(rb[j - 1] == x);
        }
        assert forall|x: Seq<char>| rb.to_set().contains(x) implies ra.to_set().contains(x) by {
            let i = choose|i: int| 0 <= i < rb.len() && rb[i] == x;
            assert(b[i + 1] == x);
            assert(a.to_set().contains(x));
            let j = choose|j: int| 0 <= j < a.len() && a[j] == x;
            if j == 0 {
                lemma_text_less_irreflexive(b[0]);
            }
            assert(ra[j - 1] == x);
        }
        assert(ra.to_set() =~= rb.to_set());
        lemma_sorted_equal_sets(ra, rb);
        assert(a =~= seq![a[0]] + ra);
        assert(b =~= seq![b[0]] + rb);
    }
}

proof fn lemma_device_lines_mention(names: Seq<Seq<char>>, devices: Seq<DeviceView>, j: int)
    requires
        names.len() == devices.len(),
        0 <= j < names.len(),
    ensures
        text_contains(
            device_lines(names, devices),
            "\n  - "@ + names[j] + ": "@ + device_report(devices[j]),
        ),
    decreases names.len(),
{
    let t = "\n  - "@ + names[j] + ": "@ + device_report(devices[j]);
    let last = names.len() - 1;
    let prefix = device_lines(names.drop_last(), devices.drop_last());
    let line = "\n  - "@ + names.last() + ": "@ + device_report(devices.last());
    assert(device_lines(names, devices) =~= prefix + line);
    if j == last {
        lemma_contains_self(t);
        lemma_contains_right(prefix, line, t);
    } else {
        assert(names.drop_last()[j] == names[j]);
        assert(devices.drop_last()[j] == devices[j]);
        lemma_device_lines_mention(names.drop_last(), devices.drop_last(), j);
        lemma_contains_left(prefix, line, t);
    }
}

/// A room's report has a line for every device of the room: its name and
/// the device's own report.
pub proof fn room_report_mentions_devices(room: Room, name: Seq<char>)
    requires
        room.wf(),
        room@.contains_key(name),
    ensures
        text_contains(room.report_text(), "\n  - "@ + name + ": "@ + device_report(room@[name])),
{
    room.lemma_names();
    assert(room.names().to_set().contains(name));
    let j = choose|j: int| 0 <= j < room.names().len() && room.names()[j] == name;
    assert(room@[name] == room.device_views()[j]);
    lemma_device_lines_mention(room.names(), room.device_views(), j);
    let header = "Комната (устройств: "@ + decimal(room.names().len()) + "):"@;
    let t = "\n  - "@ + name + ": "@ + device_report(room@[name]);
    lemma_contains_right(header, device_lines(room.names(), room.device_views()), t);
    assert(room.report_text() == header + device_lines(room.names(), room.device_views()));
}

proof fn lemma_sections_mention(names: Seq<Seq<char>>, reports: Seq<Seq<char>>, j: int)
    requires
        names.len() == reports.len(),
        0 <= j < names.len(),
    ensures
        text_contains(room_sections(names, reports), "\nКомната '"@ + names[j] + "':\n"@),
    decreases names.len(),
{
    let t = "\nКомната '"@ + names[j] + "':\n"@;
    let prefix = room_sections(names.drop_last(), reports.drop_last());
    let section = "\nКомната '"@ + names.last() + "':\n"@ + reports.last() + "\n"@;
    assert(room_sections(names, reports) =~= prefix + section);
    if j == names.len() - 1 {
        lemma_contains_self(t);
        lemma_contains_left(t, reports.last() + "\n"@, t);
        assert(section =~= t + (reports.last() + "\n"@));
        lemma_contains_right(prefix, section, t);
    } else {
        assert(names.drop_last()[j] == names[j]);
        lemma_sections_mention(names.drop_last(), reports.drop_last(), j);
        lemma_contains_left(prefix, section, t);
    }
}

/// A house's report opens with its title and has a section for every room
/// of the house.
pub proof fn house_report_mentions_rooms(house: SmartHouse, name: Seq<char>)
    requires
        house.wf(),
        house@.contains_key(name),
    ensures
        house.report_text().take(18) == "=== УМНЫЙ ДОМ ===\n"@,
        text_contains(house.report_text(), "\nКомната '"@ + name + "':\n"@),
{
    house.lemma_room_names();
    let names = house.room_names();
    let reports = house.room_seq().map_values(|r: Room| r.report_text());
    assert(names.to_set().contains(name));
    let j = choose|j: int| 0 <= j < names.len() && names[j] == name;
    lemma_sections_mention(names, reports, j);
    let title = "=== УМНЫЙ ДОМ ===\n"@;
    lemma_contains_right(title, room_sections(names, reports), "\nКомната '"@ + name + "':\n"@);
    reveal_strlit("=== УМНЫЙ ДОМ ===\n");
    assert(title.len() == 18);
    assert((title + room_sections(names, reports)).take(18) =~= title);
}

proof fn lemma_contains_trans(a: Seq<char>, b: Seq<char>, t: Seq<char>)
    requires
        text_contains(a, b),
        text_contains(b, t),
    ensures
        text_contains(a, t),
{
    let i = choose|i: int| occurs_at(a, b, i);
    let k = choose|k: int| occurs_at(b, t, k);
    assert(a.subrange(i + k, i + k + t.len()) =~= a.subrange(i, i + b.len()).subrange(
        k,
        k + t.len(),
    ));
    assert(occurs_at(a, t, i + k));
}

proof fn lemma_sections_hold_reports(names: Seq<Seq<char>>, reports: Seq<Seq<char>>, j: int)
    requires
        names.len() == reports.len(),
        0 <= j < names.len(),
    ensures
        text_contains(room_sections(names, reports), reports[j]),
    decreases names.len(),
{
    let prefix = room_sections(names.drop_last(), reports.drop_last());
    let header = "\nКомната '"@ + names.last() + "':\n"@;
    let section = header + reports.last() + "\n"@;
    assert(room_sections(names, reports) =~= prefix + section);
    if j == names.len() - 1 {
        lemma_contains_self(reports.last());
        lemma_contains_left(reports.last(), "\n"@, reports.last());
        assert(section =~= header + (reports.last() + "\n"@));
        lemma_contains_right(header, reports.last() + "\n"@, reports.last());
        lemma_contains_right(prefix, section, reports.last());
    } else {
        assert(reports.drop_last()[j] == reports[j]);
        lemma_sections_hold_reports(names.drop_last(), reports.drop_last(), j);
        lemma_contains_left(prefix, section, reports[j]);
    }
}

/// A house's report has, for every device of every room, a line with the
/// device's name and its own report.
pub proof fn house_report_mentions_devices(house: SmartHouse, room: Seq<char>, device: Seq<char>)
    requires
        house.wf(),
        house@.contains_key(room),
        house@[room].contains_key(device),
    ensures
        text_contains(
            house.report_text(),
            "\n  - "@ + device + ": "@ + device_report(house@[room][device]),
        ),
{
    house.lemma_room_names();
    let names = house.room_names();
    let reports = house.room_seq().map_values(|r: Room| r.report_text());
    assert(names.to_set().contains(room));
    let j = choose|j: int| 0 <= j < names.len() && names[j] == room;
    let r = house.room_seq()[j];
    assert(r@ == house@[room]);
    room_report_mentions_devices(r, device);
    lemma_sections_hold_reports(names, reports, j);
    assert(reports[j] == r.report_text());
    let t = "\n  - "@ + device + ": "@ + device_report(house@[room][device]);
    lemma_contains_trans(room_sections(names, reports), r.report_text(), t);
    lemma_contains_right("=== УМНЫЙ ДОМ ===\n"@, room_sections(names, reports), t);
}

/// The service's report opens with the title of the house and has a section
/// for each of its rooms, with a line for each device of the room that
/// shows the device's own report.
pub proof fn service_report_mentions(svc: SmartHomeService, room: Seq<char>, device: Seq<char>)
    requires
        svc.wf(),
        svc@.contains_key(room),
        svc@[room].contains_key(device),
    ensures
        svc.report_text().take(18) == "=== УМНЫЙ ДОМ ===\n"@,
        text_contains(svc.report_text(), "\nКомната '"@ + room + "':\n"@),
        text_contains(
            svc.report_text(),
            "\n  - "@ + device + ": "@ + device_report(svc@[room][device]),
        ),
{
    svc.lemma_house();
    house_report_mentions_rooms(svc.house(), room);
    house_report_mentions_devices(svc.house(), room, device);
}

/// An emulated socket told `ON` answers `ON` to `STATE` and its rated power
/// to `POWER`; told `OFF` it answers `OFF` and `0`; a command it does not
/// know changes nothing and is answered `ERROR`.
pub proof fn emulator_answers_follow_switch(s: SocketView, unknown: Seq<char>)
    requires
        unknown != "ON"@,
        unknown != "OFF"@,
        unknown != "STATE"@,
        unknown != "POWER"@,
    ensures
        emulator_step(emulator_step(s, "ON"@).0, "STATE"@).1 == "ON"@,
        emulator_step(emulator_step(s, "ON"@).0, "POWER"@).1 == s.power_when_on,
        emulator_step(emulator_step(s, "OFF"@).0, "STATE"@).1 == "OFF"@,
        emulator_step(emulator_step(s, "OFF"@).0, "POWER"@).1 == "0"@,
        emulator_step(s, unknown) == (s, "ERROR"@),
{
    reveal_strlit("ON");
    reveal_strlit("OFF");
    reveal_strlit("STATE");
    reveal_strlit("POWER");
    assert("ON"@.len() == 2);
    assert("OFF"@.len() == 3);
    assert("STATE"@.len() == 5);
    assert("POWER"@.len() == 5);
    assert("STATE"@ != "ON"@);
    assert("STATE"@ != "OFF"@);
    assert("POWER"@ != "ON"@);
    assert("POWER"@ != "OFF"@);
    assert("POWER"@[0] != "STATE"@[0]);
    assert("POWER"@ != "STATE"@);
}

/// In every state, `ON` and `OFF` are acknowledged with `OK`: they switch
/// the socket on (off) and keep its rated power, so switching a socket that
/// is already on (off) again is no error; `STATE` and `POWER` change
/// nothing.
pub proof fn switching_is_always_acknowledged(s: SocketView)
    ensures
        emulator_step(s, "ON"@) == (SocketView { enabled: true, power_when_on: s.power_when_on }, "OK"@),
        emulator_step(s, "OFF"@) == (SocketView { enabled: false, power_when_on: s.power_when_on }, "OK"@),
        emulator_step(s, "STATE"@).0 == s,
        emulator_step(s, "POWER"@).0 == s,
{
    reveal_strlit("ON");
    reveal_strlit("OFF");
    reveal_strlit("STATE");
    reveal_strlit("POWER");
    assert("ON"@.len() == 2);
    assert("OFF"@.len() == 3);
    assert("STATE"@.len() == 5);
    assert("POWER"@.len() == 5);
    assert("OFF"@ != "ON"@);
    assert("STATE"@ != "ON"@);
    assert("STATE"@ != "OFF"@);
    assert("POWER"@ != "ON"@);
    assert("POWER"@ != "OFF"@);
    assert("POWER"@[0] != "STATE"@[0]);
    assert("POWER"@ != "STATE"@);
}

proof fn lemma_lines_are_flattened(rs: Seq<Seq<char>>)
    ensures
        report_lines(rs) == rs.map_values(|x: Seq<char>| x + "\n"@).flatten_alt(),
    decreases rs.len(),
{
    let lines = rs.map_values(|x: Seq<char>| x + "\n"@);
    if rs.len() > 0 {
        lemma_lines_are_flattened(rs.drop_last());
        assert(lines.drop_last() =~= rs.drop_last().map_values(|x: Seq<char>| x + "\n"@));
        assert(report_lines(rs) =~= lines.drop_last().flatten_alt() + lines.last());
    }
}

/// The collected output is each report followed by a line break, in the
/// order of collection, and nothing else: the reports with a line break
/// after each, concatenated. Adding a report appends its line and leaves
/// the earlier lines as they were.
pub proof fn output_has_a_line_per_report(rs: Seq<Seq<char>>, r: Seq<char>)
    ensures
        report_lines(rs) == rs.map_values(|x: Seq<char>| x + "\n"@).flatten(),
        report_lines(rs.push(r)) == report_lines(rs) + r + "\n"@,
        report_lines(seq![r]) == r + "\n"@,
{
    lemma_lines_are_flattened(rs);
    rs.map_values(|x: Seq<char>| x + "\n"@).lemma_flatten_and_flatten_alt_are_equivalent();
    assert(rs.push(r).drop_last() =~= rs);
    assert(seq![r].drop_last() =~= Seq::<Seq<char>>::empty());
    assert(seq![r].last() == r);
    assert(report_lines(Seq::<Seq<char>>::empty()) == Seq::<char>::empty());
    assert(report_lines(seq![r]) == Seq::<char>::empty() + r + "\n"@);
    assert(report_lines(seq![r]) =~= r + "\n"@);
}

/// Whatever type a request to add a device names, a reading it gives is
/// taken as given, a missing temperature is 20 and a missing power is 100.
pub proof fn request_readings_default_alike(
    kind: DeviceKind,
    temperature: Option<String>,
    power_when_on: Option<String>,
)
    ensures
        device_request(kind, temperature, power_when_on).0 == kind,
        temperature is None ==> device_request(kind, temperature, power_when_on).1 == "20"@,
        temperature matches Some(t) ==> device_request(kind, temperature, power_when_on).1 == t@,
        power_when_on is None ==> device_request(kind, temperature, power_when_on).2 == "100"@,
        power_when_on matches Some(p) ==> device_request(kind, temperature, power_when_on).2 == p@,
{
}

/// A round of telling after an addition calls every registered observer
/// exactly once, in registration order, with the name and device added:
/// it has one call per observer, and its `k`-th call goes to the `k`-th
/// observer.
pub proof fn each_observer_told_once(count: nat, name: Seq<char>, device: DeviceView, i: int)
    requires
        0 <= i < count,
    ensures
        one_round(count, name, device).len() == count,
        one_round(count, name, device)[i] == (i, name, device),
        forall|j: int|
            0 <= j < count && (#[trigger] one_round(count, name, device)[j]).0 == i ==> j == i,
{
}

proof fn lemma_decimal_digits(n: nat)
    ensures
        decimal(n).len() > 0,
        all_digits(decimal(n)),
        digits_value(decimal(n)) == n,
        decimal(n)[0] != '+',
    decreases n,
{
    let digits = seq!['0', '1', '2', '3', '4', '5', '6', '7', '8', '9'];
    assert forall|d: nat| d < 10 implies is_digit(#[trigger] digit_char(d)) && digit_value(
        digit_char(d),
    ) == d by {
        assert(digit_char(d) == digits[d as int]);
    }
    if n < 10 {
        assert(decimal(n) =~= seq![digit_char(n)]);
        assert(decimal(n).drop_last() =~= Seq::<char>::empty());
        assert(digit_value(digit_char(n)) == n);
        assert(digits_value(decimal(n)) == digits_value(decimal(n).drop_last()) * 10 + digit_value(
            decimal(n).last(),
        ));
    } else {
        lemma_decimal_digits(n / 10);
        let s = decimal(n);
        assert(s.drop_last() =~= decimal(n / 10));
        assert(s[0] == decimal(n / 10)[0]);
        assert(s.last() == digit_char(n % 10));
        assert(digit_value(digit_char(n % 10)) == n % 10);
        assert(digits_value(s) == digits_value(s.drop_last()) * 10 + digit_value(s.last()));
        assert((n / 10) * 10 + n % 10 == n);
        assert forall|i: int| 0 <= i < s.len() implies is_digit(#[trigger] s[i]) by {
            if i < s.len() - 1 {
                assert(s[i] == decimal(n / 10)[i]);
            } else {
                assert(s[i] == digit_char(n % 10));
            }
        }
    }
}

/// Reading back the decimal rendering of a count gives the count.
pub proof fn decimal_parses_back(n: u64)
    ensures
        parsed_u64(decimal(n as nat)) == Some(n),
{
    lemma_decimal_digits(n as nat);
}

} // verus!
