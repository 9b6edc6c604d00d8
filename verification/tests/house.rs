use smart_home::{DeviceLookupError, Report, Room, SmartDevice, SmartHouse, SmartSocket, SmartThermometer};

fn reading(x: f64) -> String {
    x.to_string()
}

#[test]
fn test_thermometer() {
    let t = SmartThermometer::new(reading(20.0));
    assert_eq!(t.temperature().parse::<f64>().unwrap(), 20.0);
    assert_eq!(t.report(), "Термометр: температура = 20°C");
}

#[test]
fn test_socket() {
    let mut s = SmartSocket::new(reading(100.0));
    assert!(!s.is_on());
    assert_eq!(s.current_power().parse::<f64>().unwrap(), 0.0);
    s.turn_on();
    assert!(s.is_on());
    assert_eq!(s.current_power().parse::<f64>().unwrap(), 100.0);
    assert_eq!(s.report(), "Розетка: включена, мощность = 100 Вт");
    s.turn_off();
    assert_eq!(s.report(), "Розетка: выключена, мощность = 0 Вт");
}

#[test]
fn test_room_operations() {
    let mut room = Room::new(Vec::new());
    room.add_device("dev1".to_string(), SmartThermometer::new(reading(25.0)).into());
    assert!(room.get_device("dev1").is_some());
    assert!(room.get_device("dev2").is_none());
    let removed = room.remove_device("dev1");
    assert!(removed.is_some());
    assert!(room.get_device("dev1").is_none());
}

#[test]
fn test_house_operations() {
    let mut house = SmartHouse::new(Vec::new());
    let room = Room::new(Vec::new());
    house.add_room("room1".to_string(), room);
    assert!(house.get_room("room1").is_some());
    assert!(house.get_room("room2").is_none());

    house.remove_room("room1");
    assert!(house.get_room("room1").is_none());
}

#[test]
fn test_get_device_result() {
    let mut room = Room::new(Vec::new());
    room.add_device("socket".to_string(), SmartSocket::new(reading(50.0)).into());
    let rooms = vec![("living".to_string(), room)];
    let house = SmartHouse::new(rooms);

    assert!(house.get_device("living", "socket").is_ok());
    assert!(matches!(
        house.get_device("living", "unknown"),
        Err(DeviceLookupError::DeviceNotFound(_))
    ));
    assert!(matches!(
        house.get_device("unknown", "socket"),
        Err(DeviceLookupError::RoomNotFound(_))
    ));
}

#[test]
fn test_macro() {
    let room = Room::new(vec![
        ("t".to_string(), SmartThermometer::new(reading(30.0)).into()),
        ("s".to_string(), SmartSocket::new(reading(200.0)).into()),
    ]);
    assert!(room.get_device("t").is_some());
    assert!(room.get_device("s").is_some());
    assert_eq!(room.devices().len(), 2);
}

#[test]
fn test_from_traits() {
    let t = SmartThermometer::new(reading(15.0));
    let dev: SmartDevice = t.into();
    match dev {
        SmartDevice::Thermometer(therm) => {
            assert_eq!(therm.temperature().parse::<f64>().unwrap(), 15.0)
        }
        _ => panic!("wrong type"),
    }

    let s = SmartSocket::new(reading(300.0));
    let dev: SmartDevice = s.into();
    match dev {
        SmartDevice::Socket(sock) => assert!(!sock.is_on()),
        _ => panic!("wrong type"),
    }
}

#[test]
fn test_debug() {
    let t = SmartThermometer::new(reading(10.0));
    let debug_str = format!("{:?}", t);
    assert!(debug_str.contains("10"));
    let s = SmartSocket::new(reading(50.0));
    let debug_str = format!("{:?}", s);
    assert!(debug_str.contains("50"));
    let room = Room::new(vec![("dev".to_string(), t.into())]);
    let debug_str = format!("{:?}", room);
    assert!(debug_str.contains("dev"));
}

#[test]
fn room_report_lists_devices_in_name_order() {
    let room = Room::new(vec![
        ("б".to_string(), SmartSocket::new(reading(75.0)).into()),
        ("а".to_string(), SmartThermometer::new(reading(22.5)).into()),
    ]);
    assert_eq!(
        room.report(),
        "Комната (устройств: 2):\n  - а: Термометр: температура = 22.5°C\n  - б: Розетка: выключена, мощность = 0 Вт"
    );
}

#[test]
fn empty_room_report_has_zero_count() {
    let room = Room::new(Vec::new());
    assert_eq!(room.report(), "Комната (устройств: 0):");
    assert_eq!(room.len(), 0);
}

#[test]
fn room_new_keeps_the_later_of_two_devices_with_one_name() {
    let room = Room::new(vec![
        ("x".to_string(), SmartThermometer::new(reading(1.0)).into()),
        ("x".to_string(), SmartSocket::new(reading(2.0)).into()),
    ]);
    assert_eq!(room.len(), 1);
    assert!(matches!(room.get_device("x"), Some(SmartDevice::Socket(_))));
}

#[test]
fn add_device_replaces_device_of_same_name() {
    let mut room = Room::new(Vec::new());
    room.add_device("d".to_string(), SmartThermometer::new(reading(1.0)).into());
    room.add_device("d".to_string(), SmartThermometer::new(reading(2.0)).into());
    assert_eq!(room.len(), 1);
    match room.get_device("d") {
        Some(SmartDevice::Thermometer(t)) => assert_eq!(t.temperature(), "2"),
        _ => panic!("wrong device"),
    }
}

#[test]
fn lookup_after_add_and_remove() {
    let mut room = Room::new(Vec::new());
    room.add_device("a".to_string(), SmartSocket::new(reading(5.0)).into());
    room.add_device("b".to_string(), SmartSocket::new(reading(6.0)).into());
    assert!(room.get_device("a").is_some());
    assert_eq!(room.remove_device("a").unwrap(), SmartDevice::from(SmartSocket::new(reading(5.0))));
    assert!(room.get_device("a").is_none());
    assert!(room.get_device("b").is_some());
    assert!(room.remove_device("a").is_none());
}

#[test]
fn get_device_mut_changes_the_stored_device() {
    let mut room = Room::new(vec![("s".to_string(), SmartSocket::new(reading(40.0)).into())]);
    match room.get_device_mut("s") {
        Some(SmartDevice::Socket(s)) => s.turn_on(),
        _ => panic!("wrong device"),
    }
    match room.get_device("s") {
        Some(SmartDevice::Socket(s)) => assert!(s.is_on()),
        _ => panic!("wrong device"),
    }
    assert!(room.get_device_mut("none").is_none());
}

#[test]
fn house_get_device_mut_reaches_device() {
    let room = Room::new(vec![("s".to_string(), SmartSocket::new(reading(40.0)).into())]);
    let mut house = SmartHouse::new(vec![("r".to_string(), room)]);
    match house.get_device_mut("r", "s") {
        Ok(SmartDevice::Socket(s)) => s.turn_on(),
        _ => panic!("wrong device"),
    }
    match house.get_device("r", "s") {
        Ok(SmartDevice::Socket(s)) => assert_eq!(s.current_power(), "40"),
        _ => panic!("wrong device"),
    }
    assert!(matches!(
        house.get_device_mut("r", "x"),
        Err(DeviceLookupError::DeviceNotFound(n)) if n == "x"
    ));
    assert!(matches!(
        house.get_device_mut("q", "x"),
        Err(DeviceLookupError::RoomNotFound(n)) if n == "q"
    ));
}

#[test]
fn missing_room_is_reported_before_missing_device() {
    let house = SmartHouse::new(Vec::new());
    assert_eq!(
        house.get_device("nowhere", "nothing"),
        Err(DeviceLookupError::RoomNotFound("nowhere".to_string()))
    );
}

#[test]
fn lookup_error_messages() {
    assert_eq!(
        DeviceLookupError::RoomNotFound("кухня".to_string()).message(),
        "Комната 'кухня' не найдена"
    );
    assert_eq!(
        DeviceLookupError::DeviceNotFound("лампа".to_string()).message(),
        "Устройство 'лампа' не найдено"
    );
}

#[test]
fn house_report_is_exact() {
    let living = Room::new(vec![("t".to_string(), SmartThermometer::new(reading(21.0)).into())]);
    let bedroom = Room::new(Vec::new());
    let house = SmartHouse::new(vec![
        ("living".to_string(), living),
        ("bedroom".to_string(), bedroom),
    ]);
    assert_eq!(
        house.report(),
        "=== УМНЫЙ ДОМ ===\n\nКомната 'bedroom':\nКомната (устройств: 0):\n\nКомната 'living':\nКомната (устройств: 1):\n  - t: Термометр: температура = 21°C\n"
    );
}

#[test]
fn house_report_mentions_every_room() {
    let mut house = SmartHouse::new(Vec::new());
    house.add_room("office".to_string(), Room::new(Vec::new()));
    let report = house.report();
    assert!(report.starts_with("=== УМНЫЙ ДОМ ===\n"));
    assert!(report.contains("\nКомната 'office':\n"));
}

#[test]
fn house_room_mut_adds_device() {
    let mut house = SmartHouse::new(vec![("r".to_string(), Room::new(Vec::new()))]);
    if let Some(room) = house.get_room_mut("r") {
        room.add_device("extra".to_string(), SmartSocket::new(reading(100.0)).into());
    }
    assert!(house.get_device("r", "extra").is_ok());
    assert!(house.get_room_mut("none").is_none());
    let names: Vec<&str> = house.rooms().iter().map(|(n, _)| n.as_str()).collect();
    assert_eq!(names, vec!["r"]);
}

#[test]
fn socket_power_when_on_is_kept() {
    let mut s = SmartSocket::new(reading(12.5));
    assert_eq!(s.power_when_on(), "12.5");
    s.turn_on();
    s.turn_on();
    assert_eq!(s.current_power(), "12.5");
    s.turn_off();
    assert_eq!(s.current_power(), "0");
    assert_eq!(s.power_when_on(), "12.5");
}

#[test]
fn device_report_dispatches() {
    let d: SmartDevice = SmartThermometer::new(reading(-3.5)).into();
    assert_eq!(d.report(), "Термометр: температура = -3.5°C");
    let d: SmartDevice = SmartSocket::new(reading(7.0)).into();
    assert_eq!(d.report(), "Розетка: выключена, мощность = 0 Вт");
}
