use smart_home::service::{DeviceDetails, DeviceKind, ServiceError, SmartHomeService};

#[test]
fn rooms_crud_and_list() {
    let mut service = SmartHomeService::new();

    let listed = service.list_rooms();
    assert!(listed.is_empty());

    let room = service.add_room("Кухня").expect("add room");
    assert_eq!(room.name, "Кухня");
    assert!(room.device_names.is_empty());

    let listed = service.list_rooms();
    assert_eq!(listed.len(), 1);
    assert_eq!(listed[0].name, "Кухня");

    let got = service.get_room("Кухня").unwrap();
    assert_eq!(got.name, "Кухня");

    service.remove_room("Кухня").expect("remove room");

    let err = service.get_room("Кухня").expect_err("room should be gone");
    assert!(matches!(err, ServiceError::NotFound(_)));
}

#[test]
fn devices_crud_and_report() {
    let mut service = SmartHomeService::new();

    service.add_room("Гостиная").unwrap();

    let socket = service
        .add_device("Гостиная", "Розетка", Some(DeviceKind::Socket), 0.0f64.to_string(), 120.0f64.to_string())
        .expect("add socket");
    assert_eq!(socket.name, "Розетка");
    assert_eq!(socket.kind, DeviceKind::Socket);

    let thermometer = service
        .add_device("Гостиная", "Термометр", Some(DeviceKind::Thermometer), 22.5f64.to_string(), 0.0f64.to_string())
        .expect("add thermometer");
    assert_eq!(thermometer.name, "Термометр");

    let devices = service.list_devices("Гостиная").unwrap();
    assert_eq!(devices.len(), 2);

    let got = service.get_device("Гостиная", "Термометр").unwrap();
    match got.details {
        DeviceDetails::Thermometer { temperature } => {
            assert!((temperature.parse::<f64>().unwrap() - 22.5).abs() < f64::EPSILON);
        }
        other => panic!("ожидался термометр, получено: {other:?}"),
    }

    let room = service.get_room("Гостиная").unwrap();
    assert_eq!(room.device_names.len(), 2);

    let report = service.get_report();
    assert!(report.contains("УМНЫЙ ДОМ"));
    assert!(report.contains("Гостиная"));
    assert!(report.contains("Розетка"));
    assert!(report.contains("Термометр"));

    service.remove_device("Гостиная", "Розетка").unwrap();

    let devices = service.list_devices("Гостиная").unwrap();
    assert_eq!(devices.len(), 1);
    assert_eq!(devices[0].name, "Термометр");
}

#[test]
fn rejects_duplicate_and_missing() {
    let mut service = SmartHomeService::new();

    service.add_room("Спальня").unwrap();

    let dup = service.add_room("Спальня").expect_err("duplicate room");
    assert!(matches!(dup, ServiceError::AlreadyExists(_)));

    let missing_room = service
        .add_device("НетТакой", "x", Some(DeviceKind::Socket), 0.0f64.to_string(), 10.0f64.to_string())
        .expect_err("missing room");
    assert!(matches!(missing_room, ServiceError::NotFound(_)));

    let empty = service.add_room("   ").expect_err("empty name");
    assert!(matches!(empty, ServiceError::InvalidArgument(_)));
}

#[test]
fn add_room_trims_the_name() {
    let mut service = SmartHomeService::new();
    let room = service.add_room("  Кухня \t").unwrap();
    assert_eq!(room.name, "Кухня");
    assert!(service.get_room("Кухня").is_ok());
    assert_eq!(
        service.add_room("Кухня"),
        Err(ServiceError::AlreadyExists("комната 'Кухня' уже существует".to_string()))
    );
}

#[test]
fn refusal_messages() {
    let mut service = SmartHomeService::new();
    assert_eq!(
        service.add_room(""),
        Err(ServiceError::InvalidArgument("имя комнаты не может быть пустым".to_string()))
    );
    assert_eq!(
        service.get_room("a"),
        Err(ServiceError::NotFound("комната 'a' не найдена".to_string()))
    );
    assert_eq!(
        service.remove_room("a"),
        Err(ServiceError::NotFound("комната 'a' не найдена".to_string()))
    );
    assert_eq!(
        service.list_devices("a"),
        Err(ServiceError::NotFound("комната 'a' не найдена".to_string()))
    );
    assert_eq!(
        service.get_device("a", "d"),
        Err(ServiceError::NotFound("Комната 'a' не найдена".to_string()))
    );
    service.add_room("a").unwrap();
    assert_eq!(
        service.get_device("a", "d"),
        Err(ServiceError::NotFound("Устройство 'd' не найдено".to_string()))
    );
    assert_eq!(
        service.remove_device("a", "d"),
        Err(ServiceError::NotFound("устройство 'd' не найдено в комнате 'a'".to_string()))
    );
    assert_eq!(
        service.remove_device("b", "d"),
        Err(ServiceError::NotFound("комната 'b' не найдена".to_string()))
    );
}

#[test]
fn add_device_checks_in_order() {
    let mut service = SmartHomeService::new();
    service.add_room("r").unwrap();
    let p = || "1".to_string();
    assert_eq!(
        service.add_device(" ", "", None, p(), p()),
        Err(ServiceError::InvalidArgument("имя комнаты не может быть пустым".to_string()))
    );
    assert_eq!(
        service.add_device("r", " ", None, p(), p()),
        Err(ServiceError::InvalidArgument("имя устройства не может быть пустым".to_string()))
    );
    assert_eq!(
        service.add_device("r", "d", None, p(), p()),
        Err(ServiceError::InvalidArgument("неизвестный тип устройства".to_string()))
    );
    assert_eq!(
        service.add_device("missing", "d", Some(DeviceKind::Unspecified), p(), p()),
        Err(ServiceError::InvalidArgument("необходимо указать тип устройства".to_string()))
    );
    assert_eq!(
        service.add_device("missing", "d", Some(DeviceKind::Socket), p(), p()),
        Err(ServiceError::NotFound("комната 'missing' не найдена".to_string()))
    );
    assert!(service.add_device(" r ", " d ", Some(DeviceKind::Socket), p(), "75".to_string()).is_ok());
    assert_eq!(
        service.add_device("r", "d", Some(DeviceKind::Thermometer), p(), p()),
        Err(ServiceError::AlreadyExists("устройство 'd' уже существует в комнате 'r'".to_string()))
    );
    let d = service.get_device("r", "d").unwrap();
    assert_eq!(
        d.details,
        DeviceDetails::Socket { enabled: false, current_power: "0".to_string(), power_when_on: "75".to_string() }
    );
}

#[test]
fn listings_are_in_ascending_order() {
    let mut service = SmartHomeService::new();
    for name in ["c", "a", "b"] {
        service.add_room(name).unwrap();
    }
    let names: Vec<String> = service.list_rooms().into_iter().map(|r| r.name).collect();
    assert_eq!(names, vec!["a", "b", "c"]);
    for name in ["z", "x", "y"] {
        service.add_device("a", name, Some(DeviceKind::Thermometer), "20".to_string(), "0".to_string()).unwrap();
    }
    let devices: Vec<String> = service.list_devices("a").unwrap().into_iter().map(|d| d.name).collect();
    assert_eq!(devices, vec!["x", "y", "z"]);
    assert_eq!(service.get_room("a").unwrap().device_names, vec!["x", "y", "z"]);
}

#[test]
fn remove_room_undoes_add_room() {
    let mut service = SmartHomeService::default();
    service.add_room("r").unwrap();
    service.remove_room("r").unwrap();
    assert!(service.list_rooms().is_empty());
    assert_eq!(service.get_report(), "=== УМНЫЙ ДОМ ===\n");
}
