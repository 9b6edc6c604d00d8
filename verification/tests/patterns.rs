use smart_home::observer::{ObservableRoom, Observer};
use smart_home::report_builder::ReportBuilder;
use smart_home::smart_house_builder::SmartHouseBuilder;
use smart_home::{Report, Room, SmartDevice, SmartSocket, SmartThermometer};
use std::sync::{Arc, Mutex};

#[test]
fn report_builder_collects_in_order() {
    let thermo = SmartThermometer::new("20".to_string());
    let socket = SmartSocket::new("100".to_string());
    let room = Room::new(vec![("device1".to_string(), SmartDevice::Thermometer(thermo.clone()))]);
    let reporter = ReportBuilder::new().add_report(&thermo).add_report(&socket).add_report(&room);
    assert_eq!(reporter.reports().len(), 3);
    assert_eq!(
        reporter.output(),
        "Термометр: температура = 20°C\nРозетка: выключена, мощность = 0 Вт\nКомната (устройств: 1):\n  - device1: Термометр: температура = 20°C\n"
    );
    assert_eq!(ReportBuilder::default().output(), "");
}

#[test]
fn builder_adds_devices_to_the_last_room() {
    let house = SmartHouseBuilder::new()
        .add_room("Living Room")
        .add_device("Main Socket", SmartSocket::new("150".to_string()).into())
        .add_device("Thermometer", SmartThermometer::new("22.5".to_string()).into())
        .add_room("Bedroom")
        .add_device("Lamp", SmartSocket::new("75".to_string()).into())
        .build();
    assert!(house.get_device("Living Room", "Main Socket").is_ok());
    assert!(house.get_device("Living Room", "Thermometer").is_ok());
    assert!(house.get_device("Bedroom", "Lamp").is_ok());
    assert!(house.get_device("Living Room", "Lamp").is_err());
    assert_eq!(house.get_room("Bedroom").unwrap().len(), 1);
    assert!(house.report().contains("\nКомната 'Bedroom':\n"));
}

#[test]
fn builder_add_room_again_empties_the_room() {
    let house = SmartHouseBuilder::default()
        .add_room("r")
        .add_device("d", SmartSocket::new("1".to_string()).into())
        .add_room("r")
        .build();
    assert_eq!(house.get_room("r").unwrap().len(), 0);
}

struct Recorder(Arc<Mutex<Vec<String>>>, &'static str);

impl Observer for Recorder {
    fn update(&self, device_name: &str, device: &SmartDevice) {
        self.0.lock().unwrap().push(format!("{}:{}:{}", self.1, device_name, device.report()));
    }
}

#[test]
fn observers_are_told_in_registration_order() {
    let log = Arc::new(Mutex::new(Vec::new()));
    let mut room = ObservableRoom::new(Vec::new());
    room.register_observer(Box::new(Recorder(log.clone(), "first")));
    room.register_observer(Box::new(Recorder(log.clone(), "second")));
    room.add_device("Socket".to_string(), SmartSocket::new("150".to_string()).into());
    assert_eq!(
        *log.lock().unwrap(),
        vec![
            "first:Socket:Розетка: выключена, мощность = 0 Вт".to_string(),
            "second:Socket:Розетка: выключена, мощность = 0 Вт".to_string(),
        ]
    );
    assert!(room.get_device("Socket").is_some());
    assert!(room.remove_device("Socket").is_some());
    assert!(room.get_device("Socket").is_none());
    assert_eq!(log.lock().unwrap().len(), 2);
    room.room_mut().add_device("Quiet".to_string(), SmartThermometer::new("19".to_string()).into());
    assert!(room.get_device("Quiet").is_some());
    assert_eq!(log.lock().unwrap().len(), 2);
}
