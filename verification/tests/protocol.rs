use smart_home::emulator::{next_seed, parse_config, ConfigError, EmulatedSocket};
use smart_home::network::{command_acknowledged, latest_reading, reply_says_on, ReplyError, SocketCommand};
use smart_home::text::{decimal_text, parse_u64, text_equal, text_precedes, trim_text};
use smart_home::web::{add_device_request, bad_device_type_message, device_dto, device_type_name, http_status, parse_device_type, CallStatus};
use smart_home::service::{device_info, DeviceKind, ServiceError};
use smart_home::{SmartDevice, SmartSocket, SmartThermometer};

#[test]
fn emulator_follows_commands() {
    let mut s = EmulatedSocket::new("150".to_string());
    assert_eq!(s.respond("STATE"), "OFF");
    assert_eq!(s.respond("POWER"), "0");
    assert_eq!(s.respond(" on \n"), "OK");
    assert_eq!(s.respond("state"), "ON");
    assert_eq!(s.respond("Power"), "150");
    assert_eq!(s.respond("OFF"), "OK");
    assert_eq!(s.respond("POWER"), "0");
    assert_eq!(s.respond("blink"), "ERROR");
    assert_eq!(s.respond("STATE"), "OFF");
}

#[test]
fn client_reads_replies() {
    assert_eq!(command_acknowledged("OK\n"), Ok(()));
    assert_eq!(command_acknowledged("  OK "), Ok(()));
    assert_eq!(command_acknowledged("ERROR"), Err(ReplyError::Unexpected));
    assert_eq!(ReplyError::Unexpected.message(), "некорректный ответ");
    assert!(reply_says_on("ON\n"));
    assert!(!reply_says_on("OFF\n"));
    assert_eq!(SocketCommand::On.line(), "ON\n");
    assert_eq!(SocketCommand::Off.line(), "OFF\n");
    assert_eq!(SocketCommand::State.line(), "STATE\n");
    assert_eq!(SocketCommand::Power.line(), "POWER\n");
}

#[test]
fn thermometer_config() {
    let lines = vec!["127.0.0.1:8888".to_string(), "1000".to_string()];
    let c = parse_config(&lines).unwrap();
    assert_eq!(c.target_addr, "127.0.0.1:8888");
    assert_eq!(c.period_ms, 1000);
    assert_eq!(parse_config(&vec!["x".to_string()]), Err(ConfigError::MissingLines));
    assert_eq!(
        parse_config(&vec!["x".to_string(), "soon".to_string()]),
        Err(ConfigError::InvalidPeriod)
    );
}

#[test]
fn parse_u64_matches_std() {
    for s in ["0", "+7", "18446744073709551615", "18446744073709551616", "", "+", "-1", "12a", " 1", "007"] {
        assert_eq!(parse_u64(s), s.parse::<u64>().ok(), "{s:?}");
    }
}

#[test]
fn seed_sequence_is_the_lcg() {
    assert_eq!(next_seed(0), 1);
    assert_eq!(next_seed(1), 6364136223846793006);
    assert_eq!(next_seed(u64::MAX), 1u64.wrapping_sub(6364136223846793005));
}

#[test]
fn decimal_text_renders_counts() {
    for n in [0usize, 7, 10, 99, 100, 12345, usize::MAX] {
        assert_eq!(decimal_text(n), n.to_string());
        assert_eq!(parse_u64(&decimal_text(n)), Some(n as u64));
    }
}

#[test]
fn name_order_is_code_point_order() {
    assert!(text_precedes("a", "b"));
    assert!(text_precedes("a", "ab"));
    assert!(!text_precedes("ab", "a"));
    assert!(!text_precedes("a", "a"));
    assert!(text_precedes("", "a"));
    assert!(text_precedes("Я", "а"));
    assert!(text_equal("кухня", "кухня"));
    assert!(!text_equal("кухня", "Кухня"));
    for (a, b) in [("x", "y"), ("zz", "z"), ("ё", "е"), ("", "")] {
        assert_eq!(text_precedes(a, b), a < b);
    }
}

#[test]
fn web_status_and_types() {
    assert_eq!(http_status(CallStatus::NotFound), 404);
    assert_eq!(http_status(CallStatus::AlreadyExists), 409);
    assert_eq!(http_status(CallStatus::InvalidArgument), 400);
    assert_eq!(http_status(CallStatus::Other), 502);
    assert_eq!(ServiceError::NotFound("x".to_string()).status(), CallStatus::NotFound);
    assert_eq!(ServiceError::AlreadyExists("x".to_string()).status(), CallStatus::AlreadyExists);
    assert_eq!(ServiceError::InvalidArgument("x".to_string()).status(), CallStatus::InvalidArgument);
    assert_eq!(parse_device_type("thermometer"), Some(DeviceKind::Thermometer));
    assert_eq!(parse_device_type("socket"), Some(DeviceKind::Socket));
    assert_eq!(parse_device_type("lamp"), None);
    assert_eq!(device_type_name(Some(DeviceKind::Unspecified)), "unknown");
    assert_eq!(device_type_name(None), "unknown");
    assert_eq!(bad_device_type_message(), "device_type должен быть thermometer или socket");
}

#[test]
fn device_dto_shows_readings_of_its_type() {
    let mut socket = SmartSocket::new("120".to_string());
    socket.turn_on();
    let dto = device_dto(device_info("s", &SmartDevice::Socket(socket)));
    assert_eq!(dto.name, "s");
    assert_eq!(dto.device_type, "socket");
    assert_eq!(dto.enabled, Some(true));
    assert_eq!(dto.current_power.as_deref(), Some("120"));
    assert_eq!(dto.power_when_on.as_deref(), Some("120"));
    assert_eq!(dto.temperature, None);
    let dto = device_dto(device_info("t", &SmartDevice::Thermometer(SmartThermometer::new("21".to_string()))));
    assert_eq!(dto.device_type, "thermometer");
    assert_eq!(dto.temperature.as_deref(), Some("21"));
    assert_eq!(dto.enabled, None);
}

#[test]
fn add_device_request_defaults_missing_readings() {
    let r = add_device_request("socket", None, None);
    assert_eq!(r, Ok((DeviceKind::Socket, "20".to_string(), "100".to_string())));
    let r = add_device_request("thermometer", Some("21.5".to_string()), None);
    assert_eq!(r, Ok((DeviceKind::Thermometer, "21.5".to_string(), "100".to_string())));
    let r = add_device_request("socket", None, Some("120".to_string()));
    assert_eq!(r, Ok((DeviceKind::Socket, "20".to_string(), "120".to_string())));
}

#[test]
fn add_device_request_refuses_unknown_type() {
    let r = add_device_request("lamp", Some("1".to_string()), Some("2".to_string()));
    assert_eq!(r, Err((400, "device_type должен быть thermometer или socket".to_string())));
    let r = add_device_request("Socket", None, None);
    assert_eq!(r.unwrap_err().0, 400);
}

#[test]
fn trim_removes_surrounding_whitespace_only() {
    assert_eq!(trim_text("Кухня"), "Кухня");
    assert_eq!(trim_text("   "), "");
    assert_eq!(trim_text(""), "");
    assert_eq!(trim_text(" \t Гостиная \n"), "Гостиная");
    assert_eq!(trim_text("\u{3000}a b\u{a0}"), "a b");
    assert_eq!(trim_text("x\u{200b}"), "x\u{200b}");
}

#[test]
fn latest_reading_keeps_only_the_last() {
    assert_eq!(latest_reading(vec![21.0, 22.5, 23.0]), Some(23.0));
    assert_eq!(latest_reading(vec![19.5]), Some(19.5));
    assert_eq!(latest_reading(Vec::<f64>::new()), None);
}

#[test]
fn execute_dispatches_upper_case_commands() {
    let mut s = EmulatedSocket::new("1500".to_string());
    assert_eq!(s.execute("STATE"), "OFF");
    assert_eq!(s.execute("POWER"), "0");
    assert_eq!(s.execute("ON"), "OK");
    assert_eq!(s.execute("STATE"), "ON");
    assert_eq!(s.execute("POWER"), "1500");
    assert_eq!(s.execute("on"), "ERROR");
    assert_eq!(s.execute(" OFF"), "ERROR");
    assert_eq!(s.execute("STATE"), "ON");
    assert_eq!(s.execute("OFF"), "OK");
    assert_eq!(s.execute("STATE"), "OFF");
}
