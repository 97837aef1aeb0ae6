use chalkydri::config::{config_path, CameraSettings, Config};
use chalkydri::decimal::decimal_text;
use chalkydri::net::{
    client_name, gen_team_ip, parse_ipv4, random_client_name, server_address, AddressError, Connector, Retry,
    RETRY_DELAY_MS, ROTATION_TOPIC, TIMESTAMP_TOPIC, TRANSLATION_TOPIC,
};

#[test]
fn configuration_is_read_from_boot_first() {
    assert_eq!(config_path(true, true), "/boot/chalkydri.toml");
    assert_eq!(config_path(true, false), "/boot/chalkydri.toml");
    assert_eq!(config_path(false, true), "/etc/chalkydri.toml");
    assert_eq!(config_path(false, false), "./chalkydri.toml");
}

#[test]
fn configuration_is_copied_whole() {
    let config = Config {
        cameras: vec![
            CameraSettings { id: "a".to_string() },
            CameraSettings { id: "b".to_string() },
        ],
        ntables_ip: Some("1.1.1.1".to_string()),
        team_number: 9,
    };
    let copy = config.clone();
    assert_eq!(copy.cameras.len(), 2);
    assert_eq!(copy.cameras[1].id, "b");
    assert_eq!(copy.ntables_ip.as_deref(), Some("1.1.1.1"));
    assert_eq!(copy.team_number, 9);
}

#[test]
fn numbers_are_written_in_decimal() {
    for n in [0, 7, 10, 99, 100, 255, 4_294_967_295] {
        assert_eq!(decimal_text(n), n.to_string());
    }
}

#[test]
fn addresses_are_parsed() {
    assert_eq!(parse_ipv4("10.45.33.2"), Some([10, 45, 33, 2]));
    assert_eq!(parse_ipv4("0.0.0.0"), Some([0, 0, 0, 0]));
    assert_eq!(parse_ipv4("255.255.255.255"), Some([255, 255, 255, 255]));
    assert_eq!(parse_ipv4("127.0.0.1"), Some([127, 0, 0, 1]));
}

#[test]
fn other_texts_are_no_addresses() {
    for text in [
        "", ".", "1", "1.2.3", "1.2.3.", "1.2.3.4.", "1.2.3.4.5", ".1.2.3.4", "1..2.3", "256.1.1.1",
        "1.1.1.256", "01.2.3.4", "1.2.3.00", "1000.1.1.1", " 1.2.3.4", "1.2.3.4 ", "1,2,3,4",
        "a.b.c.d", "-1.2.3.4", "+1.2.3.4", "0x1.2.3.4", "roborio", "1.2.3.\u{0664}",
    ] {
        assert_eq!(parse_ipv4(text), None, "{:?}", text);
    }
}

#[test]
fn addresses_are_read_back_as_written() {
    for octet in 0..=255u8 {
        let address = [octet, 255 - octet, octet / 2, 1];
        let text = format!("{}.{}.{}.{}", address[0], address[1], address[2], address[3]);
        assert_eq!(parse_ipv4(&text), Some(address));
    }
}

#[test]
fn teams_have_addresses() {
    assert_eq!(gen_team_ip(0), Some([10, 0, 0, 2]));
    assert_eq!(gen_team_ip(7), Some([10, 0, 7, 2]));
    assert_eq!(gen_team_ip(4533), Some([10, 45, 33, 2]));
    assert_eq!(gen_team_ip(25599), Some([10, 255, 99, 2]));
    assert_eq!(gen_team_ip(25600), None);
    assert_eq!(gen_team_ip(u16::MAX), None);
}

#[test]
fn team_addresses_differ() {
    let mut addresses: Vec<[u8; 4]> = (0..=u16::MAX).filter_map(gen_team_ip).collect();
    assert_eq!(addresses.len(), 25600);
    addresses.dedup();
    assert_eq!(addresses.len(), 25600);
}

#[test]
fn configured_address_comes_first() {
    let configured = Some("192.168.0.7".to_string());
    assert_eq!(server_address(&configured, 4533), Ok([192, 168, 0, 7]));
    assert_eq!(server_address(&configured, 30000), Ok([192, 168, 0, 7]));
    assert_eq!(server_address(&None, 4533), Ok([10, 45, 33, 2]));
}

#[test]
fn missing_address_is_an_error() {
    let bad = server_address(&Some("robot".to_string()), 4533);
    assert_eq!(bad, Err(AddressError::BadAddress));
    assert_eq!(AddressError::BadAddress.message(), "failed to parse ip address");
    assert_eq!(server_address(&None, 25600), Err(AddressError::NoTeamAddress));
    assert_eq!(AddressError::NoTeamAddress.message(), "failed to generate team ip");
}

#[test]
fn clients_are_named_by_number() {
    assert_eq!(client_name(0), "chalkydri0");
    assert_eq!(client_name(42), "chalkydri42");
    assert_eq!(client_name(u32::MAX), "chalkydri4294967295");
    assert_ne!(client_name(1), client_name(10));
}

#[test]
fn random_client_has_a_number() {
    let names: Vec<String> = (0..8).map(|_| random_client_name()).collect();
    for name in &names {
        let number: u32 = name.strip_prefix("chalkydri").unwrap().parse().unwrap();
        assert_eq!(*name, client_name(number));
    }
    assert!(names.iter().any(|name| *name != names[0]));
}

#[test]
fn failures_are_reported_once() {
    let mut connector = Connector::new();
    assert_eq!(connector.failed(), Retry { report: true, delay_ms: 5 });
    for _ in 0..3 {
        assert_eq!(connector.failed(), Retry { report: false, delay_ms: 5 });
    }
    assert_eq!(RETRY_DELAY_MS, 5);
}

#[test]
fn pose_topics() {
    assert_eq!(TRANSLATION_TOPIC, "/chalkydri/robot_pose/translation");
    assert_eq!(ROTATION_TOPIC, "/chalkydri/robot_pose/rotation");
    assert_eq!(TIMESTAMP_TOPIC, "/chalkydri/robot_pose/timestamp");
}
