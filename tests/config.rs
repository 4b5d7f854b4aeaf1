use serial_bridge::cli::{
    is_verbose, options, peer_policy, serial_port_configuration, ConfigError, Manager, Options,
    DEFAULT_BAUD_RATE, PEER_MAX_AGE_MILLIS,
};
use serial_bridge::text::{chars_of, is_whitespace, last_index_of, parse_u32, split_words};
use serial_bridge::udev::{get_device_links, DeviceError, DeviceProperty};

fn with_port(port: Option<&str>) -> Options {
    Options {
        verbose: false,
        automatic_baud_rate_procedure: false,
        no_udp_disconnection: false,
        udp_max_clients_number: 5,
        serial_port: port.map(|s| s.to_string()),
        available_serial_ports: false,
        available_serial_ports_full: false,
        udp_address: "0.0.0.0:9092".to_string(),
        udp_listen_port: None,
    }
}

fn chars(s: &str) -> Vec<char> {
    s.chars().collect()
}

#[test]
fn port_and_baud_rate() {
    let r = serial_port_configuration(&with_port(Some("/dev/ttyUSB0:9600")));
    assert_eq!(r, Ok(("/dev/ttyUSB0".to_string(), 9600)));
}

#[test]
fn port_without_baud_rate_uses_the_default() {
    let r = serial_port_configuration(&with_port(Some("/dev/ttyACM1")));
    assert_eq!(r, Ok(("/dev/ttyACM1".to_string(), 115200)));
    assert_eq!(DEFAULT_BAUD_RATE, 115200);
}

#[test]
fn split_is_at_the_last_colon() {
    let r = serial_port_configuration(&with_port(Some("a:b:57600")));
    assert_eq!(r, Ok(("a:b".to_string(), 57600)));
}

#[test]
fn invalid_baud_rate_is_an_error() {
    for arg in ["COM1:abc", "COM1:", "COM1:+", "COM1:-5", "COM1:4294967296", "COM1:12 "] {
        assert_eq!(
            serial_port_configuration(&with_port(Some(arg))),
            Err(ConfigError::InvalidBaudRate),
            "{}",
            arg
        );
    }
}

#[test]
fn largest_baud_rate_and_plus_sign() {
    assert_eq!(
        serial_port_configuration(&with_port(Some("p:4294967295"))),
        Ok(("p".to_string(), u32::MAX))
    );
    assert_eq!(serial_port_configuration(&with_port(Some("p:+19200"))), Ok(("p".to_string(), 19200)));
}

#[test]
fn missing_port_is_an_error() {
    assert_eq!(serial_port_configuration(&with_port(None)), Err(ConfigError::MissingSerialPort));
}

#[test]
fn manager_holds_the_options() {
    let mut o = with_port(Some("x"));
    o.verbose = true;
    let m = Manager::new(o);
    assert!(is_verbose(options(&m)));
    assert_eq!(options(&m).serial_port, Some("x".to_string()));
}

#[test]
fn policy_from_options() {
    let mut o = with_port(None);
    o.udp_max_clients_number = 7;
    o.no_udp_disconnection = true;
    let p = peer_policy(&o);
    assert_eq!(p.max_peers, 7);
    assert!(!p.idle_eviction);
    assert_eq!(p.max_age, PEER_MAX_AGE_MILLIS);
    assert_eq!(PEER_MAX_AGE_MILLIS, 10_000);
}

#[test]
fn parse_u32_matches_std() {
    for s in ["0", "007", "+1", "4294967295", "4294967296", "", "+", "-1", "1a", " 1", "99999999999999999999"] {
        assert_eq!(parse_u32(&chars(s)), s.parse::<u32>().ok(), "{:?}", s);
    }
}

#[test]
fn whitespace_matches_std() {
    for c in ['\t', '\n', '\u{b}', '\u{c}', '\r', ' ', '\u{85}', '\u{a0}', '\u{1680}', '\u{2000}', '\u{200a}', '\u{2028}', '\u{2029}', '\u{202f}', '\u{205f}', '\u{3000}', 'a', '\u{200b}', '\u{1f}', '_'] {
        assert_eq!(is_whitespace(c), c.is_whitespace(), "{:?}", c);
    }
}

#[test]
fn words_match_split_whitespace() {
    for s in ["", "   ", "a", " a  b\tc\n", "/dev/serial/by-id/x /dev/serial/by-path/y"] {
        let expected: Vec<Vec<char>> = s.split_whitespace().map(|w| w.chars().collect()).collect();
        assert_eq!(split_words(&chars(s)), expected, "{:?}", s);
    }
}

#[test]
fn chars_and_last_index() {
    assert_eq!(chars_of("añb"), vec!['a', 'ñ', 'b']);
    assert_eq!(last_index_of(&chars("a:b:c"), ':'), Some(3));
    assert_eq!(last_index_of(&chars("abc"), ':'), None);
}

#[test]
fn device_links_are_the_words_of_devlinks() {
    let props = vec![
        DeviceProperty { name: "DEVNAME".to_string(), value: Some("/dev/ttyUSB0".to_string()) },
        DeviceProperty {
            name: "DEVLINKS".to_string(),
            value: Some("/dev/serial/by-id/usb-x  /dev/serial/by-path/pci-y".to_string()),
        },
        DeviceProperty { name: "DEVLINKS".to_string(), value: Some("/dev/other".to_string()) },
    ];
    assert_eq!(
        get_device_links(&props),
        Ok(vec!["/dev/serial/by-id/usb-x".to_string(), "/dev/serial/by-path/pci-y".to_string()])
    );
}

#[test]
fn device_without_devlinks_is_not_found() {
    let props = vec![DeviceProperty { name: "DEVNAME".to_string(), value: Some("/dev/ttyS0".to_string()) }];
    assert_eq!(get_device_links(&props), Err(DeviceError::NotFound));
    assert_eq!(get_device_links(&Vec::new()), Err(DeviceError::NotFound));
}

#[test]
fn devlinks_not_utf8_is_invalid() {
    let props = vec![DeviceProperty { name: "DEVLINKS".to_string(), value: None }];
    assert_eq!(get_device_links(&props), Err(DeviceError::InvalidValue));
}
