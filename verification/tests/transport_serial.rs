use ctrl_eqip::transport::serial::{choose_esp32_port, PortInfo, UsbPortInfo, BAUD_RATE};

fn port(name: &str, usb: Option<(Option<&str>, Option<&str>)>) -> PortInfo {
    PortInfo {
        port_name: name.to_string(),
        usb: usb.map(|(p, m)| UsbPortInfo {
            product: p.map(|s| s.to_string()),
            manufacturer: m.map(|s| s.to_string()),
        }),
    }
}

#[test]
fn prefers_esp32_chip() {
    let ports = vec![
        port("/dev/ttyS0", None),
        port("/dev/ttyUSB0", Some((Some("Generic"), Some("Acme")))),
        port("/dev/ttyUSB1", Some((Some("CP2102 USB to UART"), None))),
        port("/dev/ttyUSB2", Some((None, Some("FTDI")))),
    ];
    assert_eq!(choose_esp32_port(&ports), Some(2));
}

#[test]
fn matches_manufacturer_and_all_hints() {
    for hint in ["CP210", "CH340", "CH341", "FTDI", "USB Serial", "USB-Serial"] {
        let text = format!("x {} y", hint);
        let ports = vec![port("a", Some((None, None))), port("b", Some((None, Some(&text))))];
        assert_eq!(choose_esp32_port(&ports), Some(1));
    }
}

#[test]
fn falls_back_to_first_port() {
    let ports = vec![port("/dev/ttyS0", None), port("/dev/ttyS1", Some((Some("ch340"), None)))];
    assert_eq!(choose_esp32_port(&ports), Some(0));
    // a non-USB port is never chosen for its name alone
    let ports = vec![port("x", Some((None, None))), port("CP210", None)];
    assert_eq!(choose_esp32_port(&ports), Some(0));
}

#[test]
fn no_ports_no_choice() {
    assert_eq!(choose_esp32_port(&[]), None);
    assert_eq!(BAUD_RATE, 115_200);
}
