use yapper::serial::config::{DataBits, FlowControl, Parity, SerialConfig, StopBits};
use yapper::serial::detector::{describe_port, is_embedded_port, is_legacy_serial, select_ports, PortKind, RawPort};

#[test]
fn test_default_summary() {
    let config = SerialConfig::default();
    assert_eq!(config.summary(), "115200 8N1");
}

#[test]
fn test_custom_summary() {
    let config = SerialConfig {
        baud_rate: 9600,
        data_bits: DataBits::Seven,
        parity: Parity::Even,
        stop_bits: StopBits::Two,
        flow_control: FlowControl::NoFlow,
    };
    assert_eq!(config.summary(), "9600 7E2");
}

#[test]
fn legacy_and_embedded_port_names() {
    assert!(is_legacy_serial("/dev/ttyS0"));
    assert!(!is_legacy_serial("/dev/ttyUSB0"));
    assert!(is_embedded_port("/dev/ttyAMA0"));
    assert!(is_embedded_port("/dev/serial0"));
    assert!(!is_embedded_port("/dev/ttyS1"));
}

#[test]
fn port_descriptions() {
    let bare = PortKind::Usb { manufacturer: None, product: None, vid: 0x1a86, pid: 0x7523 };
    assert_eq!(describe_port(&bare), "USB (1a86:7523)");
    let named = PortKind::Usb {
        manufacturer: Some("FTDI".to_string()),
        product: Some("FT232R".to_string()),
        vid: 0x0403,
        pid: 0x6001,
    };
    assert_eq!(describe_port(&named), "FTDI - FT232R");
    assert_eq!(describe_port(&PortKind::Pci), "PCI");
}

#[test]
fn only_usb_and_unknown_ports_are_offered() {
    let port = |name: &str, kind: PortKind| RawPort { name: name.to_string(), kind };
    let raw = vec![
        port("/dev/ttyAMA0", PortKind::Pci),
        port("/dev/ttyUSB0", PortKind::Usb { manufacturer: None, product: None, vid: 0x1a86, pid: 0x7523 }),
        port("/dev/ttyS0", PortKind::Unknown),
        port("/dev/rfcomm0", PortKind::Bluetooth),
        port("/dev/serial0", PortKind::Unknown),
    ];
    let names: Vec<String> = select_ports(&raw).into_iter().map(|p| p.name).collect();
    assert_eq!(names, vec!["/dev/ttyUSB0".to_string(), "/dev/serial0".to_string()]);
}
