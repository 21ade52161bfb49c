use yapper::sim::{SimConnection, SimEvent, SimProfile, SimTransport, PERIODIC_STATUS_INTERVAL_MS};

fn data_text(events: &[SimEvent]) -> String {
    let mut out = String::new();
    for event in events {
        if let SimEvent::Data(data) = event {
            out.push_str(&String::from_utf8_lossy(data));
        }
    }
    out
}

#[test]
fn at_modem_replies_to_basic_commands() {
    let now: u64 = 1_000;
    let mut conn = SimConnection::new(SimProfile::AtModem, now);

    conn.write(b"AT\r\n").unwrap();
    let events = conn.tick(now + 25);
    assert!(!events.is_empty());

    let output = data_text(&events);
    assert!(output.contains("OK"));
}

#[test]
fn at_modem_handles_partial_input_and_unknown_commands() {
    let now: u64 = 1_000;
    let mut conn = SimConnection::new(SimProfile::AtModem, now);

    conn.write(b"AT+G").unwrap();
    assert!(conn.tick(now + 10).is_empty());
    conn.write(b"MR\n").unwrap();
    let events = conn.tick(now + 40);
    assert!(!events.is_empty());
    let output = data_text(&events);
    assert!(output.contains("yapper-sim 0.1.0"));

    conn.write(b"AT+NOPE\n").unwrap();
    let events = conn.tick(now + 70);
    assert!(!events.is_empty());
    let output = data_text(&events);
    assert!(output.contains("ERROR"));
}

#[test]
fn at_modem_can_emit_disconnect_and_periodic_status() {
    let now: u64 = 1_000;
    let mut conn = SimConnection::new(SimProfile::AtModem, now);

    let events = conn.tick(now + PERIODIC_STATUS_INTERVAL_MS + 1);
    assert!(!events.is_empty());
    assert!(data_text(&events).contains("+STATUS"));

    conn.write(b"AT+SIMDISCONNECT\n").unwrap();
    let events = conn.tick(now + PERIODIC_STATUS_INTERVAL_MS + 30);
    assert!(matches!(events.first(), Some(SimEvent::Disconnected)));
}

#[test]
fn simulator_transport_offers_its_port() {
    let transport = SimTransport::new(SimProfile::AtModem);
    let ports = transport.available_ports();
    assert_eq!(ports.len(), 1);
    assert_eq!(ports[0].name, transport.default_port());
    assert!(transport.open("nonexistent", 0).is_err());
    let conn = transport.open(transport.default_port(), 0).unwrap();
    assert_eq!(conn.port_name(), transport.default_port());
    assert_eq!(SimProfile::from_name(SimProfile::AtModem.name()), Some(SimProfile::AtModem));
}

#[test]
fn closed_connection_refuses_writes() {
    let mut conn = SimConnection::new(SimProfile::AtModem, 0);
    conn.write(b"AT\n").unwrap();
    assert_eq!(conn.tx_bytes(), 3);
    conn.close();
    assert_eq!(conn.write(b"AT\n").unwrap_err(), "simulated connection is closed");
    assert!(conn.tick(10_000).is_empty());
}
