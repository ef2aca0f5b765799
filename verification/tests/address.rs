use lifx_client::device::{Device, DeviceAddress, SocketEndpoint};
use lifx_client::error::ParseError;
use lifx_client::protocol::header::MacAddress;

fn address() -> DeviceAddress {
    DeviceAddress {
        mac_address: MacAddress { address: [0xde, 0xad, 0xbe, 0xef, 0x00, 0x01] },
        socket_address: SocketEndpoint { ip: [192, 0, 2, 5], port: 56700 },
    }
}

#[test]
fn device_address_without_separator() {
    assert_eq!(DeviceAddress::from_str("de:ad:be:ef:00:01"), Err(ParseError::Format));
    assert_eq!(DeviceAddress::from_str(""), Err(ParseError::Format));
}

#[test]
fn device_address_with_bad_socket() {
    assert_eq!(
        DeviceAddress::from_str("de:ad:be:ef:00:01#not-a-socket"),
        Err(ParseError::SocketAddress)
    );
    assert_eq!(
        DeviceAddress::from_str("de:ad:be:ef:00:01#192.0.2.5"),
        Err(ParseError::SocketAddress)
    );
    assert_eq!(DeviceAddress::from_str("de:ad:be:ef:00:01#"), Err(ParseError::SocketAddress));
}

#[test]
fn device_address_with_bad_mac() {
    assert_eq!(
        DeviceAddress::from_str("de:ad:be:ef:00:0g#192.0.2.5:56700"),
        Err(ParseError::MacAddress)
    );
    assert_eq!(DeviceAddress::from_str("#192.0.2.5:56700"), Err(ParseError::MacAddress));
    assert_eq!(DeviceAddress::from_str("zz#nothing#more"), Err(ParseError::MacAddress));
}

#[test]
fn device_address_with_second_separator() {
    assert_eq!(
        DeviceAddress::from_str("de:ad:be:ef:00:01#192.0.2.5:56700#"),
        Err(ParseError::Format)
    );
    assert_eq!(
        DeviceAddress::from_str("de:ad:be:ef:00:01#192.0.2.5:56700#x"),
        Err(ParseError::Format)
    );
    assert_eq!(
        DeviceAddress::from_str("de:ad:be:ef:00:01#bad#x"),
        Err(ParseError::SocketAddress)
    );
}

#[test]
fn device_address_round_trips() {
    let text = "de:ad:be:ef:00:01#192.0.2.5:56700";
    let parsed = DeviceAddress::from_str(text).unwrap();
    assert_eq!(parsed, address());
    assert_eq!(parsed.to_string(), text);
    assert_eq!(parsed.mac_address(), address().mac_address);
    assert_eq!(parsed.socket_address(), address().socket_address);
}

#[test]
fn device_address_round_trip_of_many() {
    for seed in 0u64..3000 {
        let x = seed.wrapping_mul(0x9e3779b97f4a7c15) ^ (seed << 7);
        let b = x.to_le_bytes();
        let address = DeviceAddress {
            mac_address: MacAddress { address: [b[0], b[1], b[2], b[3], b[4], b[5]] },
            socket_address: SocketEndpoint {
                ip: [b[6], b[7], b[0] ^ b[3], (seed % 256) as u8],
                port: (x >> 24) as u16,
            },
        };
        let text = address.to_string();
        assert_eq!(DeviceAddress::from_str(&text), Ok(address), "{}", text);
    }
}

#[test]
fn socket_endpoint_text() {
    let endpoint = SocketEndpoint { ip: [192, 0, 2, 5], port: 56700 };
    assert_eq!(endpoint.to_string(), "192.0.2.5:56700");
    assert_eq!(SocketEndpoint::from_str("192.0.2.5:56700"), Ok(endpoint));
    let zero = SocketEndpoint { ip: [0, 0, 0, 0], port: 0 };
    assert_eq!(zero.to_string(), "0.0.0.0:0");
    assert_eq!(SocketEndpoint::from_str("0.0.0.0:0"), Ok(zero));
    let full = SocketEndpoint { ip: [255, 255, 255, 255], port: 65535 };
    assert_eq!(full.to_string(), "255.255.255.255:65535");
    assert_eq!(SocketEndpoint::from_str("255.255.255.255:65535"), Ok(full));
    assert_eq!(SocketEndpoint::broadcast().to_string(), "255.255.255.255:56700");
    assert_eq!(SocketEndpoint::from_str("10.1.2.3:0080"), Ok(SocketEndpoint {
        ip: [10, 1, 2, 3],
        port: 80
    }));
}

#[test]
fn socket_endpoint_parse_errors() {
    for text in [
        "",
        ":",
        "192.0.2.5",
        "192.0.2.5:",
        "192.0.2:56700",
        "192.0.2.5.6:56700",
        "192.0.2.256:56700",
        "192.0.2.05:56700",
        "192.0.2.0005:56700",
        "192.0.2.:56700",
        "192.0.2.5:65536",
        "192.0.2.5:56700:1",
        "192.0.2.5:+1",
        "192.0.2.a:1",
        " 192.0.2.5:1",
        "[::1]:56700",
    ] {
        assert_eq!(SocketEndpoint::from_str(text), Err(ParseError::SocketAddress), "{:?}", text);
    }
}

#[test]
fn socket_endpoint_with_port() {
    let endpoint = SocketEndpoint { ip: [192, 0, 2, 5], port: 12345 };
    assert_eq!(endpoint.with_port(56700), SocketEndpoint { ip: [192, 0, 2, 5], port: 56700 });
    assert!(endpoint.same(&endpoint));
    assert!(!endpoint.same(&endpoint.with_port(1)));
}

#[test]
fn device_accessors() {
    let device =
        Device::new(address(), "Desk".to_string(), "Office".to_string(), "Home".to_string());
    assert_eq!(device.label(), "Desk");
    assert_eq!(device.group(), "Office");
    assert_eq!(device.location(), "Home");
    assert_eq!(device.address(), address());
    assert_eq!(device.mac_address(), address().mac_address);
    assert_eq!(device.socket_address(), address().socket_address);
    let copy = device.clone();
    assert_eq!(copy, device);
    assert!(copy.same(&device));
    let other =
        Device::new(address(), "Desk".to_string(), "Office".to_string(), "Away".to_string());
    assert!(!other.same(&device));
}
