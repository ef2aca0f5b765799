use lifx_client::error::{DecodeError, ParseError};
use lifx_client::protocol::header::DeviceMessageType as D;
use lifx_client::protocol::header::LightMessageType as L;
use lifx_client::protocol::header::{
    DeviceMessageType, Frame, FrameAddress, LightMessageType, MacAddress, MessageType,
    ProtocolHeader,
};

#[test]
fn frame_bytes_are_little_endian() {
    let frame = Frame { size: 0x0124, addressable: true, tagged: false, source: 0xdeadbeef };
    assert_eq!(frame.as_bytes(), vec![0x24, 0x01, 0x00, 0x14, 0xef, 0xbe, 0xad, 0xde]);
    let tagged = Frame { size: 36, addressable: true, tagged: true, source: 1 };
    assert_eq!(tagged.as_bytes(), vec![36, 0, 0x00, 0x34, 1, 0, 0, 0]);
    let bare = Frame { size: 36, addressable: false, tagged: false, source: 0 };
    assert_eq!(bare.as_bytes(), vec![36, 0, 0x00, 0x04, 0, 0, 0, 0]);
}

#[test]
fn frame_round_trip() {
    for (addressable, tagged) in [(false, false), (false, true), (true, false), (true, true)] {
        let frame = Frame { size: 65535, addressable, tagged, source: 0x01020304 };
        assert_eq!(Frame::from(&frame.as_bytes()), Ok(frame));
    }
}

#[test]
fn frame_rejects_wrong_protocol() {
    assert_eq!(Frame::from(&[36, 0, 0x01, 0x14, 0, 0, 0, 0]), Err(DecodeError::BadProtocol));
    assert_eq!(Frame::from(&[36, 0, 0x00, 0x10, 0, 0, 0, 0]), Err(DecodeError::BadProtocol));
}

#[test]
fn frame_rejects_origin() {
    assert_eq!(Frame::from(&[36, 0, 0x00, 0x54, 0, 0, 0, 0]), Err(DecodeError::BadOrigin));
    assert_eq!(Frame::from(&[36, 0, 0x00, 0x94, 0, 0, 0, 0]), Err(DecodeError::BadOrigin));
}

#[test]
fn frame_rejects_wrong_length() {
    assert_eq!(Frame::from(&[36, 0, 0x00, 0x14, 0, 0, 0]), Err(DecodeError::Truncated));
    assert_eq!(Frame::from(&[36, 0, 0x00, 0x14, 0, 0, 0, 0, 0]), Err(DecodeError::Truncated));
}

#[test]
fn frame_address_bytes() {
    let frame_address = FrameAddress {
        target: MacAddress { address: [1, 2, 3, 4, 5, 6] },
        res_required: true,
        ack_required: true,
        sequence: 200,
    };
    assert_eq!(
        frame_address.as_bytes(),
        vec![1, 2, 3, 4, 5, 6, 0, 0, 0, 0, 0, 0, 0, 0, 3, 200]
    );
    assert_eq!(FrameAddress::from(&frame_address.as_bytes()), Ok(frame_address));
}

#[test]
fn frame_address_tolerates_reserved_bits() {
    let bytes = [9, 8, 7, 6, 5, 4, 0xff, 0xff, 1, 2, 3, 4, 5, 6, 0xfe, 7];
    let frame_address = FrameAddress::from(&bytes).unwrap();
    assert_eq!(frame_address.target, MacAddress { address: [9, 8, 7, 6, 5, 4] });
    assert!(!frame_address.res_required);
    assert!(frame_address.ack_required);
    assert_eq!(frame_address.sequence, 7);
    assert_eq!(FrameAddress::from(&bytes[..15]), Err(DecodeError::Truncated));
}

#[test]
fn protocol_header_bytes() {
    let header = ProtocolHeader { message_type: MessageType::Light(LightMessageType::State) };
    assert_eq!(header.as_bytes(), vec![0, 0, 0, 0, 0, 0, 0, 0, 107, 0, 0, 0]);
    assert_eq!(ProtocolHeader::from(&header.as_bytes()), Ok(header));
    let unknown = ProtocolHeader::from(&[1, 1, 1, 1, 1, 1, 1, 1, 0x34, 0x12, 9, 9]).unwrap();
    assert_eq!(unknown.message_type, MessageType::Unknown(0x1234));
    assert_eq!(ProtocolHeader::from(&[0; 11]), Err(DecodeError::Truncated));
}

#[test]
fn message_type_codes() {
    let device = [
        (D::GetService, 2u16),
        (D::StateService, 3),
        (D::GetHostInfo, 12),
        (D::StateHostInfo, 13),
        (D::GetHostFirmware, 14),
        (D::StateHostFirmware, 15),
        (D::GetWifiInfo, 16),
        (D::StateWifiInfo, 17),
        (D::GetWifiFirmware, 18),
        (D::StateWifiFirmware, 19),
        (D::GetPower, 20),
        (D::SetPower, 21),
        (D::StatePower, 22),
        (D::GetLabel, 23),
        (D::SetLabel, 24),
        (D::StateLabel, 25),
        (D::GetVersion, 32),
        (D::StateVersion, 33),
        (D::GetInfo, 34),
        (D::StateInfo, 35),
        (D::Acknowledgement, 45),
        (D::GetLocation, 48),
        (D::SetLocation, 49),
        (D::StateLocation, 50),
        (D::GetGroup, 51),
        (D::SetGroup, 52),
        (D::StateGroup, 53),
        (D::EchoRequest, 59),
    ];
    for (kind, code) in device {
        assert_eq!(MessageType::Device(kind).value(), code);
        assert_eq!(MessageType::from_value(code), MessageType::Device(kind));
    }
    let light = [
        (L::Get, 101u16),
        (L::SetColor, 102),
        (L::SetWaveform, 103),
        (L::State, 107),
        (L::GetPower, 116),
        (L::SetPower, 117),
        (L::StatePower, 118),
        (L::SetWaveformOptional, 119),
        (L::GetInfrared, 120),
        (L::StateInfrared, 121),
        (L::SetInfrared, 122),
    ];
    for (kind, code) in light {
        assert_eq!(MessageType::Light(kind).value(), code);
        assert_eq!(MessageType::from_value(code), MessageType::Light(kind));
    }
}

#[test]
fn message_type_of_every_number() {
    let mut named = 0;
    for code in 0..=u16::MAX {
        let kind = MessageType::from_value(code);
        assert_eq!(kind.value(), code);
        assert!(kind.is_wf());
        if kind != MessageType::Unknown(code) {
            named += 1;
        }
    }
    assert_eq!(named, 39);
    assert!(!MessageType::Unknown(2).is_wf());
    assert!(MessageType::Unknown(1).is_wf());
}

#[test]
fn mac_address_text() {
    let mac = MacAddress { address: [0xde, 0xad, 0xbe, 0xef, 0x00, 0x01] };
    let text = mac.to_string();
    assert_eq!(text, "de:ad:be:ef:00:01");
    assert_eq!(text.len(), 17);
    assert_eq!(MacAddress::from_str(&text), Ok(mac));
}

#[test]
fn mac_address_round_trip() {
    for seed in 0u32..2000 {
        let x = seed.wrapping_mul(2654435761);
        let mac = MacAddress {
            address: [x as u8, (x >> 8) as u8, (x >> 16) as u8, (x >> 24) as u8, seed as u8, 0xff],
        };
        let text = mac.to_string();
        assert_eq!(text.len(), 17);
        assert_eq!(MacAddress::from_str(&text), Ok(mac));
    }
}

#[test]
fn mac_address_parse_takes_six_pairs_of_digits_only() {
    for text in [
        "de:ad:be:ef:00",
        "de:ad",
        "de:ad:be:ef:0:1",
        "de:ad:be:ef:000:01",
        "+de:ad:be:ef:00:01",
        "de:0ad:be:ef:00:01",
        "DE:AD:BE:EF:00:01",
        "de:ad:be:ef:00:0F",
        "de:ad:be:ef:00:1",
        "deadbeef0001",
        "de-ad-be-ef-00-01",
    ] {
        assert_eq!(MacAddress::from_str(text), Err(ParseError::MacAddress), "{:?}", text);
    }
    assert_eq!(
        MacAddress::from_str("00:0a:b0:ff:9f:f9"),
        Ok(MacAddress { address: [0x00, 0x0a, 0xb0, 0xff, 0x9f, 0xf9] })
    );
}

#[test]
fn mac_address_parse_takes_only_what_display_gives() {
    let digits = b"0123456789abcdefABCDEFg+: ";
    let mut text = *b"de:ad:be:ef:00:01";
    for at in 0..text.len() {
        let kept = text[at];
        for digit in digits {
            text[at] = *digit;
            let candidate = std::str::from_utf8(&text).unwrap();
            match MacAddress::from_str(candidate) {
                Ok(mac) => assert_eq!(mac.to_string(), candidate),
                Err(error) => assert_eq!(error, ParseError::MacAddress),
            }
        }
        text[at] = kept;
    }
}

#[test]
fn mac_address_parse_errors() {
    for text in [
        "",
        ":",
        "de:ad:be:ef:00:01:02",
        "de:ad:be:ef:00:",
        "de:ad:be:ef:00:zz",
        "de:ad:be:ef:00:100",
        "de:ad:be:ef:00:-1",
        "de:ad:be:ef:00:+",
        "de ad be ef 00 01",
        "d\u{e9}:ad:be:ef:00:01",
    ] {
        assert_eq!(MacAddress::from_str(text), Err(ParseError::MacAddress), "{:?}", text);
    }
}

#[test]
fn mac_address_bytes() {
    let mac = MacAddress { address: [1, 2, 3, 4, 5, 6] };
    assert_eq!(mac.as_bytes(), vec![1, 2, 3, 4, 5, 6]);
    assert_eq!(MacAddress::from(&[1, 2, 3, 4, 5, 6]), mac);
    assert!(mac.same(&mac));
    assert!(!mac.same(&MacAddress::broadcast()));
    assert_eq!(MacAddress::broadcast().to_string(), "00:00:00:00:00:00");
}
