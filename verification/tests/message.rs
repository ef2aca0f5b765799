use lifx_client::error::DecodeError;
use lifx_client::protocol::header::{DeviceMessageType, LightMessageType, MessageType};
use lifx_client::protocol::message::{
    Hsbk, Message, Power, SetColorPayload, SetPowerPayload, StateGroupPayload, StateLabelPayload,
    StateLocationPayload, StatePayload, StateServicePayload,
};

fn padded(text: &str) -> Vec<u8> {
    let mut bytes = text.as_bytes().to_vec();
    bytes.resize(32, 0);
    bytes
}

#[test]
fn hsbk_bytes() {
    let hsbk = Hsbk::new(0x1234, 0x5678, 0x9abc, 3500);
    let bytes = hsbk.as_bytes();
    assert_eq!(bytes, vec![0x34, 0x12, 0x78, 0x56, 0xbc, 0x9a, 0xac, 0x0d]);
    assert_eq!(bytes.len(), 8);
    assert_eq!(Hsbk::from_bytes(&bytes), Ok(hsbk));
    assert_eq!(Hsbk::from_bytes(&bytes[..7]), Err(DecodeError::PayloadSize));
}

#[test]
fn hsbk_round_trip() {
    for seed in 0u64..5000 {
        let x = seed.wrapping_mul(0x9e3779b97f4a7c15);
        let hsbk = Hsbk::new(x as u16, (x >> 16) as u16, (x >> 32) as u16, (x >> 48) as u16);
        assert_eq!(Hsbk::from_bytes(&hsbk.as_bytes()), Ok(hsbk));
    }
}

#[test]
fn hsbk_setters() {
    let hsbk = Hsbk::new(1, 2, 3, 4);
    assert_eq!(hsbk.with_hue(9), Hsbk::new(9, 2, 3, 4));
    assert_eq!(hsbk.with_saturation(9), Hsbk::new(1, 9, 3, 4));
    assert_eq!(hsbk.with_brightness(9), Hsbk::new(1, 2, 9, 4));
    assert_eq!(hsbk.with_kelvin(9), Hsbk::new(1, 2, 3, 9));
    assert_eq!((hsbk.hue(), hsbk.saturation(), hsbk.brightness(), hsbk.kelvin()), (1, 2, 3, 4));
}

#[test]
fn state_service_payload() {
    let payload = StateServicePayload::from_bytes(&[1, 0x7c, 0xdd, 0, 0]).unwrap();
    assert_eq!(payload, StateServicePayload { service: 1, port: 56700 });
    assert_eq!(payload.port(), 56700);
    assert_eq!(payload.as_bytes(), vec![1, 0x7c, 0xdd, 0, 0]);
    assert_eq!(
        StateServicePayload::from_bytes(&[1, 0xff, 0xff, 0, 0]),
        Ok(StateServicePayload { service: 1, port: 0xffff })
    );
}

#[test]
fn state_service_rejects_large_port() {
    assert_eq!(
        StateServicePayload::from_bytes(&[1, 0, 0, 1, 0]),
        Err(DecodeError::PortOutOfRange)
    );
    assert_eq!(
        StateServicePayload::from_bytes(&[1, 0x7c, 0xdd, 0, 1]),
        Err(DecodeError::PortOutOfRange)
    );
}

#[test]
fn state_service_rejects_wrong_length() {
    assert_eq!(StateServicePayload::from_bytes(&[1, 2, 3, 4]), Err(DecodeError::PayloadSize));
    assert_eq!(
        StateServicePayload::from_bytes(&[1, 2, 3, 0, 0, 0]),
        Err(DecodeError::PayloadSize)
    );
}

#[test]
fn state_label_payload() {
    let bytes = padded("Kitchen");
    let payload = StateLabelPayload::from_bytes(&bytes).unwrap();
    assert_eq!(payload.label, "Kitchen\0\0\0\0\0\0\0\0\0\0\0\0\0\0\0\0\0\0\0\0\0\0\0\0\0");
    assert_eq!(payload.as_bytes(), bytes);
    assert_eq!(StateLabelPayload::from_bytes(&bytes[..31]).err(), Some(DecodeError::PayloadSize));
}

#[test]
fn state_label_rejects_bytes_that_are_no_text() {
    let mut bytes = padded("Kitchen");
    bytes[3] = 0xff;
    assert_eq!(StateLabelPayload::from_bytes(&bytes).err(), Some(DecodeError::InvalidText));
    let mut cut = padded("caf");
    cut[31] = 0xc3;
    assert_eq!(StateLabelPayload::from_bytes(&cut).err(), Some(DecodeError::InvalidText));
}

#[test]
fn state_label_keeps_text_beyond_ascii() {
    let bytes = padded("K\u{fc}che \u{2600}");
    let payload = StateLabelPayload::from_bytes(&bytes).unwrap();
    assert!(payload.label.starts_with("K\u{fc}che \u{2600}\0"));
    assert_eq!(payload.as_bytes(), bytes);
}

#[test]
fn state_location_payload() {
    let mut bytes: Vec<u8> = (1..=16).collect();
    bytes.extend(padded("Home"));
    bytes.extend([8, 7, 6, 5, 4, 3, 2, 1]);
    let payload = StateLocationPayload::from_bytes(&bytes).unwrap();
    assert_eq!(payload.location, [1, 2, 3, 4, 5, 6, 7, 8, 9, 10, 11, 12, 13, 14, 15, 16]);
    assert!(payload.label.starts_with("Home\0"));
    assert_eq!(payload.label.len(), 32);
    assert_eq!(payload.updated_at, 0x0102030405060708);
    assert_eq!(payload.as_bytes(), bytes);
    assert_eq!(
        StateLocationPayload::from_bytes(&bytes[..55]).err(),
        Some(DecodeError::PayloadSize)
    );
    bytes[20] = 0x80;
    assert_eq!(StateLocationPayload::from_bytes(&bytes).err(), Some(DecodeError::InvalidText));
}

#[test]
fn state_group_payload() {
    let mut bytes: Vec<u8> = (101..=116).collect();
    bytes.extend(padded("Upstairs"));
    bytes.extend([0xff, 0, 0, 0, 0, 0, 0, 0x80]);
    let payload = StateGroupPayload::from_bytes(&bytes).unwrap();
    assert_eq!(payload.group[0], 101);
    assert_eq!(payload.group[15], 116);
    assert!(payload.label.starts_with("Upstairs\0"));
    assert_eq!(payload.updated_at, 0x80000000000000ff);
    assert_eq!(payload.as_bytes(), bytes);
    bytes.push(0);
    assert_eq!(StateGroupPayload::from_bytes(&bytes).err(), Some(DecodeError::PayloadSize));
}

#[test]
fn state_payload() {
    let mut bytes = Hsbk::new(100, 200, 300, 3500).as_bytes();
    bytes.extend([0xaa, 0xbb]);
    bytes.extend([0xff, 0xff]);
    bytes.extend(padded("Desk"));
    bytes.extend([9; 8]);
    assert_eq!(bytes.len(), 52);
    let payload = StatePayload::from_bytes(&bytes).unwrap();
    assert_eq!(payload.color(), Hsbk::new(100, 200, 300, 3500));
    assert_eq!(payload.power(), Power::On(0xffff));
    assert!(payload.label.starts_with("Desk\0"));
    let mut canonical = bytes.clone();
    canonical[8] = 0;
    canonical[9] = 0;
    for byte in &mut canonical[44..] {
        *byte = 0;
    }
    assert_eq!(payload.as_bytes(), canonical);
    assert_eq!(StatePayload::from_bytes(&bytes[..51]).err(), Some(DecodeError::PayloadSize));
}

#[test]
fn power_levels() {
    assert_eq!(Power::from_level(0), Power::Off);
    assert_eq!(Power::from_level(1), Power::On(1));
    assert_eq!(Power::from_level(123), Power::On(123));
    assert_eq!(Power::from_level(0xffff), Power::On(0xffff));
    assert_eq!(Power::Off.level(), 0);
    assert_eq!(Power::On(77).level(), 77);
    for level in 0..=u16::MAX {
        let power = Power::from_level(level);
        assert_ne!(power, Power::On(0));
        assert_eq!(power.level(), level);
        assert_eq!(power == Power::Off, level == 0);
    }
}

#[test]
fn set_color_payload() {
    let payload = SetColorPayload::new(Hsbk::new(1, 2, 3, 4), 0x01020304);
    let bytes = payload.as_bytes();
    assert_eq!(bytes, vec![0, 1, 0, 2, 0, 3, 0, 4, 0, 4, 3, 2, 1]);
    assert_eq!(SetColorPayload::from_bytes(&bytes), Ok(payload));
    assert_eq!(SetColorPayload::from_bytes(&bytes[1..]), Err(DecodeError::PayloadSize));
}

#[test]
fn set_power_payload() {
    let on = SetPowerPayload::new(Power::On(0xffff), 1000);
    assert_eq!(on.as_bytes(), vec![0xff, 0xff, 0xe8, 0x03, 0, 0]);
    assert_eq!(SetPowerPayload::from_bytes(&on.as_bytes()), Ok(on));
    let off = SetPowerPayload::new(Power::Off, 0);
    assert_eq!(off.as_bytes(), vec![0, 0, 0, 0, 0, 0]);
    assert_eq!(SetPowerPayload::from_bytes(&off.as_bytes()), Ok(off));
    assert_eq!(SetPowerPayload::from_bytes(&[0; 5]), Err(DecodeError::PayloadSize));
}

#[test]
fn message_dispatch() {
    let service = MessageType::Device(DeviceMessageType::StateService);
    match Message::from(service, &[1, 0x7c, 0xdd, 0, 0]).unwrap() {
        Message::StateService(payload) => assert_eq!(payload.port, 56700),
        other => panic!("unexpected {:?}", other),
    }
    assert_eq!(Message::from(service, &[1, 2]).err(), Some(DecodeError::PayloadSize));
    assert_eq!(Message::from(service, &[]).err(), Some(DecodeError::PayloadSize));
    let get = MessageType::Light(LightMessageType::Get);
    match Message::from(get, &[]).unwrap() {
        Message::Empty(kind) => assert_eq!(kind, get),
        other => panic!("unexpected {:?}", other),
    }
    let echo = MessageType::Device(DeviceMessageType::EchoRequest);
    match Message::from(echo, &[1, 2, 3]).unwrap() {
        Message::Bytes(kind, bytes) => {
            assert_eq!(kind, echo);
            assert_eq!(bytes, vec![1, 2, 3]);
        }
        other => panic!("unexpected {:?}", other),
    }
    match Message::from(MessageType::Unknown(999), &[7]).unwrap() {
        Message::Bytes(kind, bytes) => {
            assert_eq!(kind, MessageType::Unknown(999));
            assert_eq!(bytes, vec![7]);
        }
        other => panic!("unexpected {:?}", other),
    }
    let power = MessageType::Light(LightMessageType::SetPower);
    match Message::from(power, &[5, 0, 1, 0, 0, 0]).unwrap() {
        Message::SetPower(payload) => assert_eq!(payload, SetPowerPayload::new(Power::On(5), 1)),
        other => panic!("unexpected {:?}", other),
    }
}

#[test]
fn message_kinds_and_bytes() {
    let color = Message::SetColor(SetColorPayload::new(Hsbk::new(0, 0, 0, 0), 0));
    assert_eq!(color.message_type(), MessageType::Light(LightMessageType::SetColor));
    assert_eq!(color.message_type().value(), 102);
    assert_eq!(color.as_bytes().len(), 13);
    assert_eq!(color.payload_len(), 13);
    let power = Message::SetPower(SetPowerPayload::new(Power::Off, 0));
    assert_eq!(power.message_type().value(), 117);
    assert_eq!(power.payload_len(), 6);
    let empty = Message::Empty(MessageType::Light(LightMessageType::Get));
    assert_eq!(empty.message_type().value(), 101);
    assert_eq!(empty.as_bytes(), Vec::<u8>::new());
    let bytes = Message::Bytes(MessageType::Unknown(700), vec![1, 2, 3]);
    assert_eq!(bytes.message_type().value(), 700);
    assert_eq!(bytes.as_bytes(), vec![1, 2, 3]);
    let label = Message::StateLabel(StateLabelPayload::from_bytes(&padded("x")).unwrap());
    assert_eq!(label.message_type().value(), 25);
    assert_eq!(label.payload_len(), 32);
}

#[test]
fn typed_kinds_reject_every_other_length() {
    let layouts = [
        (MessageType::Device(DeviceMessageType::StateService), 5usize),
        (MessageType::Device(DeviceMessageType::StateLabel), 32),
        (MessageType::Device(DeviceMessageType::StateGroup), 56),
        (MessageType::Device(DeviceMessageType::StateLocation), 56),
        (MessageType::Light(LightMessageType::State), 52),
        (MessageType::Light(LightMessageType::SetColor), 13),
        (MessageType::Light(LightMessageType::SetPower), 6),
    ];
    for (kind, layout) in layouts {
        for len in 0..80usize {
            let outcome = Message::from(kind, &vec![0u8; len]);
            if len == layout {
                let message = outcome.unwrap();
                assert_eq!(message.message_type(), kind);
                assert!(!matches!(message, Message::Empty(_) | Message::Bytes(_, _)));
            } else {
                assert_eq!(outcome.err(), Some(DecodeError::PayloadSize), "{:?} {}", kind, len);
            }
        }
    }
}

#[test]
fn other_kinds_keep_any_payload() {
    for kind in [
        MessageType::Device(DeviceMessageType::GetService),
        MessageType::Device(DeviceMessageType::StatePower),
        MessageType::Light(LightMessageType::StateInfrared),
        MessageType::Unknown(60000),
    ] {
        assert!(matches!(Message::from(kind, &[]), Ok(Message::Empty(found)) if found == kind));
        for len in 1..70usize {
            match Message::from(kind, &vec![3u8; len]).unwrap() {
                Message::Bytes(found, bytes) => {
                    assert_eq!(found, kind);
                    assert_eq!(bytes, vec![3u8; len]);
                }
                other => panic!("unexpected {:?}", other),
            }
        }
    }
}
