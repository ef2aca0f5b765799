use lifx_client::error::DecodeError;
use lifx_client::protocol::header::{
    DeviceMessageType, Frame, FrameAddress, LightMessageType, MacAddress, MessageType,
    ProtocolHeader,
};
use lifx_client::protocol::message::{
    Hsbk, Message, Power, SetColorPayload, SetPowerPayload, StateLabelPayload,
    StateServicePayload,
};
use lifx_client::protocol::packet::{Packet, PacketBuilder};

fn messages() -> Vec<Message> {
    let mut label = "Desk".as_bytes().to_vec();
    label.resize(32, 0);
    vec![
        Message::Empty(MessageType::Device(DeviceMessageType::GetService)),
        Message::Empty(MessageType::Light(LightMessageType::Get)),
        Message::Empty(MessageType::Unknown(4000)),
        Message::Bytes(MessageType::Device(DeviceMessageType::EchoRequest), vec![1; 64]),
        Message::Bytes(MessageType::Unknown(900), vec![7]),
        Message::StateService(StateServicePayload { service: 1, port: 56700 }),
        Message::StateLabel(StateLabelPayload { label: String::from_utf8(label).unwrap() }),
        Message::SetColor(SetColorPayload::new(Hsbk::new(1, 2, 3, 4), 5)),
        Message::SetPower(SetPowerPayload::new(Power::On(0xffff), 6)),
        Message::SetPower(SetPowerPayload::new(Power::Off, 0)),
    ]
}

#[test]
fn get_service_broadcast_bytes() {
    let packet = PacketBuilder::with_empty_device_message(DeviceMessageType::GetService)
        .source(0x11223344)
        .sequence(7)
        .res_required(true)
        .build();
    let expected: Vec<u8> = vec![
        0x24, 0x00, 0x00, 0x34, 0x44, 0x33, 0x22, 0x11, 0, 0, 0, 0, 0, 0, 0, 0, 0, 0, 0, 0, 0, 0,
        0x01, 0x07, 0, 0, 0, 0, 0, 0, 0, 0, 0x02, 0x00, 0x00, 0x00,
    ];
    assert_eq!(packet.as_bytes(), expected);
}

#[test]
fn parse_state_service_response() {
    let mut bytes: Vec<u8> = vec![41, 0, 0x00, 0x14, 1, 0, 0, 0];
    bytes.extend_from_slice(&[0xd0, 0x73, 0xd5, 0x01, 0x02, 0x03, 0, 0]);
    bytes.extend_from_slice(&[0, 0, 0, 0, 0, 0, 0x01, 9]);
    bytes.extend_from_slice(&[0, 0, 0, 0, 0, 0, 0, 0, 3, 0, 0, 0]);
    bytes.extend_from_slice(&[0x01, 0x7c, 0xdd, 0x00, 0x00]);
    assert_eq!(bytes.len(), 41);
    let packet = Packet::from(&bytes).unwrap();
    match packet.message() {
        Message::StateService(payload) => {
            assert_eq!(*payload, StateServicePayload { service: 1, port: 56700 });
        }
        other => panic!("unexpected message {:?}", other),
    }
    assert_eq!(packet.frame.size, 41);
    assert_eq!(packet.frame_address.target, MacAddress { address: [0xd0, 0x73, 0xd5, 1, 2, 3] });
    assert_eq!(packet.frame_address.sequence, 9);
    assert_eq!(
        packet.protocol_header.message_type,
        MessageType::Device(DeviceMessageType::StateService)
    );
    assert_eq!(packet.as_bytes(), bytes);
}

#[test]
fn parse_rejects_short_buffer() {
    assert_eq!(Packet::from(&[0u8; 35]).err(), Some(DecodeError::Truncated));
}

#[test]
fn parse_rejects_sizes_that_do_not_fit() {
    let mut bytes = PacketBuilder::with_empty_light_message(LightMessageType::Get)
        .build()
        .as_bytes();
    bytes[0] = 35;
    assert_eq!(Packet::from(&bytes).err(), Some(DecodeError::BadSize));
    bytes[0] = 37;
    assert_eq!(Packet::from(&bytes).err(), Some(DecodeError::Truncated));
    bytes[0] = 36;
    bytes[3] = 0x54;
    assert_eq!(Packet::from(&bytes).err(), Some(DecodeError::BadOrigin));
    bytes[3] = 0x15;
    assert_eq!(Packet::from(&bytes).err(), Some(DecodeError::BadProtocol));
}

#[test]
fn parse_ignores_what_follows_the_packet() {
    let packet = PacketBuilder::new(Message::SetPower(SetPowerPayload::new(Power::On(9), 3)))
        .target(MacAddress { address: [1, 2, 3, 4, 5, 6] })
        .build();
    let mut bytes = packet.as_bytes();
    bytes.extend([0xaa; 86]);
    let parsed = Packet::from(&bytes).unwrap();
    assert_eq!(parsed.as_bytes(), packet.as_bytes());
}

#[test]
fn parse_tolerates_reserved_bytes() {
    let packet = PacketBuilder::new(Message::StateService(StateServicePayload {
        service: 1,
        port: 56700,
    }))
    .target(MacAddress { address: [1, 2, 3, 4, 5, 6] })
    .sequence(3)
    .build();
    let clean = packet.as_bytes();
    let mut noisy = clean.clone();
    for at in (14..22).chain(24..32).chain(34..36) {
        noisy[at] = 0xee;
    }
    noisy[22] |= 0xfc;
    let parsed = Packet::from(&noisy).unwrap();
    assert_eq!(parsed.as_bytes(), clean);
}

#[test]
fn packets_round_trip() {
    let mut sequence = 0u8;
    for message in messages() {
        for target in [None, Some(MacAddress { address: [0xd0, 0x73, 0xd5, 1, 2, 3] })] {
            sequence = sequence.wrapping_add(37);
            let mut builder = PacketBuilder::new(message.clone())
                .source(0x01020304 * sequence as u32)
                .sequence(sequence)
                .res_required(sequence % 2 == 0)
                .ack_required(sequence % 3 == 0);
            if let Some(target) = target {
                builder = builder.target(target);
            }
            let packet = builder.build();
            let bytes = packet.as_bytes();
            let parsed = Packet::from(&bytes).unwrap();
            assert_eq!(parsed.frame, packet.frame);
            assert_eq!(parsed.frame_address, packet.frame_address);
            assert_eq!(parsed.protocol_header, packet.protocol_header);
            assert_eq!(format!("{:?}", parsed.message), format!("{:?}", packet.message));
            assert_eq!(parsed.as_bytes(), bytes);
        }
    }
}

#[test]
fn built_packets_obey_the_field_rules() {
    for message in messages() {
        let payload = message.as_bytes().len();
        let kind = message.message_type().value();
        let broadcast = PacketBuilder::new(message.clone()).source(9).build().as_bytes();
        let mac = MacAddress { address: [0xd0, 0x73, 0xd5, 1, 2, 3] };
        let unicast = PacketBuilder::new(message).target(mac).source(9).build().as_bytes();
        for (bytes, tagged) in [(&broadcast, true), (&unicast, false)] {
            assert_eq!(bytes.len(), 36 + payload);
            assert_eq!(u16::from_le_bytes([bytes[0], bytes[1]]) as usize, bytes.len());
            let protocol = u16::from_le_bytes([bytes[2], bytes[3]]);
            assert_eq!(protocol & 0x0fff, 1024);
            assert_eq!(protocol & 0x1000, 0x1000);
            assert_eq!(protocol & 0x2000 != 0, tagged);
            assert_eq!(protocol & 0xc000, 0);
            assert_eq!(bytes[14..22], [0; 8]);
            assert_eq!(bytes[22] & 0xfc, 0);
            assert_eq!(bytes[24..32], [0; 8]);
            assert_eq!(bytes[32..34], kind.to_le_bytes());
            assert_eq!(bytes[34..36], [0; 2]);
        }
        assert_eq!(broadcast[8..14], [0; 6]);
        assert_eq!(unicast[8..14], mac.address);
    }
}

#[test]
fn builder_defaults() {
    let builder = PacketBuilder::with_empty_light_message(LightMessageType::GetPower);
    assert!(builder.tagged);
    assert_eq!(builder.source, 0);
    assert_eq!(builder.target, MacAddress::broadcast());
    assert!(!builder.res_required);
    assert!(!builder.ack_required);
    assert_eq!(builder.sequence, 0);
    let packet = builder.ack_required(true).build();
    assert_eq!(packet.frame, Frame { size: 36, addressable: true, tagged: true, source: 0 });
    assert_eq!(
        packet.frame_address,
        FrameAddress {
            target: MacAddress::broadcast(),
            res_required: false,
            ack_required: true,
            sequence: 0
        }
    );
    assert_eq!(
        packet.protocol_header,
        ProtocolHeader { message_type: MessageType::Light(LightMessageType::GetPower) }
    );
}

#[test]
fn target_clears_tagged_whatever_the_order() {
    let mac = MacAddress { address: [1, 2, 3, 4, 5, 6] };
    let first = PacketBuilder::with_empty_device_message(DeviceMessageType::GetLabel)
        .target(mac)
        .source(1)
        .sequence(2)
        .res_required(true)
        .build();
    let last = PacketBuilder::with_empty_device_message(DeviceMessageType::GetLabel)
        .source(1)
        .sequence(2)
        .res_required(true)
        .target(mac)
        .build();
    assert_eq!(first.as_bytes(), last.as_bytes());
    assert!(!first.frame.tagged);
    assert_eq!(first.as_bytes()[3] & 0x20, 0);
}
