use lifx_client::client::{to_millis, trim_trailing_null, Client, Event, Outcome, Step};
use lifx_client::color::{Brightness, Color};
use lifx_client::device::{Device, DeviceAddress, SocketEndpoint};
use lifx_client::error::{DecodeError, Error};
use lifx_client::protocol::header::{DeviceMessageType, LightMessageType, MacAddress, MessageType};
use lifx_client::protocol::message::{
    Hsbk, Message, Power, SetColorPayload, SetPowerPayload, StateGroupPayload, StateLabelPayload,
    StateLocationPayload, StatePayload, StateServicePayload,
};
use lifx_client::protocol::packet::{Packet, PacketBuilder};

const MAC: MacAddress = MacAddress { address: [0xd0, 0x73, 0xd5, 0x01, 0x02, 0x03] };

fn padded(text: &str) -> String {
    let mut bytes = text.as_bytes().to_vec();
    bytes.resize(32, 0);
    String::from_utf8(bytes).unwrap()
}

fn device() -> Device {
    Device::new(
        DeviceAddress {
            mac_address: MAC,
            socket_address: SocketEndpoint { ip: [192, 0, 2, 5], port: 56700 },
        },
        "Desk".to_string(),
        "Office".to_string(),
        "Home".to_string(),
    )
}

fn reply(message: Message, mac: MacAddress) -> Vec<u8> {
    PacketBuilder::new(message).target(mac).source(7).build().as_bytes()
}

fn state(power: u16) -> Vec<u8> {
    reply(
        Message::State(StatePayload {
            color: Hsbk::new(1000, 2000, 3000, 4000),
            power,
            label: padded("Desk"),
        }),
        MAC,
    )
}

fn received(bytes: Vec<u8>) -> Event {
    Event::Received { from: SocketEndpoint { ip: [192, 0, 2, 5], port: 56700 }, bytes }
}

fn request(step: &Step) -> Packet {
    match step {
        Step::Send { bytes, .. } | Step::Exchange { bytes, .. } | Step::Broadcast { bytes, .. } => {
            Packet::from(bytes).unwrap()
        }
        other => panic!("no request in {:?}", other),
    }
}

fn set_power_of(step: &Step) -> SetPowerPayload {
    match step {
        Step::Send { to, bytes } => {
            assert_eq!(*to, device().socket_address());
            let packet = Packet::from(bytes).unwrap();
            assert_eq!(packet.frame_address.target, MAC);
            assert!(!packet.frame.tagged);
            assert!(!packet.frame_address.res_required);
            match packet.message {
                Message::SetPower(payload) => payload,
                other => panic!("unexpected {:?}", other),
            }
        }
        other => panic!("unexpected {:?}", other),
    }
}

fn set_color_of(step: &Step) -> SetColorPayload {
    match step {
        Step::Exchange { to, bytes } => {
            assert_eq!(*to, device().socket_address());
            let packet = Packet::from(bytes).unwrap();
            assert_eq!(packet.frame_address.target, MAC);
            assert!(!packet.frame.tagged);
            assert!(packet.frame_address.res_required);
            match packet.message {
                Message::SetColor(payload) => payload,
                other => panic!("unexpected {:?}", other),
            }
        }
        other => panic!("unexpected {:?}", other),
    }
}

fn expect_get(step: &Step) {
    match step {
        Step::Exchange { to, bytes } => {
            assert_eq!(*to, device().socket_address());
            let packet = Packet::from(bytes).unwrap();
            assert_eq!(packet.frame_address.target, MAC);
            assert!(packet.frame_address.res_required);
            assert!(!packet.frame.tagged);
            match packet.message {
                Message::Empty(kind) => {
                    assert_eq!(kind, MessageType::Light(LightMessageType::Get))
                }
                other => panic!("unexpected {:?}", other),
            }
        }
        other => panic!("unexpected {:?}", other),
    }
}

fn expect_done(step: Step) {
    match step {
        Step::Done(Outcome::Nothing) => {}
        other => panic!("unexpected {:?}", other),
    }
}

fn expect_failed(step: Step, error: Error) {
    match step {
        Step::Failed(found) => assert_eq!(found, error),
        other => panic!("unexpected {:?}", other),
    }
}

#[test]
fn to_millis_clamps() {
    assert_eq!(to_millis(-1), 0);
    assert_eq!(to_millis(i64::MIN), 0);
    assert_eq!(to_millis(0), 0);
    assert_eq!(to_millis(1), 1);
    assert_eq!(to_millis(1500), 1500);
    assert_eq!(to_millis(u32::MAX as i64 - 1), u32::MAX - 1);
    assert_eq!(to_millis(u32::MAX as i64), u32::MAX);
    assert_eq!(to_millis(u32::MAX as i64 + 1), u32::MAX);
    assert_eq!(to_millis(i64::MAX), u32::MAX);
}

#[test]
fn trim_trailing_null_takes_the_padding_away() {
    assert_eq!(trim_trailing_null("Desk\0\0\0".to_string()), "Desk");
    assert_eq!(trim_trailing_null("Desk".to_string()), "Desk");
    assert_eq!(trim_trailing_null("\0De\0sk\0".to_string()), "\0De\0sk");
    assert_eq!(trim_trailing_null("\0\0".to_string()), "");
    assert_eq!(trim_trailing_null(String::new()), "");
}

#[test]
fn new_client_knows_nothing() {
    let client = Client::new();
    assert!(client.get_devices().is_empty());
    assert!(client.is_idle());
    let client = Client::with_source(0x11223344);
    assert_eq!(client.source(), 0x11223344);
    assert!(client.get_devices().is_empty());
}

#[test]
fn sequence_counter_wraps_after_256_requests() {
    let mut client = Client::with_source(1);
    let mut seen = Vec::new();
    for _ in 0..257 {
        let step = client.turn_on(&device());
        seen.push(request(&step).frame_address.sequence);
        expect_done(client.resume(Event::Sent));
    }
    for (n, sequence) in seen.iter().enumerate() {
        assert_eq!(*sequence as usize, n % 256);
    }
    assert_eq!(seen[256], seen[0]);
}

#[test]
fn requests_carry_the_source() {
    let mut client = Client::with_source(0xcafef00d);
    let step = client.get_color(&device());
    let packet = request(&step);
    assert_eq!(packet.frame.source, 0xcafef00d);
    assert_eq!(packet.frame.size as usize, packet.as_bytes().len());
    assert!(packet.frame.addressable);
}

#[test]
fn discovery_against_one_responder() {
    let mut client = Client::with_source(0x11223344);
    let step = client.discover();
    match &step {
        Step::Broadcast { to, bytes } => {
            assert_eq!(*to, SocketEndpoint { ip: [255, 255, 255, 255], port: 56700 });
            let expected: Vec<u8> = vec![
                0x24, 0x00, 0x00, 0x34, 0x44, 0x33, 0x22, 0x11, 0, 0, 0, 0, 0, 0, 0, 0, 0, 0, 0,
                0, 0, 0, 0x01, 0x00, 0, 0, 0, 0, 0, 0, 0, 0, 0x02, 0x00, 0x00, 0x00,
            ];
            assert_eq!(*bytes, expected);
        }
        other => panic!("unexpected {:?}", other),
    }
    let service = reply(
        Message::StateService(StateServicePayload { service: 1, port: 56700 }),
        MAC,
    );
    let from = SocketEndpoint { ip: [192, 0, 2, 5], port: 12345 };
    let step = client.resume(Event::Received { from, bytes: service.clone() });
    assert!(matches!(step, Step::Listen));
    let step = client.resume(Event::Received { from, bytes: service });
    assert!(matches!(step, Step::Listen));
    let step = client.resume(Event::TimedOut);
    let expected_to = SocketEndpoint { ip: [192, 0, 2, 5], port: 56700 };
    let mut kinds = Vec::new();
    let mut sequences = Vec::new();
    let mut step = step;
    let answers = vec![
        reply(Message::StateLabel(StateLabelPayload { label: padded("Desk") }), MAC),
        reply(
            Message::StateGroup(StateGroupPayload {
                group: [1; 16],
                label: padded("Office"),
                updated_at: 5,
            }),
            MAC,
        ),
        reply(
            Message::StateLocation(StateLocationPayload {
                location: [2; 16],
                label: padded("Home"),
                updated_at: 6,
            }),
            MAC,
        ),
    ];
    for answer in answers {
        match &step {
            Step::Exchange { to, bytes } => {
                assert_eq!(*to, expected_to);
                let packet = Packet::from(bytes).unwrap();
                assert_eq!(packet.frame_address.target, MAC);
                assert!(packet.frame_address.res_required);
                assert!(!packet.frame.tagged);
                assert_eq!(packet.frame.source, 0x11223344);
                kinds.push(packet.protocol_header.message_type);
                sequences.push(packet.frame_address.sequence);
            }
            other => panic!("unexpected {:?}", other),
        }
        step = client.resume(received(answer));
    }
    assert_eq!(
        kinds,
        vec![
            MessageType::Device(DeviceMessageType::GetLabel),
            MessageType::Device(DeviceMessageType::GetGroup),
            MessageType::Device(DeviceMessageType::GetLocation),
        ]
    );
    assert_eq!(sequences, vec![1, 2, 3]);
    match step {
        Step::Done(Outcome::Devices(devices)) => {
            assert_eq!(devices.len(), 1);
            assert_eq!(devices[0].socket_address(), expected_to);
            assert_eq!(devices[0].mac_address(), MAC);
            assert_eq!(devices[0].label(), "Desk");
            assert_eq!(devices[0].group(), "Office");
            assert_eq!(devices[0].location(), "Home");
        }
        other => panic!("unexpected {:?}", other),
    }
    assert_eq!(client.get_devices().len(), 1);
    assert_eq!(client.get_devices()[0], device());
    assert!(client.is_idle());
}

#[test]
fn discovery_without_responders() {
    let mut client = Client::with_source(1);
    let step = client.discover();
    assert!(matches!(step, Step::Broadcast { .. }));
    match client.resume(Event::TimedOut) {
        Step::Done(Outcome::Devices(devices)) => assert!(devices.is_empty()),
        other => panic!("unexpected {:?}", other),
    }
    assert!(client.is_idle());
}

#[test]
fn discovery_of_two_devices_in_order_of_arrival() {
    let mut client = Client::with_source(1);
    client.discover();
    let other = MacAddress { address: [9, 9, 9, 9, 9, 9] };
    let first = SocketEndpoint { ip: [192, 0, 2, 5], port: 1 };
    let second = SocketEndpoint { ip: [192, 0, 2, 6], port: 2 };
    let service = Message::StateService(StateServicePayload { service: 1, port: 56700 });
    client.resume(Event::Received { from: first, bytes: reply(service.clone(), MAC) });
    client.resume(Event::Received { from: second, bytes: reply(service, other) });
    let mut step = client.resume(Event::TimedOut);
    let mut asked = Vec::new();
    for name in ["a", "b", "c", "d", "e", "f"] {
        let packet = request(&step);
        asked.push(packet.frame_address.target);
        let answer = match packet.protocol_header.message_type {
            MessageType::Device(DeviceMessageType::GetLabel) => {
                Message::StateLabel(StateLabelPayload { label: padded(name) })
            }
            MessageType::Device(DeviceMessageType::GetGroup) => {
                Message::StateGroup(StateGroupPayload {
                    group: [0; 16],
                    label: padded(name),
                    updated_at: 0,
                })
            }
            MessageType::Device(DeviceMessageType::GetLocation) => {
                Message::StateLocation(StateLocationPayload {
                    location: [0; 16],
                    label: padded(name),
                    updated_at: 0,
                })
            }
            kind => panic!("unexpected {:?}", kind),
        };
        step = client.resume(received(reply(answer, packet.frame_address.target)));
    }
    assert_eq!(asked, vec![MAC, MAC, MAC, other, other, other]);
    match step {
        Step::Done(Outcome::Devices(devices)) => {
            assert_eq!(devices.len(), 2);
            assert_eq!(devices[0].label(), "a");
            assert_eq!(devices[0].group(), "b");
            assert_eq!(devices[0].location(), "c");
            assert_eq!(devices[0].socket_address(), first.with_port(56700));
            assert_eq!(devices[1].label(), "d");
            assert_eq!(devices[1].mac_address(), other);
            assert_eq!(devices[1].socket_address(), second.with_port(56700));
        }
        other => panic!("unexpected {:?}", other),
    }
}

#[test]
fn discovery_fails_on_an_unexpected_answer() {
    let mut client = Client::with_source(1);
    client.discover();
    let step = client.resume(received(state(0)));
    expect_failed(step, Error::UnexpectedResponse);
    assert!(client.is_idle());
    client.discover();
    let step = client.resume(received(vec![1, 2, 3]));
    expect_failed(step, Error::Decode(DecodeError::Truncated));
    client.discover();
    expect_failed(client.resume(Event::Failed), Error::Io);
}

#[test]
fn find_device_asks_for_three_names() {
    let mut client = Client::with_source(5);
    let step = client.find_device(device().address());
    assert_eq!(
        request(&step).protocol_header.message_type,
        MessageType::Device(DeviceMessageType::GetLabel)
    );
    let step =
        client.resume(received(reply(Message::StateLabel(StateLabelPayload {
            label: padded("Desk"),
        }), MAC)));
    assert_eq!(
        request(&step).protocol_header.message_type,
        MessageType::Device(DeviceMessageType::GetGroup)
    );
    let step = client.resume(received(reply(
        Message::StateGroup(StateGroupPayload {
            group: [0; 16],
            label: padded("Office"),
            updated_at: 0,
        }),
        MAC,
    )));
    assert_eq!(
        request(&step).protocol_header.message_type,
        MessageType::Device(DeviceMessageType::GetLocation)
    );
    let step = client.resume(received(reply(
        Message::StateLocation(StateLocationPayload {
            location: [0; 16],
            label: padded("Home"),
            updated_at: 0,
        }),
        MAC,
    )));
    match step {
        Step::Done(Outcome::Device(found)) => assert_eq!(found, device()),
        other => panic!("unexpected {:?}", other),
    }
    assert_eq!(client.get_devices().len(), 1);
    let step = client.find_device(device().address());
    assert!(matches!(step, Step::Exchange { .. }));
    let step = client.resume(received(state(1)));
    expect_failed(step, Error::UnexpectedResponse);
    assert_eq!(client.get_devices().len(), 1);
}

#[test]
fn a_device_is_known_once() {
    let mut client = Client::with_source(5);
    for _ in 0..2 {
        client.find_device(device().address());
        client.resume(received(reply(
            Message::StateLabel(StateLabelPayload { label: padded("Desk") }),
            MAC,
        )));
        client.resume(received(reply(
            Message::StateGroup(StateGroupPayload {
                group: [0; 16],
                label: padded("Office"),
                updated_at: 0,
            }),
            MAC,
        )));
        client.resume(received(reply(
            Message::StateLocation(StateLocationPayload {
                location: [0; 16],
                label: padded("Home"),
                updated_at: 0,
            }),
            MAC,
        )));
    }
    assert_eq!(client.get_devices().len(), 1);
    client.forget_devices();
    assert!(client.get_devices().is_empty());
}

#[test]
fn toggle_switches_on_what_is_off() {
    let mut client = Client::with_source(1);
    let step = client.transition_toggle(&device(), 250);
    expect_get(&step);
    let step = client.resume(received(state(0)));
    assert_eq!(set_power_of(&step), SetPowerPayload::new(Power::On(0xffff), 250));
    assert_eq!(request(&step).frame_address.sequence, 1);
    expect_done(client.resume(Event::Sent));
}

#[test]
fn toggle_switches_off_what_is_on() {
    let mut client = Client::with_source(1);
    let step = client.toggle_power(&device());
    expect_get(&step);
    let step = client.resume(received(state(123)));
    let payload = set_power_of(&step);
    assert_eq!(payload, SetPowerPayload::new(Power::Off, 0));
    assert_eq!(payload.as_bytes()[..2], [0, 0]);
    expect_done(client.resume(Event::Sent));
}

#[test]
fn brightness_above_one_is_full_brightness() {
    let mut client = Client::with_source(1);
    let step = client.transition_brightness(&device(), Brightness::from_ratio(2, 1), 0);
    expect_get(&step);
    let step = client.resume(received(state(0xffff)));
    let payload = set_color_of(&step);
    assert_eq!(payload, SetColorPayload::new(Hsbk::new(1000, 2000, 0xffff, 4000), 0));
    expect_done(client.resume(received(state(0xffff))));
}

#[test]
fn brightness_below_zero_switches_off() {
    let mut client = Client::with_source(1);
    let step = client.transition_brightness(&device(), Brightness::from_ratio(-1, 2), 700);
    assert_eq!(set_power_of(&step), SetPowerPayload::new(Power::Off, 700));
    expect_done(client.resume(Event::Sent));
    let step = client.set_brightness(&device(), Brightness::from_ratio(0, 5));
    assert_eq!(set_power_of(&step), SetPowerPayload::new(Power::Off, 0));
    expect_done(client.resume(Event::Sent));
}

#[test]
fn brightness_switches_on_a_light_that_is_off() {
    let mut client = Client::with_source(1);
    let step = client.transition_brightness(&device(), Brightness::from_ratio(1, 2), 900);
    expect_get(&step);
    let step = client.resume(received(state(0)));
    assert_eq!(set_power_of(&step), SetPowerPayload::new(Power::On(0xffff), 0));
    let step = client.resume(Event::Sent);
    assert_eq!(
        set_color_of(&step),
        SetColorPayload::new(Hsbk::new(1000, 2000, 32767, 4000), 900)
    );
    assert_eq!(request(&step).frame_address.sequence, 2);
    expect_done(client.resume(received(state(1))));
    assert!(client.is_idle());
}

#[test]
fn brightness_levels() {
    assert_eq!(Brightness::from_ratio(1, 2), Brightness::Level(32767));
    assert_eq!(Brightness::from_ratio(1, 1), Brightness::Level(0xffff));
    assert_eq!(Brightness::from_ratio(1, 100000), Brightness::Level(0));
    assert_eq!(Brightness::from_ratio(0, 1), Brightness::Dark);
    assert_eq!(Brightness::Dark.level(), 0);
    assert_eq!(Brightness::Level(9).level(), 9);
}

#[test]
fn colour_is_sent_with_default_kelvin() {
    let mut client = Client::with_source(1);
    let step = client.transition_color(&device(), Color::red(), 1_000_000_000_000);
    assert_eq!(
        set_color_of(&step),
        SetColorPayload::new(Hsbk::new(0, 0xffff, 0xffff, 5750), u32::MAX)
    );
    expect_done(client.resume(received(state(1))));
    let color = Color { hue: 1, saturation: 2, brightness: 3, kelvin: Some(2700) };
    let step = client.set_color(&device(), color);
    assert_eq!(set_color_of(&step), SetColorPayload::new(Hsbk::new(1, 2, 3, 2700), 0));
    expect_failed(client.resume(received(vec![0; 40])), Error::Decode(DecodeError::BadProtocol));
}

#[test]
fn temperature_keeps_brightness() {
    let mut client = Client::with_source(1);
    let step = client.transition_temperature(&device(), 3000, 10);
    expect_get(&step);
    let step = client.resume(received(state(5)));
    assert_eq!(set_color_of(&step), SetColorPayload::new(Hsbk::new(0, 0, 3000, 3000), 10));
    expect_done(client.resume(received(state(5))));
    let step = client.set_temperature(&device(), 9000);
    expect_get(&step);
    let step = client.resume(received(state(5)));
    assert_eq!(set_color_of(&step), SetColorPayload::new(Hsbk::new(0, 0, 3000, 9000), 0));
}

#[test]
fn temperature_and_brightness_in_one_request() {
    let mut client = Client::with_source(1);
    let step = client.transition_temperature_brightness(
        &device(),
        3500,
        Brightness::from_ratio(1, 4),
        -5,
    );
    expect_get(&step);
    let step = client.resume(received(state(0)));
    assert_eq!(set_color_of(&step), SetColorPayload::new(Hsbk::new(0, 0, 16383, 3500), 0));
    expect_done(client.resume(received(state(0))));
    let step = client.set_temperature_brightness(&device(), 3500, Brightness::Dark);
    expect_get(&step);
    let step = client.resume(received(state(9)));
    assert_eq!(set_color_of(&step), SetColorPayload::new(Hsbk::new(0, 0, 0, 3500), 0));
}

#[test]
fn get_color_keeps_the_kelvin_of_the_light() {
    let mut client = Client::with_source(1);
    let step = client.get_color(&device());
    expect_get(&step);
    match client.resume(received(state(0))) {
        Step::Done(Outcome::Color(color)) => {
            assert_eq!(
                color,
                Color { hue: 1000, saturation: 2000, brightness: 3000, kelvin: Some(4000) }
            );
        }
        other => panic!("unexpected {:?}", other),
    }
}

#[test]
fn switching_on_and_off() {
    let mut client = Client::with_source(1);
    let step = client.transition_on(&device(), 1500);
    assert_eq!(set_power_of(&step), SetPowerPayload::new(Power::On(0xffff), 1500));
    expect_done(client.resume(Event::Sent));
    let step = client.transition_off(&device(), 2500);
    assert_eq!(set_power_of(&step), SetPowerPayload::new(Power::Off, 2500));
    expect_done(client.resume(Event::Sent));
    let step = client.turn_off(&device());
    assert_eq!(set_power_of(&step), SetPowerPayload::new(Power::Off, 0));
    expect_failed(client.resume(Event::Failed), Error::Io);
    assert!(client.is_idle());
}

#[test]
fn events_out_of_turn() {
    let mut client = Client::with_source(1);
    expect_failed(client.resume(Event::Sent), Error::NotWaiting);
    expect_failed(client.resume(received(state(0))), Error::NotWaiting);
    client.turn_on(&device());
    expect_failed(client.resume(received(state(0))), Error::NotWaiting);
    assert!(client.is_idle());
    client.get_color(&device());
    expect_failed(client.resume(Event::Sent), Error::NotWaiting);
    client.get_color(&device());
    expect_failed(client.resume(Event::TimedOut), Error::Io);
    client.get_color(&device());
    let label = reply(Message::StateLabel(StateLabelPayload { label: padded("x") }), MAC);
    expect_failed(client.resume(received(label)), Error::UnexpectedResponse);
    let step = client.turn_on(&device());
    assert_eq!(request(&step).frame_address.sequence, 4);
}

#[test]
fn sequence_hands_out_the_number_before_the_step() {
    for start in [0u8, 1, 200, 255] {
        let mut client = Client::with_source(1);
        for _ in 0..start {
            client.sequence();
        }
        for k in 0..256u32 {
            assert_eq!(client.sequence(), start.wrapping_add(k as u8));
        }
        assert_eq!(client.sequence(), start);
    }
}
