//! The exchanges that read and change what a light shows.

use crate::device::{read_message, spec_query, spec_read_message, DeviceAddress};
use crate::error::Error;
use crate::protocol::header::{LightMessageType, MessageType};
use crate::protocol::message::{
    decoded, Hsbk, LightState, Message, MessageView, Power, SetColorPayload, SetPowerPayload,
    StatePayload,
};
use crate::protocol::packet::{Packet, PacketBuilder, PacketBuilderView, PacketView};
use vstd::prelude::*;

verus! {

/// The builder of a message to one device: the target is set, so the packet is not
/// tagged.
pub open spec fn spec_to_device(message: MessageView, device: DeviceAddress) -> PacketBuilderView {
    PacketBuilderView {
        target: device.mac_address,
        tagged: false,
        ..PacketBuilderView::spec_new(message)
    }
}

/// The request for the state of a light, with a response required.
pub open spec fn spec_get_state(device: DeviceAddress, source: u32, sequence: u8) -> PacketView {
    spec_query(
        spec_to_device(MessageView::Empty(MessageType::Light(LightMessageType::Get)), device),
        source,
        sequence,
    )
}

/// The request to switch a light, to which no response is asked.
pub open spec fn spec_set_power(
    device: DeviceAddress,
    source: u32,
    sequence: u8,
    power: Power,
    duration: u32,
) -> PacketView {
    (PacketBuilderView {
        source,
        sequence,
        ..spec_to_device(MessageView::SetPower(SetPowerPayload { power, duration }), device)
    }).spec_build()
}

/// The request to show a colour, with a response required.
pub open spec fn spec_set_color(
    device: DeviceAddress,
    source: u32,
    sequence: u8,
    color: Hsbk,
    duration: u32,
) -> PacketView {
    spec_query(
        spec_to_device(MessageView::SetColor(SetColorPayload { color, duration }), device),
        source,
        sequence,
    )
}

/// What a datagram means as an answer to a request for the state of a light: the
/// payload of a State message.
pub open spec fn spec_read_state(datagram: Seq<u8>) -> Result<LightState, Error> {
    match spec_read_message(datagram) {
        Err(error) => Err(error),
        Ok(packet) => match packet.message {
            MessageView::State(payload) => Ok(payload),
            _ => Err(Error::UnexpectedResponse),
        },
    }
}

/// What a datagram means as an answer whose contents do not matter: it has to be a
/// packet, of whatever kind.
pub open spec fn spec_read_reply(datagram: Seq<u8>) -> Result<(), Error> {
    match spec_read_message(datagram) {
        Err(error) => Err(error),
        Ok(_) => Ok(()),
    }
}

/// The request for the state of a light.
pub fn get_state(device: &DeviceAddress, source: u32, sequence: u8) -> (packet: Packet)
    ensures
        packet@ == spec_get_state(*device, source, sequence),
        packet@.wf(),
{
    PacketBuilder::with_empty_light_message(LightMessageType::Get).target(
        device.mac_address(),
    ).source(source).sequence(sequence).res_required(true).build()
}

/// Reads the answer to a request for the state of a light.
pub fn read_state(datagram: &[u8]) -> (state: Result<StatePayload, Error>)
    ensures
        decoded(state) == spec_read_state(datagram@),
{
    let packet = match read_message(datagram) {
        Ok(packet) => packet,
        Err(error) => {
            return Err(error);
        },
    };
    match packet.message {
        Message::State(payload) => Ok(payload),
        _ => Err(Error::UnexpectedResponse),
    }
}

/// The request to switch a light on or off over `duration` milliseconds.
pub fn set_power(
    device: &DeviceAddress,
    source: u32,
    sequence: u8,
    power: Power,
    duration: u32,
) -> (packet: Packet)
    ensures
        packet@ == spec_set_power(*device, source, sequence, power, duration),
        power.wf() ==> packet@.wf(),
{
    let message = Message::SetPower(SetPowerPayload::new(power, duration));
    assert(message@.spec_bytes().len() == 6);
    PacketBuilder::new(message).target(device.mac_address()).source(source).sequence(
        sequence,
    ).build()
}

/// The request to show a colour after a transition of `duration` milliseconds.
pub fn set_color(
    device: &DeviceAddress,
    source: u32,
    sequence: u8,
    color: Hsbk,
    duration: u32,
) -> (packet: Packet)
    ensures
        packet@ == spec_set_color(*device, source, sequence, color, duration),
        packet@.wf(),
{
    let message = Message::SetColor(SetColorPayload::new(color, duration));
    assert(message@.spec_bytes().len() == 13);
    PacketBuilder::new(message).target(device.mac_address()).source(source).sequence(
        sequence,
    ).res_required(true).build()
}

/// Reads an answer whose contents do not matter.
pub fn read_reply(datagram: &[u8]) -> (reply: Result<(), Error>)
    ensures
        reply == spec_read_reply(datagram@),
{
    match read_message(datagram) {
        Ok(_) => Ok(()),
        Err(error) => Err(error),
    }
}

} // verus!
