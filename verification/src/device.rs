//! Devices and where to reach them, and the exchanges that find them.

use crate::error::{Error, ParseError};
use crate::protocol::header::{
    lemma_mac_text, lemma_mac_text_round_trip, DeviceMessageType, MacAddress, MessageType,
};
use crate::protocol::message::{
    decoded, Labelled, Message, MessageView, StateGroupPayload, StateLabelPayload,
    StateLocationPayload,
};
use crate::protocol::packet::{Packet, PacketBuilder, PacketBuilderView, PacketView};
use crate::text::{
    ascii_chars, ascii_string, find, first_index_of, free_of, is_ascii_bytes, is_decimal,
    lemma_decimal_round_trip, lemma_first_index_is, lemma_split_more, lemma_split_one,
    parse_number, put_decimal, spec_decimal, spec_number, split, split_ranges,
};
use vstd::prelude::*;
use vstd::string::StringSliceAdditionalSpecFns;
use vstd::utf8::encode_utf8;

verus! {

/// The UDP port on which devices listen for broadcasts.
pub const BROADCAST_PORT: u16 = 56700;

/// An IPv4 address with a UDP port.
#[derive(Debug, Copy, Clone, PartialEq, Eq, Hash)]
pub struct SocketEndpoint {
    pub ip: [u8; 4],
    pub port: u16,
}

impl SocketEndpoint {
    /// What a group of an IPv4 address means as a byte: one to three decimal digits
    /// that write a number below 256, without a zero before another digit.
    pub open spec fn spec_octet(group: Seq<u8>) -> Option<u8> {
        if group.len() > 3 || (group.len() > 1 && group[0] == 48) {
            None
        } else {
            match spec_number(group, 255) {
                Some(value) => Some(value as u8),
                None => None,
            }
        }
    }

    /// The endpoint as text, such as `192.0.2.5:56700`.
    pub open spec fn spec_text(self) -> Seq<u8> {
        spec_decimal(self.ip[0] as nat) + seq![46u8] + spec_decimal(self.ip[1] as nat) + seq![46u8]
            + spec_decimal(self.ip[2] as nat) + seq![46u8] + spec_decimal(self.ip[3] as nat)
            + seq![58u8] + spec_decimal(self.port as nat)
    }

    /// What a text means as an endpoint: up to its first colon four groups between
    /// dots, each a byte in decimal digits, and after that colon decimal digits that
    /// write a port.
    pub open spec fn spec_parse(text: Seq<u8>) -> Option<SocketEndpoint> {
        let colon = first_index_of(text, 58) as int;
        let groups = split(text.subrange(0, colon), 46);
        let port = spec_number(text.subrange(colon + 1, text.len() as int), 0xffff);
        if colon < text.len() && groups.len() == 4 && SocketEndpoint::spec_octet(groups[0]) is Some
            && SocketEndpoint::spec_octet(groups[1]) is Some && SocketEndpoint::spec_octet(
            groups[2],
        ) is Some && SocketEndpoint::spec_octet(groups[3]) is Some && port is Some {
            Some(
                SocketEndpoint {
                    ip: [
                        SocketEndpoint::spec_octet(groups[0])->0,
                        SocketEndpoint::spec_octet(groups[1])->0,
                        SocketEndpoint::spec_octet(groups[2])->0,
                        SocketEndpoint::spec_octet(groups[3])->0,
                    ],
                    port: port->0 as u16,
                },
            )
        } else {
            None
        }
    }

    /// The endpoint with another port.
    pub open spec fn spec_with_port(self, port: u16) -> SocketEndpoint {
        SocketEndpoint { ip: self.ip, port }
    }

    /// The endpoint that every device on the local network hears.
    pub open spec fn spec_broadcast() -> SocketEndpoint {
        SocketEndpoint { ip: [255u8, 255u8, 255u8, 255u8], port: BROADCAST_PORT }
    }

    pub fn broadcast() -> (endpoint: SocketEndpoint)
        ensures
            endpoint == SocketEndpoint::spec_broadcast(),
    {
        SocketEndpoint { ip: [255u8, 255u8, 255u8, 255u8], port: BROADCAST_PORT }
    }

    pub fn with_port(&self, port: u16) -> (endpoint: SocketEndpoint)
        ensures
            endpoint == self.spec_with_port(port),
    {
        SocketEndpoint { ip: self.ip, port }
    }

    /// Whether two endpoints are the same address and port.
    pub fn same(&self, other: &SocketEndpoint) -> (same: bool)
        ensures
            same == (*self == *other),
    {
        let same = self.ip[0] == other.ip[0] && self.ip[1] == other.ip[1] && self.ip[2]
            == other.ip[2] && self.ip[3] == other.ip[3];
        assert(same == (self.ip =~= other.ip));
        same && self.port == other.port
    }

    /// The endpoint as text.
    pub fn to_string(&self) -> (text: String)
        ensures
            encode_utf8(text@) == self.spec_text(),
            text@ == ascii_chars(self.spec_text()),
    {
        let mut bytes: Vec<u8> = Vec::new();
        put_decimal(&mut bytes, self.ip[0] as u16);
        bytes.push(46);
        put_decimal(&mut bytes, self.ip[1] as u16);
        bytes.push(46);
        put_decimal(&mut bytes, self.ip[2] as u16);
        bytes.push(46);
        put_decimal(&mut bytes, self.ip[3] as u16);
        bytes.push(58);
        put_decimal(&mut bytes, self.port);
        proof {
            assert(bytes@ =~= self.spec_text());
            lemma_endpoint_text(*self);
        }
        ascii_string(bytes)
    }

    /// Reads one group of an IPv4 address from `bytes[from..to]`.
    fn parse_octet(bytes: &[u8], from: usize, to: usize) -> (octet: Option<u8>)
        requires
            from <= to <= bytes@.len(),
        ensures
            octet == SocketEndpoint::spec_octet(bytes@.subrange(from as int, to as int)),
    {
        let ghost group = bytes@.subrange(from as int, to as int);
        if to - from > 3 {
            return None;
        }
        if to - from > 1 && bytes[from] == 48 {
            assert(group[0] == 48);
            return None;
        }
        assert(to - from > 1 ==> group[0] != 48);
        match parse_number(bytes, from, to, 255) {
            Some(value) => Some(value as u8),
            None => None,
        }
    }

    /// Reads an endpoint from the text in `bytes[from..to]`.
    pub fn parse(bytes: &[u8], from: usize, to: usize) -> (endpoint: Option<SocketEndpoint>)
        requires
            from <= to <= bytes@.len(),
        ensures
            endpoint == SocketEndpoint::spec_parse(bytes@.subrange(from as int, to as int)),
    {
        let ghost text = bytes@.subrange(from as int, to as int);
        let colon = find(bytes, from, to, 58);
        if colon >= to {
            return None;
        }
        let ranges = split_ranges(bytes, from, colon, 46);
        let ghost groups = split(text.subrange(0, colon - from), 46);
        proof {
            assert(text.subrange(0, colon - from) =~= bytes@.subrange(from as int, colon as int));
            assert(text.subrange(colon - from + 1, text.len() as int) =~= bytes@.subrange(
                colon + 1,
                to as int,
            ));
        }
        if ranges.len() != 4 {
            return None;
        }
        assert(groups[0] == bytes@.subrange(ranges@[0].0 as int, ranges@[0].1 as int));
        assert(groups[1] == bytes@.subrange(ranges@[1].0 as int, ranges@[1].1 as int));
        assert(groups[2] == bytes@.subrange(ranges@[2].0 as int, ranges@[2].1 as int));
        assert(groups[3] == bytes@.subrange(ranges@[3].0 as int, ranges@[3].1 as int));
        let a = match SocketEndpoint::parse_octet(bytes, ranges[0].0, ranges[0].1) {
            Some(octet) => octet,
            None => {
                return None;
            },
        };
        let b = match SocketEndpoint::parse_octet(bytes, ranges[1].0, ranges[1].1) {
            Some(octet) => octet,
            None => {
                return None;
            },
        };
        let c = match SocketEndpoint::parse_octet(bytes, ranges[2].0, ranges[2].1) {
            Some(octet) => octet,
            None => {
                return None;
            },
        };
        let d = match SocketEndpoint::parse_octet(bytes, ranges[3].0, ranges[3].1) {
            Some(octet) => octet,
            None => {
                return None;
            },
        };
        let port = match parse_number(bytes, colon + 1, to, 0xffff) {
            Some(port) => port as u16,
            None => {
                return None;
            },
        };
        let endpoint = SocketEndpoint { ip: [a, b, c, d], port };
        proof {
            let expected = SocketEndpoint::spec_parse(text)->0;
            assert(endpoint.ip =~= expected.ip);
        }
        Some(endpoint)
    }

    /// Reads an endpoint from text.
    pub fn from_str(s: &str) -> (endpoint: Result<SocketEndpoint, ParseError>)
        ensures
            endpoint is Ok <==> SocketEndpoint::spec_parse(s.spec_bytes()) is Some,
            endpoint is Ok ==> Some(endpoint->Ok_0) == SocketEndpoint::spec_parse(s.spec_bytes()),
            endpoint is Err ==> endpoint->Err_0 == ParseError::SocketAddress,
    {
        let bytes = s.as_bytes();
        assert(bytes@.subrange(0, bytes@.len() as int) =~= bytes@);
        match SocketEndpoint::parse(bytes, 0, bytes.len()) {
            Some(endpoint) => Ok(endpoint),
            None => Err(ParseError::SocketAddress),
        }
    }
}

/// The text of an endpoint is made of decimal digits, dots and one colon.
pub proof fn lemma_endpoint_text(endpoint: SocketEndpoint)
    ensures
        is_ascii_bytes(endpoint.spec_text()),
        free_of(endpoint.spec_text(), 35),
{
    let text = endpoint.spec_text();
    let a = spec_decimal(endpoint.ip[0] as nat);
    let b = spec_decimal(endpoint.ip[1] as nat);
    let c = spec_decimal(endpoint.ip[2] as nat);
    let d = spec_decimal(endpoint.ip[3] as nat);
    let p = spec_decimal(endpoint.port as nat);
    lemma_decimal_round_trip(endpoint.ip[0] as nat);
    lemma_decimal_round_trip(endpoint.ip[1] as nat);
    lemma_decimal_round_trip(endpoint.ip[2] as nat);
    lemma_decimal_round_trip(endpoint.ip[3] as nat);
    lemma_decimal_round_trip(endpoint.port as nat);
    assert forall|i: int| 0 <= i < text.len() implies (#[trigger] text[i]) < 128 && text[i]
        != 35 by {
        let la = a.len() as int;
        let lb = la + 1 + b.len();
        let lc = lb + 1 + c.len();
        let ld = lc + 1 + d.len();
        if i < la {
            assert(text[i] == a[i]);
        } else if i == la {
        } else if i < lb {
            assert(text[i] == b[i - la - 1]);
        } else if i == lb {
        } else if i < lc {
            assert(text[i] == c[i - lb - 1]);
        } else if i == lc {
        } else if i < ld {
            assert(text[i] == d[i - lc - 1]);
        } else if i == ld {
        } else {
            assert(text[i] == p[i - ld - 1]);
        }
    }
}

/// Decimal digits hold no byte that is not a decimal digit.
pub proof fn lemma_decimal_free_of(text: Seq<u8>, separator: u8)
    requires
        is_decimal(text),
        separator < 48 || separator > 57,
    ensures
        free_of(text, separator),
{
    assert forall|i: int| 0 <= i < text.len() implies #[trigger] text[i] != separator by {
        assert(48 <= text[i] <= 57);
    }
}

/// The digits of a byte are read back as the byte.
pub proof fn lemma_octet_round_trip(octet: u8)
    ensures
        SocketEndpoint::spec_octet(spec_decimal(octet as nat)) == Some(octet),
{
    lemma_decimal_round_trip(octet as nat);
}

/// The text of an endpoint is read back as the endpoint.
pub proof fn lemma_endpoint_text_round_trip(endpoint: SocketEndpoint)
    ensures
        SocketEndpoint::spec_parse(endpoint.spec_text()) == Some(endpoint),
{
    let text = endpoint.spec_text();
    let a = spec_decimal(endpoint.ip[0] as nat);
    let b = spec_decimal(endpoint.ip[1] as nat);
    let c = spec_decimal(endpoint.ip[2] as nat);
    let d = spec_decimal(endpoint.ip[3] as nat);
    let p = spec_decimal(endpoint.port as nat);
    lemma_decimal_round_trip(endpoint.ip[0] as nat);
    lemma_decimal_round_trip(endpoint.ip[1] as nat);
    lemma_decimal_round_trip(endpoint.ip[2] as nat);
    lemma_decimal_round_trip(endpoint.ip[3] as nat);
    lemma_decimal_round_trip(endpoint.port as nat);
    lemma_octet_round_trip(endpoint.ip[0]);
    lemma_octet_round_trip(endpoint.ip[1]);
    lemma_octet_round_trip(endpoint.ip[2]);
    lemma_octet_round_trip(endpoint.ip[3]);
    lemma_decimal_free_of(a, 46);
    lemma_decimal_free_of(b, 46);
    lemma_decimal_free_of(c, 46);
    lemma_decimal_free_of(d, 46);
    lemma_decimal_free_of(a, 58);
    lemma_decimal_free_of(b, 58);
    lemma_decimal_free_of(c, 58);
    lemma_decimal_free_of(d, 58);
    let r3 = d;
    let r2 = c + seq![46u8] + r3;
    let r1 = b + seq![46u8] + r2;
    let address = a + seq![46u8] + r1;
    assert(text =~= address + seq![58u8] + p);
    assert(free_of(address, 58)) by {
        assert forall|i: int| 0 <= i < address.len() implies #[trigger] address[i] != 58 by {
            let la = a.len() as int;
            let lb = la + 1 + b.len();
            let lc = lb + 1 + c.len();
            if i < la {
                assert(address[i] == a[i]);
            } else if i == la {
            } else if i < lb {
                assert(address[i] == b[i - la - 1]);
            } else if i == lb {
            } else if i < lc {
                assert(address[i] == c[i - lb - 1]);
            } else if i == lc {
            } else {
                assert(address[i] == d[i - lc - 1]);
            }
        }
    }
    let colon = address.len() as int;
    assert(text.subrange(0, colon) =~= address);
    lemma_first_index_is(text, 58, colon);
    assert(text.subrange(colon + 1, text.len() as int) =~= p);
    lemma_split_one(r3, 46);
    lemma_split_more(c, 46, r3);
    lemma_split_more(b, 46, r2);
    lemma_split_more(a, 46, r1);
    let groups = split(address, 46);
    assert(groups =~= seq![a, b, c, d]);
    let parsed = SocketEndpoint::spec_parse(text);
    assert(parsed is Some);
    assert(parsed->0.ip =~= endpoint.ip);
}

/// A device's hardware address and the endpoint at which it answers.
#[derive(Debug, Copy, Clone, PartialEq, Eq, Hash)]
pub struct DeviceAddress {
    pub mac_address: MacAddress,
    pub socket_address: SocketEndpoint,
}

impl DeviceAddress {
    /// The address as text: the hardware address, `#`, the endpoint.
    pub open spec fn spec_text(self) -> Seq<u8> {
        self.mac_address.spec_text() + seq![35u8] + self.socket_address.spec_text()
    }

    /// What a text means as the address of a device. The text before the first `#` is
    /// the hardware address and the text after it, up to a second `#` or the end, the
    /// endpoint. A text without `#` has not the format; then a part that is no address
    /// is reported, the hardware address first; a second `#` is against the format too.
    pub open spec fn spec_parse(text: Seq<u8>) -> Result<DeviceAddress, ParseError> {
        let first = first_index_of(text, 35) as int;
        let rest = text.subrange(first + 1, text.len() as int);
        let second = first_index_of(rest, 35) as int;
        let mac_address = MacAddress::spec_parse(text.subrange(0, first));
        let socket_address = SocketEndpoint::spec_parse(rest.subrange(0, second));
        if first >= text.len() {
            Err(ParseError::Format)
        } else if mac_address is None {
            Err(ParseError::MacAddress)
        } else if socket_address is None {
            Err(ParseError::SocketAddress)
        } else if second < rest.len() {
            Err(ParseError::Format)
        } else {
            Ok(DeviceAddress { mac_address: mac_address->0, socket_address: socket_address->0 })
        }
    }

    pub fn mac_address(&self) -> (mac_address: MacAddress)
        ensures
            mac_address == self.mac_address,
    {
        self.mac_address
    }

    pub fn socket_address(&self) -> (socket_address: SocketEndpoint)
        ensures
            socket_address == self.socket_address,
    {
        self.socket_address
    }

    /// Whether two addresses are the same hardware address and endpoint.
    pub fn same(&self, other: &DeviceAddress) -> (same: bool)
        ensures
            same == (*self == *other),
    {
        self.mac_address.same(&other.mac_address) && self.socket_address.same(
            &other.socket_address,
        )
    }

    /// The address as text, such as `d0:73:d5:01:02:03#192.0.2.5:56700`.
    pub fn to_string(&self) -> (text: String)
        ensures
            encode_utf8(text@) == self.spec_text(),
            text@ == ascii_chars(self.spec_text()),
    {
        let mac = self.mac_address.to_string();
        let socket = self.socket_address.to_string();
        let mut bytes: Vec<u8> = Vec::new();
        crate::wire::put_bytes(&mut bytes, mac.as_str().as_bytes());
        bytes.push(35);
        crate::wire::put_bytes(&mut bytes, socket.as_str().as_bytes());
        proof {
            assert(bytes@ =~= self.spec_text());
            lemma_device_address_text(*self);
        }
        ascii_string(bytes)
    }

    /// Reads the address of a device from text.
    pub fn from_str(s: &str) -> (address: Result<DeviceAddress, ParseError>)
        ensures
            address == DeviceAddress::spec_parse(s.spec_bytes()),
    {
        let bytes = s.as_bytes();
        let ghost text = bytes@;
        let len = bytes.len();
        assert(text.subrange(0, len as int) =~= text);
        let first = find(bytes, 0, len, 35);
        if first >= len {
            return Err(ParseError::Format);
        }
        let second = find(bytes, first + 1, len, 35);
        proof {
            let rest = text.subrange(first + 1, len as int);
            assert(rest.subrange(0, second - first - 1) =~= text.subrange(
                first + 1,
                second as int,
            ));
        }
        let mac_address = match MacAddress::parse(bytes, 0, first) {
            Some(mac_address) => mac_address,
            None => {
                return Err(ParseError::MacAddress);
            },
        };
        let socket_address = match SocketEndpoint::parse(bytes, first + 1, second) {
            Some(socket_address) => socket_address,
            None => {
                return Err(ParseError::SocketAddress);
            },
        };
        if second < len {
            return Err(ParseError::Format);
        }
        Ok(DeviceAddress { mac_address, socket_address })
    }
}

/// The text of a device's address is ASCII.
pub proof fn lemma_device_address_text(address: DeviceAddress)
    ensures
        is_ascii_bytes(address.spec_text()),
{
    let text = address.spec_text();
    let mac = address.mac_address.spec_text();
    let socket = address.socket_address.spec_text();
    lemma_mac_text(address.mac_address);
    lemma_endpoint_text(address.socket_address);
    assert forall|i: int| 0 <= i < text.len() implies (#[trigger] text[i]) < 128 by {
        if i < 17 {
            assert(text[i] == mac[i]);
        } else if i > 17 {
            assert(text[i] == socket[i - 18]);
        }
    }
}

/// The text of a device's address is read back as the address.
pub proof fn lemma_device_address_round_trip(address: DeviceAddress)
    ensures
        DeviceAddress::spec_parse(address.spec_text()) == Ok::<DeviceAddress, ParseError>(address),
{
    let text = address.spec_text();
    let mac = address.mac_address.spec_text();
    let socket = address.socket_address.spec_text();
    lemma_mac_text(address.mac_address);
    lemma_mac_text_round_trip(address.mac_address);
    lemma_endpoint_text(address.socket_address);
    lemma_endpoint_text_round_trip(address.socket_address);
    assert(text.subrange(0, 17) =~= mac);
    lemma_first_index_is(text, 35, 17);
    let rest = text.subrange(18, text.len() as int);
    assert(rest =~= socket);
    assert(rest.subrange(0, rest.len() as int) =~= rest);
    lemma_first_index_is(rest, 35, rest.len() as int);
}

/// A device: where to reach it and what it calls itself.
#[derive(Debug, PartialEq, Eq, Hash)]
pub struct Device {
    pub address: DeviceAddress,
    pub label: String,
    pub group: String,
    pub location: String,
}

/// A device as a value of the model.
pub ghost struct DeviceView {
    pub address: DeviceAddress,
    pub label: Seq<char>,
    pub group: Seq<char>,
    pub location: Seq<char>,
}

impl View for Device {
    type V = DeviceView;

    open spec fn view(&self) -> DeviceView {
        DeviceView {
            address: self.address,
            label: self.label@,
            group: self.group@,
            location: self.location@,
        }
    }
}

impl Clone for Device {
    fn clone(&self) -> (copy: Device)
        ensures
            copy@ == self@,
    {
        Device {
            address: self.address,
            label: self.label.clone(),
            group: self.group.clone(),
            location: self.location.clone(),
        }
    }
}

impl Device {
    pub fn new(address: DeviceAddress, label: String, group: String, location: String) -> (device:
        Device)
        ensures
            device@ == (DeviceView { address, label: label@, group: group@, location: location@ }),
    {
        Device { address, label, group, location }
    }

    pub fn label(&self) -> (label: &String)
        ensures
            label@ == self@.label,
    {
        &self.label
    }

    pub fn group(&self) -> (group: &String)
        ensures
            group@ == self@.group,
    {
        &self.group
    }

    pub fn location(&self) -> (location: &String)
        ensures
            location@ == self@.location,
    {
        &self.location
    }

    pub fn address(&self) -> (address: DeviceAddress)
        ensures
            address == self@.address,
    {
        self.address
    }

    pub fn mac_address(&self) -> (mac_address: MacAddress)
        ensures
            mac_address == self@.address.mac_address,
    {
        self.address.mac_address
    }

    pub fn socket_address(&self) -> (socket_address: SocketEndpoint)
        ensures
            socket_address == self@.address.socket_address,
    {
        self.address.socket_address
    }

    /// Whether two devices have the same address and the same three names.
    pub fn same(&self, other: &Device) -> (same: bool)
        ensures
            same == (self@ == other@),
    {
        self.address.same(&other.address) && self.label == other.label && self.group
            == other.group && self.location == other.location
    }
}

/// The request that `builder` stands for when it asks for a response from `source`
/// under `sequence`.
pub open spec fn spec_query(builder: PacketBuilderView, source: u32, sequence: u8) -> PacketView {
    (PacketBuilderView { source, sequence, res_required: true, ..builder }).spec_build()
}

/// The request for a message of the given kind to one device.
pub open spec fn spec_query_device(
    message_type: MessageType,
    target: MacAddress,
    source: u32,
    sequence: u8,
) -> PacketView {
    spec_query(
        PacketBuilderView {
            target,
            tagged: false,
            ..PacketBuilderView::spec_new(MessageView::Empty(message_type))
        },
        source,
        sequence,
    )
}

/// The broadcast that asks every device for its service: tagged, to no target, with a
/// response required.
pub open spec fn spec_get_device_address(source: u32, sequence: u8) -> PacketView {
    spec_query(
        PacketBuilderView::spec_new(
            MessageView::Empty(MessageType::Device(DeviceMessageType::GetService)),
        ),
        source,
        sequence,
    )
}

/// What a datagram means as an answer: the message of the packet it holds.
pub open spec fn spec_read_message(datagram: Seq<u8>) -> Result<PacketView, Error> {
    match PacketView::spec_from(datagram) {
        Ok(packet) => Ok(packet),
        Err(error) => Err(Error::Decode(error)),
    }
}

/// What a datagram from `from` means as an answer to the broadcast: a StateService
/// message tells the address of its sender, whose endpoint is `from` with the port
/// that the message names; any other message is unexpected.
pub open spec fn spec_read_device_address(datagram: Seq<u8>, from: SocketEndpoint) -> Result<
    DeviceAddress,
    Error,
> {
    match spec_read_message(datagram) {
        Err(error) => Err(error),
        Ok(packet) => match packet.message {
            MessageView::StateService(payload) => Ok(
                DeviceAddress {
                    mac_address: packet.frame_address.target,
                    socket_address: from.spec_with_port(payload.port),
                },
            ),
            _ => Err(Error::UnexpectedResponse),
        },
    }
}

/// What a datagram means as an answer to GetLabel: the label of a StateLabel message.
pub open spec fn spec_read_label(datagram: Seq<u8>) -> Result<Seq<char>, Error> {
    match spec_read_message(datagram) {
        Err(error) => Err(error),
        Ok(packet) => match packet.message {
            MessageView::StateLabel(label) => Ok(label),
            _ => Err(Error::UnexpectedResponse),
        },
    }
}

/// What a datagram means as an answer to GetGroup: the payload of a StateGroup
/// message.
pub open spec fn spec_read_group(datagram: Seq<u8>) -> Result<Labelled, Error> {
    match spec_read_message(datagram) {
        Err(error) => Err(error),
        Ok(packet) => match packet.message {
            MessageView::StateGroup(payload) => Ok(payload),
            _ => Err(Error::UnexpectedResponse),
        },
    }
}

/// What a datagram means as an answer to GetLocation: the payload of a StateLocation
/// message.
pub open spec fn spec_read_location(datagram: Seq<u8>) -> Result<Labelled, Error> {
    match spec_read_message(datagram) {
        Err(error) => Err(error),
        Ok(packet) => match packet.message {
            MessageView::StateLocation(payload) => Ok(payload),
            _ => Err(Error::UnexpectedResponse),
        },
    }
}

/// Reads the packet that a datagram holds.
pub fn read_message(datagram: &[u8]) -> (packet: Result<Packet, Error>)
    ensures
        decoded(packet) == spec_read_message(datagram@),
{
    match Packet::from(datagram) {
        Ok(packet) => Ok(packet),
        Err(error) => Err(Error::Decode(error)),
    }
}

/// The broadcast that asks every device on the network for its service.
pub fn get_device_address(source: u32, sequence: u8) -> (packet: Packet)
    ensures
        packet@ == spec_get_device_address(source, sequence),
        packet@.wf(),
{
    PacketBuilder::with_empty_device_message(DeviceMessageType::GetService).source(
        source,
    ).sequence(sequence).res_required(true).build()
}

/// Reads one answer to the broadcast, which came from `from`.
pub fn read_device_address(datagram: &[u8], from: SocketEndpoint) -> (address: Result<
    DeviceAddress,
    Error,
>)
    ensures
        address == spec_read_device_address(datagram@, from),
{
    let packet = match read_message(datagram) {
        Ok(packet) => packet,
        Err(error) => {
            return Err(error);
        },
    };
    match packet.message {
        Message::StateService(payload) => Ok(
            DeviceAddress {
                mac_address: packet.frame_address.target,
                socket_address: from.with_port(payload.port()),
            },
        ),
        _ => Err(Error::UnexpectedResponse),
    }
}

/// The request for the label of one device.
pub fn get_label(device_address: &DeviceAddress, source: u32, sequence: u8) -> (packet: Packet)
    ensures
        packet@ == spec_query_device(
            MessageType::Device(DeviceMessageType::GetLabel),
            device_address.mac_address,
            source,
            sequence,
        ),
        packet@.wf(),
{
    PacketBuilder::with_empty_device_message(DeviceMessageType::GetLabel).source(source).sequence(
        sequence,
    ).res_required(true).target(device_address.mac_address()).build()
}

/// Reads the answer to a request for a label.
pub fn read_label(datagram: &[u8]) -> (label: Result<StateLabelPayload, Error>)
    ensures
        decoded(label) == spec_read_label(datagram@),
{
    let packet = match read_message(datagram) {
        Ok(packet) => packet,
        Err(error) => {
            return Err(error);
        },
    };
    match packet.message {
        Message::StateLabel(payload) => Ok(payload),
        _ => Err(Error::UnexpectedResponse),
    }
}

/// The request for the location of one device.
pub fn get_location(device_address: &DeviceAddress, source: u32, sequence: u8) -> (packet: Packet)
    ensures
        packet@ == spec_query_device(
            MessageType::Device(DeviceMessageType::GetLocation),
            device_address.mac_address,
            source,
            sequence,
        ),
        packet@.wf(),
{
    PacketBuilder::with_empty_device_message(DeviceMessageType::GetLocation).source(
        source,
    ).sequence(sequence).res_required(true).target(device_address.mac_address()).build()
}

/// Reads the answer to a request for a location.
pub fn read_location(datagram: &[u8]) -> (location: Result<StateLocationPayload, Error>)
    ensures
        decoded(location) == spec_read_location(datagram@),
{
    let packet = match read_message(datagram) {
        Ok(packet) => packet,
        Err(error) => {
            return Err(error);
        },
    };
    match packet.message {
        Message::StateLocation(payload) => Ok(payload),
        _ => Err(Error::UnexpectedResponse),
    }
}

/// The request for the group of one device.
pub fn get_group(device_address: &DeviceAddress, source: u32, sequence: u8) -> (packet: Packet)
    ensures
        packet@ == spec_query_device(
            MessageType::Device(DeviceMessageType::GetGroup),
            device_address.mac_address,
            source,
            sequence,
        ),
        packet@.wf(),
{
    PacketBuilder::with_empty_device_message(DeviceMessageType::GetGroup).res_required(
        true,
    ).source(source).sequence(sequence).target(device_address.mac_address()).build()
}

/// Reads the answer to a request for a group.
pub fn read_group(datagram: &[u8]) -> (group: Result<StateGroupPayload, Error>)
    ensures
        decoded(group) == spec_read_group(datagram@),
{
    let packet = match read_message(datagram) {
        Ok(packet) => packet,
        Err(error) => {
            return Err(error);
        },
    };
    match packet.message {
        Message::StateGroup(payload) => Ok(payload),
        _ => Err(Error::UnexpectedResponse),
    }
}

} // verus!
