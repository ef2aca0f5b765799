//! The three fixed sections of the packet header, and the numbering of message types.

use crate::error::{DecodeError, ParseError};
use crate::text::{
    ascii_chars, ascii_string, free_of, is_ascii_bytes, lemma_hex_round_trip, lemma_split_first,
    lemma_split_more, lemma_split_one, parse_hex_u8, pieces_of, put_hex_byte, spec_hex_byte,
    spec_hex_u8, split, split_ranges,
};
use crate::wire::{
    from_le16, from_le32, get_u16, get_u32, le16, le32, lemma_le16_round_trip,
    lemma_le32_round_trip, put_u16, put_u32, put_zeros, zeros,
};
use vstd::prelude::*;
use vstd::string::StringSliceAdditionalSpecFns;
use vstd::utf8::encode_utf8;

verus! {

/// Length of the three sections of the header together.
pub const HEADER_LEN: usize = 36;

/// The first section of a packet header.
#[derive(Debug, Copy, Clone, PartialEq, Eq, Structural)]
pub struct Frame {
    /// Length of the whole packet in bytes.
    pub size: u16,
    pub addressable: bool,
    pub tagged: bool,
    /// The client's identifier, echoed by devices.
    pub source: u32,
}

impl Frame {
    /// The protocol field: 1024 in the low twelve bits, then the addressable and the
    /// tagged bit, and an origin of zero.
    pub open spec fn protocol(self) -> u16 {
        let addressable = if self.addressable { 0x1000int } else { 0 };
        let tagged = if self.tagged { 0x2000int } else { 0 };
        (1024 + addressable + tagged) as u16
    }

    /// The eight bytes of the section.
    pub open spec fn spec_bytes(self) -> Seq<u8> {
        le16(self.size) + le16(self.protocol()) + le32(self.source)
    }

    /// What eight bytes mean as a frame, or why they mean none.
    pub open spec fn spec_from(bytes: Seq<u8>) -> Result<Frame, DecodeError> {
        let protocol = from_le16(bytes.subrange(2, 4));
        if bytes.len() != 8 {
            Err(DecodeError::Truncated)
        } else if protocol % 0x1000 != 1024 {
            Err(DecodeError::BadProtocol)
        } else if protocol / 0x4000 != 0 {
            Err(DecodeError::BadOrigin)
        } else {
            Ok(
                Frame {
                    size: from_le16(bytes.subrange(0, 2)),
                    addressable: protocol / 0x1000 % 2 == 1,
                    tagged: protocol / 0x2000 % 2 == 1,
                    source: from_le32(bytes.subrange(4, 8)),
                },
            )
        }
    }

    pub fn as_bytes(&self) -> (bytes: Vec<u8>)
        ensures
            bytes@ == self.spec_bytes(),
    {
        let mut bytes: Vec<u8> = Vec::new();
        put_u16(&mut bytes, self.size);
        let mut protocol: u16 = 1024;
        if self.addressable {
            protocol = protocol + 0x1000;
        }
        if self.tagged {
            protocol = protocol + 0x2000;
        }
        put_u16(&mut bytes, protocol);
        put_u32(&mut bytes, self.source);
        assert(bytes@ =~= self.spec_bytes());
        bytes
    }

    /// Reads a frame from exactly eight bytes.
    pub fn from(bytes: &[u8]) -> (frame: Result<Frame, DecodeError>)
        ensures
            frame == Frame::spec_from(bytes@),
    {
        if bytes.len() != 8 {
            return Err(DecodeError::Truncated);
        }
        let size: u16 = get_u16(bytes, 0);
        let protocol: u16 = get_u16(bytes, 2);
        if protocol % 0x1000 != 1024 {
            return Err(DecodeError::BadProtocol);
        }
        if protocol / 0x4000 != 0 {
            return Err(DecodeError::BadOrigin);
        }
        let source: u32 = get_u32(bytes, 4);
        Ok(
            Frame {
                size,
                addressable: protocol / 0x1000 % 2 == 1,
                tagged: protocol / 0x2000 % 2 == 1,
                source,
            },
        )
    }
}

/// A frame is read back from its bytes as it was.
pub proof fn lemma_frame_round_trip(frame: Frame)
    ensures
        frame.spec_bytes().len() == 8,
        Frame::spec_from(frame.spec_bytes()) == Ok::<Frame, DecodeError>(frame),
{
    let b = frame.spec_bytes();
    assert(b.subrange(0, 2) =~= le16(frame.size));
    assert(b.subrange(2, 4) =~= le16(frame.protocol()));
    assert(b.subrange(4, 8) =~= le32(frame.source));
    lemma_le16_round_trip(frame.size);
    lemma_le16_round_trip(frame.protocol());
    lemma_le32_round_trip(frame.source);
    let protocol = frame.protocol();
    assert(protocol == 1024 || protocol == 1024 + 0x1000 || protocol == 1024 + 0x2000 || protocol
        == 1024 + 0x3000);
}

/// In the bytes of any frame the protocol field holds 1024 in its low twelve bits and
/// zero in its two highest, and the bits between are the addressable and the tagged
/// flag.
pub proof fn lemma_frame_protocol_field(frame: Frame)
    ensures
        from_le16(frame.spec_bytes().subrange(2, 4)) % 0x1000 == 1024,
        from_le16(frame.spec_bytes().subrange(2, 4)) / 0x4000 == 0,
        (from_le16(frame.spec_bytes().subrange(2, 4)) / 0x1000 % 2 == 1) == frame.addressable,
        (from_le16(frame.spec_bytes().subrange(2, 4)) / 0x2000 % 2 == 1) == frame.tagged,
        from_le16(frame.spec_bytes().subrange(0, 2)) == frame.size,
{
    let b = frame.spec_bytes();
    assert(b.subrange(0, 2) =~= le16(frame.size));
    assert(b.subrange(2, 4) =~= le16(frame.protocol()));
    lemma_le16_round_trip(frame.size);
    lemma_le16_round_trip(frame.protocol());
    let protocol = frame.protocol();
    assert(protocol == 1024 || protocol == 1024 + 0x1000 || protocol == 1024 + 0x2000 || protocol
        == 1024 + 0x3000);
}

/// The hardware address of a device.
#[derive(Debug, Copy, Clone, PartialEq, Eq, Hash)]
pub struct MacAddress {
    pub address: [u8; 6],
}

impl MacAddress {
    /// The address that stands for every device.
    pub open spec fn spec_broadcast() -> MacAddress {
        MacAddress { address: [0u8, 0u8, 0u8, 0u8, 0u8, 0u8] }
    }

    /// The address made of the first six bytes of `bytes`.
    pub open spec fn spec_from(bytes: Seq<u8>) -> MacAddress {
        MacAddress { address: [bytes[0], bytes[1], bytes[2], bytes[3], bytes[4], bytes[5]] }
    }

    /// The six bytes of the address.
    pub open spec fn spec_bytes(self) -> Seq<u8> {
        self.address@
    }

    /// The all-zero address, which stands for every device.
    pub fn broadcast() -> (mac: MacAddress)
        ensures
            mac == MacAddress::spec_broadcast(),
    {
        MacAddress { address: [0u8, 0u8, 0u8, 0u8, 0u8, 0u8] }
    }

    pub fn as_bytes(&self) -> (bytes: Vec<u8>)
        ensures
            bytes@ == self.spec_bytes(),
    {
        let mut bytes: Vec<u8> = Vec::new();
        bytes.push(self.address[0]);
        bytes.push(self.address[1]);
        bytes.push(self.address[2]);
        bytes.push(self.address[3]);
        bytes.push(self.address[4]);
        bytes.push(self.address[5]);
        assert(bytes@ =~= self.spec_bytes());
        bytes
    }

    /// Reads an address from exactly six bytes.
    pub fn from(bytes: &[u8]) -> (mac: MacAddress)
        requires
            bytes@.len() == 6,
        ensures
            mac == MacAddress::spec_from(bytes@),
    {
        MacAddress { address: [bytes[0], bytes[1], bytes[2], bytes[3], bytes[4], bytes[5]] }
    }

    /// The address as text: six pairs of lower-case hexadecimal digits with colons
    /// between them.
    pub open spec fn spec_text(self) -> Seq<u8> {
        spec_hex_byte(self.address[0]) + seq![58u8] + spec_hex_byte(self.address[1]) + seq![58u8]
            + spec_hex_byte(self.address[2]) + seq![58u8] + spec_hex_byte(self.address[3]) + seq![
            58u8,
        ] + spec_hex_byte(self.address[4]) + seq![58u8] + spec_hex_byte(self.address[5])
    }

    /// What a text means as an address: exactly six groups between colons, each a byte
    /// in two hexadecimal digits.
    pub open spec fn spec_parse(text: Seq<u8>) -> Option<MacAddress> {
        let groups = split(text, 58);
        if groups.len() == 6 && (forall|i: int|
            0 <= i < 6 ==> spec_hex_u8(#[trigger] groups[i]) is Some) {
            Some(
                MacAddress {
                    address: [
                        spec_hex_u8(groups[0])->0,
                        spec_hex_u8(groups[1])->0,
                        spec_hex_u8(groups[2])->0,
                        spec_hex_u8(groups[3])->0,
                        spec_hex_u8(groups[4])->0,
                        spec_hex_u8(groups[5])->0,
                    ],
                },
            )
        } else {
            None
        }
    }

    /// The address as text, such as `d0:73:d5:01:02:03`.
    pub fn to_string(&self) -> (text: String)
        ensures
            encode_utf8(text@) == self.spec_text(),
            text@ == ascii_chars(self.spec_text()),
            text@.len() == 17,
    {
        let mut bytes: Vec<u8> = Vec::new();
        put_hex_byte(&mut bytes, self.address[0]);
        bytes.push(58);
        put_hex_byte(&mut bytes, self.address[1]);
        bytes.push(58);
        put_hex_byte(&mut bytes, self.address[2]);
        bytes.push(58);
        put_hex_byte(&mut bytes, self.address[3]);
        bytes.push(58);
        put_hex_byte(&mut bytes, self.address[4]);
        bytes.push(58);
        put_hex_byte(&mut bytes, self.address[5]);
        proof {
            assert(bytes@ =~= self.spec_text());
            lemma_mac_text(*self);
        }
        ascii_string(bytes)
    }

    /// Reads an address from text.
    pub fn from_str(s: &str) -> (mac: Result<MacAddress, ParseError>)
        ensures
            mac is Ok <==> MacAddress::spec_parse(s.spec_bytes()) is Some,
            mac is Ok ==> Some(mac->Ok_0) == MacAddress::spec_parse(s.spec_bytes()),
            mac is Err ==> mac->Err_0 == ParseError::MacAddress,
    {
        let bytes = s.as_bytes();
        match MacAddress::parse(bytes, 0, bytes.len()) {
            Some(mac) => {
                proof {
                    assert(bytes@.subrange(0, bytes@.len() as int) =~= bytes@);
                }
                Ok(mac)
            },
            None => {
                proof {
                    assert(bytes@.subrange(0, bytes@.len() as int) =~= bytes@);
                }
                Err(ParseError::MacAddress)
            },
        }
    }

    /// Reads an address from the text in `bytes[from..to]`.
    pub fn parse(bytes: &[u8], from: usize, to: usize) -> (mac: Option<MacAddress>)
        requires
            from <= to <= bytes@.len(),
        ensures
            mac == MacAddress::spec_parse(bytes@.subrange(from as int, to as int)),
    {
        let ranges = split_ranges(bytes, from, to, 58);
        let ghost groups = split(bytes@.subrange(from as int, to as int), 58);
        if ranges.len() != 6 {
            return None;
        }
        let mut address: [u8; 6] = [0u8, 0u8, 0u8, 0u8, 0u8, 0u8];
        let mut n: usize = 0;
        while n < ranges.len()
            invariant
                n <= ranges@.len() == 6,
                groups == pieces_of(bytes@, ranges@),
                groups == split(bytes@.subrange(from as int, to as int), 58),
                forall|i: int|
                    0 <= i < ranges@.len() ==> from <= (#[trigger] ranges@[i]).0 <= ranges@[i].1
                        <= to,
                to <= bytes@.len(),
                forall|i: int| 0 <= i < n ==> spec_hex_u8(#[trigger] groups[i]) is Some,
                forall|i: int| 0 <= i < n ==> address@[i] == spec_hex_u8(groups[i])->0,
            decreases ranges@.len() - n,
        {
            let range = ranges[n];
            assert(groups[n as int] == bytes@.subrange(range.0 as int, range.1 as int));
            match parse_hex_u8(bytes, range.0, range.1) {
                Some(byte) => {
                    address[n] = byte;
                },
                None => {
                    assert(spec_hex_u8(groups[n as int]) is None);
                    return None;
                },
            }
            n = n + 1;
        }
        let mac = MacAddress { address };
        proof {
            let expected = MacAddress::spec_parse(bytes@.subrange(from as int, to as int))->0;
            assert(mac.address =~= expected.address);
        }
        Some(mac)
    }

    /// Whether two addresses are the same six bytes.
    pub fn same(&self, other: &MacAddress) -> (same: bool)
        ensures
            same == (*self == *other),
    {
        let same = self.address[0] == other.address[0] && self.address[1] == other.address[1]
            && self.address[2] == other.address[2] && self.address[3] == other.address[3]
            && self.address[4] == other.address[4] && self.address[5] == other.address[5];
        assert(same == (self.address =~= other.address));
        same
    }
}

/// An address is read back from its six bytes as it was.
pub proof fn lemma_mac_round_trip(mac: MacAddress)
    ensures
        mac.spec_bytes().len() == 6,
        MacAddress::spec_from(mac.spec_bytes()) == mac,
{
    assert(MacAddress::spec_from(mac.spec_bytes()).address =~= mac.address);
}

/// The text of an address has seventeen bytes, all of them ASCII, none of them `#`.
pub proof fn lemma_mac_text(mac: MacAddress)
    ensures
        mac.spec_text().len() == 17,
        is_ascii_bytes(mac.spec_text()),
        free_of(mac.spec_text(), 35),
{
    let text = mac.spec_text();
    lemma_hex_round_trip(mac.address[0]);
    lemma_hex_round_trip(mac.address[1]);
    lemma_hex_round_trip(mac.address[2]);
    lemma_hex_round_trip(mac.address[3]);
    lemma_hex_round_trip(mac.address[4]);
    lemma_hex_round_trip(mac.address[5]);
    assert forall|i: int| 0 <= i < text.len() implies (#[trigger] text[i]) < 128 && text[i]
        != 35 by {
        let k = i / 3;
        if i % 3 == 2 {
            assert(text[i] == 58);
        } else {
            assert(text[i] == spec_hex_byte(mac.address[k])[i % 3]);
        }
    }
}

/// The text of an address is read back as the address.
pub proof fn lemma_mac_text_round_trip(mac: MacAddress)
    ensures
        mac.spec_text().len() == 17,
        MacAddress::spec_parse(mac.spec_text()) == Some(mac),
{
    let h0 = spec_hex_byte(mac.address[0]);
    let h1 = spec_hex_byte(mac.address[1]);
    let h2 = spec_hex_byte(mac.address[2]);
    let h3 = spec_hex_byte(mac.address[3]);
    let h4 = spec_hex_byte(mac.address[4]);
    let h5 = spec_hex_byte(mac.address[5]);
    lemma_hex_round_trip(mac.address[0]);
    lemma_hex_round_trip(mac.address[1]);
    lemma_hex_round_trip(mac.address[2]);
    lemma_hex_round_trip(mac.address[3]);
    lemma_hex_round_trip(mac.address[4]);
    lemma_hex_round_trip(mac.address[5]);
    let r5 = h5;
    let r4 = h4 + seq![58u8] + r5;
    let r3 = h3 + seq![58u8] + r4;
    let r2 = h2 + seq![58u8] + r3;
    let r1 = h1 + seq![58u8] + r2;
    let text = mac.spec_text();
    assert(text =~= h0 + seq![58u8] + r1);
    lemma_split_one(r5, 58);
    lemma_split_more(h4, 58, r5);
    lemma_split_more(h3, 58, r4);
    lemma_split_more(h2, 58, r3);
    lemma_split_more(h1, 58, r2);
    lemma_split_more(h0, 58, r1);
    let groups = split(text, 58);
    assert(groups =~= seq![h0, h1, h2, h3, h4, h5]);
    let parsed = MacAddress::spec_parse(text);
    assert(parsed is Some);
    assert(parsed->0.address =~= mac.address);
}

/// Only the text of an address is read as that address: reading is the inverse of
/// writing, and of nothing else.
pub proof fn lemma_mac_parse_is_inverse(text: Seq<u8>, mac: MacAddress)
    requires
        MacAddress::spec_parse(text) == Some(mac),
    ensures
        text == mac.spec_text(),
        text.len() == 17,
{
    lemma_mac_text(mac);
    let groups = split(text, 58);
    lemma_split_first(text, 58);
    let r1 = text.subrange(groups[0].len() as int + 1, text.len() as int);
    lemma_split_first(r1, 58);
    let r2 = r1.subrange(groups[1].len() as int + 1, r1.len() as int);
    lemma_split_first(r2, 58);
    let r3 = r2.subrange(groups[2].len() as int + 1, r2.len() as int);
    lemma_split_first(r3, 58);
    let r4 = r3.subrange(groups[3].len() as int + 1, r3.len() as int);
    lemma_split_first(r4, 58);
    let r5 = r4.subrange(groups[4].len() as int + 1, r4.len() as int);
    lemma_split_first(r5, 58);
    assert(split(r1, 58) == groups.drop_first());
    assert(split(r2, 58) == groups.drop_first().drop_first());
    assert(split(r3, 58) == groups.drop_first().drop_first().drop_first());
    assert(split(r4, 58) == groups.drop_first().drop_first().drop_first().drop_first());
    assert(split(r5, 58) == groups.drop_first().drop_first().drop_first().drop_first()
        .drop_first());
    assert(r5 == groups[5]);
    lemma_hex_round_trip(mac.address[0]);
    lemma_hex_round_trip(mac.address[1]);
    lemma_hex_round_trip(mac.address[2]);
    lemma_hex_round_trip(mac.address[3]);
    lemma_hex_round_trip(mac.address[4]);
    lemma_hex_round_trip(mac.address[5]);
    assert(spec_hex_u8(groups[0]) == Some(mac.address[0]));
    assert(spec_hex_u8(groups[1]) == Some(mac.address[1]));
    assert(spec_hex_u8(groups[2]) == Some(mac.address[2]));
    assert(spec_hex_u8(groups[3]) == Some(mac.address[3]));
    assert(spec_hex_u8(groups[4]) == Some(mac.address[4]));
    assert(spec_hex_u8(groups[5]) == Some(mac.address[5]));
    assert(text =~= mac.spec_text());
}

/// The six bytes of the address that stands for every device are zero.
pub proof fn lemma_broadcast_is_zero()
    ensures
        MacAddress::spec_broadcast().spec_bytes() == zeros(6),
{
    assert(MacAddress::spec_broadcast().spec_bytes() =~= zeros(6));
}

/// The second section of a packet header.
#[derive(Debug, Copy, Clone, PartialEq, Eq)]
pub struct FrameAddress {
    pub target: MacAddress,
    pub res_required: bool,
    pub ack_required: bool,
    pub sequence: u8,
}

impl FrameAddress {
    /// The byte that holds the two flags: response in bit 0, acknowledgement in bit 1.
    pub open spec fn flags(self) -> u8 {
        let res_required = if self.res_required { 1int } else { 0 };
        let ack_required = if self.ack_required { 2int } else { 0 };
        (res_required + ack_required) as u8
    }

    /// The sixteen bytes of the section: the address, eight zero bytes, the flags, the
    /// sequence number.
    pub open spec fn spec_bytes(self) -> Seq<u8> {
        self.target.spec_bytes() + zeros(8) + seq![self.flags(), self.sequence]
    }

    /// What sixteen bytes mean as a frame address. Bytes 6 to 13 and the six upper
    /// bits of byte 14 are not looked at.
    pub open spec fn spec_from(bytes: Seq<u8>) -> Result<FrameAddress, DecodeError> {
        if bytes.len() != 16 {
            Err(DecodeError::Truncated)
        } else {
            Ok(
                FrameAddress {
                    target: MacAddress::spec_from(bytes.subrange(0, 6)),
                    res_required: bytes[14] % 2 == 1,
                    ack_required: bytes[14] / 2 % 2 == 1,
                    sequence: bytes[15],
                },
            )
        }
    }

    pub fn as_bytes(&self) -> (bytes: Vec<u8>)
        ensures
            bytes@ == self.spec_bytes(),
    {
        let mut bytes: Vec<u8> = self.target.as_bytes();
        put_zeros(&mut bytes, 8);
        let mut flags: u8 = 0;
        if self.res_required {
            flags = flags + 1;
        }
        if self.ack_required {
            flags = flags + 2;
        }
        bytes.push(flags);
        bytes.push(self.sequence);
        assert(bytes@ =~= self.spec_bytes());
        bytes
    }

    /// Reads a frame address from exactly sixteen bytes.
    pub fn from(bytes: &[u8]) -> (frame_address: Result<FrameAddress, DecodeError>)
        ensures
            frame_address == FrameAddress::spec_from(bytes@),
    {
        if bytes.len() != 16 {
            return Err(DecodeError::Truncated);
        }
        let target = MacAddress {
            address: [bytes[0], bytes[1], bytes[2], bytes[3], bytes[4], bytes[5]],
        };
        assert(target.address =~= MacAddress::spec_from(bytes@.subrange(0, 6)).address);
        let flags: u8 = bytes[14];
        Ok(
            FrameAddress {
                target,
                res_required: flags % 2 == 1,
                ack_required: flags / 2 % 2 == 1,
                sequence: bytes[15],
            },
        )
    }
}

/// A frame address is read back from its bytes as it was.
pub proof fn lemma_frame_address_round_trip(frame_address: FrameAddress)
    ensures
        frame_address.spec_bytes().len() == 16,
        FrameAddress::spec_from(frame_address.spec_bytes()) == Ok::<FrameAddress, DecodeError>(
            frame_address,
        ),
{
    let b = frame_address.spec_bytes();
    lemma_mac_round_trip(frame_address.target);
    assert(b.subrange(0, 6) =~= frame_address.target.spec_bytes());
}

/// Bytes 6 to 13 of any encoded frame address are zero, and so are the six upper bits
/// of the flags.
pub proof fn lemma_frame_address_reserved(frame_address: FrameAddress)
    ensures
        frame_address.spec_bytes().len() == 16,
        forall|i: int| 6 <= i < 14 ==> frame_address.spec_bytes()[i] == 0,
        frame_address.spec_bytes()[14] / 4 == 0,
        frame_address.spec_bytes().subrange(0, 6) == frame_address.target.spec_bytes(),
        frame_address.spec_bytes()[15] == frame_address.sequence,
{
    let b = frame_address.spec_bytes();
    assert(b.subrange(0, 6) =~= frame_address.target.spec_bytes());
}

/// The kinds of message that any device understands.
#[derive(Debug, Clone, Copy, PartialEq, Eq, Structural, Hash)]
pub enum DeviceMessageType {
    GetService,
    StateService,
    GetHostInfo,
    StateHostInfo,
    GetHostFirmware,
    StateHostFirmware,
    GetWifiInfo,
    StateWifiInfo,
    GetWifiFirmware,
    StateWifiFirmware,
    GetPower,
    SetPower,
    StatePower,
    GetLabel,
    SetLabel,
    StateLabel,
    GetVersion,
    StateVersion,
    GetInfo,
    StateInfo,
    Acknowledgement,
    GetLocation,
    SetLocation,
    StateLocation,
    GetGroup,
    SetGroup,
    StateGroup,
    EchoRequest,
}

/// The kinds of message that lights understand.
#[derive(Debug, Clone, Copy, PartialEq, Eq, Structural, Hash)]
pub enum LightMessageType {
    Get,
    SetColor,
    SetWaveform,
    SetWaveformOptional,
    State,
    GetPower,
    SetPower,
    StatePower,
    GetInfrared,
    StateInfrared,
    SetInfrared,
}

/// The kind of a message: one of the kinds this library knows by name, or the bare
/// number of one it does not.
#[derive(Debug, Clone, Copy, PartialEq, Eq, Structural, Hash)]
pub enum MessageType {
    Device(DeviceMessageType),
    Light(LightMessageType),
    /// A number that stands for no named kind. A well-formed value never holds the
    /// number of a named kind here.
    Unknown(u16),
}

impl DeviceMessageType {
    /// The number that the protocol gives this kind.
    pub open spec fn code(self) -> u16 {
        match self {
            DeviceMessageType::GetService => 2,
            DeviceMessageType::StateService => 3,
            DeviceMessageType::GetHostInfo => 12,
            DeviceMessageType::StateHostInfo => 13,
            DeviceMessageType::GetHostFirmware => 14,
            DeviceMessageType::StateHostFirmware => 15,
            DeviceMessageType::GetWifiInfo => 16,
            DeviceMessageType::StateWifiInfo => 17,
            DeviceMessageType::GetWifiFirmware => 18,
            DeviceMessageType::StateWifiFirmware => 19,
            DeviceMessageType::GetPower => 20,
            DeviceMessageType::SetPower => 21,
            DeviceMessageType::StatePower => 22,
            DeviceMessageType::GetLabel => 23,
            DeviceMessageType::SetLabel => 24,
            DeviceMessageType::StateLabel => 25,
            DeviceMessageType::GetVersion => 32,
            DeviceMessageType::StateVersion => 33,
            DeviceMessageType::GetInfo => 34,
            DeviceMessageType::StateInfo => 35,
            DeviceMessageType::Acknowledgement => 45,
            DeviceMessageType::GetLocation => 48,
            DeviceMessageType::SetLocation => 49,
            DeviceMessageType::StateLocation => 50,
            DeviceMessageType::GetGroup => 51,
            DeviceMessageType::SetGroup => 52,
            DeviceMessageType::StateGroup => 53,
            DeviceMessageType::EchoRequest => 59,
        }
    }
}

impl LightMessageType {
    /// The number that the protocol gives this kind.
    pub open spec fn code(self) -> u16 {
        match self {
            LightMessageType::Get => 101,
            LightMessageType::SetColor => 102,
            LightMessageType::SetWaveform => 103,
            LightMessageType::SetWaveformOptional => 119,
            LightMessageType::State => 107,
            LightMessageType::GetPower => 116,
            LightMessageType::SetPower => 117,
            LightMessageType::StatePower => 118,
            LightMessageType::GetInfrared => 120,
            LightMessageType::StateInfrared => 121,
            LightMessageType::SetInfrared => 122,
        }
    }
}

impl MessageType {
    /// The number that stands for this kind on the wire.
    pub open spec fn spec_value(self) -> u16 {
        match self {
            MessageType::Device(kind) => kind.code(),
            MessageType::Light(kind) => kind.code(),
            MessageType::Unknown(value) => value,
        }
    }

    /// The kind that a number on the wire stands for.
    pub open spec fn spec_from_value(value: u16) -> MessageType {
        if value == 2 {
            MessageType::Device(DeviceMessageType::GetService)
        } else if value == 3 {
            MessageType::Device(DeviceMessageType::StateService)
        } else if value == 12 {
            MessageType::Device(DeviceMessageType::GetHostInfo)
        } else if value == 13 {
            MessageType::Device(DeviceMessageType::StateHostInfo)
        } else if value == 14 {
            MessageType::Device(DeviceMessageType::GetHostFirmware)
        } else if value == 15 {
            MessageType::Device(DeviceMessageType::StateHostFirmware)
        } else if value == 16 {
            MessageType::Device(DeviceMessageType::GetWifiInfo)
        } else if value == 17 {
            MessageType::Device(DeviceMessageType::StateWifiInfo)
        } else if value == 18 {
            MessageType::Device(DeviceMessageType::GetWifiFirmware)
        } else if value == 19 {
            MessageType::Device(DeviceMessageType::StateWifiFirmware)
        } else if value == 20 {
            MessageType::Device(DeviceMessageType::GetPower)
        } else if value == 21 {
            MessageType::Device(DeviceMessageType::SetPower)
        } else if value == 22 {
            MessageType::Device(DeviceMessageType::StatePower)
        } else if value == 23 {
            MessageType::Device(DeviceMessageType::GetLabel)
        } else if value == 24 {
            MessageType::Device(DeviceMessageType::SetLabel)
        } else if value == 25 {
            MessageType::Device(DeviceMessageType::StateLabel)
        } else if value == 32 {
            MessageType::Device(DeviceMessageType::GetVersion)
        } else if value == 33 {
            MessageType::Device(DeviceMessageType::StateVersion)
        } else if value == 34 {
            MessageType::Device(DeviceMessageType::GetInfo)
        } else if value == 35 {
            MessageType::Device(DeviceMessageType::StateInfo)
        } else if value == 45 {
            MessageType::Device(DeviceMessageType::Acknowledgement)
        } else if value == 48 {
            MessageType::Device(DeviceMessageType::GetLocation)
        } else if value == 49 {
            MessageType::Device(DeviceMessageType::SetLocation)
        } else if value == 50 {
            MessageType::Device(DeviceMessageType::StateLocation)
        } else if value == 51 {
            MessageType::Device(DeviceMessageType::GetGroup)
        } else if value == 52 {
            MessageType::Device(DeviceMessageType::SetGroup)
        } else if value == 53 {
            MessageType::Device(DeviceMessageType::StateGroup)
        } else if value == 59 {
            MessageType::Device(DeviceMessageType::EchoRequest)
        } else if value == 101 {
            MessageType::Light(LightMessageType::Get)
        } else if value == 102 {
            MessageType::Light(LightMessageType::SetColor)
        } else if value == 103 {
            MessageType::Light(LightMessageType::SetWaveform)
        } else if value == 107 {
            MessageType::Light(LightMessageType::State)
        } else if value == 116 {
            MessageType::Light(LightMessageType::GetPower)
        } else if value == 117 {
            MessageType::Light(LightMessageType::SetPower)
        } else if value == 118 {
            MessageType::Light(LightMessageType::StatePower)
        } else if value == 119 {
            MessageType::Light(LightMessageType::SetWaveformOptional)
        } else if value == 120 {
            MessageType::Light(LightMessageType::GetInfrared)
        } else if value == 121 {
            MessageType::Light(LightMessageType::StateInfrared)
        } else if value == 122 {
            MessageType::Light(LightMessageType::SetInfrared)
        } else {
            MessageType::Unknown(value)
        }
    }

    /// A bare number is kept only where no named kind has it.
    pub open spec fn wf(self) -> bool {
        match self {
            MessageType::Unknown(value) => MessageType::spec_from_value(value) is Unknown,
            _ => true,
        }
    }

    /// The kind that `value` stands for. Numbers that the protocol gives no meaning
    /// known here are kept as they are.
    pub fn from_value(value: u16) -> (message_type: MessageType)
        ensures
            message_type == MessageType::spec_from_value(value),
            message_type.wf(),
            message_type.spec_value() == value,
    {
        match value {
            2 => MessageType::Device(DeviceMessageType::GetService),
            3 => MessageType::Device(DeviceMessageType::StateService),
            12 => MessageType::Device(DeviceMessageType::GetHostInfo),
            13 => MessageType::Device(DeviceMessageType::StateHostInfo),
            14 => MessageType::Device(DeviceMessageType::GetHostFirmware),
            15 => MessageType::Device(DeviceMessageType::StateHostFirmware),
            16 => MessageType::Device(DeviceMessageType::GetWifiInfo),
            17 => MessageType::Device(DeviceMessageType::StateWifiInfo),
            18 => MessageType::Device(DeviceMessageType::GetWifiFirmware),
            19 => MessageType::Device(DeviceMessageType::StateWifiFirmware),
            20 => MessageType::Device(DeviceMessageType::GetPower),
            21 => MessageType::Device(DeviceMessageType::SetPower),
            22 => MessageType::Device(DeviceMessageType::StatePower),
            23 => MessageType::Device(DeviceMessageType::GetLabel),
            24 => MessageType::Device(DeviceMessageType::SetLabel),
            25 => MessageType::Device(DeviceMessageType::StateLabel),
            32 => MessageType::Device(DeviceMessageType::GetVersion),
            33 => MessageType::Device(DeviceMessageType::StateVersion),
            34 => MessageType::Device(DeviceMessageType::GetInfo),
            35 => MessageType::Device(DeviceMessageType::StateInfo),
            45 => MessageType::Device(DeviceMessageType::Acknowledgement),
            48 => MessageType::Device(DeviceMessageType::GetLocation),
            49 => MessageType::Device(DeviceMessageType::SetLocation),
            50 => MessageType::Device(DeviceMessageType::StateLocation),
            51 => MessageType::Device(DeviceMessageType::GetGroup),
            52 => MessageType::Device(DeviceMessageType::SetGroup),
            53 => MessageType::Device(DeviceMessageType::StateGroup),
            59 => MessageType::Device(DeviceMessageType::EchoRequest),
            101 => MessageType::Light(LightMessageType::Get),
            102 => MessageType::Light(LightMessageType::SetColor),
            103 => MessageType::Light(LightMessageType::SetWaveform),
            119 => MessageType::Light(LightMessageType::SetWaveformOptional),
            107 => MessageType::Light(LightMessageType::State),
            116 => MessageType::Light(LightMessageType::GetPower),
            117 => MessageType::Light(LightMessageType::SetPower),
            118 => MessageType::Light(LightMessageType::StatePower),
            120 => MessageType::Light(LightMessageType::GetInfrared),
            121 => MessageType::Light(LightMessageType::StateInfrared),
            122 => MessageType::Light(LightMessageType::SetInfrared),
            _ => MessageType::Unknown(value),
        }
    }

    /// The number that stands for this kind on the wire.
    pub fn value(&self) -> (value: u16)
        ensures
            value == self.spec_value(),
    {
        match self {
            MessageType::Device(device_message_type) => match *device_message_type {
                DeviceMessageType::GetService => 2,
                DeviceMessageType::StateService => 3,
                DeviceMessageType::GetHostInfo => 12,
                DeviceMessageType::StateHostInfo => 13,
                DeviceMessageType::GetHostFirmware => 14,
                DeviceMessageType::StateHostFirmware => 15,
                DeviceMessageType::GetWifiInfo => 16,
                DeviceMessageType::StateWifiInfo => 17,
                DeviceMessageType::GetWifiFirmware => 18,
                DeviceMessageType::StateWifiFirmware => 19,
                DeviceMessageType::GetPower => 20,
                DeviceMessageType::SetPower => 21,
                DeviceMessageType::StatePower => 22,
                DeviceMessageType::GetLabel => 23,
                DeviceMessageType::SetLabel => 24,
                DeviceMessageType::StateLabel => 25,
                DeviceMessageType::GetVersion => 32,
                DeviceMessageType::StateVersion => 33,
                DeviceMessageType::GetInfo => 34,
                DeviceMessageType::StateInfo => 35,
                DeviceMessageType::Acknowledgement => 45,
                DeviceMessageType::GetLocation => 48,
                DeviceMessageType::SetLocation => 49,
                DeviceMessageType::StateLocation => 50,
                DeviceMessageType::GetGroup => 51,
                DeviceMessageType::SetGroup => 52,
                DeviceMessageType::StateGroup => 53,
                DeviceMessageType::EchoRequest => 59,
            },
            MessageType::Light(light_message_type) => match *light_message_type {
                LightMessageType::Get => 101,
                LightMessageType::SetColor => 102,
                LightMessageType::SetWaveform => 103,
                LightMessageType::SetWaveformOptional => 119,
                LightMessageType::State => 107,
                LightMessageType::GetPower => 116,
                LightMessageType::SetPower => 117,
                LightMessageType::StatePower => 118,
                LightMessageType::GetInfrared => 120,
                LightMessageType::StateInfrared => 121,
                LightMessageType::SetInfrared => 122,
            },
            MessageType::Unknown(value) => *value,
        }
    }

    /// Whether the value is well formed.
    pub fn is_wf(&self) -> (wf: bool)
        ensures
            wf == self.wf(),
    {
        match self {
            MessageType::Unknown(value) => match MessageType::from_value(*value) {
                MessageType::Unknown(_) => true,
                _ => false,
            },
            _ => true,
        }
    }
}

/// Every number stands for exactly one well-formed kind, and the number of that kind is
/// the number again.
pub proof fn lemma_message_type_of_value(value: u16)
    ensures
        MessageType::spec_from_value(value).wf(),
        MessageType::spec_from_value(value).spec_value() == value,
{
}

/// A well-formed kind is found again from its number.
pub proof fn lemma_message_type_round_trip(message_type: MessageType)
    requires
        message_type.wf(),
    ensures
        MessageType::spec_from_value(message_type.spec_value()) == message_type,
{
}

/// The third section of a packet header.
#[derive(Debug, Copy, Clone, PartialEq, Eq, Structural)]
pub struct ProtocolHeader {
    pub message_type: MessageType,
}

impl ProtocolHeader {
    /// The twelve bytes of the section: eight zero bytes, the number of the message
    /// type, two zero bytes.
    pub open spec fn spec_bytes(self) -> Seq<u8> {
        zeros(8) + le16(self.message_type.spec_value()) + zeros(2)
    }

    /// What twelve bytes mean as a protocol header. Only bytes 8 and 9 are looked at.
    pub open spec fn spec_from(bytes: Seq<u8>) -> Result<ProtocolHeader, DecodeError> {
        if bytes.len() != 12 {
            Err(DecodeError::Truncated)
        } else {
            Ok(
                ProtocolHeader {
                    message_type: MessageType::spec_from_value(from_le16(bytes.subrange(8, 10))),
                },
            )
        }
    }

    pub fn as_bytes(&self) -> (bytes: Vec<u8>)
        ensures
            bytes@ == self.spec_bytes(),
    {
        let mut bytes: Vec<u8> = Vec::new();
        put_zeros(&mut bytes, 8);
        put_u16(&mut bytes, self.message_type.value());
        put_zeros(&mut bytes, 2);
        bytes
    }

    /// Reads a protocol header from exactly twelve bytes.
    pub fn from(bytes: &[u8]) -> (protocol_header: Result<ProtocolHeader, DecodeError>)
        ensures
            protocol_header == ProtocolHeader::spec_from(bytes@),
            protocol_header is Ok ==> protocol_header->Ok_0.message_type.wf(),
    {
        if bytes.len() != 12 {
            return Err(DecodeError::Truncated);
        }
        let message_value: u16 = get_u16(bytes, 8);
        Ok(ProtocolHeader { message_type: MessageType::from_value(message_value) })
    }
}

/// A protocol header with a well-formed message type is read back from its bytes as it
/// was.
pub proof fn lemma_protocol_header_round_trip(protocol_header: ProtocolHeader)
    requires
        protocol_header.message_type.wf(),
    ensures
        protocol_header.spec_bytes().len() == 12,
        ProtocolHeader::spec_from(protocol_header.spec_bytes()) == Ok::<
            ProtocolHeader,
            DecodeError,
        >(protocol_header),
{
    let b = protocol_header.spec_bytes();
    assert(b.subrange(8, 10) =~= le16(protocol_header.message_type.spec_value()));
}

/// All bytes of an encoded protocol header but the two of the message type are zero.
pub proof fn lemma_protocol_header_reserved(protocol_header: ProtocolHeader)
    ensures
        protocol_header.spec_bytes().len() == 12,
        forall|i: int| 0 <= i < 8 ==> protocol_header.spec_bytes()[i] == 0,
        protocol_header.spec_bytes()[10] == 0,
        protocol_header.spec_bytes()[11] == 0,
        from_le16(protocol_header.spec_bytes().subrange(8, 10))
            == protocol_header.message_type.spec_value(),
{
    let b = protocol_header.spec_bytes();
    assert(b.subrange(8, 10) =~= le16(protocol_header.message_type.spec_value()));
}

} // verus!
